//! What holds of every commit that is applied, whatever is answered along the way.

use vstd::prelude::*;

use std::sync::Arc;

use crate::extension::{
    Extension, ExtensionList, ExternalSendersExt, RequiredCapabilitiesExt,
};
use crate::group::proposal::{
    AddProposal, BorrowedProposal, CustomProposal, ExternalInit, PreSharedKeyProposal,
    ProposalInfo, ProposalType, ReInitProposal, RemoveProposal, UpdateProposal,
};
use crate::group::proposal_filter::bundle::{
    custom_types, is_part_of, is_subsequence, part_of_itself, part_of_part, picks, type_if_any,
    types_in, without_group_context_extensions, BundleView,
};
use crate::group::proposal_filter::error::ProposalFilterError;
use crate::group::proposal_filter::external_commit::{
    allowed_in_external_commit, first_disallowed, holds_by_ref, only_allowed_types,
};
use crate::group::proposal_filter::filtering::{
    custom_verdicts, extra_extensions_verdicts, first_unsupported, lone_reinit_verdicts,
    no_external_init_verdicts, only_reinit, proposer_verdicts, proposers_filtered,
    reinit_version_verdicts, self_removal_verdicts, self_update_verdicts, usable_senders,
};
use crate::group::proposal_filter::laws::{
    all_senders_valid, early_filters_establish_rules, filtered_psks_are_valid,
    late_filters_establish_rules, late_member_rules, late_member_rules_of_part, member_rules,
    member_rules_of_part, part_is_no_longer, proposers_filtered_are_valid, psks_valid,
    psks_valid_of_part,
};
use crate::group::proposal_filter::leaf_conflicts::{removal_verdicts, update_verdicts};
use crate::group::proposal_filter::outcome::{
    after_self_removal, applied, changed, changed_and_concluded, edit_answer,
    external_senders_answers, external_senders_verdicts, first_failure, governing,
    group_extensions_supported, key_package_answers, key_package_verdicts, leaf_check_answers,
    member_filtered_early, member_filtered_late, no_failure_is_success_of_all, psk_answers,
    supported_by_all, tree_changed, update_leaf_answers, update_node_verdicts,
    update_sender_verdicts, Committer, Governing, ProposalApplier, Replies, TreeReplies,
};
use crate::group::proposal_filter::psk::psk_verdicts;
use crate::group::proposal_filter::screening::{
    all_flagged_selects_all, failing_strategy_drops_nothing, nothing_wrong, screened,
    screening_keeps_valid, selection_keeps_order,
};
use crate::group::proposal_filter::state::{
    after_edit, custom_filtered, edits_ignored, outside, without, EditsView, StateView,
};
use crate::group::proposal_filter::strategy::{borrowed_info, FailInvalidProposal, FilterStrategy};
use crate::group::sender::Sender;
use crate::tree_kem::{
    all_support_extension, all_support_proposal, members, occupied, LeafIndex, LeafNode,
};

verus! {

/// Every custom proposal that is left is of a type that all members support.
pub open spec fn custom_proposals_supported(state: StateView) -> bool {
    forall|i: int|
        0 <= i < state.proposals.custom_proposals.len() ==> all_support_proposal(
            state.tree,
            (#[trigger] state.proposals.custom_proposals[i]).proposal.proposal_type,
        )
}

/// All members support these extensions.
pub open spec fn extensions_supported(
    extensions: Seq<Extension>,
    tree: Seq<Option<Arc<LeafNode>>>,
) -> bool {
    forall|i: int|
        0 <= i < extensions.len() ==> (#[trigger] extensions[i]).is_default
            || all_support_extension(tree, extensions[i].extension_type)
}

/// All members support the new extensions, if there are any.
pub open spec fn new_extensions_supported(state: StateView) -> bool {
    state.proposals.group_context_extensions.len() > 0 ==> extensions_supported(
        state.proposals.group_context_extensions[0].proposal@,
        state.tree,
    )
}

/// If there are new extensions, the capabilities that they require are known, and each
/// member was asked about them and has them.
pub open spec fn new_capabilities_held<E>(state: StateView, replies: Replies<E>) -> bool {
    state.proposals.group_context_extensions.len() > 0 ==> {
        let list = state.proposals.group_context_extensions[0].proposal;
        &&& (replies.required_capabilities)(list) matches Ok(capabilities)
        &&& capabilities matches Some(required) ==> forall|i: int|
            #![trigger members(state.tree)[i]]
            0 <= i < members(state.tree).len() ==> (replies.leaf_checks)(
                i,
                members(state.tree)[i],
                required,
            ) is Ok
    }
}

proof fn lemma_capabilities_held<E>(
    state: StateView,
    required: RequiredCapabilitiesExt,
    replies: Replies<E>,
)
    requires
        first_failure(leaf_check_answers(replies, state.tree, Some(required)), 0) is None,
    ensures
        forall|i: int|
            #![trigger members(state.tree)[i]]
            0 <= i < members(state.tree).len() ==> (replies.leaf_checks)(
                i,
                members(state.tree)[i],
                required,
            ) is Ok,
{
    let answers = leaf_check_answers(replies, state.tree, Some(required));
    no_failure_is_success_of_all(answers, 0);
    assert forall|i: int|
        #![trigger members(state.tree)[i]]
        0 <= i < members(state.tree).len() implies (replies.leaf_checks)(
        i,
        members(state.tree)[i],
        required,
    ) is Ok by {
        assert(answers[i] is Ok);
    }
}

proof fn lemma_none_unsupported(
    extensions: Seq<Extension>,
    tree: Seq<Option<Arc<LeafNode>>>,
    from: int,
)
    requires
        0 <= from <= extensions.len(),
        first_unsupported(extensions, supported_by_all(tree), from) is None,
    ensures
        forall|i: int|
            from <= i < extensions.len() ==> (#[trigger] extensions[i]).is_default
                || all_support_extension(tree, extensions[i].extension_type),
    decreases extensions.len() - from,
{
    if from < extensions.len() {
        lemma_none_unsupported(extensions, tree, from + 1);
        assert forall|i: int| from <= i < extensions.len() implies (
        #[trigger] extensions[i]).is_default || all_support_extension(
            tree,
            extensions[i].extension_type,
        ) by {
            if i == from && !extensions[from].is_default {
                assert(supported_by_all(tree)(extensions[from].extension_type));
            }
        }
    }
}

proof fn lemma_without<T>(items: Seq<T>, set: Set<usize>)
    ensures
        is_subsequence(without(items, set), items),
{
    selection_keeps_order(items, outside(set, items.len()), items.len() as int);
}

/// Editing the tree drops proposals, and adds none.
pub proof fn edit_leaves_part(
    bundle: BundleView,
    tree: Seq<Option<Arc<LeafNode>>>,
    edits: EditsView,
)
    ensures
        is_part_of(after_edit(bundle, tree, edits).proposals, bundle),
{
    part_of_itself(bundle);
    lemma_without(bundle.additions, edits.invalid_additions);
    lemma_without(bundle.removals, edits.invalid_removals);
    lemma_without(bundle.updates, edits.invalid_updates);
}

/// Changes to the tree drop proposals, and add none.
pub proof fn tree_changes_leave_part<F: FilterStrategy, E>(
    strategy: F,
    bundle: BundleView,
    extensions: Seq<Extension>,
    replies: TreeReplies<E>,
)
    ensures
        tree_changed::<F, E>(strategy, bundle, extensions, replies) matches Ok(state)
            ==> is_part_of(state.proposals, bundle),
{
    let updates = update_node_verdicts(
        bundle.updates,
        extensions,
        update_leaf_answers(replies, bundle.updates),
    );
    screening_keeps_valid::<F, UpdateProposal, E>(strategy, bundle, updates);
    if let Ok(b1) = screened::<F, UpdateProposal, E>(strategy, bundle, updates) {
        let packages = key_package_verdicts(
            b1.additions,
            extensions,
            key_package_answers(replies, b1.additions),
        );
        screening_keeps_valid::<F, AddProposal, E>(strategy, b1, packages);
        if let Ok(b2) = screened::<F, AddProposal, E>(strategy, b1, packages) {
            part_of_part(b2, b1, bundle);
            let senders = update_sender_verdicts::<E>(b2.updates);
            screening_keeps_valid::<F, UpdateProposal, E>(strategy, b2, senders);
            if let Ok(b3) = screened::<F, UpdateProposal, E>(strategy, b2, senders) {
                part_of_part(b3, b2, bundle);
                if let Ok((tree, edits)) = edit_answer(replies, b3) {
                    edit_leaves_part(b3, tree, edits);
                    part_of_part(after_edit(b3, tree, edits).proposals, b3, bundle);
                }
            }
        }
    }
}

proof fn lemma_cleared_is_part(bundle: BundleView)
    ensures
        is_part_of(without_group_context_extensions(bundle), bundle),
{
    part_of_itself(bundle);
    let none = Seq::<Arc<ProposalInfo<ExtensionList>>>::empty();
    assert(picks(none, bundle.group_context_extensions, Seq::<int>::empty()));
}

/// The changes that the proposals ask for drop proposals, and add none; and if new
/// extensions are left, all members of the changed tree support them, and were found to have
/// the capabilities that they require.
pub proof fn changes_leave_supported_part<F: FilterStrategy, E>(
    applier: ProposalApplier<E>,
    strategy: F,
    bundle: BundleView,
    replies: Replies<E>,
)
    requires
        bundle.group_context_extensions.len() <= 1,
    ensures
        changed::<F, E>(applier, strategy, bundle, replies) matches Ok(state) ==> {
            &&& is_part_of(state.proposals, bundle)
            &&& new_extensions_supported(state)
            &&& new_capabilities_held(state, replies)
        },
{
    let cleared = without_group_context_extensions(bundle);
    lemma_cleared_is_part(bundle);
    let original = tree_changed::<F, E>(
        strategy,
        cleared,
        applier.original_group_extensions@,
        replies.original,
    );
    tree_changes_leave_part::<F, E>(
        strategy,
        cleared,
        applier.original_group_extensions@,
        replies.original,
    );
    if let Ok(state) = original {
        part_of_part(state.proposals, cleared, bundle);
        part_is_no_longer(
            state.proposals.group_context_extensions,
            cleared.group_context_extensions,
        );
    }
    tree_changes_leave_part::<F, E>(strategy, bundle, seq![], replies.trial);
    let required = (replies.required_capabilities)(bundle.group_context_extensions[0].proposal);
    if bundle.group_context_extensions.len() > 0 && required is Ok {
        let capabilities = required->Ok_0;
        if let Ok(state) = tree_changed::<F, E>(strategy, bundle, seq![], replies.trial) {
            let extensions = bundle.group_context_extensions[0].proposal@;
            lemma_cleared_is_part(state.proposals);
            part_of_part(
                without_group_context_extensions(state.proposals),
                state.proposals,
                bundle,
            );
            if group_extensions_supported(
                extensions,
                capabilities,
                state.tree,
                leaf_check_answers(replies, state.tree, capabilities),
            ) is Ok {
                lemma_none_unsupported(extensions, state.tree, 0);
                if let Some(required) = capabilities {
                    lemma_capabilities_held(state, required, replies);
                }
                if state.proposals.group_context_extensions.len() > 0 {
                    let p = choose|p: Seq<int>|
                        picks(
                            state.proposals.group_context_extensions,
                            bundle.group_context_extensions,
                            p,
                        );
                    assert(0 <= p[0] < bundle.group_context_extensions.len());
                    assert(state.proposals.group_context_extensions[0]
                        == bundle.group_context_extensions[0]);
                }
            }
        }
    }
}

/// The last filter leaves the tree alone, drops only custom proposals, and leaves only
/// those that all members support.
pub proof fn custom_filter_leaves_supported<F: FilterStrategy, E>(strategy: F, state: StateView)
    ensures
        custom_filtered::<F, E>(strategy, state) matches Ok(s) ==> {
            &&& is_part_of(s.proposals, state.proposals)
            &&& s == (StateView { proposals: s.proposals, ..state })
            &&& s.proposals == (BundleView {
                custom_proposals: s.proposals.custom_proposals,
                ..state.proposals
            })
            &&& custom_proposals_supported(s)
        },
{
    let verdicts = custom_verdicts::<E>(state.tree, state.proposals.custom_proposals);
    let p = screening_keeps_valid::<F, CustomProposal, E>(strategy, state.proposals, verdicts);
    if let Ok(s) = custom_filtered::<F, E>(strategy, state) {
        assert forall|i: int|
            0 <= i < s.proposals.custom_proposals.len() implies all_support_proposal(
            s.tree,
            (#[trigger] s.proposals.custom_proposals[i]).proposal.proposal_type,
        ) by {
            assert(nothing_wrong(verdicts[p[i]]));
        }
    }
}

/// A member's commit that is applied: what is left of its proposals is part of what
/// there was, keeps all the rules, and is supported by all members of the new tree; a change
/// of extensions is left only if each of them was found to have the capabilities that it
/// requires.
pub proof fn member_commits_keep_the_rules<F: FilterStrategy, E>(
    applier: ProposalApplier<E>,
    strategy: F,
    committer: LeafIndex,
    bundle: BundleView,
    replies: Replies<E>,
)
    ensures
        applied::<F, E>(
            applier,
            strategy,
            Sender::Member(committer.0),
            bundle,
            replies,
        ) matches Ok(state) ==> {
            &&& is_part_of(state.proposals, bundle)
            &&& member_rules(state.proposals, applier, committer)
            &&& psks_valid(state.proposals, applier.kdf_extract_size)
            &&& late_member_rules(state.proposals, applier)
            &&& new_extensions_supported(state)
            &&& new_capabilities_held(state, replies)
            &&& custom_proposals_supported(state)
            &&& state.external_leaf_index is None
        },
{
    let c = Committer::Member(committer);
    let g = governing(&strategy, c);
    early_filters_establish_rules::<F, E>(applier, strategy, committer, bundle);
    if let Ok(b1) = member_filtered_early::<F, E>(applier, strategy, committer, bundle) {
        filtered_psks_are_valid::<Governing<'_, F>, E>(
            g,
            b1,
            applier.kdf_extract_size,
            psk_answers(replies, b1.psks),
        );
        let psks = psk_verdicts(
            b1.psks,
            applier.kdf_extract_size,
            psk_answers(replies, b1.psks),
        );
        if let Ok(b2) = screened::<Governing<'_, F>, PreSharedKeyProposal, E>(g, b1, psks) {
            part_of_part(b2, b1, bundle);
            let senders = external_senders_verdicts(
                b2.group_context_extensions,
                external_senders_answers(replies, b2.group_context_extensions),
            );
            screening_keeps_valid::<F, ExtensionList, E>(strategy, b2, senders);
            if let Ok(b3) = screened::<F, ExtensionList, E>(strategy, b2, senders) {
                part_of_part(b3, b2, bundle);
                part_of_part(b3, b2, b1);
                late_filters_establish_rules::<F, E>(applier, strategy, committer, b3);
                if let Ok(b4) = member_filtered_late::<F, E>(applier, strategy, committer, b3) {
                    part_of_part(b4, b3, bundle);
                    part_of_part(b4, b3, b2);
                    part_of_part(b4, b3, b1);
                    changes_leave_supported_part::<Governing<'_, F>, E>(applier, g, b4, replies);
                    if let Ok(changed_state) = changed::<Governing<'_, F>, E>(
                        applier,
                        g,
                        b4,
                        replies,
                    ) {
                        custom_filter_leaves_supported::<F, E>(strategy, changed_state);
                        if let Ok(state) = custom_filtered::<F, E>(strategy, changed_state) {
                            lemma_no_external_leaf::<Governing<'_, F>, E>(
                                applier,
                                g,
                                b4,
                                replies,
                            );
                            part_of_part(state.proposals, changed_state.proposals, b4);
                            part_of_part(state.proposals, b4, bundle);
                            part_of_part(state.proposals, b4, b2);
                            part_of_part(state.proposals, b4, b1);
                            member_rules_of_part(state.proposals, b1, applier, committer);
                            psks_valid_of_part(state.proposals, b2, applier.kdf_extract_size);
                            late_member_rules_of_part(state.proposals, b4, applier);
                        }
                    }
                }
            }
        }
    }
}

proof fn lemma_no_external_leaf<F: FilterStrategy, E>(
    applier: ProposalApplier<E>,
    strategy: F,
    bundle: BundleView,
    replies: Replies<E>,
)
    ensures
        changed::<F, E>(applier, strategy, bundle, replies) matches Ok(state)
            ==> state.external_leaf_index is None,
{
}

// ---------------------------------------------------------------------------
// Strategies that ignore nothing
// ---------------------------------------------------------------------------

/// The strategy ignores no proposal.
pub open spec fn ignores_nothing<F: FilterStrategy>(strategy: F) -> bool {
    forall|p: ProposalInfo<BorrowedProposal<'_>>| !(#[trigger] strategy.ignores(p))
}

/// Every change of the tree that is reported as impossible belongs to a proposal that the
/// strategy ignores; at any other the edit stops. An edit that heeds its accumulator is such.
pub open spec fn impossible_ignored<F: FilterStrategy, E>(
    strategy: F,
    replies: TreeReplies<E>,
) -> bool {
    forall|bundle: BundleView|
        #[trigger]
        edit_answer(replies, bundle) matches Ok((tree, edits)) ==> edits_ignored(
            strategy,
            edits,
            bundle,
        )
}

pub(crate) proof fn lemma_without_nothing<T>(items: Seq<T>)
    ensures
        without(items, Set::<usize>::empty()) == items,
{
    let none = Set::<usize>::empty();
    all_flagged_selects_all(items, outside(none, items.len()), items.len() as int);
    assert(items.take(items.len() as int) =~= items);
}

/// Where the strategy ignores nothing, all changes were made.
proof fn lemma_all_made<F: FilterStrategy, E>(
    strategy: F,
    bundle: BundleView,
    replies: TreeReplies<E>,
)
    requires
        ignores_nothing(strategy),
        impossible_ignored(strategy, replies),
    ensures
        edit_answer(replies, bundle) matches Ok((tree, edits)) ==> after_edit(
            bundle,
            tree,
            edits,
        ).proposals == bundle,
{
    if let Ok((tree, edits)) = edit_answer(replies, bundle) {
        let none = Set::<usize>::empty();
        assert(edits.invalid_additions =~= none);
        assert(edits.invalid_removals =~= none);
        assert(edits.invalid_updates =~= none);
        lemma_without_nothing(bundle.additions);
        lemma_without_nothing(bundle.removals);
        lemma_without_nothing(bundle.updates);
    }
}

pub(crate) proof fn lemma_proposers_stay<F: FilterStrategy, E>(
    strategy: F,
    tree: Seq<Option<Arc<LeafNode>>>,
    senders: Option<ExternalSendersExt>,
    bundle: BundleView,
)
    requires
        ignores_nothing(strategy),
    ensures
        proposers_filtered::<F, E>(strategy, tree, senders, bundle) matches Ok(b) ==> b == bundle,
{
    failing_strategy_drops_nothing::<F, AddProposal, E>(
        strategy,
        bundle,
        proposer_verdicts::<AddProposal, E>(tree, senders, bundle.additions),
    );
    failing_strategy_drops_nothing::<F, UpdateProposal, E>(
        strategy,
        bundle,
        proposer_verdicts::<UpdateProposal, E>(tree, senders, bundle.updates),
    );
    failing_strategy_drops_nothing::<F, RemoveProposal, E>(
        strategy,
        bundle,
        proposer_verdicts::<RemoveProposal, E>(tree, senders, bundle.removals),
    );
    failing_strategy_drops_nothing::<F, PreSharedKeyProposal, E>(
        strategy,
        bundle,
        proposer_verdicts::<PreSharedKeyProposal, E>(tree, senders, bundle.psks),
    );
    failing_strategy_drops_nothing::<F, ReInitProposal, E>(
        strategy,
        bundle,
        proposer_verdicts::<ReInitProposal, E>(tree, senders, bundle.reinitializations),
    );
    failing_strategy_drops_nothing::<F, ExternalInit, E>(
        strategy,
        bundle,
        proposer_verdicts::<ExternalInit, E>(tree, senders, bundle.external_initializations),
    );
    failing_strategy_drops_nothing::<F, ExtensionList, E>(
        strategy,
        bundle,
        proposer_verdicts::<ExtensionList, E>(tree, senders, bundle.group_context_extensions),
    );
}

/// Under a strategy that ignores nothing, the tree is edited by all proposals.
pub proof fn strict_tree_changes_make_all<F: FilterStrategy, E>(
    strategy: F,
    bundle: BundleView,
    extensions: Seq<Extension>,
    replies: TreeReplies<E>,
)
    requires
        ignores_nothing(strategy),
    ensures
        tree_changed::<F, E>(strategy, bundle, extensions, replies) matches Ok(state)
            ==> edit_answer(replies, bundle) matches Ok((tree, edits)) && state == after_edit(
            bundle,
            tree,
            edits,
        ),
{
    failing_strategy_drops_nothing::<F, UpdateProposal, E>(
        strategy,
        bundle,
        update_node_verdicts(
            bundle.updates,
            extensions,
            update_leaf_answers(replies, bundle.updates),
        ),
    );
    failing_strategy_drops_nothing::<F, AddProposal, E>(
        strategy,
        bundle,
        key_package_verdicts(
            bundle.additions,
            extensions,
            key_package_answers(replies, bundle.additions),
        ),
    );
    failing_strategy_drops_nothing::<F, UpdateProposal, E>(
        strategy,
        bundle,
        update_sender_verdicts::<E>(bundle.updates),
    );
}

proof fn lemma_strict_filters<F: FilterStrategy, E>(
    applier: ProposalApplier<E>,
    strategy: F,
    committer: LeafIndex,
    bundle: BundleView,
)
    requires
        ignores_nothing(strategy),
    ensures
        member_filtered_early::<F, E>(applier, strategy, committer, bundle) matches Ok(b)
            ==> b == bundle,
        member_filtered_late::<F, E>(applier, strategy, committer, bundle) matches Ok(b)
            ==> b == bundle,
{
    lemma_proposers_stay::<F, E>(
        strategy,
        applier.original_tree@,
        usable_senders(applier.external_senders),
        bundle,
    );
    failing_strategy_drops_nothing::<F, UpdateProposal, E>(
        strategy,
        bundle,
        self_update_verdicts::<E>(committer, bundle.updates),
    );
    failing_strategy_drops_nothing::<F, RemoveProposal, E>(
        strategy,
        bundle,
        self_removal_verdicts::<E>(committer, bundle.removals),
    );
    failing_strategy_drops_nothing::<F, RemoveProposal, E>(
        strategy,
        bundle,
        removal_verdicts::<E>(bundle.removals),
    );
    failing_strategy_drops_nothing::<F, UpdateProposal, E>(
        strategy,
        bundle,
        update_verdicts::<E>(bundle.removals, bundle.updates),
    );
    failing_strategy_drops_nothing::<F, ExtensionList, E>(
        strategy,
        bundle,
        extra_extensions_verdicts::<E>(bundle.group_context_extensions),
    );
    failing_strategy_drops_nothing::<F, ReInitProposal, E>(
        strategy,
        bundle,
        reinit_version_verdicts::<E>(applier.protocol_version, bundle.reinitializations),
    );
    failing_strategy_drops_nothing::<F, ReInitProposal, E>(
        strategy,
        bundle,
        lone_reinit_verdicts::<E>(only_reinit(bundle), bundle.reinitializations),
    );
    failing_strategy_drops_nothing::<F, ExternalInit, E>(
        strategy,
        bundle,
        no_external_init_verdicts::<E>(committer, bundle.external_initializations),
    );
}

/// Under a strategy that ignores nothing, such as [`FailInvalidProposal`], a member's
/// commit is refused or applied as it is: no proposal is dropped, if the edit of the tree
/// stops at a change that is not possible.
pub proof fn strict_commits_keep_all<F: FilterStrategy, E>(
    applier: ProposalApplier<E>,
    strategy: F,
    committer: LeafIndex,
    bundle: BundleView,
    replies: Replies<E>,
)
    requires
        ignores_nothing(strategy),
        impossible_ignored(strategy, replies.trial),
        impossible_ignored(strategy, replies.original),
    ensures
        applied::<F, E>(
            applier,
            strategy,
            Sender::Member(committer.0),
            bundle,
            replies,
        ) matches Ok(state) ==> state.proposals == bundle,
{
    let g = governing(&strategy, Committer::Member(committer));
    assert(ignores_nothing(g));
    let cleared = without_group_context_extensions(bundle);
    lemma_strict_filters::<F, E>(applier, strategy, committer, bundle);
    failing_strategy_drops_nothing::<Governing<'_, F>, PreSharedKeyProposal, E>(
        g,
        bundle,
        psk_verdicts(
            bundle.psks,
            applier.kdf_extract_size,
            psk_answers(replies, bundle.psks),
        ),
    );
    failing_strategy_drops_nothing::<F, ExtensionList, E>(
        strategy,
        bundle,
        external_senders_verdicts(
            bundle.group_context_extensions,
            external_senders_answers(replies, bundle.group_context_extensions),
        ),
    );
    strict_tree_changes_make_all::<Governing<'_, F>, E>(g, bundle, seq![], replies.trial);
    strict_tree_changes_make_all::<Governing<'_, F>, E>(
        g,
        cleared,
        applier.original_group_extensions@,
        replies.original,
    );
    lemma_all_made(strategy, bundle, replies.trial);
    lemma_all_made(strategy, cleared, replies.original);
    if bundle.group_context_extensions.len() == 0 {
        assert(bundle.group_context_extensions =~= cleared.group_context_extensions);
        assert(cleared == bundle);
    } else {
        assert(!g.ignores(borrowed_info(&*bundle.group_context_extensions[0])));
    }
    if let Ok(state) = changed::<Governing<'_, F>, E>(applier, g, bundle, replies) {
        assert(state.proposals == bundle);
        failing_strategy_drops_nothing::<F, CustomProposal, E>(
            strategy,
            bundle,
            custom_verdicts::<E>(state.tree, bundle.custom_proposals),
        );
    }
}

// ---------------------------------------------------------------------------
// Commits by which somebody joins
// ---------------------------------------------------------------------------

/// What a commit by which somebody joins may hold: one external initialization, at
/// most one removal, and pre-shared keys, all by value.
pub open spec fn external_commit_rules(bundle: BundleView) -> bool {
    &&& bundle.external_initializations.len() == 1
    &&& bundle.removals.len() <= 1
    &&& bundle.additions.len() == 0
    &&& bundle.updates.len() == 0
    &&& bundle.reinitializations.len() == 0
    &&& bundle.group_context_extensions.len() == 0
    &&& forall|i: int|
        0 <= i < bundle.custom_proposals.len() ==> allowed_in_external_commit(
            (#[trigger] bundle.custom_proposals[i]).proposal.proposal_type,
        )
    &&& !holds_by_ref(bundle)
}

proof fn lemma_none_disallowed(types: Seq<ProposalType>, from: int)
    requires
        0 <= from <= types.len(),
        first_disallowed(types, from) is None,
    ensures
        forall|i: int| from <= i < types.len() ==> allowed_in_external_commit(#[trigger] types[i]),
    decreases types.len() - from,
{
    if from < types.len() {
        lemma_none_disallowed(types, from + 1);
    }
}

pub(crate) proof fn lemma_only_allowed<E>(bundle: BundleView)
    requires
        only_allowed_types::<E>(bundle) is Ok,
    ensures
        bundle.additions.len() == 0,
        bundle.updates.len() == 0,
        bundle.reinitializations.len() == 0,
        bundle.group_context_extensions.len() == 0,
        forall|i: int|
            0 <= i < bundle.custom_proposals.len() ==> allowed_in_external_commit(
                (#[trigger] bundle.custom_proposals[i]).proposal.proposal_type,
            ),
{
    let a = type_if_any(bundle.additions, ProposalType::Add);
    let b = a + type_if_any(bundle.updates, ProposalType::Update);
    let c = b + type_if_any(bundle.removals, ProposalType::Remove);
    let d = c + type_if_any(bundle.psks, ProposalType::Psk);
    let e = d + type_if_any(bundle.reinitializations, ProposalType::ReInit);
    let f = e + type_if_any(bundle.external_initializations, ProposalType::ExternalInit);
    let g = f + type_if_any(
        bundle.group_context_extensions,
        ProposalType::GroupContextExtensions,
    );
    let all = types_in(bundle);
    assert(all == g + custom_types(bundle));
    lemma_none_disallowed(all, 0);
    if bundle.additions.len() > 0 {
        assert(all[0] == ProposalType::Add);
    }
    if bundle.updates.len() > 0 {
        assert(all[a.len() as int] == ProposalType::Update);
    }
    if bundle.reinitializations.len() > 0 {
        assert(all[d.len() as int] == ProposalType::ReInit);
    }
    if bundle.group_context_extensions.len() > 0 {
        assert(all[f.len() as int] == ProposalType::GroupContextExtensions);
    }
    assert forall|i: int|
        0 <= i < bundle.custom_proposals.len() implies allowed_in_external_commit(
        (#[trigger] bundle.custom_proposals[i]).proposal.proposal_type,
    ) by {
        assert(all[g.len() + i] == custom_types(bundle)[i]);
    }
}

/// Whoever joins removes nobody but an earlier self, and its leaf is added to the tree.
pub open spec fn joins_as<E>(
    applier: ProposalApplier<E>,
    leaf: Arc<LeafNode>,
    bundle: BundleView,
    state: StateView,
    replies: Replies<E>,
) -> bool {
    let tree = applier.original_tree@;
    &&& bundle.removals.len() > 0 ==> {
        let removed = bundle.removals[0].proposal.to_remove.0 as int;
        &&& occupied(tree, removed)
        &&& (replies.successor)(tree[removed]->0.signing_identity, leaf.signing_identity) == Ok::<
            bool,
            E,
        >(true)
    }
    &&& edit_answer(replies.original, bundle) matches Ok((edited, edits))
    &&& (replies.external_leaf)(edited, leaf) matches Ok((with_leaf, indexes))
    &&& state.tree == with_leaf
    &&& state.external_leaf_index == (if indexes.len() > 0 {
        Some(indexes[0])
    } else {
        None
    })
}

/// A commit by which somebody joins and that is applied: it keeps the rules of such
/// commits, its senders and pre-shared keys are valid, it removes nobody but an earlier
/// self, and nothing but a removal that was not possible, or an unsupported custom
/// proposal, is dropped from it.
pub proof fn external_commits_keep_the_rules<F: FilterStrategy, E>(
    applier: ProposalApplier<E>,
    strategy: F,
    bundle: BundleView,
    replies: Replies<E>,
)
    ensures
        applied::<F, E>(
            applier,
            strategy,
            Sender::NewMemberCommit,
            bundle,
            replies,
        ) matches Ok(state) ==> {
            &&& applier.external_leaf matches Some(leaf) && joins_as(
                applier,
                leaf,
                bundle,
                state,
                replies,
            )
            &&& external_commit_rules(bundle)
            &&& all_senders_valid::<E>(
                bundle,
                applier.original_tree@,
                usable_senders(applier.external_senders),
            )
            &&& psks_valid(bundle, applier.kdf_extract_size)
            &&& is_part_of(state.proposals, bundle)
            &&& state.proposals == (BundleView {
                removals: state.proposals.removals,
                custom_proposals: state.proposals.custom_proposals,
                ..bundle
            })
            &&& custom_proposals_supported(state)
            &&& impossible_ignored(FailInvalidProposal, replies.original)
                ==> state.proposals.removals == bundle.removals
        },
{
    let tree = applier.original_tree@;
    let senders = usable_senders(applier.external_senders);
    let fail = Governing::<'_, F>::Fail;
    assert(ignores_nothing(FailInvalidProposal));
    assert(ignores_nothing(fail));
    let leaf = applier.external_leaf->0;
    assert(governing(&strategy, Committer::NewMember(leaf)) == fail);
    if let Ok(state) = applied::<F, E>(
        applier,
        strategy,
        Sender::NewMemberCommit,
        bundle,
        replies,
    ) {
        assert(after_self_removal::<F, E>(applier, strategy, leaf, bundle, replies)
            == Ok::<StateView, ProposalFilterError<E>>(state));
        lemma_only_allowed::<E>(bundle);
        lemma_proposers_stay::<FailInvalidProposal, E>(FailInvalidProposal, tree, senders, bundle);
        proposers_filtered_are_valid::<FailInvalidProposal, E>(
            FailInvalidProposal,
            tree,
            senders,
            bundle,
        );
        filtered_psks_are_valid::<Governing<'_, F>, E>(
            fail,
            bundle,
            applier.kdf_extract_size,
            psk_answers(replies, bundle.psks),
        );
        failing_strategy_drops_nothing::<Governing<'_, F>, PreSharedKeyProposal, E>(
            fail,
            bundle,
            psk_verdicts(
            bundle.psks,
            applier.kdf_extract_size,
            psk_answers(replies, bundle.psks),
        ),
        );
        assert(changed_and_concluded::<F, E>(
            applier,
            strategy,
            Committer::NewMember(leaf),
            bundle,
            replies,
        ) == Ok::<StateView, ProposalFilterError<E>>(state));
        let cleared = without_group_context_extensions(bundle);
        assert(bundle.group_context_extensions =~= cleared.group_context_extensions);
        assert(cleared == bundle);
        strict_tree_changes_make_all::<Governing<'_, F>, E>(
            fail,
            bundle,
            applier.original_group_extensions@,
            replies.original,
        );
        if let Ok((t, edits)) = edit_answer(replies.original, bundle) {
            let edited_state = after_edit(bundle, t, edits);
            if impossible_ignored(FailInvalidProposal, replies.original) {
                lemma_all_made(FailInvalidProposal, bundle, replies.original);
            }
            edit_leaves_part(bundle, t, edits);
            part_is_no_longer(edited_state.proposals.additions, bundle.additions);
            part_is_no_longer(edited_state.proposals.updates, bundle.updates);
            assert(edited_state.proposals.additions =~= bundle.additions);
            assert(edited_state.proposals.updates =~= bundle.updates);
            if let Ok((new_tree, indexes)) = (replies.external_leaf)(t, leaf) {
                let with_leaf = StateView {
                    tree: new_tree,
                    external_leaf_index: if indexes.len() > 0 {
                        Some(indexes[0])
                    } else {
                        None
                    },
                    ..edited_state
                };
                custom_filter_leaves_supported::<F, E>(strategy, with_leaf);
                part_of_part(state.proposals, edited_state.proposals, bundle);
            }
        }
    }
}

} // verus!
