//! What a committer keeps, everybody else accepts.
//!
//! A committer drops proposals that are not valid, and sends a commit with the rest of
//! them. Whoever receives it applies the same rules and drops nothing.

use vstd::prelude::*;

use std::sync::Arc;

use crate::extension::{Extension, ExtensionList, ExternalSendersExt};
use crate::group::proposal::{
    AddProposal, CustomProposal, ExternalInit, JustPreSharedKeyID, KeyPackage,
    PreSharedKeyProposal, ProposalInfo, ProposalType, ReInitProposal, RemoveProposal,
    UpdateProposal,
};
use crate::group::proposal_filter::bundle::{
    custom_types, is_part_of, part_of_part, picks, type_if_any, types_in,
    without_group_context_extensions, BundleView, Bundled, Proposable,
};
use crate::group::proposal_filter::commit_laws::{
    changes_leave_supported_part, custom_filter_leaves_supported, custom_proposals_supported,
    edit_leaves_part, lemma_without_nothing, member_commits_keep_the_rules,
    tree_changes_leave_part,
};
use crate::group::proposal_filter::error::ProposalFilterError;
use crate::group::proposal_filter::filtering::{
    custom_verdicts, extension_support, extra_extensions_verdicts, lone_reinit_verdicts,
    no_external_init_verdicts, only_reinit, proposer_verdict, proposer_verdicts,
    proposers_filtered, proposers_screened, reinit_version_verdicts, self_removal_verdicts,
    self_update_verdicts, supported_by, usable_senders,
};
use crate::group::proposal_filter::laws::{
    late_filters_establish_rules, late_member_rules, member_rules, part_is_no_longer, psks_valid,
    senders_valid,
};
use crate::group::proposal_filter::leaf_conflicts::{
    is_last_update, leaf_conflicts_filtered, removal_verdicts, removed_among, update_verdicts,
};
use crate::group::proposal_filter::outcome::{
    applied, changed, edit_answer, external_senders_answers, external_senders_verdict,
    external_senders_verdicts, from_external_senders, governing, group_extensions_supported,
    key_package_answers,
    key_package_verdicts, leaf_check_answers, member_filtered_early, member_filtered_late,
    psk_answers, tree_changed, update_leaf_answers, update_node_verdicts, update_sender_verdicts,
    Committer, Governing, ProposalApplier, Replies, TreeReplies,
};
use crate::group::proposal_filter::psk::{named_among, psk_verdicts};
use crate::group::proposal_filter::screening::{
    all_flagged_selects_all, decision, nothing_wrong, screened, screened_flags,
    screening_decides_each, screening_keeps_valid, Verdict,
};
use crate::group::proposal_filter::state::{
    after_edit, custom_filtered, without, EditsView, StateView,
};
use crate::group::proposal_filter::strategy::FilterStrategy;
use crate::group::sender::Sender;
use crate::tree_kem::{LeafIndex, LeafNode, RatchetTreeError};

verus! {

// ---------------------------------------------------------------------------
// Services that answer alike
// ---------------------------------------------------------------------------

/// Edits of which every change was made.
pub open spec fn all_made(edits: EditsView) -> EditsView {
    EditsView {
        invalid_additions: Set::empty(),
        invalid_removals: Set::empty(),
        invalid_updates: Set::empty(),
        ..edits
    }
}

/// Editing the tree by those changes alone that were possible leads to the same tree.
pub open spec fn edit_settles<E>(replies: TreeReplies<E>, bundle: BundleView) -> bool {
    edit_answer(replies, bundle) matches Ok((tree, edits)) ==> edit_answer(
        replies,
        after_edit(bundle, tree, edits).proposals,
    ) == Ok::<_, RatchetTreeError<E>>((tree, all_made(edits)))
}

/// What is answered about a leaf or a key package depends on it alone, not on which of
/// the proposals it comes with; and the tree does not depend on changes that were not
/// possible.
pub open spec fn steady_tree<E>(replies: TreeReplies<E>) -> bool {
    &&& forall|i: int, index: LeafIndex, leaf: Arc<LeafNode>|
        #[trigger]
        (replies.update_leaves)(i, index, leaf) == (replies.update_leaves)(0, index, leaf)
    &&& forall|i: int, key_package: KeyPackage|
        #[trigger]
        (replies.key_packages)(i, key_package) == (replies.key_packages)(0, key_package)
    &&& forall|bundle: BundleView| #[trigger] edit_settles(replies, bundle)
}

/// What is answered depends on what is asked alone. A trial requires no capabilities, so
/// in a group that requires none it is answered as the changes themselves are.
pub open spec fn steady<E>(applier: ProposalApplier<E>, replies: Replies<E>) -> bool {
    &&& forall|i: int, id: Vec<u8>|
        #[trigger]
        (replies.psk_ids)(i, id) == (replies.psk_ids)(0, id)
    &&& forall|i: int, list: ExtensionList|
        #[trigger]
        (replies.external_senders)(i, list) == (replies.external_senders)(0, list)
    &&& steady_tree(replies.trial)
    &&& steady_tree(replies.original)
    &&& applier.original_required_capabilities is None ==> replies.trial == replies.original
}

// ---------------------------------------------------------------------------
// Bundles with which nothing is wrong
// ---------------------------------------------------------------------------

/// Where nothing is wrong with any proposal, nothing is dropped, whatever the strategy.
pub proof fn valid_proposals_stay<F: FilterStrategy, P: Bundled, E>(
    strategy: F,
    bundle: BundleView,
    verdicts: Seq<Verdict<E>>,
)
    requires
        forall|i: int| 0 <= i < P::list(bundle).len() ==> nothing_wrong(#[trigger] verdicts[i]),
    ensures
        screened::<F, P, E>(strategy, bundle, verdicts) == Ok::<
            BundleView,
            ProposalFilterError<E>,
        >(bundle),
{
    let items = P::list(bundle);
    screening_decides_each::<F, P, E>(strategy, items, verdicts, seq![]);
    assert forall|i: int| 0 <= i < items.len() implies #[trigger] decision(
        strategy,
        items,
        verdicts,
        i,
    ) == Ok::<bool, ProposalFilterError<E>>(true) by {
        assert(nothing_wrong(verdicts[i]));
    }
    match screened_flags::<F, P, E>(strategy, items, verdicts, seq![]) {
        Ok(all) => {
            assert forall|i: int| 0 <= i < items.len() implies all[i] by {
                assert(decision(strategy, items, verdicts, i) == Ok::<
                    bool,
                    ProposalFilterError<E>,
                >(all[i]));
            }
            all_flagged_selects_all(items, all, items.len() as int);
            assert(items.take(items.len() as int) =~= items);
            P::list_laws(bundle, items);
        },
        Err(_) => {},
    }
}

proof fn lemma_senders_stay<F: FilterStrategy, P: Proposable, E>(
    strategy: F,
    tree: Seq<Option<Arc<LeafNode>>>,
    senders: Option<ExternalSendersExt>,
    bundle: BundleView,
)
    requires
        senders_valid::<P, E>(P::list(bundle), tree, senders),
    ensures
        proposers_screened::<F, P, E>(strategy, tree, senders, bundle) == Ok::<
            BundleView,
            ProposalFilterError<E>,
        >(bundle),
{
    let verdicts = proposer_verdicts::<P, E>(tree, senders, P::list(bundle));
    assert forall|i: int| 0 <= i < P::list(bundle).len() implies nothing_wrong(
        #[trigger] verdicts[i],
    ) by {
        assert(proposer_verdict::<P, E>(tree, senders, *P::list(bundle)[i]) is Ok);
    }
    valid_proposals_stay::<F, P, E>(strategy, bundle, verdicts);
}

/// Where the rules of a member's commit hold, its first filters drop nothing.
pub proof fn early_filters_keep_all<F: FilterStrategy, E>(
    applier: ProposalApplier<E>,
    strategy: F,
    committer: LeafIndex,
    bundle: BundleView,
)
    requires
        member_rules(bundle, applier, committer),
    ensures
        member_filtered_early::<F, E>(applier, strategy, committer, bundle) == Ok::<
            BundleView,
            ProposalFilterError<E>,
        >(bundle),
{
    let tree = applier.original_tree@;
    let senders = usable_senders(applier.external_senders);
    lemma_senders_stay::<F, AddProposal, E>(strategy, tree, senders, bundle);
    lemma_senders_stay::<F, UpdateProposal, E>(strategy, tree, senders, bundle);
    lemma_senders_stay::<F, RemoveProposal, E>(strategy, tree, senders, bundle);
    lemma_senders_stay::<F, PreSharedKeyProposal, E>(strategy, tree, senders, bundle);
    lemma_senders_stay::<F, ReInitProposal, E>(strategy, tree, senders, bundle);
    lemma_senders_stay::<F, ExternalInit, E>(strategy, tree, senders, bundle);
    lemma_senders_stay::<F, ExtensionList, E>(strategy, tree, senders, bundle);
    assert(proposers_filtered::<F, E>(strategy, tree, senders, bundle) == Ok::<
        BundleView,
        ProposalFilterError<E>,
    >(bundle));
    valid_proposals_stay::<F, UpdateProposal, E>(
        strategy,
        bundle,
        self_update_verdicts::<E>(committer, bundle.updates),
    );
    valid_proposals_stay::<F, RemoveProposal, E>(
        strategy,
        bundle,
        self_removal_verdicts::<E>(committer, bundle.removals),
    );
    lemma_conflicts_keep_all::<F, E>(applier, strategy, committer, bundle);
}

proof fn lemma_conflicts_keep_all<F: FilterStrategy, E>(
    applier: ProposalApplier<E>,
    strategy: F,
    committer: LeafIndex,
    bundle: BundleView,
)
    requires
        member_rules(bundle, applier, committer),
    ensures
        leaf_conflicts_filtered::<F, E>(strategy, bundle) == Ok::<
            BundleView,
            ProposalFilterError<E>,
        >(bundle),
{
    let removals = removal_verdicts::<E>(bundle.removals);
    assert forall|i: int| 0 <= i < bundle.removals.len() implies nothing_wrong(
        #[trigger] removals[i],
    ) by {
        let leaf = bundle.removals[i].proposal.to_remove.0;
        if removed_among(bundle.removals, i, leaf) {
            let j = choose|j: int|
                0 <= j < i && (#[trigger] bundle.removals[j]).proposal.to_remove.0 == leaf;
            assert(bundle.removals[j].proposal.to_remove != bundle.removals[i].proposal.to_remove);
        }
    }
    valid_proposals_stay::<F, RemoveProposal, E>(strategy, bundle, removals);
    let updates = update_verdicts::<E>(bundle.removals, bundle.updates);
    assert forall|i: int| 0 <= i < bundle.updates.len() implies nothing_wrong(
        #[trigger] updates[i],
    ) by {
        if let Sender::Member(leaf) = bundle.updates[i].sender {
            assert(is_last_update(bundle.updates, i, leaf)) by {
                assert forall|j: int| i < j < bundle.updates.len() implies (
                #[trigger] bundle.updates[j]).sender != Sender::Member(leaf) by {
                    assert(bundle.updates[i].sender != bundle.updates[j].sender);
                }
            }
            if removed_among(bundle.removals, bundle.removals.len() as int, leaf) {
                let j = choose|j: int|
                    0 <= j < bundle.removals.len() && (
                    #[trigger] bundle.removals[j]).proposal.to_remove.0 == leaf;
                assert(bundle.updates[i].sender != Sender::Member(
                    bundle.removals[j].proposal.to_remove.0,
                ));
            }
        }
    }
    valid_proposals_stay::<F, UpdateProposal, E>(strategy, bundle, updates);
}

/// Where the rules of a filtered member's commit hold, its last filters drop nothing.
pub proof fn late_filters_keep_all<F: FilterStrategy, E>(
    applier: ProposalApplier<E>,
    strategy: F,
    committer: LeafIndex,
    bundle: BundleView,
)
    requires
        late_member_rules(bundle, applier),
    ensures
        member_filtered_late::<F, E>(applier, strategy, committer, bundle) == Ok::<
            BundleView,
            ProposalFilterError<E>,
        >(bundle),
{
    valid_proposals_stay::<F, ExtensionList, E>(
        strategy,
        bundle,
        extra_extensions_verdicts::<E>(bundle.group_context_extensions),
    );
    valid_proposals_stay::<F, ReInitProposal, E>(
        strategy,
        bundle,
        reinit_version_verdicts::<E>(applier.protocol_version, bundle.reinitializations),
    );
    if bundle.reinitializations.len() > 0 {
        lemma_alone_is_only_reinit(bundle);
    }
    valid_proposals_stay::<F, ReInitProposal, E>(
        strategy,
        bundle,
        lone_reinit_verdicts::<E>(only_reinit(bundle), bundle.reinitializations),
    );
    valid_proposals_stay::<F, ExternalInit, E>(
        strategy,
        bundle,
        no_external_init_verdicts::<E>(committer, bundle.external_initializations),
    );
}

proof fn lemma_alone_is_only_reinit(bundle: BundleView)
    requires
        bundle.additions.len() == 0,
        bundle.updates.len() == 0,
        bundle.removals.len() == 0,
        bundle.psks.len() == 0,
        bundle.external_initializations.len() == 0,
        bundle.group_context_extensions.len() == 0,
        forall|i: int|
            0 <= i < bundle.custom_proposals.len() ==> (#[trigger] bundle.custom_proposals[
                i
            ]).proposal.proposal_type == ProposalType::ReInit,
    ensures
        only_reinit(bundle),
{
    let first = type_if_any(bundle.reinitializations, ProposalType::ReInit);
    assert(types_in(bundle) =~= first + custom_types(bundle));
    assert forall|i: int| 0 <= i < types_in(bundle).len() implies types_in(bundle)[i]
        == ProposalType::ReInit by {
        if i >= first.len() {
            assert(bundle.custom_proposals[i - first.len()].proposal.proposal_type
                == ProposalType::ReInit);
        }
    }
}

// ---------------------------------------------------------------------------
// What services accept
// ---------------------------------------------------------------------------

/// The validator knows the names of all external pre-shared keys.
pub open spec fn names_known<E>(bundle: BundleView, replies: Replies<E>) -> bool {
    forall|i: int|
        0 <= i < bundle.psks.len() ==> ((#[trigger] bundle.psks[i]).proposal.psk.key_id matches
            JustPreSharedKeyID::External(id) ==> (replies.psk_ids)(0, id) is Ok)
}

/// The external senders that changes of extensions name are accepted.
pub open spec fn senders_accepted<E>(bundle: BundleView, replies: Replies<E>) -> bool {
    forall|i: int|
        0 <= i < bundle.group_context_extensions.len() ==> external_senders_verdict(
            (replies.external_senders)(0, (#[trigger] bundle.group_context_extensions[i]).proposal),
        ) is Ok
}

/// The leaf of an update is valid, and supports these extensions.
pub open spec fn update_accepted<E>(
    info: ProposalInfo<UpdateProposal>,
    extensions: Seq<Extension>,
    replies: TreeReplies<E>,
) -> bool {
    &&& info.sender matches Sender::Member(leaf)
    &&& (replies.update_leaves)(0, LeafIndex(leaf), info.proposal.leaf_node) is Ok
    &&& extension_support::<E>(extensions, supported_by(*info.proposal.leaf_node)) is Ok
}

/// The key package of an addition is valid, and its leaf supports these extensions.
pub open spec fn addition_accepted<E>(
    info: ProposalInfo<AddProposal>,
    extensions: Seq<Extension>,
    replies: TreeReplies<E>,
) -> bool {
    &&& (replies.key_packages)(0, info.proposal.key_package) is Ok
    &&& extension_support::<E>(
        extensions,
        supported_by(*info.proposal.key_package.leaf_node),
    ) is Ok
}

/// All updates and additions are accepted while these extensions are in use.
pub open spec fn leaves_accepted<E>(
    bundle: BundleView,
    extensions: Seq<Extension>,
    replies: TreeReplies<E>,
) -> bool {
    &&& forall|i: int|
        0 <= i < bundle.updates.len() ==> update_accepted(
            *#[trigger] bundle.updates[i],
            extensions,
            replies,
        )
    &&& forall|i: int|
        0 <= i < bundle.additions.len() ==> addition_accepted(
            *#[trigger] bundle.additions[i],
            extensions,
            replies,
        )
}

proof fn lemma_leaves_accepted_of_part<E>(
    part: BundleView,
    bundle: BundleView,
    extensions: Seq<Extension>,
    replies: TreeReplies<E>,
)
    requires
        is_part_of(part, bundle),
        leaves_accepted(bundle, extensions, replies),
    ensures
        leaves_accepted(part, extensions, replies),
{
    let u = choose|p: Seq<int>| picks(part.updates, bundle.updates, p);
    let a = choose|p: Seq<int>| picks(part.additions, bundle.additions, p);
    assert forall|i: int| 0 <= i < part.updates.len() implies update_accepted(
        *#[trigger] part.updates[i],
        extensions,
        replies,
    ) by {
        assert(part.updates[i] == bundle.updates[u[i]]);
    }
    assert forall|i: int| 0 <= i < part.additions.len() implies addition_accepted(
        *#[trigger] part.additions[i],
        extensions,
        replies,
    ) by {
        assert(part.additions[i] == bundle.additions[a[i]]);
    }
}

proof fn lemma_names_known_of_part<E>(part: BundleView, bundle: BundleView, replies: Replies<E>)
    requires
        is_part_of(part, bundle),
        names_known(bundle, replies),
    ensures
        names_known(part, replies),
{
    let p = choose|p: Seq<int>| picks(part.psks, bundle.psks, p);
    assert forall|i: int| 0 <= i < part.psks.len() implies ((
    #[trigger] part.psks[i]).proposal.psk.key_id matches JustPreSharedKeyID::External(id) ==> (
    replies.psk_ids)(0, id) is Ok) by {
        assert(part.psks[i] == bundle.psks[p[i]]);
    }
}

proof fn lemma_senders_accepted_of_part<E>(
    part: BundleView,
    bundle: BundleView,
    replies: Replies<E>,
)
    requires
        is_part_of(part, bundle),
        senders_accepted(bundle, replies),
    ensures
        senders_accepted(part, replies),
{
    let p = choose|p: Seq<int>|
        picks(part.group_context_extensions, bundle.group_context_extensions, p);
    assert forall|i: int|
        0 <= i < part.group_context_extensions.len() implies external_senders_verdict(
        (replies.external_senders)(0, (#[trigger] part.group_context_extensions[i]).proposal),
    ) is Ok by {
        assert(part.group_context_extensions[i] == bundle.group_context_extensions[p[i]]);
    }
}

// ---------------------------------------------------------------------------
// The changes to the tree, a second time
// ---------------------------------------------------------------------------

/// The edits that led to a state, all of them made.
pub open spec fn made_in(state: StateView) -> EditsView {
    EditsView {
        new_leaf_indexes: state.added_indexes,
        removed_leaves: state.removed_leaves,
        invalid_additions: Set::empty(),
        invalid_removals: Set::empty(),
        invalid_updates: Set::empty(),
    }
}

proof fn lemma_screened_leaves_accepted<F: FilterStrategy, E>(
    strategy: F,
    bundle: BundleView,
    extensions: Seq<Extension>,
    replies: TreeReplies<E>,
)
    requires
        steady_tree(replies),
    ensures
        ({
            let updates = update_node_verdicts(
                bundle.updates,
                extensions,
                update_leaf_answers(replies, bundle.updates),
            );
            screened::<F, UpdateProposal, E>(strategy, bundle, updates) matches Ok(b1) ==> {
                let packages = key_package_verdicts(
                    b1.additions,
                    extensions,
                    key_package_answers(replies, b1.additions),
                );
                screened::<F, AddProposal, E>(strategy, b1, packages) matches Ok(b2) ==> {
                    &&& leaves_accepted(b2, extensions, replies)
                    &&& is_part_of(b2, bundle)
                }
            }
        }),
{
    let updates = update_node_verdicts(
        bundle.updates,
        extensions,
        update_leaf_answers(replies, bundle.updates),
    );
    let u = screening_keeps_valid::<F, UpdateProposal, E>(strategy, bundle, updates);
    if let Ok(b1) = screened::<F, UpdateProposal, E>(strategy, bundle, updates) {
        assert forall|i: int| 0 <= i < b1.updates.len() implies update_accepted(
            *#[trigger] b1.updates[i],
            extensions,
            replies,
        ) by {
            assert(b1.updates[i] == bundle.updates[u[i]]);
            assert(nothing_wrong(updates[u[i]]));
            lemma_update_accepted::<E>(bundle.updates, u[i], extensions, replies);
        }
        let packages = key_package_verdicts(
            b1.additions,
            extensions,
            key_package_answers(replies, b1.additions),
        );
        let a = screening_keeps_valid::<F, AddProposal, E>(strategy, b1, packages);
        if let Ok(b2) = screened::<F, AddProposal, E>(strategy, b1, packages) {
            part_of_part(b2, b1, bundle);
            assert(b2.updates == b1.updates);
            assert forall|i: int| 0 <= i < b2.additions.len() implies addition_accepted(
                *#[trigger] b2.additions[i],
                extensions,
                replies,
            ) by {
                assert(b2.additions[i] == b1.additions[a[i]]);
                assert(nothing_wrong(packages[a[i]]));
                lemma_addition_accepted::<E>(b1.additions, a[i], extensions, replies);
            }
        }
    }
}

/// An update is accepted if and only if nothing is wrong with its leaf.
proof fn lemma_update_accepted<E>(
    items: Seq<Arc<ProposalInfo<UpdateProposal>>>,
    i: int,
    extensions: Seq<Extension>,
    replies: TreeReplies<E>,
)
    requires
        0 <= i < items.len(),
        steady_tree(replies),
    ensures
        nothing_wrong(
            update_node_verdicts(items, extensions, update_leaf_answers(replies, items))[i],
        ) <==> update_accepted(*items[i], extensions, replies),
        update_accepted(*items[i], extensions, replies) ==> nothing_wrong(
            update_sender_verdicts::<E>(items)[i],
        ),
{
    let index = LeafIndex(items[i].sender->Member_0);
    let leaf = items[i].proposal.leaf_node;
    assert((replies.update_leaves)(i, index, leaf) == (replies.update_leaves)(0, index, leaf));
}

/// An addition is accepted if and only if nothing is wrong with its key package.
proof fn lemma_addition_accepted<E>(
    items: Seq<Arc<ProposalInfo<AddProposal>>>,
    i: int,
    extensions: Seq<Extension>,
    replies: TreeReplies<E>,
)
    requires
        0 <= i < items.len(),
        steady_tree(replies),
    ensures
        nothing_wrong(
            key_package_verdicts(items, extensions, key_package_answers(replies, items))[i],
        ) <==> addition_accepted(*items[i], extensions, replies),
{
    let key_package = items[i].proposal.key_package;
    assert((replies.key_packages)(i, key_package) == (replies.key_packages)(0, key_package));
}

/// After changes to the tree, what is left of them is accepted, and editing the tree by it
/// leads to the same tree.
pub proof fn changes_settle<F: FilterStrategy, E>(
    strategy: F,
    bundle: BundleView,
    extensions: Seq<Extension>,
    replies: TreeReplies<E>,
)
    requires
        steady_tree(replies),
    ensures
        tree_changed::<F, E>(strategy, bundle, extensions, replies) matches Ok(state) ==> {
            &&& leaves_accepted(state.proposals, extensions, replies)
            &&& edit_answer(replies, state.proposals) == Ok::<_, RatchetTreeError<E>>(
                (state.tree, made_in(state)),
            )
            &&& state.external_leaf_index is None
        },
{
    let updates = update_node_verdicts(
        bundle.updates,
        extensions,
        update_leaf_answers(replies, bundle.updates),
    );
    lemma_screened_leaves_accepted::<F, E>(strategy, bundle, extensions, replies);
    if let Ok(b1) = screened::<F, UpdateProposal, E>(strategy, bundle, updates) {
        let packages = key_package_verdicts(
            b1.additions,
            extensions,
            key_package_answers(replies, b1.additions),
        );
        if let Ok(b2) = screened::<F, AddProposal, E>(strategy, b1, packages) {
            let senders = update_sender_verdicts::<E>(b2.updates);
            screening_keeps_valid::<F, UpdateProposal, E>(strategy, b2, senders);
            if let Ok(b3) = screened::<F, UpdateProposal, E>(strategy, b2, senders) {
                lemma_leaves_accepted_of_part(b3, b2, extensions, replies);
                if let Ok((tree, edits)) = edit_answer(replies, b3) {
                    let state = after_edit(b3, tree, edits);
                    edit_leaves_part(b3, tree, edits);
                    lemma_leaves_accepted_of_part(state.proposals, b3, extensions, replies);
                    assert(edit_settles(replies, b3));
                    assert(all_made(edits) == made_in(state));
                }
            }
        }
    }
}

/// Where all changes are accepted, and all of them are possible, all of them are made.
pub proof fn accepted_changes_are_made<F: FilterStrategy, E>(
    strategy: F,
    bundle: BundleView,
    extensions: Seq<Extension>,
    replies: TreeReplies<E>,
    state: StateView,
)
    requires
        steady_tree(replies),
        leaves_accepted(bundle, extensions, replies),
        edit_answer(replies, bundle) == Ok::<_, RatchetTreeError<E>>((state.tree, made_in(state))),
    ensures
        tree_changed::<F, E>(strategy, bundle, extensions, replies) == Ok::<
            StateView,
            ProposalFilterError<E>,
        >(StateView { proposals: bundle, external_leaf_index: None, ..state }),
{
    let updates = update_node_verdicts(
        bundle.updates,
        extensions,
        update_leaf_answers(replies, bundle.updates),
    );
    let senders = update_sender_verdicts::<E>(bundle.updates);
    assert forall|i: int| 0 <= i < bundle.updates.len() implies nothing_wrong(
        #[trigger] updates[i],
    ) by {
        lemma_update_accepted::<E>(bundle.updates, i, extensions, replies);
        assert(update_accepted(*bundle.updates[i], extensions, replies));
    }
    assert forall|i: int| 0 <= i < bundle.updates.len() implies nothing_wrong(
        #[trigger] senders[i],
    ) by {
        lemma_update_accepted::<E>(bundle.updates, i, extensions, replies);
        assert(update_accepted(*bundle.updates[i], extensions, replies));
    }
    let packages = key_package_verdicts(
        bundle.additions,
        extensions,
        key_package_answers(replies, bundle.additions),
    );
    assert forall|i: int| 0 <= i < bundle.additions.len() implies nothing_wrong(
        #[trigger] packages[i],
    ) by {
        lemma_addition_accepted::<E>(bundle.additions, i, extensions, replies);
        assert(addition_accepted(*bundle.additions[i], extensions, replies));
    }
    valid_proposals_stay::<F, UpdateProposal, E>(strategy, bundle, updates);
    valid_proposals_stay::<F, AddProposal, E>(strategy, bundle, packages);
    valid_proposals_stay::<F, UpdateProposal, E>(strategy, bundle, senders);
    lemma_without_nothing(bundle.additions);
    lemma_without_nothing(bundle.removals);
    lemma_without_nothing(bundle.updates);
}

/// The changes that a bundle asks for lead to this state, and nothing of it is dropped.
pub open spec fn changes_accepted<E>(
    applier: ProposalApplier<E>,
    bundle: BundleView,
    state: StateView,
    replies: Replies<E>,
) -> bool {
    if bundle.group_context_extensions.len() > 0 {
        let list = bundle.group_context_extensions[0].proposal;
        &&& leaves_accepted(bundle, seq![], replies.trial)
        &&& edit_answer(replies.trial, bundle) == Ok::<_, RatchetTreeError<E>>(
            (state.tree, made_in(state)),
        )
        &&& (replies.required_capabilities)(list) matches Ok(capabilities)
        &&& group_extensions_supported(
            list@,
            capabilities,
            state.tree,
            leaf_check_answers(replies, state.tree, capabilities),
        ) is Ok
    } else {
        &&& leaves_accepted(bundle, applier.original_group_extensions@, replies.original)
        &&& edit_answer(replies.original, bundle) == Ok::<_, RatchetTreeError<E>>(
            (state.tree, made_in(state)),
        )
    }
}

proof fn lemma_changes_settle<F: FilterStrategy, E>(
    applier: ProposalApplier<E>,
    strategy: F,
    bundle: BundleView,
    replies: Replies<E>,
)
    requires
        steady(applier, replies),
        bundle.group_context_extensions.len() <= 1,
    ensures
        changed::<F, E>(applier, strategy, bundle, replies) matches Ok(state) ==> {
            &&& changes_accepted(applier, state.proposals, state, replies)
            &&& state.external_leaf_index is None
        },
{
    let cleared = without_group_context_extensions(bundle);
    let extensions = applier.original_group_extensions@;
    changes_settle::<F, E>(strategy, cleared, extensions, replies.original);
    changes_settle::<F, E>(strategy, bundle, seq![], replies.trial);
    tree_changes_leave_part::<F, E>(strategy, cleared, extensions, replies.original);
    tree_changes_leave_part::<F, E>(strategy, bundle, seq![], replies.trial);
    if let Ok(state) = tree_changed::<F, E>(strategy, cleared, extensions, replies.original) {
        part_is_no_longer(
            state.proposals.group_context_extensions,
            cleared.group_context_extensions,
        );
        assert(changes_accepted(applier, state.proposals, state, replies));
    }
    if let Ok(state) = tree_changed::<F, E>(strategy, bundle, seq![], replies.trial) {
        tree_changes_keep_extensions::<F, E>(strategy, bundle, seq![], replies.trial);
        let without = without_group_context_extensions(state.proposals);
        if applier.original_required_capabilities is None && extensions.len() == 0 {
            assert(extensions =~= seq![]);
            assert(changes_accepted(
                applier,
                without,
                StateView { proposals: without, ..state },
                replies,
            ));
        }
    }
}

proof fn tree_changes_keep_extensions<F: FilterStrategy, E>(
    strategy: F,
    bundle: BundleView,
    extensions: Seq<Extension>,
    replies: TreeReplies<E>,
)
    ensures
        tree_changed::<F, E>(strategy, bundle, extensions, replies) matches Ok(state)
            ==> state.proposals.group_context_extensions == bundle.group_context_extensions,
{
}

proof fn lemma_accepted_again<F: FilterStrategy, E>(
    applier: ProposalApplier<E>,
    strategy: F,
    bundle: BundleView,
    state: StateView,
    replies: Replies<E>,
)
    requires
        steady(applier, replies),
        changes_accepted(applier, bundle, state, replies),
        state.external_leaf_index is None,
    ensures
        changed::<F, E>(applier, strategy, bundle, replies) == Ok::<
            StateView,
            ProposalFilterError<E>,
        >(StateView { proposals: bundle, ..state }),
{
    let extensions = applier.original_group_extensions@;
    if bundle.group_context_extensions.len() > 0 {
        accepted_changes_are_made::<F, E>(strategy, bundle, seq![], replies.trial, state);
    } else {
        let cleared = without_group_context_extensions(bundle);
        assert(cleared.group_context_extensions =~= bundle.group_context_extensions);
        assert(cleared == bundle);
        accepted_changes_are_made::<F, E>(strategy, bundle, extensions, replies.original, state);
    }
}

// ---------------------------------------------------------------------------
// The whole commit, a second time
// ---------------------------------------------------------------------------

/// Nothing is wrong with a member's commit, and it leads to this state.
pub open spec fn commit_accepted<E>(
    applier: ProposalApplier<E>,
    committer: LeafIndex,
    state: StateView,
    replies: Replies<E>,
) -> bool {
    &&& member_rules(state.proposals, applier, committer)
    &&& psks_valid(state.proposals, applier.kdf_extract_size)
    &&& names_known(state.proposals, replies)
    &&& senders_accepted(state.proposals, replies)
    &&& late_member_rules(state.proposals, applier)
    &&& changes_accepted(applier, state.proposals, state, replies)
    &&& custom_proposals_supported(state)
    &&& state.external_leaf_index is None
}

proof fn lemma_psks_stay<F: FilterStrategy, E>(
    strategy: F,
    bundle: BundleView,
    kdf_extract_size: usize,
    replies: Replies<E>,
)
    requires
        psks_valid(bundle, kdf_extract_size),
        names_known(bundle, replies),
        forall|i: int, id: Vec<u8>|
            #[trigger]
            (replies.psk_ids)(i, id) == (replies.psk_ids)(0, id),
    ensures
        screened::<F, PreSharedKeyProposal, E>(
            strategy,
            bundle,
            psk_verdicts(bundle.psks, kdf_extract_size, psk_answers(replies, bundle.psks)),
        ) == Ok::<BundleView, ProposalFilterError<E>>(bundle),
{
    let verdicts = psk_verdicts(bundle.psks, kdf_extract_size, psk_answers(replies, bundle.psks));
    assert forall|i: int| 0 <= i < bundle.psks.len() implies nothing_wrong(
        #[trigger] verdicts[i],
    ) by {
        let psk = bundle.psks[i].proposal.psk;
        if named_among(bundle.psks, i, psk) {
            let j = choose|j: int| 0 <= j < i && (#[trigger] bundle.psks[j]).proposal.psk@ == psk@;
            assert(bundle.psks[j].proposal.psk@ != bundle.psks[i].proposal.psk@);
        }
        if let JustPreSharedKeyID::External(id) = psk.key_id {
            assert((replies.psk_ids)(i, id) == (replies.psk_ids)(0, id));
        }
    }
    valid_proposals_stay::<F, PreSharedKeyProposal, E>(strategy, bundle, verdicts);
}

proof fn lemma_external_senders_stay<F: FilterStrategy, E>(
    strategy: F,
    bundle: BundleView,
    replies: Replies<E>,
)
    requires
        senders_accepted(bundle, replies),
        forall|i: int, list: ExtensionList|
            #[trigger]
            (replies.external_senders)(i, list) == (replies.external_senders)(0, list),
    ensures
        screened::<F, ExtensionList, E>(
            strategy,
            bundle,
            external_senders_verdicts(
                bundle.group_context_extensions,
                external_senders_answers(replies, bundle.group_context_extensions),
            ),
        ) == Ok::<BundleView, ProposalFilterError<E>>(bundle),
{
    let items = bundle.group_context_extensions;
    let verdicts = external_senders_verdicts(items, external_senders_answers(replies, items));
    assert forall|i: int| 0 <= i < items.len() implies nothing_wrong(#[trigger] verdicts[i]) by {
        let list = items[i].proposal;
        assert((replies.external_senders)(i, list) == (replies.external_senders)(0, list));
    }
    valid_proposals_stay::<F, ExtensionList, E>(strategy, bundle, verdicts);
}

/// A commit with which nothing is wrong is applied as it is, whatever the strategy.
pub proof fn accepted_commits_are_applied<F: FilterStrategy, E>(
    applier: ProposalApplier<E>,
    strategy: F,
    committer: LeafIndex,
    state: StateView,
    replies: Replies<E>,
)
    requires
        steady(applier, replies),
        commit_accepted(applier, committer, state, replies),
    ensures
        applied::<F, E>(
            applier,
            strategy,
            Sender::Member(committer.0),
            state.proposals,
            replies,
        ) == Ok::<StateView, ProposalFilterError<E>>(state),
{
    let g = governing(&strategy, Committer::Member(committer));
    let b = state.proposals;
    early_filters_keep_all::<F, E>(applier, strategy, committer, b);
    lemma_psks_stay::<Governing<'_, F>, E>(g, b, applier.kdf_extract_size, replies);
    lemma_external_senders_stay::<F, E>(strategy, b, replies);
    late_filters_keep_all::<F, E>(applier, strategy, committer, b);
    lemma_accepted_again::<Governing<'_, F>, E>(applier, g, b, state, replies);
    valid_proposals_stay::<F, CustomProposal, E>(
        strategy,
        b,
        custom_verdicts::<E>(state.tree, b.custom_proposals),
    );
}

/// What is left of a commit that is applied is a commit with which nothing is wrong.
pub proof fn applied_commits_are_accepted<F: FilterStrategy, E>(
    applier: ProposalApplier<E>,
    strategy: F,
    committer: LeafIndex,
    bundle: BundleView,
    replies: Replies<E>,
)
    requires
        steady(applier, replies),
    ensures
        applied::<F, E>(
            applier,
            strategy,
            Sender::Member(committer.0),
            bundle,
            replies,
        ) matches Ok(state) ==> commit_accepted(applier, committer, state, replies),
{
    let g = governing(&strategy, Committer::Member(committer));
    member_commits_keep_the_rules::<F, E>(applier, strategy, committer, bundle, replies);
    if let Ok(b1) = member_filtered_early::<F, E>(applier, strategy, committer, bundle) {
        let psks = psk_verdicts(
            b1.psks,
            applier.kdf_extract_size,
            psk_answers(replies, b1.psks),
        );
        let p = screening_keeps_valid::<Governing<'_, F>, PreSharedKeyProposal, E>(g, b1, psks);
        if let Ok(b2) = screened::<Governing<'_, F>, PreSharedKeyProposal, E>(g, b1, psks) {
            assert(names_known(b2, replies)) by {
                assert forall|i: int| 0 <= i < b2.psks.len() implies ((
                #[trigger] b2.psks[i]).proposal.psk.key_id matches JustPreSharedKeyID::External(
                    id,
                ) ==> (replies.psk_ids)(0, id) is Ok) by {
                    assert(b2.psks[i] == b1.psks[p[i]]);
                    assert(nothing_wrong(psks[p[i]]));
                    if let JustPreSharedKeyID::External(id) = b2.psks[i].proposal.psk.key_id {
                        assert((replies.psk_ids)(p[i], id) == (replies.psk_ids)(0, id));
                    }
                }
            }
            lemma_rest_is_accepted::<F, E>(applier, strategy, committer, b2, replies);
        }
    }
}

proof fn lemma_rest_is_accepted<F: FilterStrategy, E>(
    applier: ProposalApplier<E>,
    strategy: F,
    committer: LeafIndex,
    bundle: BundleView,
    replies: Replies<E>,
)
    requires
        steady(applier, replies),
        names_known(bundle, replies),
    ensures
        from_external_senders::<F, E>(
            applier,
            strategy,
            committer,
            bundle,
            seq![],
            replies,
        ) matches Ok(state) ==> {
            &&& names_known(state.proposals, replies)
            &&& senders_accepted(state.proposals, replies)
            &&& changes_accepted(applier, state.proposals, state, replies)
        },
{
    let g = governing(&strategy, Committer::Member(committer));
    let senders = external_senders_verdicts(
        bundle.group_context_extensions,
        external_senders_answers(replies, bundle.group_context_extensions),
    );
    let e = screening_keeps_valid::<F, ExtensionList, E>(strategy, bundle, senders);
    if let Ok(b3) = screened::<F, ExtensionList, E>(strategy, bundle, senders) {
        assert(senders_accepted(b3, replies)) by {
            assert forall|i: int|
                0 <= i < b3.group_context_extensions.len() implies external_senders_verdict(
                (replies.external_senders)(
                    0,
                    (#[trigger] b3.group_context_extensions[i]).proposal,
                ),
            ) is Ok by {
                let list = b3.group_context_extensions[i].proposal;
                assert(b3.group_context_extensions[i] == bundle.group_context_extensions[e[i]]);
                assert(nothing_wrong(senders[e[i]]));
                assert((replies.external_senders)(e[i], list) == (replies.external_senders)(
                    0,
                    list,
                ));
            }
        }
        late_filters_establish_rules::<F, E>(applier, strategy, committer, b3);
        if let Ok(b4) = member_filtered_late::<F, E>(applier, strategy, committer, b3) {
            part_of_part(b4, b3, bundle);
            changes_leave_supported_part::<Governing<'_, F>, E>(applier, g, b4, replies);
            lemma_changes_settle::<Governing<'_, F>, E>(applier, g, b4, replies);
            if let Ok(s) = changed::<Governing<'_, F>, E>(applier, g, b4, replies) {
                custom_filter_leaves_supported::<F, E>(strategy, s);
                if let Ok(state) = custom_filtered::<F, E>(strategy, s) {
                    part_of_part(state.proposals, s.proposals, b4);
                    part_of_part(state.proposals, b4, b3);
                    part_of_part(state.proposals, b4, bundle);
                    lemma_names_known_of_part(state.proposals, bundle, replies);
                    lemma_senders_accepted_of_part(state.proposals, b3, replies);
                    assert(made_in(state) == made_in(s));
                    assert(changes_accepted(applier, state.proposals, state, replies));
                }
            }
        }
    }
}

/// What a committer keeps, everybody accepts: if a member's commit is applied, then what is
/// left of it is applied as it is, under any strategy, to the same end, as long as services
/// answer alike. A committer may so drop what is not valid and send the rest to members
/// that refuse everything that is not valid.
pub proof fn what_is_kept_is_accepted<F: FilterStrategy, G: FilterStrategy, E>(
    applier: ProposalApplier<E>,
    strategy: F,
    other: G,
    committer: LeafIndex,
    bundle: BundleView,
    replies: Replies<E>,
)
    requires
        steady(applier, replies),
    ensures
        applied::<F, E>(
            applier,
            strategy,
            Sender::Member(committer.0),
            bundle,
            replies,
        ) matches Ok(state) ==> applied::<G, E>(
            applier,
            other,
            Sender::Member(committer.0),
            state.proposals,
            replies,
        ) == Ok::<StateView, ProposalFilterError<E>>(state),
{
    applied_commits_are_accepted::<F, E>(applier, strategy, committer, bundle, replies);
    if let Ok(state) = applied::<F, E>(
        applier,
        strategy,
        Sender::Member(committer.0),
        bundle,
        replies,
    ) {
        accepted_commits_are_applied::<G, E>(applier, other, committer, state, replies);
    }
}

} // verus!
