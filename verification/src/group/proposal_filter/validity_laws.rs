//! Which commits are applied, and to what end, said of their proposals and of the answers alone.

use vstd::prelude::*;

use std::sync::Arc;

use crate::extension::{Extension, ExtensionList, ExternalSendersExt};
use crate::group::proposal::{
    AddProposal, CustomProposal, ExternalInit, PreSharedKeyProposal, ProposalType, ReInitProposal,
    RemoveProposal, UpdateProposal,
};
use crate::group::proposal_filter::bundle::{
    picks, without_group_context_extensions, BundleView, Bundled, Proposable,
};
use crate::group::proposal_filter::commit_laws::{
    ignores_nothing, impossible_ignored, lemma_without_nothing,
};
use crate::group::proposal_filter::error::ProposalFilterError;
use crate::group::proposal_filter::filter_laws::{
    filters, first_to_fail, not_ignored, picks_faultless, rightly_sent, sender_fault,
    wrongly_sent_is_filtered_out,
};
use crate::group::proposal_filter::filtering::{
    extra_extensions_verdicts, lone_reinit_verdicts, no_external_init_verdicts, only_reinit,
    proposers_filtered, proposers_screened, reinit_version_verdicts, self_removal_verdicts,
    self_update_verdicts, usable_senders,
};
use crate::group::proposal_filter::laws::{no_self_removal, no_self_update};
use crate::group::proposal_filter::leaf_conflicts::leaf_conflicts_filtered;
use crate::group::proposal_filter::outcome::{
    after_self_removal, applied, changed, changed_and_concluded, edit_answer,
    external_senders_answers, external_senders_verdicts, governing, group_extensions_supported,
    key_package_answers, key_package_verdicts, leaf_check_answers, member_filtered_early,
    member_filtered_late, new_member_filtered, no_failure_is_success_of_all, psk_answers,
    tree_changed, update_leaf_answers, update_node_verdicts, update_sender_verdicts, Committer,
    Governing, ProposalApplier, Replies, TreeReplies,
};
use crate::group::proposal_filter::psk::psk_verdicts;
use crate::group::proposal_filter::rule_laws::{
    accompanied_new_starts_are_refused, all_list_all, all_list_proposal,
    earlier_versions_are_refused, external_senders_faults, faulty_psks_are_refused,
    holds_new_starts_only, later_changes_of_extensions_are_refused,
    leaves_are_changed_by_one_proposal,
    leaves_support_what_they_list, lists_all, members_do_not_initialize, newcomers_commit_by_value,
    newcomers_commit_few_types, newcomers_may_commit, newcomers_remove_one_leaf,
    own_updates_are_refused, psk_faults, refused_external_senders_are_refused, removal_faults,
    removals_of_the_committer_are_refused, trees_support_what_all_list,
    unlisted_custom_proposals_are_refused, update_faults,
};
use crate::group::proposal_filter::screening::{
    decision, failing_strategy_drops_nothing, nothing_wrong, screened, screening_decides_each,
    Verdict,
};
use crate::group::proposal_filter::acceptance_laws::valid_proposals_stay;
use crate::group::proposal_filter::state::{custom_filtered, edits_ignored, EditsView, StateView};
use crate::group::proposal_filter::strategy::{borrowed_info, FailInvalidProposal, FilterStrategy};
use crate::group::sender::Sender;
use crate::tree_kem::{members, LeafIndex, LeafNode, RatchetTreeError};

verus! {

// ---------------------------------------------------------------------------
// Filters that find no fault
// ---------------------------------------------------------------------------

/// Nothing is wrong with any of the proposals.
pub open spec fn no_fault<E>(faults: Seq<Option<ProposalFilterError<E>>>) -> bool {
    forall|i: int| 0 <= i < faults.len() ==> #[trigger] faults[i] is None
}

proof fn lemma_increasing(p: Seq<int>, n: int)
    requires
        0 <= n <= p.len(),
        forall|k: int| 0 <= k < p.len() ==> 0 <= #[trigger] p[k],
        forall|k: int, l: int| 0 <= k < l < p.len() ==> #[trigger] p[k] < #[trigger] p[l],
    ensures
        forall|k: int| 0 <= k < n ==> #[trigger] p[k] >= k,
    decreases n,
{
    if n > 0 {
        lemma_increasing(p, n - 1);
        if n > 1 {
            assert(p[n - 2] < p[n - 1]);
        }
    }
}

proof fn lemma_all_positions<T>(items: Seq<T>, from: Seq<T>, p: Seq<int>)
    requires
        picks(items, from, p),
        forall|i: int| 0 <= i < from.len() ==> #[trigger] p.contains(i),
    ensures
        items == from,
{
    lemma_increasing(p, p.len() as int);
    assert forall|i: int| 0 <= i < from.len() implies i < p.len() && #[trigger] p[i] == i by {
        lemma_own_position(from.len() as int, p, i);
    }
    if from.len() > 0 {
        lemma_own_position(from.len() as int, p, from.len() - 1);
    }
    if p.len() > from.len() {
        assert(p[from.len() as int] >= from.len());
    }
    assert forall|i: int| 0 <= i < from.len() implies items[i] == from[i] by {
        assert(p[i] == i);
    }
    assert(items =~= from);
}

proof fn lemma_own_position(n: int, p: Seq<int>, i: int)
    requires
        0 <= i < n,
        forall|k: int| 0 <= k < p.len() ==> 0 <= #[trigger] p[k],
        forall|k: int, l: int| 0 <= k < l < p.len() ==> #[trigger] p[k] < #[trigger] p[l],
        forall|j: int| 0 <= j < n ==> #[trigger] p.contains(j),
    ensures
        i < p.len(),
        p[i] == i,
    decreases i,
{
    lemma_increasing(p, p.len() as int);
    assert(p.contains(i));
    let k = choose|k: int| 0 <= k < p.len() && p[k] == i;
    assert(k <= i);
    if k < i {
        lemma_own_position(n, p, k);
    }
}

/// A filter that finds no fault leaves a bundle as it is, whatever the strategy.
pub proof fn faultless_bundles_stay<F: FilterStrategy, P: Bundled, E>(
    strategy: F,
    bundle: BundleView,
    r: Result<BundleView, ProposalFilterError<E>>,
    faults: Seq<Option<ProposalFilterError<E>>>,
)
    requires
        filters::<F, P, E>(strategy, bundle, r, faults),
        faults.len() == P::list(bundle).len(),
        no_fault(faults),
    ensures
        r == Ok::<BundleView, ProposalFilterError<E>>(bundle),
{
    match r {
        Err(e) => {
            let i = choose|i: int| #[trigger]
                first_to_fail::<F, P, E>(strategy, P::list(bundle), faults, i, e);
            assert(faults[i] is None);
        },
        Ok(left) => {
            let p = choose|p: Seq<int>| #[trigger]
                picks_faultless::<P, E>(P::list(left), P::list(bundle), p, faults);
            assert forall|i: int| 0 <= i < P::list(bundle).len() implies #[trigger] p.contains(
                i,
            ) by {
                assert(faults[i] is None);
            }
            lemma_all_positions(P::list(left), P::list(bundle), p);
            P::list_laws(bundle, P::list(bundle));
        },
    }
}

/// Under a strategy that ignores nothing, a filter goes on exactly if it finds no fault.
pub proof fn strict_filters_find_no_fault<F: FilterStrategy, P: Bundled, E>(
    strategy: F,
    bundle: BundleView,
    r: Result<BundleView, ProposalFilterError<E>>,
    faults: Seq<Option<ProposalFilterError<E>>>,
)
    requires
        ignores_nothing(strategy),
        filters::<F, P, E>(strategy, bundle, r, faults),
        faults.len() == P::list(bundle).len(),
    ensures
        r is Ok <==> no_fault(faults),
        r is Ok ==> r == Ok::<BundleView, ProposalFilterError<E>>(bundle),
{
    if r is Ok {
        assert forall|i: int| 0 <= i < faults.len() implies #[trigger] faults[i] is None by {
            assert(not_ignored::<F, P>(strategy, P::list(bundle), i));
        }
    }
    if no_fault(faults) {
        faultless_bundles_stay::<F, P, E>(strategy, bundle, r, faults);
    }
}

// ---------------------------------------------------------------------------
// Valid commits
// ---------------------------------------------------------------------------

/// The external senders that the group lists, if they could be decoded.
pub open spec fn listed_by<E>(applier: ProposalApplier<E>) -> Option<ExternalSendersExt> {
    match applier.external_senders {
        Ok(Some(ext)) => Some(ext),
        _ => None,
    }
}

/// Every proposal of a kind that the protocol defines was rightly sent.
pub open spec fn all_rightly_sent<E>(applier: ProposalApplier<E>, bundle: BundleView) -> bool {
    let leaves = applier.original_tree.leaves@;
    let listed = listed_by(applier);
    &&& forall|i: int|
        #![trigger bundle.additions[i]]
        0 <= i < bundle.additions.len() ==> rightly_sent(
            ProposalType::Add,
            bundle.additions[i].sender,
            bundle.additions[i].proposal_ref is Some,
            leaves,
            listed,
        )
    &&& forall|i: int|
        #![trigger bundle.updates[i]]
        0 <= i < bundle.updates.len() ==> rightly_sent(
            ProposalType::Update,
            bundle.updates[i].sender,
            bundle.updates[i].proposal_ref is Some,
            leaves,
            listed,
        )
    &&& forall|i: int|
        #![trigger bundle.removals[i]]
        0 <= i < bundle.removals.len() ==> rightly_sent(
            ProposalType::Remove,
            bundle.removals[i].sender,
            bundle.removals[i].proposal_ref is Some,
            leaves,
            listed,
        )
    &&& forall|i: int|
        #![trigger bundle.psks[i]]
        0 <= i < bundle.psks.len() ==> rightly_sent(
            ProposalType::Psk,
            bundle.psks[i].sender,
            bundle.psks[i].proposal_ref is Some,
            leaves,
            listed,
        )
    &&& forall|i: int|
        #![trigger bundle.reinitializations[i]]
        0 <= i < bundle.reinitializations.len() ==> rightly_sent(
            ProposalType::ReInit,
            bundle.reinitializations[i].sender,
            bundle.reinitializations[i].proposal_ref is Some,
            leaves,
            listed,
        )
    &&& forall|i: int|
        #![trigger bundle.external_initializations[i]]
        0 <= i < bundle.external_initializations.len() ==> rightly_sent(
            ProposalType::ExternalInit,
            bundle.external_initializations[i].sender,
            bundle.external_initializations[i].proposal_ref is Some,
            leaves,
            listed,
        )
    &&& forall|i: int|
        #![trigger bundle.group_context_extensions[i]]
        0 <= i < bundle.group_context_extensions.len() ==> rightly_sent(
            ProposalType::GroupContextExtensions,
            bundle.group_context_extensions[i].sender,
            bundle.group_context_extensions[i].proposal_ref is Some,
            leaves,
            listed,
        )
}

/// A member's commit touches neither its own leaf by proposals nor any leaf twice.
pub open spec fn leaves_rightly_changed(committer: LeafIndex, bundle: BundleView) -> bool {
    &&& no_self_update(bundle, committer)
    &&& no_self_removal(bundle, committer)
    &&& forall|i: int, j: int|
        0 <= j < i < bundle.removals.len() ==> (#[trigger] bundle.removals[i]).proposal.to_remove
            != (#[trigger] bundle.removals[j]).proposal.to_remove
    &&& forall|i: int, j: int|
        0 <= i < j < bundle.updates.len() && (#[trigger] bundle.updates[i]).sender is Member
            ==> bundle.updates[i].sender != (#[trigger] bundle.updates[j]).sender
    &&& forall|i: int, j: int|
        0 <= i < bundle.updates.len() && 0 <= j < bundle.removals.len()
            ==> (#[trigger] bundle.updates[i]).sender != Sender::Member(
            (#[trigger] bundle.removals[j]).proposal.to_remove.0,
        )
}

/// New starts and changes of extensions are as a member may commit them.
pub open spec fn rightly_alone<E>(applier: ProposalApplier<E>, bundle: BundleView) -> bool {
    &&& bundle.group_context_extensions.len() <= 1
    &&& forall|i: int|
        0 <= i < bundle.reinitializations.len() ==> (#[trigger] bundle.reinitializations[
            i
        ]).proposal.version.0 >= applier.protocol_version.0
    &&& bundle.reinitializations.len() > 0 ==> bundle.reinitializations.len() == 1
        && holds_new_starts_only(bundle)
    &&& bundle.external_initializations.len() == 0
}

/// The leaves of updates and additions are accepted while these extensions are in use.
pub open spec fn leaves_fit<E>(
    bundle: BundleView,
    extensions: Seq<Extension>,
    replies: TreeReplies<E>,
) -> bool {
    &&& forall|i: int|
        #![trigger bundle.updates[i]]
        0 <= i < bundle.updates.len() ==> {
            &&& bundle.updates[i].sender matches Sender::Member(k) && (replies.update_leaves)(
                i,
                LeafIndex(k),
                bundle.updates[i].proposal.leaf_node,
            ) is Ok
            &&& lists_all(*bundle.updates[i].proposal.leaf_node, extensions)
        }
    &&& forall|i: int|
        #![trigger bundle.additions[i]]
        0 <= i < bundle.additions.len() ==> {
            &&& (replies.key_packages)(i, bundle.additions[i].proposal.key_package) is Ok
            &&& lists_all(*bundle.additions[i].proposal.key_package.leaf_node, extensions)
        }
}

/// The edit of the tree makes every change, and gives this tree and these leaves.
pub open spec fn edit_gives<E>(
    bundle: BundleView,
    replies: TreeReplies<E>,
    tree: Seq<Option<Arc<LeafNode>>>,
    added: Seq<LeafIndex>,
    removed: Seq<(LeafIndex, Arc<LeafNode>)>,
) -> bool {
    (replies.edit)(bundle.updates, bundle.removals, bundle.additions) == Ok::<
        (Seq<Option<Arc<LeafNode>>>, EditsView),
        RatchetTreeError<E>,
    >(
        (
            tree,
            EditsView {
                new_leaf_indexes: added,
                removed_leaves: removed,
                invalid_additions: Set::empty(),
                invalid_removals: Set::empty(),
                invalid_updates: Set::empty(),
            },
        ),
    )
}

/// The changes of a commit are accepted and made, with this state: under the group's own
/// extensions, or, if it changes them, without any, and then every member of the new tree
/// supports the new ones and has the capabilities that they require.
pub open spec fn rightly_changed<E>(
    applier: ProposalApplier<E>,
    bundle: BundleView,
    replies: Replies<E>,
    state: StateView,
) -> bool {
    if bundle.group_context_extensions.len() == 0 {
        &&& leaves_fit(bundle, applier.original_group_extensions.0@, replies.original)
        &&& edit_gives(
            bundle,
            replies.original,
            state.tree,
            state.added_indexes,
            state.removed_leaves,
        )
    } else {
        let list = bundle.group_context_extensions[0].proposal;
        &&& (replies.required_capabilities)(list) matches Ok(capabilities)
        &&& leaves_fit(bundle, seq![], replies.trial)
        &&& edit_gives(
            bundle,
            replies.trial,
            state.tree,
            state.added_indexes,
            state.removed_leaves,
        )
        &&& capabilities matches Some(required) ==> forall|i: int|
            #![trigger members(state.tree)[i]]
            0 <= i < members(state.tree).len() ==> (replies.leaf_checks)(
                i,
                members(state.tree)[i],
                required,
            ) is Ok
        &&& all_list_all(state.tree, list.0@)
    }
}

/// All members of the tree list the types of the custom proposals.
pub open spec fn custom_listed(
    bundle: BundleView,
    tree: Seq<Option<Arc<LeafNode>>>,
) -> bool {
    forall|i: int|
        0 <= i < bundle.custom_proposals.len() ==> all_list_proposal(
            tree,
            (#[trigger] bundle.custom_proposals[i]).proposal.proposal_type,
        )
}

/// Nothing is wrong with a member's commit, and all of it together leads to this state.
pub open spec fn valid_member_commit<E>(
    applier: ProposalApplier<E>,
    committer: LeafIndex,
    bundle: BundleView,
    replies: Replies<E>,
    state: StateView,
) -> bool {
    &&& all_rightly_sent(applier, bundle)
    &&& leaves_rightly_changed(committer, bundle)
    &&& no_fault(psk_faults(bundle.psks, applier.kdf_extract_size, replies))
    &&& no_fault(external_senders_faults(bundle, replies))
    &&& rightly_alone(applier, bundle)
    &&& rightly_changed(applier, bundle, replies, state)
    &&& custom_listed(bundle, state.tree)
    &&& state.proposals == bundle
    &&& state.external_leaf_index is None
}

/// Nothing is wrong with a commit by which somebody joins, and all of it together leads to this
/// state: `edited` is the tree after the removal, if there is one, and `indexes` is where the new
/// leaf went.
pub open spec fn valid_joining<E>(
    applier: ProposalApplier<E>,
    bundle: BundleView,
    replies: Replies<E>,
    edited: Seq<Option<Arc<LeafNode>>>,
    indexes: Seq<LeafIndex>,
    state: StateView,
) -> bool {
    &&& applier.external_leaf matches Some(leaf)
    &&& bundle.external_initializations.len() == 1
    &&& bundle.removals.len() <= 1
    &&& bundle.removals.len() == 1 ==> {
        let leaves = applier.original_tree.leaves@;
        let index = bundle.removals[0].proposal.to_remove.0 as int;
        &&& index < leaves.len()
        &&& leaves[index] matches Some(old)
        &&& (replies.successor)(old.signing_identity, leaf.signing_identity) == Ok::<bool, E>(true)
    }
    &&& holds_joining_only(bundle)
    &&& all_rightly_sent(applier, bundle)
    &&& no_fault(psk_faults(bundle.psks, applier.kdf_extract_size, replies))
    &&& edit_gives(bundle, replies.original, edited, state.added_indexes, state.removed_leaves)
    &&& (replies.external_leaf)(edited, leaf) == Ok::<
        (Seq<Option<Arc<LeafNode>>>, Seq<LeafIndex>),
        RatchetTreeError<E>,
    >((state.tree, indexes))
    &&& state.external_leaf_index == if indexes.len() > 0 {
        Some(indexes[0])
    } else {
        None
    }
    &&& custom_listed(bundle, state.tree)
    &&& state.proposals == bundle
}

/// The bundle holds only what whoever joins may commit, and all of it in the commit itself.
pub open spec fn holds_joining_only(bundle: BundleView) -> bool {
    &&& bundle.additions.len() == 0
    &&& bundle.updates.len() == 0
    &&& bundle.reinitializations.len() == 0
    &&& bundle.group_context_extensions.len() == 0
    &&& forall|i: int|
        0 <= i < bundle.custom_proposals.len() ==> newcomers_may_commit(
            (#[trigger] bundle.custom_proposals[i]).proposal.proposal_type,
        ) && bundle.custom_proposals[i].proposal_ref is None
    &&& forall|i: int|
        0 <= i < bundle.removals.len() ==> (#[trigger] bundle.removals[i]).proposal_ref is None
    &&& forall|i: int|
        0 <= i < bundle.psks.len() ==> (#[trigger] bundle.psks[i]).proposal_ref is None
    &&& forall|i: int|
        0 <= i < bundle.external_initializations.len() ==> (
        #[trigger] bundle.external_initializations[i]).proposal_ref is None
}

// ---------------------------------------------------------------------------
// Stage by stage
// ---------------------------------------------------------------------------

/// What is wrong with the senders of the proposals of one kind.
pub open spec fn sender_faults<P: Proposable, E>(
    applier: ProposalApplier<E>,
    bundle: BundleView,
) -> Seq<Option<ProposalFilterError<E>>> {
    Seq::new(
        P::list(bundle).len(),
        |i: int|
            sender_fault::<E>(
                P::kind(),
                P::list(bundle)[i].sender,
                P::list(bundle)[i].proposal_ref is Some,
                applier.original_tree.leaves@,
                listed_by(applier),
            ),
    )
}

proof fn lemma_senders_of<F: FilterStrategy, P: Proposable, E>(
    applier: ProposalApplier<E>,
    strategy: F,
    bundle: BundleView,
)
    ensures
        ({
            let r = proposers_screened::<F, P, E>(
                strategy,
                applier.original_tree@,
                usable_senders(applier.external_senders),
                bundle,
            );
            let faults = sender_faults::<P, E>(applier, bundle);
            &&& no_fault(faults) ==> r == Ok::<BundleView, ProposalFilterError<E>>(bundle)
            &&& ignores_nothing(strategy) && r is Ok ==> no_fault(faults) && r == Ok::<
                BundleView,
                ProposalFilterError<E>,
            >(bundle)
        }),
{
    let leaves = applier.original_tree@;
    let senders = usable_senders(applier.external_senders);
    assert(senders == listed_by(applier));
    let r = proposers_screened::<F, P, E>(strategy, leaves, senders, bundle);
    let faults = sender_faults::<P, E>(applier, bundle);
    wrongly_sent_is_filtered_out::<F, P, E>(strategy, leaves, senders, bundle);
    assert(filters::<F, P, E>(strategy, bundle, r, faults));
    if no_fault(faults) {
        faultless_bundles_stay::<F, P, E>(strategy, bundle, r, faults);
    }
    if ignores_nothing(strategy) {
        strict_filters_find_no_fault::<F, P, E>(strategy, bundle, r, faults);
    }
}

proof fn lemma_sent<P: Proposable, E>(applier: ProposalApplier<E>, bundle: BundleView)
    ensures
        no_fault(sender_faults::<P, E>(applier, bundle)) <==> forall|i: int|
            #![trigger P::list(bundle)[i]]
            0 <= i < P::list(bundle).len() ==> rightly_sent(
                P::kind(),
                P::list(bundle)[i].sender,
                P::list(bundle)[i].proposal_ref is Some,
                applier.original_tree.leaves@,
                listed_by(applier),
            ),
{
    let faults = sender_faults::<P, E>(applier, bundle);
    if no_fault(faults) {
        assert forall|i: int|
            #![trigger P::list(bundle)[i]]
            0 <= i < P::list(bundle).len() implies rightly_sent(
            P::kind(),
            P::list(bundle)[i].sender,
            P::list(bundle)[i].proposal_ref is Some,
            applier.original_tree.leaves@,
            listed_by(applier),
        ) by {
            assert(faults[i] is None);
        }
    }
}

proof fn lemma_proposers<F: FilterStrategy, E>(
    applier: ProposalApplier<E>,
    strategy: F,
    bundle: BundleView,
)
    ensures
        ({
            let r = proposers_filtered::<F, E>(
                strategy,
                applier.original_tree@,
                usable_senders(applier.external_senders),
                bundle,
            );
            &&& all_rightly_sent(applier, bundle) ==> r == Ok::<
                BundleView,
                ProposalFilterError<E>,
            >(bundle)
            &&& ignores_nothing(strategy) && r is Ok ==> all_rightly_sent(applier, bundle) && r
                == Ok::<BundleView, ProposalFilterError<E>>(bundle)
        }),
{
    lemma_senders_of::<F, AddProposal, E>(applier, strategy, bundle);
    lemma_senders_of::<F, UpdateProposal, E>(applier, strategy, bundle);
    lemma_senders_of::<F, RemoveProposal, E>(applier, strategy, bundle);
    lemma_senders_of::<F, PreSharedKeyProposal, E>(applier, strategy, bundle);
    lemma_senders_of::<F, ReInitProposal, E>(applier, strategy, bundle);
    lemma_senders_of::<F, ExternalInit, E>(applier, strategy, bundle);
    lemma_senders_of::<F, ExtensionList, E>(applier, strategy, bundle);
    lemma_sent::<AddProposal, E>(applier, bundle);
    lemma_sent::<UpdateProposal, E>(applier, bundle);
    lemma_sent::<RemoveProposal, E>(applier, bundle);
    lemma_sent::<PreSharedKeyProposal, E>(applier, bundle);
    lemma_sent::<ReInitProposal, E>(applier, bundle);
    lemma_sent::<ExternalInit, E>(applier, bundle);
    lemma_sent::<ExtensionList, E>(applier, bundle);
}

proof fn lemma_conflicts<F: FilterStrategy, E>(strategy: F, bundle: BundleView)
    ensures
        ({
            let r = leaf_conflicts_filtered::<F, E>(strategy, bundle);
            &&& no_fault(removal_faults::<E>(bundle)) && no_fault(update_faults::<E>(bundle)) ==> r
                == Ok::<BundleView, ProposalFilterError<E>>(bundle)
            &&& ignores_nothing(strategy) && r is Ok ==> no_fault(removal_faults::<E>(bundle))
                && no_fault(update_faults::<E>(bundle)) && r == Ok::<
                BundleView,
                ProposalFilterError<E>,
            >(bundle)
        }),
{
    let r = leaf_conflicts_filtered::<F, E>(strategy, bundle);
    let first = leaves_are_changed_by_one_proposal::<F, E>(strategy, bundle);
    let removals = removal_faults::<E>(bundle);
    let updates = update_faults::<E>(bundle);
    if no_fault(removals) {
        faultless_bundles_stay::<F, RemoveProposal, E>(strategy, bundle, first, removals);
        if no_fault(updates) {
            faultless_bundles_stay::<F, UpdateProposal, E>(strategy, bundle, r, updates);
        }
    }
    if ignores_nothing(strategy) {
        strict_filters_find_no_fault::<F, RemoveProposal, E>(strategy, bundle, first, removals);
        if first is Ok {
            strict_filters_find_no_fault::<F, UpdateProposal, E>(strategy, bundle, r, updates);
        }
    }
}

proof fn lemma_no_conflicts<E>(bundle: BundleView, committer: LeafIndex)
    requires
        no_self_update(bundle, committer),
        no_self_removal(bundle, committer),
    ensures
        no_fault(removal_faults::<E>(bundle)) && no_fault(update_faults::<E>(bundle))
            <==> leaves_rightly_changed(committer, bundle),
{
    let removals = removal_faults::<E>(bundle);
    let updates = update_faults::<E>(bundle);
    if no_fault(removals) && no_fault(updates) {
        assert forall|i: int, j: int| 0 <= j < i < bundle.removals.len() implies (
        #[trigger] bundle.removals[i]).proposal.to_remove != (#[trigger] bundle.removals[
            j
        ]).proposal.to_remove by {
            assert(removals[i] is None);
        }
        assert forall|i: int, j: int|
            0 <= i < j < bundle.updates.len() && (
            #[trigger] bundle.updates[i]).sender is Member implies bundle.updates[i].sender != (
        #[trigger] bundle.updates[j]).sender by {
            assert(updates[i] is None);
        }
        assert forall|i: int, j: int|
            0 <= i < bundle.updates.len() && 0 <= j < bundle.removals.len() implies (
        #[trigger] bundle.updates[i]).sender != Sender::Member(
            (#[trigger] bundle.removals[j]).proposal.to_remove.0,
        ) by {
            assert(updates[i] is None);
        }
    }
}

proof fn lemma_early<F: FilterStrategy, E>(
    applier: ProposalApplier<E>,
    strategy: F,
    committer: LeafIndex,
    bundle: BundleView,
)
    ensures
        ({
            let r = member_filtered_early::<F, E>(applier, strategy, committer, bundle);
            let valid = all_rightly_sent(applier, bundle) && leaves_rightly_changed(
                committer,
                bundle,
            );
            &&& valid ==> r == Ok::<BundleView, ProposalFilterError<E>>(bundle)
            &&& ignores_nothing(strategy) && r is Ok ==> valid && r == Ok::<
                BundleView,
                ProposalFilterError<E>,
            >(bundle)
        }),
{
    lemma_proposers::<F, E>(applier, strategy, bundle);
    let updates = Seq::new(
        bundle.updates.len(),
        |i: int|
            if bundle.updates[i].sender == Sender::Member(committer.0) {
                Some(ProposalFilterError::<E>::InvalidCommitSelfUpdate)
            } else {
                None
            },
    );
    let r1 = screened::<F, UpdateProposal, E>(
        strategy,
        bundle,
        self_update_verdicts(committer, bundle.updates),
    );
    own_updates_are_refused::<F, E>(strategy, committer, bundle);
    assert(filters::<F, UpdateProposal, E>(strategy, bundle, r1, updates));
    assert(no_fault(updates) <==> no_self_update(bundle, committer)) by {
        if no_fault(updates) {
            assert forall|i: int| 0 <= i < bundle.updates.len() implies (
            #[trigger] bundle.updates[i]).sender != Sender::Member(committer.0) by {
                assert(updates[i] is None);
            }
        }
    }
    let removals = Seq::new(
        bundle.removals.len(),
        |i: int|
            if bundle.removals[i].proposal.to_remove.0 == committer.0 {
                Some(ProposalFilterError::<E>::CommitterSelfRemoval)
            } else {
                None
            },
    );
    let r2 = screened::<F, RemoveProposal, E>(
        strategy,
        bundle,
        self_removal_verdicts(committer, bundle.removals),
    );
    removals_of_the_committer_are_refused::<F, E>(strategy, committer, bundle);
    assert(filters::<F, RemoveProposal, E>(strategy, bundle, r2, removals));
    assert(no_fault(removals) <==> no_self_removal(bundle, committer)) by {
        if no_fault(removals) {
            assert forall|i: int| 0 <= i < bundle.removals.len() implies (
            #[trigger] bundle.removals[i]).proposal.to_remove != committer by {
                assert(removals[i] is None);
            }
        }
    }
    lemma_conflicts::<F, E>(strategy, bundle);
    if no_self_update(bundle, committer) && no_self_removal(bundle, committer) {
        lemma_no_conflicts::<E>(bundle, committer);
        faultless_bundles_stay::<F, UpdateProposal, E>(strategy, bundle, r1, updates);
        faultless_bundles_stay::<F, RemoveProposal, E>(strategy, bundle, r2, removals);
    }
    if ignores_nothing(strategy) {
        strict_filters_find_no_fault::<F, UpdateProposal, E>(strategy, bundle, r1, updates);
        strict_filters_find_no_fault::<F, RemoveProposal, E>(strategy, bundle, r2, removals);
    }
}

proof fn lemma_psks<F: FilterStrategy, E>(
    strategy: F,
    bundle: BundleView,
    kdf_extract_size: usize,
    replies: Replies<E>,
)
    ensures
        ({
            let r = screened::<F, PreSharedKeyProposal, E>(
                strategy,
                bundle,
                psk_verdicts(bundle.psks, kdf_extract_size, psk_answers(replies, bundle.psks)),
            );
            let valid = no_fault(psk_faults(bundle.psks, kdf_extract_size, replies));
            &&& valid ==> r == Ok::<BundleView, ProposalFilterError<E>>(bundle)
            &&& ignores_nothing(strategy) && r is Ok ==> valid && r == Ok::<
                BundleView,
                ProposalFilterError<E>,
            >(bundle)
        }),
{
    let r = screened::<F, PreSharedKeyProposal, E>(
        strategy,
        bundle,
        psk_verdicts(bundle.psks, kdf_extract_size, psk_answers(replies, bundle.psks)),
    );
    let faults = psk_faults(bundle.psks, kdf_extract_size, replies);
    faulty_psks_are_refused::<F, E>(strategy, bundle, kdf_extract_size, replies);
    if no_fault(faults) {
        faultless_bundles_stay::<F, PreSharedKeyProposal, E>(strategy, bundle, r, faults);
    }
    if ignores_nothing(strategy) {
        strict_filters_find_no_fault::<F, PreSharedKeyProposal, E>(strategy, bundle, r, faults);
    }
}

proof fn lemma_senders<F: FilterStrategy, E>(
    strategy: F,
    bundle: BundleView,
    replies: Replies<E>,
)
    ensures
        ({
            let r = screened::<F, ExtensionList, E>(
                strategy,
                bundle,
                external_senders_verdicts(
                    bundle.group_context_extensions,
                    external_senders_answers(replies, bundle.group_context_extensions),
                ),
            );
            let valid = no_fault(external_senders_faults(bundle, replies));
            &&& valid ==> r == Ok::<BundleView, ProposalFilterError<E>>(bundle)
            &&& ignores_nothing(strategy) && r is Ok ==> valid && r == Ok::<
                BundleView,
                ProposalFilterError<E>,
            >(bundle)
        }),
{
    let r = screened::<F, ExtensionList, E>(
        strategy,
        bundle,
        external_senders_verdicts(
            bundle.group_context_extensions,
            external_senders_answers(replies, bundle.group_context_extensions),
        ),
    );
    let faults = external_senders_faults(bundle, replies);
    refused_external_senders_are_refused::<F, E>(strategy, bundle, replies);
    if no_fault(faults) {
        faultless_bundles_stay::<F, ExtensionList, E>(strategy, bundle, r, faults);
    }
    if ignores_nothing(strategy) {
        strict_filters_find_no_fault::<F, ExtensionList, E>(strategy, bundle, r, faults);
    }
}

proof fn lemma_late<F: FilterStrategy, E>(
    applier: ProposalApplier<E>,
    strategy: F,
    committer: LeafIndex,
    bundle: BundleView,
)
    ensures
        ({
            let r = member_filtered_late::<F, E>(applier, strategy, committer, bundle);
            let valid = rightly_alone(applier, bundle);
            &&& valid ==> r == Ok::<BundleView, ProposalFilterError<E>>(bundle)
            &&& ignores_nothing(strategy) && r is Ok ==> valid && r == Ok::<
                BundleView,
                ProposalFilterError<E>,
            >(bundle)
        }),
{
    let f1 = Seq::new(
        bundle.group_context_extensions.len(),
        |i: int|
            if i > 0 {
                Some(ProposalFilterError::<E>::MoreThanOneGroupContextExtensionsProposal)
            } else {
                None
            },
    );
    let r1 = screened::<F, ExtensionList, E>(
        strategy,
        bundle,
        extra_extensions_verdicts(bundle.group_context_extensions),
    );
    later_changes_of_extensions_are_refused::<F, E>(strategy, bundle);
    assert(filters::<F, ExtensionList, E>(strategy, bundle, r1, f1));
    assert(no_fault(f1) <==> bundle.group_context_extensions.len() <= 1) by {
        if bundle.group_context_extensions.len() > 1 {
            assert(f1[1] is Some);
        }
    }
    let version = applier.protocol_version;
    let f2 = Seq::new(
        bundle.reinitializations.len(),
        |i: int|
            if bundle.reinitializations[i].proposal.version.0 < version.0 {
                Some(
                    ProposalFilterError::<E>::InvalidProtocolVersionInReInit {
                        proposed: bundle.reinitializations[i].proposal.version,
                        original: version,
                    },
                )
            } else {
                None
            },
    );
    let r2 = screened::<F, ReInitProposal, E>(
        strategy,
        bundle,
        reinit_version_verdicts(version, bundle.reinitializations),
    );
    earlier_versions_are_refused::<F, E>(strategy, version, bundle);
    assert(filters::<F, ReInitProposal, E>(strategy, bundle, r2, f2));
    if no_fault(f2) {
        assert forall|i: int| 0 <= i < bundle.reinitializations.len() implies (
        #[trigger] bundle.reinitializations[i]).proposal.version.0 >= version.0 by {
            assert(f2[i] is None);
        }
    }
    let f3 = Seq::new(
        bundle.reinitializations.len(),
        |i: int|
            if i > 0 || !holds_new_starts_only(bundle) {
                Some(ProposalFilterError::<E>::OtherProposalWithReInit)
            } else {
                None
            },
    );
    let r3 = screened::<F, ReInitProposal, E>(
        strategy,
        bundle,
        lone_reinit_verdicts(only_reinit(bundle), bundle.reinitializations),
    );
    accompanied_new_starts_are_refused::<F, E>(strategy, bundle);
    assert(filters::<F, ReInitProposal, E>(strategy, bundle, r3, f3));
    assert(no_fault(f3) <==> (bundle.reinitializations.len() > 0
        ==> bundle.reinitializations.len() == 1 && holds_new_starts_only(bundle))) by {
        if bundle.reinitializations.len() > 0 && !holds_new_starts_only(bundle) {
            assert(f3[0] is Some);
        }
        if bundle.reinitializations.len() > 1 {
            assert(f3[1] is Some);
        }
    }
    let f4 = Seq::new(
        bundle.external_initializations.len(),
        |i: int|
            Some(
                ProposalFilterError::<E>::InvalidProposalTypeForSender {
                    proposal_type: ProposalType::ExternalInit,
                    sender: Sender::Member(committer.0),
                    by_ref: bundle.external_initializations[i].proposal_ref is Some,
                },
            ),
    );
    let r4 = screened::<F, ExternalInit, E>(
        strategy,
        bundle,
        no_external_init_verdicts(committer, bundle.external_initializations),
    );
    members_do_not_initialize::<F, E>(strategy, committer, bundle);
    assert(filters::<F, ExternalInit, E>(strategy, bundle, r4, f4));
    if bundle.external_initializations.len() > 0 {
        assert(f4[0] is Some);
    }
    if rightly_alone(applier, bundle) {
        faultless_bundles_stay::<F, ExtensionList, E>(strategy, bundle, r1, f1);
        faultless_bundles_stay::<F, ReInitProposal, E>(strategy, bundle, r2, f2);
        faultless_bundles_stay::<F, ReInitProposal, E>(strategy, bundle, r3, f3);
        faultless_bundles_stay::<F, ExternalInit, E>(strategy, bundle, r4, f4);
    }
    if ignores_nothing(strategy) {
        strict_filters_find_no_fault::<F, ExtensionList, E>(strategy, bundle, r1, f1);
        strict_filters_find_no_fault::<F, ReInitProposal, E>(strategy, bundle, r2, f2);
        strict_filters_find_no_fault::<F, ReInitProposal, E>(strategy, bundle, r3, f3);
        strict_filters_find_no_fault::<F, ExternalInit, E>(strategy, bundle, r4, f4);
    }
}

proof fn lemma_nothing_wrong<F: FilterStrategy, P: Bundled, E>(
    strategy: F,
    bundle: BundleView,
    verdicts: Seq<Verdict<E>>,
)
    requires
        ignores_nothing(strategy),
        screened::<F, P, E>(strategy, bundle, verdicts) is Ok,
    ensures
        screened::<F, P, E>(strategy, bundle, verdicts) == Ok::<
            BundleView,
            ProposalFilterError<E>,
        >(bundle),
        forall|i: int| 0 <= i < P::list(bundle).len() ==> nothing_wrong(#[trigger] verdicts[i]),
{
    let items = P::list(bundle);
    failing_strategy_drops_nothing::<F, P, E>(strategy, bundle, verdicts);
    screening_decides_each::<F, P, E>(strategy, items, verdicts, seq![]);
    assert forall|i: int| 0 <= i < items.len() implies nothing_wrong(#[trigger] verdicts[i]) by {
        assert(decision(strategy, items, verdicts, i) is Ok);
        assert(!strategy.ignores(borrowed_info(&*items[i])));
    }
}

proof fn lemma_tree_is_changed<F: FilterStrategy, E>(
    strategy: F,
    bundle: BundleView,
    extensions: Seq<Extension>,
    replies: TreeReplies<E>,
    state: StateView,
)
    requires
        leaves_fit(bundle, extensions, replies),
        edit_gives(bundle, replies, state.tree, state.added_indexes, state.removed_leaves),
    ensures
        tree_changed::<F, E>(strategy, bundle, extensions, replies) == Ok::<
            StateView,
            ProposalFilterError<E>,
        >(StateView { proposals: bundle, external_leaf_index: None, ..state }),
{
    let updates = update_node_verdicts(
        bundle.updates,
        extensions,
        update_leaf_answers(replies, bundle.updates),
    );
    let senders = update_sender_verdicts::<E>(bundle.updates);
    assert forall|i: int| 0 <= i < bundle.updates.len() implies nothing_wrong(
        #[trigger] updates[i],
    ) && nothing_wrong(senders[i]) by {
        assert(bundle.updates[i].sender is Member);
        leaves_support_what_they_list::<E>(*bundle.updates[i].proposal.leaf_node, extensions);
    }
    assert forall|i: int| 0 <= i < bundle.updates.len() implies nothing_wrong(
        #[trigger] senders[i],
    ) by {
        assert(nothing_wrong(updates[i]) && nothing_wrong(senders[i]));
    }
    let packages = key_package_verdicts(
        bundle.additions,
        extensions,
        key_package_answers(replies, bundle.additions),
    );
    assert forall|i: int| 0 <= i < bundle.additions.len() implies nothing_wrong(
        #[trigger] packages[i],
    ) by {
        assert((replies.key_packages)(i, bundle.additions[i].proposal.key_package) is Ok);
        leaves_support_what_they_list::<E>(
            *bundle.additions[i].proposal.key_package.leaf_node,
            extensions,
        );
    }
    valid_proposals_stay::<F, UpdateProposal, E>(strategy, bundle, updates);
    valid_proposals_stay::<F, AddProposal, E>(strategy, bundle, packages);
    valid_proposals_stay::<F, UpdateProposal, E>(strategy, bundle, senders);
    lemma_without_nothing(bundle.additions);
    lemma_without_nothing(bundle.removals);
    lemma_without_nothing(bundle.updates);
}

proof fn lemma_strict_tree<F: FilterStrategy, E>(
    strategy: F,
    bundle: BundleView,
    extensions: Seq<Extension>,
    replies: TreeReplies<E>,
)
    requires
        ignores_nothing(strategy),
        impossible_ignored(strategy, replies),
    ensures
        tree_changed::<F, E>(strategy, bundle, extensions, replies) matches Ok(state) ==> {
            &&& leaves_fit(bundle, extensions, replies)
            &&& edit_gives(bundle, replies, state.tree, state.added_indexes, state.removed_leaves)
            &&& state.proposals == bundle
            &&& state.external_leaf_index is None
        },
{
    let updates = update_node_verdicts(
        bundle.updates,
        extensions,
        update_leaf_answers(replies, bundle.updates),
    );
    let packages = key_package_verdicts(
        bundle.additions,
        extensions,
        key_package_answers(replies, bundle.additions),
    );
    let senders = update_sender_verdicts::<E>(bundle.updates);
    if let Ok(state) = tree_changed::<F, E>(strategy, bundle, extensions, replies) {
        lemma_nothing_wrong::<F, UpdateProposal, E>(strategy, bundle, updates);
        lemma_nothing_wrong::<F, AddProposal, E>(strategy, bundle, packages);
        lemma_nothing_wrong::<F, UpdateProposal, E>(strategy, bundle, senders);
        assert forall|i: int|
            #![trigger bundle.updates[i]]
            0 <= i < bundle.updates.len() implies {
            &&& bundle.updates[i].sender matches Sender::Member(k) && (replies.update_leaves)(
                i,
                LeafIndex(k),
                bundle.updates[i].proposal.leaf_node,
            ) is Ok
            &&& lists_all(*bundle.updates[i].proposal.leaf_node, extensions)
        } by {
            assert(nothing_wrong(updates[i]));
            leaves_support_what_they_list::<E>(*bundle.updates[i].proposal.leaf_node, extensions);
        }
        assert forall|i: int|
            #![trigger bundle.additions[i]]
            0 <= i < bundle.additions.len() implies {
            &&& (replies.key_packages)(i, bundle.additions[i].proposal.key_package) is Ok
            &&& lists_all(*bundle.additions[i].proposal.key_package.leaf_node, extensions)
        } by {
            assert(nothing_wrong(packages[i]));
            leaves_support_what_they_list::<E>(
                *bundle.additions[i].proposal.key_package.leaf_node,
                extensions,
            );
        }
        if let Ok((tree, edits)) = edit_answer(replies, bundle) {
            let none = Set::<usize>::empty();
            assert(edits.invalid_additions =~= none);
            assert(edits.invalid_removals =~= none);
            assert(edits.invalid_updates =~= none);
            lemma_without_nothing(bundle.additions);
            lemma_without_nothing(bundle.removals);
            lemma_without_nothing(bundle.updates);
        }
    }
}

proof fn lemma_new_extensions<E>(
    bundle: BundleView,
    replies: Replies<E>,
    tree: Seq<Option<Arc<LeafNode>>>,
)
    requires
        bundle.group_context_extensions.len() > 0,
    ensures
        ({
            let list = bundle.group_context_extensions[0].proposal;
            (replies.required_capabilities)(list) matches Ok(capabilities) ==> (
            group_extensions_supported(
                list@,
                capabilities,
                tree,
                leaf_check_answers(replies, tree, capabilities),
            ) is Ok <==> {
                &&& capabilities matches Some(required) ==> forall|i: int|
                    #![trigger members(tree)[i]]
                    0 <= i < members(tree).len() ==> (replies.leaf_checks)(
                        i,
                        members(tree)[i],
                        required,
                    ) is Ok
                &&& all_list_all(tree, list.0@)
            })
        }),
{
    let list = bundle.group_context_extensions[0].proposal;
    trees_support_what_all_list::<E>(tree, list@);
    if let Ok(Some(required)) = (replies.required_capabilities)(list) {
        let answers = leaf_check_answers(replies, tree, Some(required));
        no_failure_is_success_of_all(answers, 0);
        if forall|i: int| 0 <= i < answers.len() ==> #[trigger] answers[i] is Ok {
            assert forall|i: int|
                #![trigger members(tree)[i]]
                0 <= i < members(tree).len() implies (replies.leaf_checks)(
                i,
                members(tree)[i],
                required,
            ) is Ok by {
                assert(answers[i] is Ok);
            }
        } else {
            let i = choose|i: int| 0 <= i < answers.len() && !(#[trigger] answers[i] is Ok);
            assert((replies.leaf_checks)(i, members(tree)[i], required) is Err);
        }
    }
}

proof fn lemma_is_changed<F: FilterStrategy, E>(
    applier: ProposalApplier<E>,
    strategy: F,
    bundle: BundleView,
    replies: Replies<E>,
    state: StateView,
)
    requires
        rightly_changed(applier, bundle, replies, state),
        state.proposals == bundle,
        state.external_leaf_index is None,
    ensures
        changed::<F, E>(applier, strategy, bundle, replies) == Ok::<
            StateView,
            ProposalFilterError<E>,
        >(state),
{
    if bundle.group_context_extensions.len() == 0 {
        let cleared = without_group_context_extensions(bundle);
        assert(cleared.group_context_extensions =~= bundle.group_context_extensions);
        assert(cleared == bundle);
        lemma_tree_is_changed::<F, E>(
            strategy,
            bundle,
            applier.original_group_extensions@,
            replies.original,
            state,
        );
    } else {
        lemma_tree_is_changed::<F, E>(strategy, bundle, seq![], replies.trial, state);
        lemma_new_extensions::<E>(bundle, replies, state.tree);
    }
}

proof fn lemma_strict_changes<F: FilterStrategy, E>(
    applier: ProposalApplier<E>,
    strategy: F,
    bundle: BundleView,
    replies: Replies<E>,
)
    requires
        ignores_nothing(strategy),
        impossible_ignored(strategy, replies.trial),
        impossible_ignored(strategy, replies.original),
    ensures
        changed::<F, E>(applier, strategy, bundle, replies) matches Ok(state) ==> {
            &&& rightly_changed(applier, bundle, replies, state)
            &&& state.proposals == bundle
            &&& state.external_leaf_index is None
        },
{
    if bundle.group_context_extensions.len() == 0 {
        let cleared = without_group_context_extensions(bundle);
        assert(cleared.group_context_extensions =~= bundle.group_context_extensions);
        assert(cleared == bundle);
        lemma_strict_tree::<F, E>(
            strategy,
            bundle,
            applier.original_group_extensions@,
            replies.original,
        );
    } else {
        lemma_strict_tree::<F, E>(strategy, bundle, seq![], replies.trial);
        assert(!strategy.ignores(borrowed_info(&*bundle.group_context_extensions[0])));
        if let Ok(state) = tree_changed::<F, E>(strategy, bundle, seq![], replies.trial) {
            lemma_new_extensions::<E>(bundle, replies, state.tree);
        }
    }
}

proof fn lemma_custom<F: FilterStrategy, E>(strategy: F, state: StateView)
    ensures
        ({
            let r = custom_filtered::<F, E>(strategy, state);
            let valid = custom_listed(state.proposals, state.tree);
            &&& valid ==> r == Ok::<StateView, ProposalFilterError<E>>(state)
            &&& ignores_nothing(strategy) && r is Ok ==> valid && r == Ok::<
                StateView,
                ProposalFilterError<E>,
            >(state)
        }),
{
    let left = unlisted_custom_proposals_are_refused::<F, E>(strategy, state);
    let faults = Seq::new(
        state.proposals.custom_proposals.len(),
        |i: int|
            {
                let t = state.proposals.custom_proposals[i].proposal.proposal_type;
                if all_list_proposal(state.tree, t) {
                    None
                } else {
                    Some(ProposalFilterError::<E>::UnsupportedCustomProposal(t))
                }
            },
    );
    assert(filters::<F, CustomProposal, E>(strategy, state.proposals, left, faults));
    if custom_listed(state.proposals, state.tree) {
        faultless_bundles_stay::<F, CustomProposal, E>(strategy, state.proposals, left, faults);
    }
    if ignores_nothing(strategy) {
        strict_filters_find_no_fault::<F, CustomProposal, E>(
            strategy,
            state.proposals,
            left,
            faults,
        );
        if left is Ok {
            assert forall|i: int|
                0 <= i < state.proposals.custom_proposals.len() implies all_list_proposal(
                state.tree,
                (#[trigger] state.proposals.custom_proposals[i]).proposal.proposal_type,
            ) by {
                assert(faults[i] is None);
            }
        }
    }
}

// ---------------------------------------------------------------------------
// Members
// ---------------------------------------------------------------------------

/// A member's commit that breaks no rule is applied, whatever the strategy: with all of its
/// proposals, and to the tree, the new leaves and the removed ones that the edit gave.
pub proof fn valid_member_commits_are_applied<F: FilterStrategy, E>(
    applier: ProposalApplier<E>,
    strategy: F,
    committer: LeafIndex,
    bundle: BundleView,
    replies: Replies<E>,
    state: StateView,
)
    requires
        valid_member_commit(applier, committer, bundle, replies, state),
    ensures
        applied::<F, E>(
            applier,
            strategy,
            Sender::Member(committer.0),
            bundle,
            replies,
        ) == Ok::<StateView, ProposalFilterError<E>>(state),
{
    let g = governing(&strategy, Committer::Member(committer));
    lemma_early::<F, E>(applier, strategy, committer, bundle);
    lemma_psks::<Governing<'_, F>, E>(g, bundle, applier.kdf_extract_size, replies);
    lemma_senders::<F, E>(strategy, bundle, replies);
    lemma_late::<F, E>(applier, strategy, committer, bundle);
    lemma_is_changed::<Governing<'_, F>, E>(applier, g, bundle, replies, state);
    lemma_custom::<F, E>(strategy, state);
}

/// Under a strategy that ignores nothing a member's commit is applied only if it breaks no rule,
/// if the edit of the tree stops at a change that is not possible.
pub proof fn strict_member_commits_are_valid<F: FilterStrategy, E>(
    applier: ProposalApplier<E>,
    strategy: F,
    committer: LeafIndex,
    bundle: BundleView,
    replies: Replies<E>,
)
    requires
        ignores_nothing(strategy),
        impossible_ignored(strategy, replies.trial),
        impossible_ignored(strategy, replies.original),
    ensures
        applied::<F, E>(
            applier,
            strategy,
            Sender::Member(committer.0),
            bundle,
            replies,
        ) matches Ok(state) ==> valid_member_commit(applier, committer, bundle, replies, state),
{
    let g = governing(&strategy, Committer::Member(committer));
    assert(ignores_nothing(g));
    lemma_early::<F, E>(applier, strategy, committer, bundle);
    lemma_psks::<Governing<'_, F>, E>(g, bundle, applier.kdf_extract_size, replies);
    lemma_senders::<F, E>(strategy, bundle, replies);
    lemma_late::<F, E>(applier, strategy, committer, bundle);
    assert(impossible_ignored(g, replies.trial)) by {
        lemma_same_for_member(strategy, committer, replies.trial);
    }
    assert(impossible_ignored(g, replies.original)) by {
        lemma_same_for_member(strategy, committer, replies.original);
    }
    lemma_strict_changes::<Governing<'_, F>, E>(applier, g, bundle, replies);
    if let Ok(s) = changed::<Governing<'_, F>, E>(applier, g, bundle, replies) {
        lemma_custom::<F, E>(strategy, s);
    }
}

proof fn lemma_same_for_member<F: FilterStrategy, E>(
    strategy: F,
    committer: LeafIndex,
    replies: TreeReplies<E>,
)
    requires
        impossible_ignored(strategy, replies),
    ensures
        impossible_ignored(governing(&strategy, Committer::Member(committer)), replies),
{
    let g = governing(&strategy, Committer::Member(committer));
    assert forall|bundle: BundleView| #[trigger]
        edit_answer(replies, bundle) matches Ok((tree, edits)) ==> edits_ignored(
            g,
            edits,
            bundle,
        ) by {
        if let Ok((tree, edits)) = edit_answer(replies, bundle) {
            assert(edits_ignored(strategy, edits, bundle));
        }
    }
}

// ---------------------------------------------------------------------------
// Newcomers
// ---------------------------------------------------------------------------

proof fn lemma_new_member<E>(applier: ProposalApplier<E>, bundle: BundleView)
    ensures
        ({
            let r = new_member_filtered::<E>(applier, bundle);
            let valid = holds_joining_only(bundle) && all_rightly_sent(applier, bundle);
            &&& valid ==> r == Ok::<BundleView, ProposalFilterError<E>>(bundle)
            &&& r is Ok ==> valid && r == Ok::<BundleView, ProposalFilterError<E>>(bundle)
        }),
{
    assert(ignores_nothing(FailInvalidProposal));
    newcomers_commit_few_types::<E>(bundle);
    newcomers_commit_by_value::<E>(bundle);
    lemma_proposers::<FailInvalidProposal, E>(applier, FailInvalidProposal, bundle);
}

/// A commit by which somebody joins and that breaks no rule is applied, whatever the strategy,
/// and whether or not it removes an earlier self: with all of its proposals, to the tree with the
/// new leaf, and with the place that the leaf was given.
pub proof fn valid_newcomers_join<F: FilterStrategy, E>(
    applier: ProposalApplier<E>,
    strategy: F,
    bundle: BundleView,
    replies: Replies<E>,
    edited: Seq<Option<Arc<LeafNode>>>,
    indexes: Seq<LeafIndex>,
    state: StateView,
)
    requires
        valid_joining(applier, bundle, replies, edited, indexes, state),
    ensures
        applied::<F, E>(applier, strategy, Sender::NewMemberCommit, bundle, replies) == Ok::<
            StateView,
            ProposalFilterError<E>,
        >(state),
{
    let leaf = applier.external_leaf->0;
    let g = governing(&strategy, Committer::NewMember(leaf));
    newcomers_remove_one_leaf::<E>(bundle, applier.original_tree@);
    lemma_new_member::<E>(applier, bundle);
    lemma_psks::<Governing<'_, F>, E>(g, bundle, applier.kdf_extract_size, replies);
    let before = StateView { tree: edited, external_leaf_index: None, ..state };
    assert(rightly_changed(applier, bundle, replies, before));
    lemma_is_changed::<Governing<'_, F>, E>(applier, g, bundle, replies, before);
    lemma_custom::<F, E>(strategy, state);
    assert(changed_and_concluded::<F, E>(
        applier,
        strategy,
        Committer::NewMember(leaf),
        bundle,
        replies,
    ) == Ok::<StateView, ProposalFilterError<E>>(state));
    assert(after_self_removal::<F, E>(applier, strategy, leaf, bundle, replies) == Ok::<
        StateView,
        ProposalFilterError<E>,
    >(state));
}

/// Somebody joins only by a commit that breaks no rule, if the strategy ignores no custom
/// proposal and the edit of the tree stops at a change that is not possible.
pub proof fn newcomers_join_by_valid_commits<F: FilterStrategy, E>(
    applier: ProposalApplier<E>,
    strategy: F,
    bundle: BundleView,
    replies: Replies<E>,
) -> (r: (Seq<Option<Arc<LeafNode>>>, Seq<LeafIndex>))
    requires
        ignores_nothing(strategy),
        impossible_ignored(FailInvalidProposal, replies.trial),
        impossible_ignored(FailInvalidProposal, replies.original),
    ensures
        applied::<F, E>(
            applier,
            strategy,
            Sender::NewMemberCommit,
            bundle,
            replies,
        ) matches Ok(state) ==> valid_joining(applier, bundle, replies, r.0, r.1, state),
{
    let leaf = applier.external_leaf->0;
    let g = governing(&strategy, Committer::NewMember(leaf));
    assert(ignores_nothing(g));
    newcomers_remove_one_leaf::<E>(bundle, applier.original_tree@);
    lemma_new_member::<E>(applier, bundle);
    lemma_psks::<Governing<'_, F>, E>(g, bundle, applier.kdf_extract_size, replies);
    assert(impossible_ignored(g, replies.trial)) by {
        lemma_same_for_newcomer::<F, E>(strategy, leaf, replies.trial);
    }
    assert(impossible_ignored(g, replies.original)) by {
        lemma_same_for_newcomer::<F, E>(strategy, leaf, replies.original);
    }
    lemma_strict_changes::<Governing<'_, F>, E>(applier, g, bundle, replies);
    if let Ok(before) = changed::<Governing<'_, F>, E>(applier, g, bundle, replies) {
        if let Ok((tree, indexes)) = (replies.external_leaf)(before.tree, leaf) {
            let with_leaf = StateView {
                tree,
                external_leaf_index: if indexes.len() > 0 {
                    Some(indexes[0])
                } else {
                    None
                },
                ..before
            };
            lemma_custom::<F, E>(strategy, with_leaf);
            if let Ok(state) = applied::<F, E>(
                applier,
                strategy,
                Sender::NewMemberCommit,
                bundle,
                replies,
            ) {
                assert(after_self_removal::<F, E>(applier, strategy, leaf, bundle, replies) == Ok::<
                    StateView,
                    ProposalFilterError<E>,
                >(state));
            }
            (before.tree, indexes)
        } else {
            (before.tree, seq![])
        }
    } else {
        (seq![], seq![])
    }
}

proof fn lemma_same_for_newcomer<F: FilterStrategy, E>(
    strategy: F,
    leaf: Arc<LeafNode>,
    replies: TreeReplies<E>,
)
    requires
        impossible_ignored(FailInvalidProposal, replies),
    ensures
        impossible_ignored(governing(&strategy, Committer::NewMember(leaf)), replies),
{
    let g = governing(&strategy, Committer::NewMember(leaf));
    assert forall|bundle: BundleView| #[trigger]
        edit_answer(replies, bundle) matches Ok((tree, edits)) ==> edits_ignored(
            g,
            edits,
            bundle,
        ) by {
        if let Ok((tree, edits)) = edit_answer(replies, bundle) {
            assert(edits_ignored(FailInvalidProposal, edits, bundle));
        }
    }
}

} // verus!
