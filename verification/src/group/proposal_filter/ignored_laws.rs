//! Nothing is dropped from a commit but what its strategy ignores.

use vstd::prelude::*;

use std::sync::Arc;

use crate::extension::{Extension, ExtensionList, ExternalSendersExt};
use crate::group::proposal::{
    AddProposal, BorrowedProposal, CustomProposal, ExternalInit, PreSharedKeyProposal,
    ProposalInfo, ReInitProposal, RemoveProposal, UpdateProposal,
};
use crate::group::proposal_filter::bundle::{
    picks, without_group_context_extensions, BundleView, Bundled,
};
use crate::group::proposal_filter::commit_laws::{ignores_nothing, impossible_ignored};
use crate::group::proposal_filter::error::ProposalFilterError;
use crate::group::proposal_filter::filtering::{
    custom_verdicts, extra_extensions_verdicts, lone_reinit_verdicts, no_external_init_verdicts,
    only_reinit, proposer_verdicts, proposers_filtered, proposers_screened,
    reinit_version_verdicts, self_removal_verdicts, self_update_verdicts, usable_senders,
};
use crate::group::proposal_filter::laws::late_filters_establish_rules;
use crate::group::proposal_filter::leaf_conflicts::{
    leaf_conflicts_filtered, removal_verdicts, update_verdicts,
};
use crate::group::proposal_filter::outcome::{
    applied, changed, edit_answer, external_senders_answers, external_senders_verdicts, governing,
    key_package_answers, key_package_verdicts, member_filtered_early, member_filtered_late,
    psk_answers, tree_changed, update_leaf_answers, update_node_verdicts, update_sender_verdicts,
    Committer, Governing, ProposalApplier, Replies, TreeReplies,
};
use crate::group::proposal_filter::psk::psk_verdicts;
use crate::group::proposal_filter::screening::{
    decision, flagged_positions, screened, screened_flags, screening_decides_each, selected,
    selection_keeps_order, Verdict,
};
use crate::group::proposal_filter::state::{
    after_edit, custom_filtered, outside, positions_ignored, without,
};
use crate::group::proposal_filter::strategy::{
    borrowed_info, FailInvalidProposal, FilterStrategy, IgnoreInvalidByRefProposal,
};
use crate::group::sender::Sender;
use crate::tree_kem::{LeafIndex, LeafNode};

verus! {

/// The items come from these positions of `from`, in order, and no position is left out
/// whose proposal the strategy does not ignore.
pub open spec fn picks_unignored<F: FilterStrategy, P: Bundled>(
    strategy: F,
    items: Seq<Arc<ProposalInfo<P>>>,
    from: Seq<Arc<ProposalInfo<P>>>,
    positions: Seq<int>,
) -> bool {
    &&& picks(items, from, positions)
    &&& forall|i: int|
        0 <= i < from.len() && !strategy.ignores(borrowed_info(&*#[trigger] from[i]))
            ==> positions.contains(i)
}

/// `items` is what is left of `from` without some proposals that the strategy ignores: every
/// other has its own place in it, in the same order.
pub open spec fn unignored_stay<F: FilterStrategy, P: Bundled>(
    strategy: F,
    items: Seq<Arc<ProposalInfo<P>>>,
    from: Seq<Arc<ProposalInfo<P>>>,
) -> bool {
    exists|positions: Seq<int>| picks_unignored(strategy, items, from, positions)
}

/// `bundle` holds all proposals of `from` that the strategy does not ignore.
pub open spec fn unignored_kept<F: FilterStrategy>(
    strategy: F,
    bundle: BundleView,
    from: BundleView,
) -> bool {
    &&& unignored_stay(strategy, bundle.additions, from.additions)
    &&& unignored_stay(strategy, bundle.updates, from.updates)
    &&& unignored_stay(strategy, bundle.removals, from.removals)
    &&& unignored_stay(strategy, bundle.psks, from.psks)
    &&& unignored_stay(strategy, bundle.reinitializations, from.reinitializations)
    &&& unignored_stay(strategy, bundle.external_initializations, from.external_initializations)
    &&& unignored_stay(strategy, bundle.group_context_extensions, from.group_context_extensions)
    &&& unignored_stay(strategy, bundle.custom_proposals, from.custom_proposals)
}

/// The items come from these positions of `from`, in order, and no position is left out
/// whose proposal is part of the commit itself, and not by reference.
pub open spec fn picks_by_value<P>(
    items: Seq<Arc<ProposalInfo<P>>>,
    from: Seq<Arc<ProposalInfo<P>>>,
    positions: Seq<int>,
) -> bool {
    &&& picks(items, from, positions)
    &&& forall|i: int|
        0 <= i < from.len() && (#[trigger] from[i]).proposal_ref is None ==> positions.contains(i)
}

/// `items` is what is left of `from` without some proposals by reference: every other has its
/// own place in it, in the same order.
pub open spec fn by_value_stay<P>(
    items: Seq<Arc<ProposalInfo<P>>>,
    from: Seq<Arc<ProposalInfo<P>>>,
) -> bool {
    exists|positions: Seq<int>| picks_by_value(items, from, positions)
}

/// `bundle` holds all proposals of `from` that are part of the commit itself.
pub open spec fn by_value_kept(bundle: BundleView, from: BundleView) -> bool {
    &&& by_value_stay(bundle.additions, from.additions)
    &&& by_value_stay(bundle.updates, from.updates)
    &&& by_value_stay(bundle.removals, from.removals)
    &&& by_value_stay(bundle.psks, from.psks)
    &&& by_value_stay(bundle.reinitializations, from.reinitializations)
    &&& by_value_stay(bundle.external_initializations, from.external_initializations)
    &&& by_value_stay(bundle.group_context_extensions, from.group_context_extensions)
    &&& by_value_stay(bundle.custom_proposals, from.custom_proposals)
}

/// The strategy ignores proposals by reference at most.
pub open spec fn ignores_by_ref_only<F: FilterStrategy>(strategy: F) -> bool {
    forall|p: ProposalInfo<BorrowedProposal<'_>>|
        #[trigger]
        strategy.ignores(p) ==> p.proposal_ref is Some
}

/// [`IgnoreInvalidByRefProposal`] ignores proposals by reference, and no others;
/// [`FailInvalidProposal`] ignores none.
pub proof fn what_strategies_ignore(proposal: ProposalInfo<BorrowedProposal<'_>>)
    ensures
        ignores_by_ref_only(IgnoreInvalidByRefProposal),
        IgnoreInvalidByRefProposal.ignores(proposal) <==> proposal.proposal_ref is Some,
        ignores_nothing(FailInvalidProposal),
{
}

proof fn lemma_stay_on<F: FilterStrategy, P: Bundled>(
    strategy: F,
    a: Seq<Arc<ProposalInfo<P>>>,
    b: Seq<Arc<ProposalInfo<P>>>,
    c: Seq<Arc<ProposalInfo<P>>>,
)
    requires
        unignored_stay(strategy, a, b),
        unignored_stay(strategy, b, c),
    ensures
        unignored_stay(strategy, a, c),
{
    let p = choose|p: Seq<int>| picks_unignored(strategy, a, b, p);
    let q = choose|q: Seq<int>| picks_unignored(strategy, b, c, q);
    let positions = Seq::new(a.len(), |k: int| q[p[k]]);
    assert forall|i: int|
        0 <= i < c.len() && !strategy.ignores(
            borrowed_info(&*#[trigger] c[i]),
        ) implies positions.contains(i) by {
        let j = choose|j: int| 0 <= j < q.len() && q[j] == i;
        assert(b[j] == c[i]);
        assert(p.contains(j));
        let k = choose|k: int| 0 <= k < p.len() && p[k] == j;
        assert(positions[k] == i);
    }
    assert(picks_unignored(strategy, a, c, positions));
}

/// What is kept of what is kept is kept.
pub proof fn unignored_kept_on<F: FilterStrategy>(
    strategy: F,
    a: BundleView,
    b: BundleView,
    c: BundleView,
)
    requires
        unignored_kept(strategy, a, b),
        unignored_kept(strategy, b, c),
    ensures
        unignored_kept(strategy, a, c),
{
    lemma_stay_on(strategy, a.additions, b.additions, c.additions);
    lemma_stay_on(strategy, a.updates, b.updates, c.updates);
    lemma_stay_on(strategy, a.removals, b.removals, c.removals);
    lemma_stay_on(strategy, a.psks, b.psks, c.psks);
    lemma_stay_on(strategy, a.reinitializations, b.reinitializations, c.reinitializations);
    lemma_stay_on(
        strategy,
        a.external_initializations,
        b.external_initializations,
        c.external_initializations,
    );
    lemma_stay_on(
        strategy,
        a.group_context_extensions,
        b.group_context_extensions,
        c.group_context_extensions,
    );
    lemma_stay_on(strategy, a.custom_proposals, b.custom_proposals, c.custom_proposals);
}

/// Lists that do not change lose nothing.
proof fn lemma_kept<F: FilterStrategy>(strategy: F, b: BundleView, bundle: BundleView)
    requires
        b.additions == bundle.additions || unignored_stay(
            strategy,
            b.additions,
            bundle.additions,
        ),
        b.updates == bundle.updates || unignored_stay(strategy, b.updates, bundle.updates),
        b.removals == bundle.removals || unignored_stay(strategy, b.removals, bundle.removals),
        b.psks == bundle.psks || unignored_stay(strategy, b.psks, bundle.psks),
        b.reinitializations == bundle.reinitializations || unignored_stay(
            strategy,
            b.reinitializations,
            bundle.reinitializations,
        ),
        b.external_initializations == bundle.external_initializations || unignored_stay(
            strategy,
            b.external_initializations,
            bundle.external_initializations,
        ),
        b.group_context_extensions == bundle.group_context_extensions || unignored_stay(
            strategy,
            b.group_context_extensions,
            bundle.group_context_extensions,
        ),
        b.custom_proposals == bundle.custom_proposals || unignored_stay(
            strategy,
            b.custom_proposals,
            bundle.custom_proposals,
        ),
    ensures
        unignored_kept(strategy, b, bundle),
{
    lemma_all_stay(strategy, bundle.additions);
    lemma_all_stay(strategy, bundle.updates);
    lemma_all_stay(strategy, bundle.removals);
    lemma_all_stay(strategy, bundle.psks);
    lemma_all_stay(strategy, bundle.reinitializations);
    lemma_all_stay(strategy, bundle.external_initializations);
    lemma_all_stay(strategy, bundle.group_context_extensions);
    lemma_all_stay(strategy, bundle.custom_proposals);
}

proof fn lemma_all_stay<F: FilterStrategy, P: Bundled>(
    strategy: F,
    items: Seq<Arc<ProposalInfo<P>>>,
)
    ensures
        unignored_stay(strategy, items, items),
{
    let positions = Seq::new(items.len(), |k: int| k);
    assert forall|i: int| 0 <= i < items.len() implies #[trigger] positions.contains(i) by {
        assert(positions[i] == i);
    }
    assert(picks_unignored(strategy, items, items, positions));
}

/// Screening drops no proposal but those that the strategy ignores.
pub proof fn screening_keeps_unignored<F: FilterStrategy, P: Bundled, E>(
    strategy: F,
    bundle: BundleView,
    verdicts: Seq<Verdict<E>>,
)
    ensures
        screened::<F, P, E>(strategy, bundle, verdicts) matches Ok(b) ==> {
            &&& unignored_stay(strategy, P::list(b), P::list(bundle))
            &&& b == P::with_list(bundle, P::list(b))
        },
{
    let items = P::list(bundle);
    screening_decides_each::<F, P, E>(strategy, items, verdicts, seq![]);
    match screened_flags::<F, P, E>(strategy, items, verdicts, seq![]) {
        Ok(all) => {
            assert forall|i: int|
                0 <= i < items.len() && !strategy.ignores(
                    borrowed_info(&*#[trigger] items[i]),
                ) implies all[i] by {
                assert(decision(strategy, items, verdicts, i) is Ok);
            }
            lemma_flagged_stay(strategy, items, all);
            P::list_laws(bundle, selected(items, all));
        },
        Err(_) => {},
    }
}

proof fn lemma_flagged_stay<F: FilterStrategy, P: Bundled>(
    strategy: F,
    items: Seq<Arc<ProposalInfo<P>>>,
    flags: Seq<bool>,
)
    requires
        forall|i: int|
            0 <= i < items.len() && !strategy.ignores(borrowed_info(&*#[trigger] items[i]))
                ==> flags[i],
    ensures
        unignored_stay(strategy, selected(items, flags), items),
{
    let n = items.len() as int;
    selection_keeps_order(items, flags, n);
    assert(picks_unignored(
        strategy,
        selected(items, flags),
        items,
        flagged_positions(flags, n),
    ));
}

proof fn lemma_without_ignored<F: FilterStrategy, P: Bundled>(
    strategy: F,
    items: Seq<Arc<ProposalInfo<P>>>,
    set: Set<usize>,
)
    requires
        positions_ignored(strategy, set, items),
    ensures
        unignored_stay(strategy, without(items, set), items),
{
    assert forall|i: int|
        0 <= i < items.len() && !strategy.ignores(
            borrowed_info(&*#[trigger] items[i]),
        ) implies outside(set, items.len())[i] by {
        if i <= usize::MAX && set.contains(i as usize) {
            assert(strategy.ignores(borrowed_info(&*items[i])));
        }
    }
    lemma_flagged_stay(strategy, items, outside(set, items.len()));
}

proof fn lemma_proposers_unignored<F: FilterStrategy, E>(
    strategy: F,
    tree: Seq<Option<Arc<LeafNode>>>,
    senders: Option<ExternalSendersExt>,
    bundle: BundleView,
)
    ensures
        proposers_filtered::<F, E>(strategy, tree, senders, bundle) matches Ok(b)
            ==> unignored_kept(strategy, b, bundle),
{
    let v1 = proposer_verdicts::<AddProposal, E>(tree, senders, bundle.additions);
    screening_keeps_unignored::<F, AddProposal, E>(strategy, bundle, v1);
    if let Ok(b1) = proposers_screened::<F, AddProposal, E>(strategy, tree, senders, bundle) {
        lemma_kept(strategy, b1, bundle);
        let v2 = proposer_verdicts::<UpdateProposal, E>(tree, senders, b1.updates);
        screening_keeps_unignored::<F, UpdateProposal, E>(strategy, b1, v2);
        if let Ok(b2) = proposers_screened::<F, UpdateProposal, E>(strategy, tree, senders, b1) {
            lemma_kept(strategy, b2, b1);
            unignored_kept_on(strategy, b2, b1, bundle);
            let v3 = proposer_verdicts::<RemoveProposal, E>(tree, senders, b2.removals);
            screening_keeps_unignored::<F, RemoveProposal, E>(strategy, b2, v3);
            if let Ok(b3) = proposers_screened::<F, RemoveProposal, E>(
                strategy,
                tree,
                senders,
                b2,
            ) {
                lemma_kept(strategy, b3, b2);
                unignored_kept_on(strategy, b3, b2, bundle);
                let v4 = proposer_verdicts::<PreSharedKeyProposal, E>(tree, senders, b3.psks);
                screening_keeps_unignored::<F, PreSharedKeyProposal, E>(strategy, b3, v4);
                if let Ok(b4) = proposers_screened::<F, PreSharedKeyProposal, E>(
                    strategy,
                    tree,
                    senders,
                    b3,
                ) {
                    lemma_kept(strategy, b4, b3);
                    unignored_kept_on(strategy, b4, b3, bundle);
                    lemma_last_proposers_unignored::<F, E>(strategy, tree, senders, b4);
                    if let Ok(b) = proposers_filtered::<F, E>(strategy, tree, senders, bundle) {
                        unignored_kept_on(strategy, b, b4, bundle);
                    }
                }
            }
        }
    }
}

proof fn lemma_last_proposers_unignored<F: FilterStrategy, E>(
    strategy: F,
    tree: Seq<Option<Arc<LeafNode>>>,
    senders: Option<ExternalSendersExt>,
    bundle: BundleView,
)
    ensures
        proposers_screened::<F, ReInitProposal, E>(strategy, tree, senders, bundle) matches Ok(b1)
            ==> (proposers_screened::<F, ExternalInit, E>(strategy, tree, senders, b1) matches Ok(
            b2,
        ) ==> (proposers_screened::<F, ExtensionList, E>(strategy, tree, senders, b2) matches Ok(b3)
            ==> unignored_kept(strategy, b3, bundle))),
{
    let v1 = proposer_verdicts::<ReInitProposal, E>(tree, senders, bundle.reinitializations);
    screening_keeps_unignored::<F, ReInitProposal, E>(strategy, bundle, v1);
    if let Ok(b1) = proposers_screened::<F, ReInitProposal, E>(strategy, tree, senders, bundle) {
        lemma_kept(strategy, b1, bundle);
        let v2 = proposer_verdicts::<ExternalInit, E>(tree, senders, b1.external_initializations);
        screening_keeps_unignored::<F, ExternalInit, E>(strategy, b1, v2);
        if let Ok(b2) = proposers_screened::<F, ExternalInit, E>(strategy, tree, senders, b1) {
            lemma_kept(strategy, b2, b1);
            unignored_kept_on(strategy, b2, b1, bundle);
            let v3 = proposer_verdicts::<ExtensionList, E>(
                tree,
                senders,
                b2.group_context_extensions,
            );
            screening_keeps_unignored::<F, ExtensionList, E>(strategy, b2, v3);
            if let Ok(b3) = proposers_screened::<F, ExtensionList, E>(
                strategy,
                tree,
                senders,
                b2,
            ) {
                lemma_kept(strategy, b3, b2);
                unignored_kept_on(strategy, b3, b2, bundle);
            }
        }
    }
}

proof fn lemma_early_filters_unignored<F: FilterStrategy, E>(
    applier: ProposalApplier<E>,
    strategy: F,
    committer: LeafIndex,
    bundle: BundleView,
)
    ensures
        member_filtered_early::<F, E>(applier, strategy, committer, bundle) matches Ok(b)
            ==> unignored_kept(strategy, b, bundle),
{
    let tree = applier.original_tree@;
    let senders = usable_senders(applier.external_senders);
    lemma_proposers_unignored::<F, E>(strategy, tree, senders, bundle);
    if let Ok(b1) = proposers_filtered::<F, E>(strategy, tree, senders, bundle) {
        let v1 = self_update_verdicts::<E>(committer, b1.updates);
        screening_keeps_unignored::<F, UpdateProposal, E>(strategy, b1, v1);
        if let Ok(b2) = screened::<F, UpdateProposal, E>(strategy, b1, v1) {
            lemma_kept(strategy, b2, b1);
            unignored_kept_on(strategy, b2, b1, bundle);
            let v2 = self_removal_verdicts::<E>(committer, b2.removals);
            screening_keeps_unignored::<F, RemoveProposal, E>(strategy, b2, v2);
            if let Ok(b3) = screened::<F, RemoveProposal, E>(strategy, b2, v2) {
                lemma_kept(strategy, b3, b2);
                unignored_kept_on(strategy, b3, b2, bundle);
                let v3 = removal_verdicts::<E>(b3.removals);
                screening_keeps_unignored::<F, RemoveProposal, E>(strategy, b3, v3);
                if let Ok(b4) = screened::<F, RemoveProposal, E>(strategy, b3, v3) {
                    lemma_kept(strategy, b4, b3);
                    unignored_kept_on(strategy, b4, b3, bundle);
                    let v4 = update_verdicts::<E>(b3.removals, b3.updates);
                    screening_keeps_unignored::<F, UpdateProposal, E>(strategy, b4, v4);
                    if let Ok(b5) = screened::<F, UpdateProposal, E>(strategy, b4, v4) {
                        lemma_kept(strategy, b5, b4);
                        unignored_kept_on(strategy, b5, b4, bundle);
                        assert(leaf_conflicts_filtered::<F, E>(strategy, b3) == Ok::<
                            BundleView,
                            ProposalFilterError<E>,
                        >(b5));
                    }
                }
            }
        }
    }
}

proof fn lemma_late_filters_unignored<F: FilterStrategy, E>(
    applier: ProposalApplier<E>,
    strategy: F,
    committer: LeafIndex,
    bundle: BundleView,
)
    ensures
        member_filtered_late::<F, E>(applier, strategy, committer, bundle) matches Ok(b)
            ==> unignored_kept(strategy, b, bundle),
{
    let v1 = extra_extensions_verdicts::<E>(bundle.group_context_extensions);
    screening_keeps_unignored::<F, ExtensionList, E>(strategy, bundle, v1);
    if let Ok(b1) = screened::<F, ExtensionList, E>(strategy, bundle, v1) {
        lemma_kept(strategy, b1, bundle);
        let v2 = reinit_version_verdicts::<E>(applier.protocol_version, b1.reinitializations);
        screening_keeps_unignored::<F, ReInitProposal, E>(strategy, b1, v2);
        if let Ok(b2) = screened::<F, ReInitProposal, E>(strategy, b1, v2) {
            lemma_kept(strategy, b2, b1);
            unignored_kept_on(strategy, b2, b1, bundle);
            let v3 = lone_reinit_verdicts::<E>(only_reinit(b2), b2.reinitializations);
            screening_keeps_unignored::<F, ReInitProposal, E>(strategy, b2, v3);
            if let Ok(b3) = screened::<F, ReInitProposal, E>(strategy, b2, v3) {
                lemma_kept(strategy, b3, b2);
                unignored_kept_on(strategy, b3, b2, bundle);
                let v4 = no_external_init_verdicts::<E>(committer, b3.external_initializations);
                screening_keeps_unignored::<F, ExternalInit, E>(strategy, b3, v4);
                if let Ok(b4) = screened::<F, ExternalInit, E>(strategy, b3, v4) {
                    lemma_kept(strategy, b4, b3);
                    unignored_kept_on(strategy, b4, b3, bundle);
                }
            }
        }
    }
}

proof fn lemma_tree_changes_unignored<F: FilterStrategy, E>(
    strategy: F,
    bundle: BundleView,
    extensions: Seq<Extension>,
    replies: TreeReplies<E>,
)
    requires
        impossible_ignored(strategy, replies),
    ensures
        tree_changed::<F, E>(strategy, bundle, extensions, replies) matches Ok(state)
            ==> unignored_kept(strategy, state.proposals, bundle),
{
    let v1 = update_node_verdicts(
        bundle.updates,
        extensions,
        update_leaf_answers(replies, bundle.updates),
    );
    screening_keeps_unignored::<F, UpdateProposal, E>(strategy, bundle, v1);
    if let Ok(b1) = screened::<F, UpdateProposal, E>(strategy, bundle, v1) {
        lemma_kept(strategy, b1, bundle);
        let v2 = key_package_verdicts(
            b1.additions,
            extensions,
            key_package_answers(replies, b1.additions),
        );
        screening_keeps_unignored::<F, AddProposal, E>(strategy, b1, v2);
        if let Ok(b2) = screened::<F, AddProposal, E>(strategy, b1, v2) {
            lemma_kept(strategy, b2, b1);
            unignored_kept_on(strategy, b2, b1, bundle);
            let v3 = update_sender_verdicts::<E>(b2.updates);
            screening_keeps_unignored::<F, UpdateProposal, E>(strategy, b2, v3);
            if let Ok(b3) = screened::<F, UpdateProposal, E>(strategy, b2, v3) {
                lemma_kept(strategy, b3, b2);
                unignored_kept_on(strategy, b3, b2, bundle);
                if let Ok((tree, edits)) = edit_answer(replies, b3) {
                    let left = after_edit(b3, tree, edits).proposals;
                    lemma_without_ignored(strategy, b3.additions, edits.invalid_additions);
                    lemma_without_ignored(strategy, b3.removals, edits.invalid_removals);
                    lemma_without_ignored(strategy, b3.updates, edits.invalid_updates);
                    lemma_kept(strategy, left, b3);
                    unignored_kept_on(strategy, left, b3, bundle);
                }
            }
        }
    }
}

proof fn lemma_changes_unignored<F: FilterStrategy, E>(
    applier: ProposalApplier<E>,
    strategy: F,
    bundle: BundleView,
    replies: Replies<E>,
)
    requires
        bundle.group_context_extensions.len() <= 1,
        impossible_ignored(strategy, replies.trial),
        impossible_ignored(strategy, replies.original),
    ensures
        changed::<F, E>(applier, strategy, bundle, replies) matches Ok(state) ==> unignored_kept(
            strategy,
            state.proposals,
            bundle,
        ),
{
    let cleared = without_group_context_extensions(bundle);
    let extensions = applier.original_group_extensions@;
    let original = tree_changed::<F, E>(strategy, cleared, extensions, replies.original);
    lemma_tree_changes_unignored::<F, E>(strategy, cleared, extensions, replies.original);
    lemma_tree_changes_unignored::<F, E>(strategy, bundle, seq![], replies.trial);
    if bundle.group_context_extensions.len() == 0 || strategy.ignores(
        borrowed_info(&*bundle.group_context_extensions[0]),
    ) {
        assert(picks_unignored(
            strategy,
            cleared.group_context_extensions,
            bundle.group_context_extensions,
            seq![],
        ));
        lemma_kept(strategy, cleared, bundle);
        if let Ok(state) = original {
            unignored_kept_on(strategy, state.proposals, cleared, bundle);
        }
        if let Ok(state) = tree_changed::<F, E>(strategy, bundle, seq![], replies.trial) {
            let without = without_group_context_extensions(state.proposals);
            assert(picks_unignored(
                strategy,
                without.group_context_extensions,
                bundle.group_context_extensions,
                seq![],
            ));
            lemma_kept(strategy, without, bundle);
        }
    }
}

/// What is kept under the strategy that governs a member's commit is kept under the given
/// one.
proof fn lemma_given_strategy<F: FilterStrategy>(
    strategy: F,
    committer: LeafIndex,
    bundle: BundleView,
    from: BundleView,
)
    requires
        unignored_kept(governing(&strategy, Committer::Member(committer)), bundle, from),
    ensures
        unignored_kept(strategy, bundle, from),
{
    lemma_given_stay(strategy, committer, bundle.additions, from.additions);
    lemma_given_stay(strategy, committer, bundle.updates, from.updates);
    lemma_given_stay(strategy, committer, bundle.removals, from.removals);
    lemma_given_stay(strategy, committer, bundle.psks, from.psks);
    lemma_given_stay(strategy, committer, bundle.reinitializations, from.reinitializations);
    lemma_given_stay(
        strategy,
        committer,
        bundle.external_initializations,
        from.external_initializations,
    );
    lemma_given_stay(
        strategy,
        committer,
        bundle.group_context_extensions,
        from.group_context_extensions,
    );
    lemma_given_stay(strategy, committer, bundle.custom_proposals, from.custom_proposals);
}

proof fn lemma_given_stay<F: FilterStrategy, P: Bundled>(
    strategy: F,
    committer: LeafIndex,
    items: Seq<Arc<ProposalInfo<P>>>,
    from: Seq<Arc<ProposalInfo<P>>>,
)
    requires
        unignored_stay(governing(&strategy, Committer::Member(committer)), items, from),
    ensures
        unignored_stay(strategy, items, from),
{
    let g = governing(&strategy, Committer::Member(committer));
    let positions = choose|p: Seq<int>| picks_unignored(g, items, from, p);
    assert forall|i: int|
        0 <= i < from.len() && !strategy.ignores(
            borrowed_info(&*#[trigger] from[i]),
        ) implies positions.contains(i) by {
        assert(!g.ignores(borrowed_info(&*from[i])));
    }
    assert(picks_unignored(strategy, items, from, positions));
}

/// Nothing is dropped from a member's commit but what the strategy ignores, if the edit of
/// the tree stops at a change that is neither possible nor ignored.
pub proof fn commits_keep_what_is_unignored<F: FilterStrategy, E>(
    applier: ProposalApplier<E>,
    strategy: F,
    committer: LeafIndex,
    bundle: BundleView,
    replies: Replies<E>,
)
    requires
        impossible_ignored(strategy, replies.trial),
        impossible_ignored(strategy, replies.original),
    ensures
        applied::<F, E>(
            applier,
            strategy,
            Sender::Member(committer.0),
            bundle,
            replies,
        ) matches Ok(state) ==> unignored_kept(strategy, state.proposals, bundle),
{
    let g = governing(&strategy, Committer::Member(committer));
    lemma_early_filters_unignored::<F, E>(applier, strategy, committer, bundle);
    if let Ok(b1) = member_filtered_early::<F, E>(applier, strategy, committer, bundle) {
        let v1 = psk_verdicts(
            b1.psks,
            applier.kdf_extract_size,
            psk_answers(replies, b1.psks),
        );
        screening_keeps_unignored::<Governing<'_, F>, PreSharedKeyProposal, E>(g, b1, v1);
        if let Ok(b2) = screened::<Governing<'_, F>, PreSharedKeyProposal, E>(g, b1, v1) {
            lemma_kept(g, b2, b1);
            lemma_given_strategy(strategy, committer, b2, b1);
            unignored_kept_on(strategy, b2, b1, bundle);
            let v2 = external_senders_verdicts(
                b2.group_context_extensions,
                external_senders_answers(replies, b2.group_context_extensions),
            );
            screening_keeps_unignored::<F, ExtensionList, E>(strategy, b2, v2);
            if let Ok(b3) = screened::<F, ExtensionList, E>(strategy, b2, v2) {
                lemma_kept(strategy, b3, b2);
                unignored_kept_on(strategy, b3, b2, bundle);
                lemma_late_filters_unignored::<F, E>(applier, strategy, committer, b3);
                late_filters_establish_rules::<F, E>(applier, strategy, committer, b3);
                if let Ok(b4) = member_filtered_late::<F, E>(applier, strategy, committer, b3) {
                    unignored_kept_on(strategy, b4, b3, bundle);
                    lemma_changes_unignored::<Governing<'_, F>, E>(applier, g, b4, replies);
                    if let Ok(s) = changed::<Governing<'_, F>, E>(applier, g, b4, replies) {
                        lemma_given_strategy(strategy, committer, s.proposals, b4);
                        unignored_kept_on(strategy, s.proposals, b4, bundle);
                        let v3 = custom_verdicts::<E>(s.tree, s.proposals.custom_proposals);
                        screening_keeps_unignored::<F, CustomProposal, E>(
                            strategy,
                            s.proposals,
                            v3,
                        );
                        if let Ok(state) = custom_filtered::<F, E>(strategy, s) {
                            lemma_kept(strategy, state.proposals, s.proposals);
                            unignored_kept_on(strategy, state.proposals, s.proposals, bundle);
                        }
                    }
                }
            }
        }
    }
}

/// Under a strategy that ignores proposals by reference at most, such as
/// [`IgnoreInvalidByRefProposal`], a member's commit that is applied loses no proposal
/// that is part of the commit itself, if the edit of the tree stops at a change that is
/// neither possible nor ignored.
pub proof fn commits_keep_what_is_by_value<F: FilterStrategy, E>(
    applier: ProposalApplier<E>,
    strategy: F,
    committer: LeafIndex,
    bundle: BundleView,
    replies: Replies<E>,
)
    requires
        ignores_by_ref_only(strategy),
        impossible_ignored(strategy, replies.trial),
        impossible_ignored(strategy, replies.original),
    ensures
        applied::<F, E>(
            applier,
            strategy,
            Sender::Member(committer.0),
            bundle,
            replies,
        ) matches Ok(state) ==> by_value_kept(state.proposals, bundle),
{
    commits_keep_what_is_unignored::<F, E>(applier, strategy, committer, bundle, replies);
    if let Ok(state) = applied::<F, E>(
        applier,
        strategy,
        Sender::Member(committer.0),
        bundle,
        replies,
    ) {
        let kept = state.proposals;
        lemma_by_value(strategy, kept.additions, bundle.additions);
        lemma_by_value(strategy, kept.updates, bundle.updates);
        lemma_by_value(strategy, kept.removals, bundle.removals);
        lemma_by_value(strategy, kept.psks, bundle.psks);
        lemma_by_value(strategy, kept.reinitializations, bundle.reinitializations);
        lemma_by_value(strategy, kept.external_initializations, bundle.external_initializations);
        lemma_by_value(strategy, kept.group_context_extensions, bundle.group_context_extensions);
        lemma_by_value(strategy, kept.custom_proposals, bundle.custom_proposals);
    }
}

proof fn lemma_by_value<F: FilterStrategy, P: Bundled>(
    strategy: F,
    items: Seq<Arc<ProposalInfo<P>>>,
    from: Seq<Arc<ProposalInfo<P>>>,
)
    requires
        ignores_by_ref_only(strategy),
        unignored_stay(strategy, items, from),
    ensures
        by_value_stay(items, from),
{
    let positions = choose|p: Seq<int>| picks_unignored(strategy, items, from, p);
    assert forall|i: int|
        0 <= i < from.len() && (#[trigger] from[i]).proposal_ref is None implies positions.contains(
        i,
    ) by {
        assert(!strategy.ignores(borrowed_info(&*from[i])));
    }
    assert(picks_by_value(items, from, positions));
}

} // verus!
