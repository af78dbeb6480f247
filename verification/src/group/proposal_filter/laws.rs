//! What holds of every commit that is applied.

use vstd::prelude::*;

use std::sync::Arc;

use crate::extension::{ExtensionList, ExternalSendersExt};
use crate::group::proposal::{
    AddProposal, ExternalInit, PreSharedKeyProposal, ProposalInfo, ProposalType, ProtocolVersion,
    ReInitProposal, RemoveProposal, UpdateProposal,
};
use crate::group::proposal_filter::bundle::{
    custom_types, is_part_of, is_subsequence, part_of_part, picks, type_if_any, types_in,
    BundleView, Proposable,
};
use crate::group::proposal_filter::filtering::{
    extra_extensions_verdicts, lone_reinit_verdicts, no_external_init_verdicts, only_reinit,
    proposer_verdict, proposer_verdicts, proposers_filtered, proposers_screened,
    reinit_version_verdicts, self_removal_verdicts, self_update_verdicts, usable_senders,
};
use crate::group::proposal_filter::leaf_conflicts::{
    is_last_update, leaf_conflicts_filtered, removal_verdicts, removed_among, update_verdicts,
};
use crate::group::proposal_filter::outcome::{
    member_filtered_early, member_filtered_late, ProposalApplier,
};
use crate::group::proposal_filter::psk::{named_among, psk_verdicts, usable_in_proposal};
use crate::group::proposal_filter::screening::{nothing_wrong, screened, screening_keeps_valid};
use crate::group::proposal_filter::strategy::FilterStrategy;
use crate::group::sender::Sender;
use crate::tree_kem::{LeafIndex, LeafNode};

verus! {

// ---------------------------------------------------------------------------
// The rules
// ---------------------------------------------------------------------------

/// The committer does not update its own leaf by a proposal.
pub open spec fn no_self_update(bundle: BundleView, committer: LeafIndex) -> bool {
    forall|i: int|
        0 <= i < bundle.updates.len() ==> (#[trigger] bundle.updates[i]).sender != Sender::Member(
            committer.0,
        )
}

/// The committer is not removed.
pub open spec fn no_self_removal(bundle: BundleView, committer: LeafIndex) -> bool {
    forall|i: int|
        0 <= i < bundle.removals.len() ==> (#[trigger] bundle.removals[i]).proposal.to_remove
            != committer
}

/// No leaf is removed twice, or updated twice, or removed and updated.
pub open spec fn leaves_change_once(bundle: BundleView) -> bool {
    &&& forall|i: int, j: int|
        0 <= i < j < bundle.removals.len() ==> (#[trigger] bundle.removals[i]).proposal.to_remove
            != (#[trigger] bundle.removals[j]).proposal.to_remove
    &&& forall|i: int, j: int|
        0 <= i < j < bundle.updates.len() && (#[trigger] bundle.updates[i]).sender is Member
            ==> bundle.updates[i].sender != (#[trigger] bundle.updates[j]).sender
    &&& forall|i: int, j: int|
        0 <= i < bundle.removals.len() && 0 <= j < bundle.updates.len()
            ==> (#[trigger] bundle.updates[j]).sender != Sender::Member(
            (#[trigger] bundle.removals[i]).proposal.to_remove.0,
        )
}

/// Pre-shared keys are of a usable kind, have a nonce of the right length, and are
/// named once.
pub open spec fn psks_valid(bundle: BundleView, kdf_extract_size: usize) -> bool {
    &&& forall|i: int|
        0 <= i < bundle.psks.len() ==> {
            &&& usable_in_proposal((#[trigger] bundle.psks[i]).proposal.psk.key_id)
            &&& bundle.psks[i].proposal.psk.psk_nonce@.len() == kdf_extract_size
        }
    &&& forall|i: int, j: int|
        0 <= i < j < bundle.psks.len() ==> (#[trigger] bundle.psks[i]).proposal.psk@
            != (#[trigger] bundle.psks[j]).proposal.psk@
}

/// A new start of the group does not go back to an earlier version of the protocol.
pub open spec fn reinit_versions_valid(bundle: BundleView, version: ProtocolVersion) -> bool {
    forall|i: int|
        0 <= i < bundle.reinitializations.len() ==> (#[trigger] bundle.reinitializations[
            i
        ]).proposal.version.0 >= version.0
}

/// A new start of the group is the only proposal of the kinds that the protocol
/// defines, and no custom proposal is of another type.
pub open spec fn reinit_is_alone(bundle: BundleView) -> bool {
    bundle.reinitializations.len() > 0 ==> {
        &&& bundle.reinitializations.len() == 1
        &&& bundle.additions.len() == 0
        &&& bundle.updates.len() == 0
        &&& bundle.removals.len() == 0
        &&& bundle.psks.len() == 0
        &&& bundle.external_initializations.len() == 0
        &&& bundle.group_context_extensions.len() == 0
        &&& forall|i: int|
            0 <= i < bundle.custom_proposals.len() ==> (#[trigger] bundle.custom_proposals[
                i
            ]).proposal.proposal_type == ProposalType::ReInit
    }
}

/// Every one of these proposals was sent by somebody who may send it.
pub open spec fn senders_valid<P: Proposable, E>(
    items: Seq<Arc<ProposalInfo<P>>>,
    tree: Seq<Option<Arc<LeafNode>>>,
    senders: Option<ExternalSendersExt>,
) -> bool {
    forall|i: int|
        0 <= i < items.len() ==> proposer_verdict::<P, E>(tree, senders, *#[trigger] items[i]) is Ok
}

/// Every proposal of a kind that the protocol defines was sent by somebody who may
/// send it.
pub open spec fn all_senders_valid<E>(
    bundle: BundleView,
    tree: Seq<Option<Arc<LeafNode>>>,
    senders: Option<ExternalSendersExt>,
) -> bool {
    &&& senders_valid::<AddProposal, E>(bundle.additions, tree, senders)
    &&& senders_valid::<UpdateProposal, E>(bundle.updates, tree, senders)
    &&& senders_valid::<RemoveProposal, E>(bundle.removals, tree, senders)
    &&& senders_valid::<PreSharedKeyProposal, E>(bundle.psks, tree, senders)
    &&& senders_valid::<ReInitProposal, E>(bundle.reinitializations, tree, senders)
    &&& senders_valid::<ExternalInit, E>(bundle.external_initializations, tree, senders)
    &&& senders_valid::<ExtensionList, E>(bundle.group_context_extensions, tree, senders)
}

/// The rules of a member's commit that hold of its proposals alone.
pub open spec fn member_rules<E>(
    bundle: BundleView,
    applier: ProposalApplier<E>,
    committer: LeafIndex,
) -> bool {
    &&& all_senders_valid::<E>(
        bundle,
        applier.original_tree@,
        usable_senders(applier.external_senders),
    )
    &&& no_self_update(bundle, committer)
    &&& no_self_removal(bundle, committer)
    &&& leaves_change_once(bundle)
}

/// The rules of a member's commit that hold of its proposals alone, after all filters.
pub open spec fn late_member_rules<E>(bundle: BundleView, applier: ProposalApplier<E>) -> bool {
    &&& bundle.group_context_extensions.len() <= 1
    &&& reinit_versions_valid(bundle, applier.protocol_version)
    &&& reinit_is_alone(bundle)
    &&& bundle.external_initializations.len() == 0
}

// ---------------------------------------------------------------------------
// The rules hold of every part of a bundle of which they hold
// ---------------------------------------------------------------------------

proof fn lemma_part_senders<P: Proposable, E>(
    items: Seq<Arc<ProposalInfo<P>>>,
    from: Seq<Arc<ProposalInfo<P>>>,
    tree: Seq<Option<Arc<LeafNode>>>,
    senders: Option<ExternalSendersExt>,
)
    requires
        is_subsequence(items, from),
        senders_valid::<P, E>(from, tree, senders),
    ensures
        senders_valid::<P, E>(items, tree, senders),
{
    let p = choose|p: Seq<int>| picks(items, from, p);
    assert forall|i: int| 0 <= i < items.len() implies proposer_verdict::<P, E>(
        tree,
        senders,
        *#[trigger] items[i],
    ) is Ok by {
        assert(items[i] == from[p[i]]);
    }
}

/// What holds of a member's commit holds of any part of it.
pub proof fn member_rules_of_part<E>(
    part: BundleView,
    bundle: BundleView,
    applier: ProposalApplier<E>,
    committer: LeafIndex,
)
    requires
        is_part_of(part, bundle),
        member_rules(bundle, applier, committer),
    ensures
        member_rules(part, applier, committer),
{
    let tree = applier.original_tree@;
    let senders = usable_senders(applier.external_senders);
    lemma_part_senders::<AddProposal, E>(part.additions, bundle.additions, tree, senders);
    lemma_part_senders::<UpdateProposal, E>(part.updates, bundle.updates, tree, senders);
    lemma_part_senders::<RemoveProposal, E>(part.removals, bundle.removals, tree, senders);
    lemma_part_senders::<PreSharedKeyProposal, E>(part.psks, bundle.psks, tree, senders);
    lemma_part_senders::<ReInitProposal, E>(
        part.reinitializations,
        bundle.reinitializations,
        tree,
        senders,
    );
    lemma_part_senders::<ExternalInit, E>(
        part.external_initializations,
        bundle.external_initializations,
        tree,
        senders,
    );
    lemma_part_senders::<ExtensionList, E>(
        part.group_context_extensions,
        bundle.group_context_extensions,
        tree,
        senders,
    );
    let u = choose|p: Seq<int>| picks(part.updates, bundle.updates, p);
    let r = choose|p: Seq<int>| picks(part.removals, bundle.removals, p);
    assert forall|i: int| 0 <= i < part.updates.len() implies (#[trigger] part.updates[i]).sender
        != Sender::Member(committer.0) by {
        assert(part.updates[i] == bundle.updates[u[i]]);
    }
    assert forall|i: int| 0 <= i < part.removals.len() implies (#[trigger] part.removals[
        i
    ]).proposal.to_remove != committer by {
        assert(part.removals[i] == bundle.removals[r[i]]);
    }
    assert forall|i: int, j: int| 0 <= i < j < part.removals.len() implies (
    #[trigger] part.removals[i]).proposal.to_remove != (#[trigger] part.removals[
        j
    ]).proposal.to_remove by {
        assert(part.removals[i] == bundle.removals[r[i]]);
        assert(part.removals[j] == bundle.removals[r[j]]);
    }
    assert forall|i: int, j: int|
        0 <= i < j < part.updates.len() && (
        #[trigger] part.updates[i]).sender is Member implies part.updates[i].sender != (
    #[trigger] part.updates[j]).sender by {
        assert(part.updates[i] == bundle.updates[u[i]]);
        assert(part.updates[j] == bundle.updates[u[j]]);
    }
    assert forall|i: int, j: int|
        0 <= i < part.removals.len() && 0 <= j < part.updates.len() implies (
    #[trigger] part.updates[j]).sender != Sender::Member(
        (#[trigger] part.removals[i]).proposal.to_remove.0,
    ) by {
        assert(part.removals[i] == bundle.removals[r[i]]);
        assert(part.updates[j] == bundle.updates[u[j]]);
    }
}

/// What holds of pre-shared keys holds of any part of them.
pub proof fn psks_valid_of_part(part: BundleView, bundle: BundleView, kdf_extract_size: usize)
    requires
        is_part_of(part, bundle),
        psks_valid(bundle, kdf_extract_size),
    ensures
        psks_valid(part, kdf_extract_size),
{
    let p = choose|p: Seq<int>| picks(part.psks, bundle.psks, p);
    assert forall|i: int| 0 <= i < part.psks.len() implies {
        &&& usable_in_proposal((#[trigger] part.psks[i]).proposal.psk.key_id)
        &&& part.psks[i].proposal.psk.psk_nonce@.len() == kdf_extract_size
    } by {
        assert(part.psks[i] == bundle.psks[p[i]]);
    }
    assert forall|i: int, j: int| 0 <= i < j < part.psks.len() implies (
    #[trigger] part.psks[i]).proposal.psk@ != (#[trigger] part.psks[j]).proposal.psk@ by {
        assert(part.psks[i] == bundle.psks[p[i]]);
        assert(part.psks[j] == bundle.psks[p[j]]);
    }
}

/// A part is no longer than the whole.
pub proof fn part_is_no_longer<T>(items: Seq<T>, from: Seq<T>)
    requires
        is_subsequence(items, from),
    ensures
        items.len() <= from.len(),
{
    let p = choose|p: Seq<int>| picks(items, from, p);
    lemma_increasing_bound(p, from.len() as int, p.len() as int);
}

proof fn lemma_increasing_bound(p: Seq<int>, bound: int, n: int)
    requires
        0 <= n <= p.len(),
        forall|k: int| 0 <= k < p.len() ==> 0 <= #[trigger] p[k] < bound,
        forall|k: int, l: int| 0 <= k < l < p.len() ==> #[trigger] p[k] < #[trigger] p[l],
        0 <= bound,
    ensures
        n > 0 ==> p[n - 1] >= n - 1,
        n <= bound,
    decreases n,
{
    if n > 0 {
        lemma_increasing_bound(p, bound, n - 1);
        if n > 1 {
            assert(p[n - 2] < p[n - 1]);
        }
    }
}

/// What holds of a filtered member's commit holds of any part of it.
pub proof fn late_member_rules_of_part<E>(
    part: BundleView,
    bundle: BundleView,
    applier: ProposalApplier<E>,
)
    requires
        is_part_of(part, bundle),
        late_member_rules(bundle, applier),
    ensures
        late_member_rules(part, applier),
{
    part_is_no_longer(part.additions, bundle.additions);
    part_is_no_longer(part.updates, bundle.updates);
    part_is_no_longer(part.removals, bundle.removals);
    part_is_no_longer(part.psks, bundle.psks);
    part_is_no_longer(part.reinitializations, bundle.reinitializations);
    part_is_no_longer(part.external_initializations, bundle.external_initializations);
    part_is_no_longer(part.group_context_extensions, bundle.group_context_extensions);
    let p = choose|p: Seq<int>| picks(part.reinitializations, bundle.reinitializations, p);
    assert forall|i: int| 0 <= i < part.reinitializations.len() implies (
    #[trigger] part.reinitializations[i]).proposal.version.0 >= applier.protocol_version.0 by {
        assert(part.reinitializations[i] == bundle.reinitializations[p[i]]);
    }
    let c = choose|c: Seq<int>| picks(part.custom_proposals, bundle.custom_proposals, c);
    if part.reinitializations.len() > 0 {
        assert forall|i: int| 0 <= i < part.custom_proposals.len() implies (
        #[trigger] part.custom_proposals[i]).proposal.proposal_type == ProposalType::ReInit by {
            assert(part.custom_proposals[i] == bundle.custom_proposals[c[i]]);
        }
    }
}

// ---------------------------------------------------------------------------
// What each filter establishes
// ---------------------------------------------------------------------------

proof fn lemma_senders_screened<F: FilterStrategy, P: Proposable, E>(
    strategy: F,
    tree: Seq<Option<Arc<LeafNode>>>,
    senders: Option<ExternalSendersExt>,
    bundle: BundleView,
)
    ensures
        proposers_screened::<F, P, E>(strategy, tree, senders, bundle) matches Ok(b) ==> {
            &&& is_part_of(b, bundle)
            &&& b == P::with_list(bundle, P::list(b))
            &&& senders_valid::<P, E>(P::list(b), tree, senders)
        },
{
    let verdicts = proposer_verdicts::<P, E>(tree, senders, P::list(bundle));
    let p = screening_keeps_valid::<F, P, E>(strategy, bundle, verdicts);
    if let Ok(b) = screened::<F, P, E>(strategy, bundle, verdicts) {
        assert forall|i: int| 0 <= i < P::list(b).len() implies proposer_verdict::<P, E>(
            tree,
            senders,
            *#[trigger] P::list(b)[i],
        ) is Ok by {
            assert(nothing_wrong(verdicts[p[i]]));
        }
    }
}

/// After the check of senders, every proposal was sent by somebody who may send it.
pub proof fn proposers_filtered_are_valid<F: FilterStrategy, E>(
    strategy: F,
    tree: Seq<Option<Arc<LeafNode>>>,
    senders: Option<ExternalSendersExt>,
    bundle: BundleView,
)
    ensures
        proposers_filtered::<F, E>(strategy, tree, senders, bundle) matches Ok(b) ==> {
            &&& is_part_of(b, bundle)
            &&& all_senders_valid::<E>(b, tree, senders)
        },
{
    lemma_senders_screened::<F, AddProposal, E>(strategy, tree, senders, bundle);
    if let Ok(b1) = proposers_screened::<F, AddProposal, E>(strategy, tree, senders, bundle) {
        lemma_senders_screened::<F, UpdateProposal, E>(strategy, tree, senders, b1);
        if let Ok(b2) = proposers_screened::<F, UpdateProposal, E>(strategy, tree, senders, b1) {
            part_of_part(b2, b1, bundle);
            lemma_senders_screened::<F, RemoveProposal, E>(strategy, tree, senders, b2);
            if let Ok(b3) = proposers_screened::<F, RemoveProposal, E>(
                strategy,
                tree,
                senders,
                b2,
            ) {
                part_of_part(b3, b2, bundle);
                lemma_senders_screened::<F, PreSharedKeyProposal, E>(strategy, tree, senders, b3);
                if let Ok(b4) = proposers_screened::<F, PreSharedKeyProposal, E>(
                    strategy,
                    tree,
                    senders,
                    b3,
                ) {
                    part_of_part(b4, b3, bundle);
                    lemma_senders_screened::<F, ReInitProposal, E>(strategy, tree, senders, b4);
                    if let Ok(b5) = proposers_screened::<F, ReInitProposal, E>(
                        strategy,
                        tree,
                        senders,
                        b4,
                    ) {
                        part_of_part(b5, b4, bundle);
                        lemma_senders_screened::<F, ExternalInit, E>(strategy, tree, senders, b5);
                        if let Ok(b6) = proposers_screened::<F, ExternalInit, E>(
                            strategy,
                            tree,
                            senders,
                            b5,
                        ) {
                            part_of_part(b6, b5, bundle);
                            lemma_senders_screened::<F, ExtensionList, E>(
                                strategy,
                                tree,
                                senders,
                                b6,
                            );
                            if let Ok(b7) = proposers_screened::<F, ExtensionList, E>(
                                strategy,
                                tree,
                                senders,
                                b6,
                            ) {
                                part_of_part(b7, b6, bundle);
                            }
                        }
                    }
                }
            }
        }
    }
}

/// After the check for conflicts, no leaf is changed twice.
pub proof fn filtered_leaves_change_once<F: FilterStrategy, E>(strategy: F, bundle: BundleView)
    ensures
        leaf_conflicts_filtered::<F, E>(strategy, bundle) matches Ok(b) ==> {
            &&& is_part_of(b, bundle)
            &&& leaves_change_once(b)
        },
{
    let faults = removal_verdicts::<E>(bundle.removals);
    let r = screening_keeps_valid::<F, RemoveProposal, E>(strategy, bundle, faults);
    if let Ok(b1) = screened::<F, RemoveProposal, E>(strategy, bundle, faults) {
        let update_faults = update_verdicts::<E>(bundle.removals, bundle.updates);
        let u = screening_keeps_valid::<F, UpdateProposal, E>(strategy, b1, update_faults);
        if let Ok(b2) = screened::<F, UpdateProposal, E>(strategy, b1, update_faults) {
            part_of_part(b2, b1, bundle);
            assert(b2.removals == b1.removals);
            assert(b1.updates == bundle.updates);
            assert forall|i: int, j: int| 0 <= i < j < b2.removals.len() implies (
            #[trigger] b2.removals[i]).proposal.to_remove != (#[trigger] b2.removals[
                j
            ]).proposal.to_remove by {
                assert(b1.removals[i] == bundle.removals[r[i]]);
                assert(b1.removals[j] == bundle.removals[r[j]]);
                assert(nothing_wrong(faults[r[j]]));
                assert(r[i] < r[j]);
                if b2.removals[i].proposal.to_remove == b2.removals[j].proposal.to_remove {
                    assert(removed_among(
                        bundle.removals,
                        r[j],
                        bundle.removals[r[j]].proposal.to_remove.0,
                    ));
                }
            }
            assert forall|i: int, j: int|
                0 <= i < j < b2.updates.len() && (
                #[trigger] b2.updates[i]).sender is Member implies b2.updates[i].sender != (
            #[trigger] b2.updates[j]).sender by {
                assert(b2.updates[i] == bundle.updates[u[i]]);
                assert(b2.updates[j] == bundle.updates[u[j]]);
                assert(nothing_wrong(update_faults[u[i]]));
                assert(u[i] < u[j]);
                assert(is_last_update(bundle.updates, u[i], b2.updates[i].sender->Member_0));
            }
            assert forall|i: int, j: int|
                0 <= i < b2.removals.len() && 0 <= j < b2.updates.len() implies (
            #[trigger] b2.updates[j]).sender != Sender::Member(
                (#[trigger] b2.removals[i]).proposal.to_remove.0,
            ) by {
                assert(b1.removals[i] == bundle.removals[r[i]]);
                assert(b2.updates[j] == bundle.updates[u[j]]);
                assert(nothing_wrong(update_faults[u[j]]));
                if b2.updates[j].sender == Sender::Member(b2.removals[i].proposal.to_remove.0) {
                    assert(removed_among(
                        bundle.removals,
                        bundle.removals.len() as int,
                        b2.removals[i].proposal.to_remove.0,
                    ));
                }
            }
        }
    }
}

/// After the first filters of a member's commit, its rules hold.
pub proof fn early_filters_establish_rules<F: FilterStrategy, E>(
    applier: ProposalApplier<E>,
    strategy: F,
    committer: LeafIndex,
    bundle: BundleView,
)
    ensures
        member_filtered_early::<F, E>(applier, strategy, committer, bundle) matches Ok(b) ==> {
            &&& is_part_of(b, bundle)
            &&& member_rules(b, applier, committer)
        },
{
    let tree = applier.original_tree@;
    let senders = usable_senders(applier.external_senders);
    proposers_filtered_are_valid::<F, E>(strategy, tree, senders, bundle);
    if let Ok(b1) = proposers_filtered::<F, E>(strategy, tree, senders, bundle) {
        let updates = self_update_verdicts::<E>(committer, b1.updates);
        let u = screening_keeps_valid::<F, UpdateProposal, E>(strategy, b1, updates);
        if let Ok(b2) = screened::<F, UpdateProposal, E>(strategy, b1, updates) {
            assert(no_self_update(b2, committer)) by {
                assert forall|i: int| 0 <= i < b2.updates.len() implies (
                #[trigger] b2.updates[i]).sender != Sender::Member(committer.0) by {
                    assert(nothing_wrong(updates[u[i]]));
                }
            }
            part_of_part(b2, b1, bundle);
            let removals = self_removal_verdicts::<E>(committer, b2.removals);
            let r = screening_keeps_valid::<F, RemoveProposal, E>(strategy, b2, removals);
            if let Ok(b3) = screened::<F, RemoveProposal, E>(strategy, b2, removals) {
                assert(no_self_removal(b3, committer)) by {
                    assert forall|i: int| 0 <= i < b3.removals.len() implies (
                    #[trigger] b3.removals[i]).proposal.to_remove != committer by {
                        assert(nothing_wrong(removals[r[i]]));
                    }
                }
                part_of_part(b3, b2, bundle);
                part_of_part(b3, b2, b1);
                filtered_leaves_change_once::<F, E>(strategy, b3);
                if let Ok(b4) = leaf_conflicts_filtered::<F, E>(strategy, b3) {
                    part_of_part(b4, b3, bundle);
                    part_of_part(b4, b3, b1);
                    lemma_parts_of_rules::<E>(b4, b3, b1, tree, senders, committer);
                }
            }
        }
    }
}

proof fn lemma_parts_of_rules<E>(
    part: BundleView,
    bundle: BundleView,
    checked: BundleView,
    tree: Seq<Option<Arc<LeafNode>>>,
    senders: Option<ExternalSendersExt>,
    committer: LeafIndex,
)
    requires
        is_part_of(part, bundle),
        is_part_of(part, checked),
        all_senders_valid::<E>(checked, tree, senders),
        no_self_update(bundle, committer),
        no_self_removal(bundle, committer),
    ensures
        all_senders_valid::<E>(part, tree, senders),
        no_self_update(part, committer),
        no_self_removal(part, committer),
{
    lemma_part_senders::<AddProposal, E>(part.additions, checked.additions, tree, senders);
    lemma_part_senders::<UpdateProposal, E>(part.updates, checked.updates, tree, senders);
    lemma_part_senders::<RemoveProposal, E>(part.removals, checked.removals, tree, senders);
    lemma_part_senders::<PreSharedKeyProposal, E>(part.psks, checked.psks, tree, senders);
    lemma_part_senders::<ReInitProposal, E>(
        part.reinitializations,
        checked.reinitializations,
        tree,
        senders,
    );
    lemma_part_senders::<ExternalInit, E>(
        part.external_initializations,
        checked.external_initializations,
        tree,
        senders,
    );
    lemma_part_senders::<ExtensionList, E>(
        part.group_context_extensions,
        checked.group_context_extensions,
        tree,
        senders,
    );
    let u = choose|p: Seq<int>| picks(part.updates, bundle.updates, p);
    let r = choose|p: Seq<int>| picks(part.removals, bundle.removals, p);
    assert forall|i: int| 0 <= i < part.updates.len() implies (#[trigger] part.updates[i]).sender
        != Sender::Member(committer.0) by {
        assert(part.updates[i] == bundle.updates[u[i]]);
    }
    assert forall|i: int| 0 <= i < part.removals.len() implies (#[trigger] part.removals[
        i
    ]).proposal.to_remove != committer by {
        assert(part.removals[i] == bundle.removals[r[i]]);
    }
}

/// After the check of pre-shared keys, they are valid.
pub proof fn filtered_psks_are_valid<F: FilterStrategy, E>(
    strategy: F,
    bundle: BundleView,
    kdf_extract_size: usize,
    external_ids: Seq<Result<(), E>>,
)
    ensures
        screened::<F, PreSharedKeyProposal, E>(
            strategy,
            bundle,
            psk_verdicts(bundle.psks, kdf_extract_size, external_ids),
        ) matches Ok(b) ==> {
            &&& is_part_of(b, bundle)
            &&& psks_valid(b, kdf_extract_size)
        },
{
    let verdicts = psk_verdicts(bundle.psks, kdf_extract_size, external_ids);
    let p = screening_keeps_valid::<F, PreSharedKeyProposal, E>(strategy, bundle, verdicts);
    if let Ok(b) = screened::<F, PreSharedKeyProposal, E>(strategy, bundle, verdicts) {
        assert forall|i: int| 0 <= i < b.psks.len() implies {
            &&& usable_in_proposal((#[trigger] b.psks[i]).proposal.psk.key_id)
            &&& b.psks[i].proposal.psk.psk_nonce@.len() == kdf_extract_size
        } by {
            assert(b.psks[i] == bundle.psks[p[i]]);
            assert(nothing_wrong(verdicts[p[i]]));
        }
        assert forall|i: int, j: int| 0 <= i < j < b.psks.len() implies (
        #[trigger] b.psks[i]).proposal.psk@ != (#[trigger] b.psks[j]).proposal.psk@ by {
            assert(b.psks[i] == bundle.psks[p[i]]);
            assert(b.psks[j] == bundle.psks[p[j]]);
            assert(nothing_wrong(verdicts[p[j]]));
            assert(p[i] < p[j]);
            if b.psks[i].proposal.psk@ == b.psks[j].proposal.psk@ {
                assert(named_among(bundle.psks, p[j], bundle.psks[p[j]].proposal.psk));
            }
        }
    }
}

proof fn lemma_only_reinit(bundle: BundleView)
    requires
        only_reinit(bundle),
    ensures
        bundle.additions.len() == 0,
        bundle.updates.len() == 0,
        bundle.removals.len() == 0,
        bundle.psks.len() == 0,
        bundle.external_initializations.len() == 0,
        bundle.group_context_extensions.len() == 0,
        forall|i: int|
            0 <= i < bundle.custom_proposals.len() ==> (#[trigger] bundle.custom_proposals[
                i
            ]).proposal.proposal_type == ProposalType::ReInit,
{
    let a = type_if_any(bundle.additions, ProposalType::Add);
    let b = a + type_if_any(bundle.updates, ProposalType::Update);
    let c = b + type_if_any(bundle.removals, ProposalType::Remove);
    let d = c + type_if_any(bundle.psks, ProposalType::Psk);
    let e = d + type_if_any(bundle.reinitializations, ProposalType::ReInit);
    let f = e + type_if_any(bundle.external_initializations, ProposalType::ExternalInit);
    let g = f + type_if_any(
        bundle.group_context_extensions,
        ProposalType::GroupContextExtensions,
    );
    let all = types_in(bundle);
    assert(all == g + custom_types(bundle));
    if bundle.additions.len() > 0 {
        assert(all[0] == ProposalType::Add);
    }
    if bundle.updates.len() > 0 {
        assert(all[a.len() as int] == ProposalType::Update);
    }
    if bundle.removals.len() > 0 {
        assert(all[b.len() as int] == ProposalType::Remove);
    }
    if bundle.psks.len() > 0 {
        assert(all[c.len() as int] == ProposalType::Psk);
    }
    if bundle.external_initializations.len() > 0 {
        assert(all[e.len() as int] == ProposalType::ExternalInit);
    }
    if bundle.group_context_extensions.len() > 0 {
        assert(all[f.len() as int] == ProposalType::GroupContextExtensions);
    }
    assert forall|i: int| 0 <= i < bundle.custom_proposals.len() implies (
    #[trigger] bundle.custom_proposals[i]).proposal.proposal_type == ProposalType::ReInit by {
        assert(all[g.len() + i] == custom_types(bundle)[i]);
    }
}

/// After the last filters of a member's commit, their rules hold.
pub proof fn late_filters_establish_rules<F: FilterStrategy, E>(
    applier: ProposalApplier<E>,
    strategy: F,
    committer: LeafIndex,
    bundle: BundleView,
)
    ensures
        member_filtered_late::<F, E>(applier, strategy, committer, bundle) matches Ok(b) ==> {
            &&& is_part_of(b, bundle)
            &&& late_member_rules(b, applier)
        },
{
    let extra = extra_extensions_verdicts::<E>(bundle.group_context_extensions);
    let x = screening_keeps_valid::<F, ExtensionList, E>(strategy, bundle, extra);
    if let Ok(b1) = screened::<F, ExtensionList, E>(strategy, bundle, extra) {
        assert(b1.group_context_extensions.len() <= 1) by {
            if b1.group_context_extensions.len() > 1 {
                assert(nothing_wrong(extra[x[1]]));
                assert(x[0] < x[1]);
            }
        }
        let versions = reinit_version_verdicts::<E>(
            applier.protocol_version,
            b1.reinitializations,
        );
        let v = screening_keeps_valid::<F, ReInitProposal, E>(strategy, b1, versions);
        if let Ok(b2) = screened::<F, ReInitProposal, E>(strategy, b1, versions) {
            part_of_part(b2, b1, bundle);
            assert(reinit_versions_valid(b2, applier.protocol_version)) by {
                assert forall|i: int| 0 <= i < b2.reinitializations.len() implies (
                #[trigger] b2.reinitializations[i]).proposal.version.0
                    >= applier.protocol_version.0 by {
                    assert(nothing_wrong(versions[v[i]]));
                }
            }
            let alone = lone_reinit_verdicts::<E>(only_reinit(b2), b2.reinitializations);
            let a = screening_keeps_valid::<F, ReInitProposal, E>(strategy, b2, alone);
            if let Ok(b3) = screened::<F, ReInitProposal, E>(strategy, b2, alone) {
                part_of_part(b3, b2, bundle);
                assert forall|i: int| 0 <= i < b3.reinitializations.len() implies (
                #[trigger] b3.reinitializations[i]).proposal.version.0
                    >= applier.protocol_version.0 by {
                    assert(b3.reinitializations[i] == b2.reinitializations[a[i]]);
                }
                assert(reinit_is_alone(b3)) by {
                    if b3.reinitializations.len() > 0 {
                        assert(nothing_wrong(alone[a[0]]));
                        lemma_only_reinit(b2);
                        if b3.reinitializations.len() > 1 {
                            assert(nothing_wrong(alone[a[1]]));
                            assert(a[0] < a[1]);
                        }
                    }
                }
                let inits = no_external_init_verdicts::<E>(
                    committer,
                    b3.external_initializations,
                );
                let e = screening_keeps_valid::<F, ExternalInit, E>(strategy, b3, inits);
                if let Ok(b4) = screened::<F, ExternalInit, E>(strategy, b3, inits) {
                    part_of_part(b4, b3, bundle);
                    assert(b4.external_initializations.len() == 0) by {
                        if b4.external_initializations.len() > 0 {
                            assert(nothing_wrong(inits[e[0]]));
                        }
                    }
                }
            }
        }
    }
}

} // verus!
