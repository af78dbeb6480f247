//! One commit changes a leaf at most once.

use vstd::prelude::*;

use std::collections::{HashMap, HashSet};
use std::sync::Arc;

use crate::group::proposal::{ProposalInfo, RemoveProposal, UpdateProposal};
use crate::group::proposal_filter::bundle::{BundleView, ProposalBundle};
use crate::group::proposal_filter::error::ProposalFilterError;
use crate::group::proposal_filter::filtering::and_then;
use crate::group::proposal_filter::screening::{
    retain_flagged, screened, screened_flags, yields, Verdict,
};
use crate::group::proposal_filter::strategy::{apply_strategy, FilterStrategy};
use crate::group::sender::Sender;

verus! {

broadcast use vstd::std_specs::hash::group_hash_axioms;

/// One of the first `n` proposals removes this leaf.
pub open spec fn removed_among(
    removals: Seq<Arc<ProposalInfo<RemoveProposal>>>,
    n: int,
    leaf: u32,
) -> bool {
    exists|j: int| 0 <= j < n && (#[trigger] removals[j]).proposal.to_remove.0 == leaf
}

/// Update `i` is the last that the member at this leaf sent.
pub open spec fn is_last_update(
    updates: Seq<Arc<ProposalInfo<UpdateProposal>>>,
    i: int,
    leaf: u32,
) -> bool {
    &&& updates[i].sender == Sender::Member(leaf)
    &&& forall|j: int|
        i < j < updates.len() ==> (#[trigger] updates[j]).sender != Sender::Member(leaf)
}

/// Only the first removal of a leaf is valid.
pub open spec fn removal_verdicts<E>(removals: Seq<Arc<ProposalInfo<RemoveProposal>>>) -> Seq<
    Verdict<E>,
> {
    Seq::new(
        removals.len(),
        |i: int|
            Verdict::Judged(
                if removed_among(removals, i, removals[i].proposal.to_remove.0) {
                    Err(
                        ProposalFilterError::MoreThanOneProposalForLeaf(
                            removals[i].proposal.to_remove.0,
                        ),
                    )
                } else {
                    Ok(())
                },
            ),
    )
}

/// Only the last update of a leaf is valid, and none if the leaf is to be removed.
pub open spec fn update_verdicts<E>(
    removals: Seq<Arc<ProposalInfo<RemoveProposal>>>,
    updates: Seq<Arc<ProposalInfo<UpdateProposal>>>,
) -> Seq<Verdict<E>> {
    Seq::new(
        updates.len(),
        |i: int|
            Verdict::Judged(
                match updates[i].sender {
                    Sender::Member(leaf) => if is_last_update(updates, i, leaf) && !removed_among(
                        removals,
                        removals.len() as int,
                        leaf,
                    ) {
                        Ok(())
                    } else {
                        Err(ProposalFilterError::MoreThanOneProposalForLeaf(leaf))
                    },
                    _ => Ok(()),
                },
            ),
    )
}

/// Screens the removals, then the updates, so that no leaf is changed twice.
pub open spec fn leaf_conflicts_filtered<F: FilterStrategy, E>(
    strategy: F,
    bundle: BundleView,
) -> Result<BundleView, ProposalFilterError<E>> {
    and_then(
        screened::<F, RemoveProposal, E>(strategy, bundle, removal_verdicts(bundle.removals)),
        |b: BundleView|
            screened::<F, UpdateProposal, E>(
                strategy,
                b,
                update_verdicts(bundle.removals, bundle.updates),
            ),
    )
}

/// `last` holds, for each leaf, the position of its last update among the first `n`.
spec fn holds_last_updates(
    last: Map<u32, usize>,
    updates: Seq<Arc<ProposalInfo<UpdateProposal>>>,
    n: int,
) -> bool {
    &&& forall|leaf: u32| #[trigger]
        last.contains_key(leaf) ==> {
            &&& last[leaf] < n
            &&& updates[last[leaf] as int].sender == Sender::Member(leaf)
        }
    &&& forall|leaf: u32, j: int|
        0 <= j < n && (#[trigger] updates[j]).sender == Sender::Member(leaf) ==> {
            &&& #[trigger] last.contains_key(leaf)
            &&& j <= last[leaf]
        }
}

/// The position of the last update of each leaf.
fn last_update_indexes_per_leaf(updates: &Vec<Arc<ProposalInfo<UpdateProposal>>>) -> (last: HashMap<
    u32,
    usize,
>)
    ensures
        holds_last_updates(last@, updates@, updates@.len() as int),
{
    let mut last: HashMap<u32, usize> = HashMap::new();
    let n: usize = updates.len();
    for i in 0..n
        invariant
            n == updates.len(),
            holds_last_updates(last@, updates@, i as int),
    {
        let ghost before = last@;
        if let Sender::Member(leaf) = updates[i].sender {
            last.insert(leaf, i);
        }
        assert forall|leaf: u32| #[trigger] last@.contains_key(leaf) implies {
            &&& last@[leaf] < i + 1
            &&& updates@[last@[leaf] as int].sender == Sender::Member(leaf)
        } by {
            if before.contains_key(leaf) && last@[leaf] != i {
                assert(last@[leaf] == before[leaf]);
            }
        }
        assert forall|leaf: u32, j: int|
            0 <= j < i + 1 && (#[trigger] updates@[j]).sender == Sender::Member(leaf) implies {
            &&& #[trigger] last@.contains_key(leaf)
            &&& j <= last@[leaf]
        } by {
            if j < i {
                assert(before.contains_key(leaf));
            }
        }
    }
    last
}

/// Drops what would change a leaf a second time. Of several removals the first
/// counts; a removal counts more than an update; of several updates the last counts.
pub fn filter_out_extra_removal_or_update_for_same_leaf<F: FilterStrategy, E>(
    strategy: &F,
    proposals: ProposalBundle,
) -> (r: Result<ProposalBundle, ProposalFilterError<E>>)
    ensures
        yields(r, leaf_conflicts_filtered::<F, E>(*strategy, proposals@)),
{
    let ghost removals = proposals@.removals;
    let ghost updates = proposals@.updates;
    let ghost removal_faults = removal_verdicts::<E>(removals);
    let ghost update_faults = update_verdicts::<E>(removals, updates);
    let mut remaining = proposals;
    let mut indexes: HashSet<u32> = HashSet::new();

    let mut flags: Vec<bool> = Vec::new();
    let n: usize = remaining.removals.len();
    for i in 0..n
        invariant
            n == removals.len(),
            removals == proposals@.removals,
            removal_faults == removal_verdicts::<E>(removals),
            remaining@ == proposals@,
            flags.len() == i,
            forall|leaf: u32| #[trigger]
                indexes@.contains(leaf) <==> removed_among(removals, i as int, leaf),
            screened_flags::<F, RemoveProposal, E>(*strategy, removals, removal_faults, flags@)
                == screened_flags::<F, RemoveProposal, E>(
                *strategy,
                removals,
                removal_faults,
                seq![],
            ),
    {
        let p = &remaining.removals[i];
        let leaf = p.proposal.to_remove.0;
        let ghost before = indexes@;
        let res = if indexes.insert(leaf) {
            Ok(())
        } else {
            Err(ProposalFilterError::MoreThanOneProposalForLeaf(leaf))
        };
        assert forall|l: u32| #[trigger] indexes@.contains(l) <==> removed_among(
            removals,
            i + 1,
            l,
        ) by {
            assert(before.contains(l) <==> removed_among(removals, i as int, l));
            if removed_among(removals, i + 1, l) && l != leaf {
                let j = choose|j: int|
                    0 <= j < i + 1 && (#[trigger] removals[j]).proposal.to_remove.0 == l;
                assert(removals[j].proposal.to_remove.0 == l);
            }
            assert(removals[i as int].proposal.to_remove.0 == leaf);
        }
        assert(before.contains(leaf) <==> removed_among(removals, i as int, leaf));
        match apply_strategy(strategy, &**p, res) {
            Ok(keep) => flags.push(keep),
            Err(e) => return Err(e),
        }
    }
    retain_flagged::<RemoveProposal>(&mut remaining, &flags);
    let ghost bundle = remaining@;
    assert(screened::<F, RemoveProposal, E>(*strategy, proposals@, removal_faults) == Ok::<
        BundleView,
        ProposalFilterError<E>,
    >(bundle));

    let last = last_update_indexes_per_leaf(&remaining.updates);

    let mut flags: Vec<bool> = Vec::new();
    let n: usize = remaining.updates.len();
    for i in 0..n
        invariant
            n == updates.len(),
            removals == proposals@.removals,
            updates == proposals@.updates,
            removal_faults == removal_verdicts::<E>(removals),
            update_faults == update_verdicts::<E>(removals, updates),
            screened::<F, RemoveProposal, E>(*strategy, proposals@, removal_faults) == Ok::<
                BundleView,
                ProposalFilterError<E>,
            >(bundle),
            bundle.updates == updates,
            remaining@ == bundle,
            flags.len() == i,
            holds_last_updates(last@, updates, updates.len() as int),
            forall|leaf: u32| #[trigger]
                indexes@.contains(leaf) <==> {
                    ||| removed_among(removals, removals.len() as int, leaf)
                    ||| exists|j: int| 0 <= j < i && #[trigger] is_last_update(updates, j, leaf)
                },
            screened_flags::<F, UpdateProposal, E>(*strategy, updates, update_faults, flags@)
                == screened_flags::<F, UpdateProposal, E>(
                *strategy,
                updates,
                update_faults,
                seq![],
            ),
    {
        let p = &remaining.updates[i];
        let keep = match p.sender {
            Sender::Member(leaf) => {
                let is_last = match last.get(&leaf) {
                    Some(at) => *at == i,
                    None => false,
                };
                let ghost before = indexes@;
                assert(is_last == is_last_update(updates, i as int, leaf)) by {
                    assert(updates[i as int].sender == Sender::Member(leaf));
                    assert(last@.contains_key(leaf));
                    if last@[leaf] != i {
                        assert(updates[last@[leaf] as int].sender == Sender::Member(leaf));
                    } else {
                        assert forall|j: int|
                            i < j < updates.len() implies (#[trigger] updates[j]).sender
                            != Sender::Member(leaf) by {
                            if updates[j].sender == Sender::Member(leaf) {
                                assert(j <= last@[leaf]);
                            }
                        }
                    }
                }
                let res = if is_last && indexes.insert(leaf) {
                    Ok(())
                } else {
                    Err(ProposalFilterError::MoreThanOneProposalForLeaf(leaf))
                };
                assert(is_last ==> (before.contains(leaf) <==> removed_among(
                    removals,
                    removals.len() as int,
                    leaf,
                ))) by {
                    if is_last && before.contains(leaf) && exists|j: int|
                        0 <= j < i && #[trigger] is_last_update(updates, j, leaf) {
                        let j = choose|j: int|
                            0 <= j < i && #[trigger] is_last_update(updates, j, leaf);
                        assert(updates[i as int].sender != Sender::Member(leaf));
                    }
                }
                assert forall|l: u32| #[trigger] indexes@.contains(l) <==> {
                    ||| removed_among(removals, removals.len() as int, l)
                    ||| exists|j: int| 0 <= j < i + 1 && #[trigger] is_last_update(updates, j, l)
                } by {
                    assert(before.contains(l) <==> {
                        ||| removed_among(removals, removals.len() as int, l)
                        ||| exists|j: int| 0 <= j < i && #[trigger] is_last_update(updates, j, l)
                    });
                    if is_last_update(updates, i as int, l) {
                        assert(l == leaf);
                    }
                }
                apply_strategy(strategy, &**p, res)
            },
            _ => {
                assert forall|l: u32| #[trigger] indexes@.contains(l) <==> {
                    ||| removed_among(removals, removals.len() as int, l)
                    ||| exists|j: int| 0 <= j < i + 1 && #[trigger] is_last_update(updates, j, l)
                } by {
                    if exists|j: int| 0 <= j < i + 1 && #[trigger] is_last_update(updates, j, l) {
                        let j = choose|j: int|
                            0 <= j < i + 1 && #[trigger] is_last_update(updates, j, l);
                        assert(j < i);
                    }
                }
                Ok(true)
            },
        };
        match keep {
            Ok(keep) => flags.push(keep),
            Err(e) => return Err(e),
        }
    }
    retain_flagged::<UpdateProposal>(&mut remaining, &flags);
    Ok(remaining)
}

} // verus!
