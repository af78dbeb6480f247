//! Collecting what happens while the ratchet tree is edited.

use vstd::prelude::*;

use std::collections::BTreeSet;
use std::sync::Arc;

use crate::group::proposal::{AddProposal, ProposalInfo, RemoveProposal, UpdateProposal};
use crate::group::proposal_filter::bundle::{Bundled, ProposalBundle};
use crate::group::proposal_filter::screening::selected_of;
use crate::group::proposal_filter::state::{
    additions_told, all_told, edits_fit, edits_ignored, outside, positions_in, removals_told,
    without_among, BatchEdits, EditsView,
};
use crate::group::proposal_filter::strategy::{borrowed_info, FilterStrategy};
use crate::tree_kem::{LeafIndex, LeafNode, RatchetTreeError};

verus! {

broadcast use vstd::std_specs::btree::group_btree_axioms;

/// Collects what happens to each requested change while the ratchet tree is edited,
/// and decides whether a change that is not possible makes the whole edit fail.
/// Changes are named by the position of their proposal in the bundle.
pub struct TreeBatchEditAccumulator<'a, F> {
    strategy: F,
    proposals: &'a ProposalBundle,
    edits: BatchEdits,
}

/// What the strategy makes of a change that was not possible.
pub open spec fn edit_verdict<F: FilterStrategy, T: Bundled, E>(
    strategy: F,
    items: Seq<Arc<ProposalInfo<T>>>,
    index: int,
    r: Result<(), RatchetTreeError<E>>,
) -> Result<(), RatchetTreeError<E>> {
    match r {
        Ok(_) => Ok(()),
        Err(e) => if strategy.ignores(borrowed_info(&*items[index])) {
            Ok(())
        } else {
            Err(e)
        },
    }
}

/// Whether something happened, without what it was.
pub open spec fn outcome_of<T, X>(r: Result<T, X>) -> Result<(), X> {
    match r {
        Ok(_) => Ok(()),
        Err(e) => Err(e),
    }
}

/// Edits that did nothing yet.
pub open spec fn no_edits() -> EditsView {
    EditsView {
        new_leaf_indexes: seq![],
        removed_leaves: seq![],
        invalid_additions: Set::empty(),
        invalid_removals: Set::empty(),
        invalid_updates: Set::empty(),
    }
}

proof fn lemma_same_selection<T>(items: Seq<T>, a: Seq<bool>, b: Seq<bool>, n: int)
    requires
        forall|i: int| 0 <= i < n ==> a[i] == b[i],
    ensures
        selected_of(items, a, n) == selected_of(items, b, n),
    decreases n,
{
    if n > 0 {
        lemma_same_selection(items, a, b, n - 1);
    }
}

/// Where the set holds only positions before `index`, the item there is next in order, and
/// putting `index` into the set takes it out again.
proof fn lemma_next<T>(items: Seq<T>, set: Set<usize>, index: usize)
    requires
        index < items.len(),
        positions_in(set, index as nat),
    ensures
        without_among(items, set, index + 1) == without_among(items, set, index as int).push(
            items[index as int],
        ),
        without_among(items, set.insert(index), index + 1) == without_among(
            items,
            set,
            index as int,
        ),
{
    let a = outside(set, items.len());
    let b = outside(set.insert(index), items.len());
    assert(a[index as int] && !b[index as int]);
    lemma_same_selection(items, a, b, index as int);
}

impl<'a, F: FilterStrategy> TreeBatchEditAccumulator<'a, F> {
    /// The strategy that decides about changes that are not possible.
    pub closed spec fn strategy(self) -> F {
        self.strategy
    }

    /// The proposals that ask for the changes.
    pub closed spec fn proposals(self) -> ProposalBundle {
        *self.proposals
    }

    /// What was collected so far.
    pub closed spec fn edits(self) -> EditsView {
        self.edits@
    }

    /// What was collected speaks of proposals that the bundle holds.
    pub open spec fn wf(self) -> bool {
        edits_fit(self.edits(), self.proposals()@)
    }

    /// Every change that was not possible belongs to a proposal that the strategy ignores.
    /// This holds as long as the edit stops where it is told to.
    pub open spec fn only_ignored(self) -> bool {
        edits_ignored(self.strategy(), self.edits(), self.proposals()@)
    }

    /// It was told of the first removals, this many, and of the first additions, in order.
    pub open spec fn told_of(self, removals: int, additions: int) -> bool {
        &&& removals_told(self.edits(), self.proposals()@, removals)
        &&& additions_told(self.edits(), self.proposals()@, additions)
    }

    /// Nothing has happened yet.
    pub fn new(strategy: F, proposals: &'a ProposalBundle) -> (acc: Self)
        ensures
            acc.wf(),
            acc.only_ignored(),
            acc.told_of(0, 0),
            acc.strategy() == strategy,
            acc.proposals() == *proposals,
            acc.edits() == no_edits(),
    {
        let acc = TreeBatchEditAccumulator {
            strategy,
            proposals,
            edits: BatchEdits {
                new_leaf_indexes: Vec::new(),
                removed_leaves: Vec::new(),
                invalid_additions: BTreeSet::new(),
                invalid_removals: BTreeSet::new(),
                invalid_updates: BTreeSet::new(),
            },
        };
        assert(acc.edits().new_leaf_indexes =~= seq![]);
        assert(acc.edits().removed_leaves =~= seq![]);
        acc
    }

    /// Whether the edit goes on: where a change was not possible, it does if the
    /// strategy ignores the proposal that asked for it.
    pub fn apply_strategy<T: Bundled, E>(
        &self,
        index: usize,
        r: Result<(), RatchetTreeError<E>>,
    ) -> (go_on: Result<(), RatchetTreeError<E>>)
        requires
            r is Err ==> index < T::list(self.proposals()@).len(),
        ensures
            go_on == edit_verdict::<F, T, E>(
                self.strategy(),
                T::list(self.proposals()@),
                index as int,
                r,
            ),
    {
        match r {
            Ok(_) => Ok(()),
            Err(e) => {
                if self.strategy.ignore(&T::by_type(self.proposals)[index].by_ref()) {
                    Ok(())
                } else {
                    Err(e)
                }
            },
        }
    }

    /// Update `index` was made, or was not possible.
    pub fn on_update<E>(
        &mut self,
        index: usize,
        r: Result<LeafIndex, RatchetTreeError<E>>,
    ) -> (go_on: Result<(), RatchetTreeError<E>>)
        requires
            old(self).wf(),
            r is Err ==> index < old(self).proposals()@.updates.len(),
        ensures
            final(self).wf(),
            old(self).only_ignored() && go_on is Ok ==> final(self).only_ignored(),
            forall|removals: int, additions: int|
                old(self).told_of(removals, additions) ==> #[trigger] final(self).told_of(
                    removals,
                    additions,
                ),
            final(self).strategy() == old(self).strategy(),
            final(self).proposals() == old(self).proposals(),
            final(self).edits() == (match r {
                Ok(_) => old(self).edits(),
                Err(_) => EditsView {
                    invalid_updates: old(self).edits().invalid_updates.insert(index),
                    ..old(self).edits()
                },
            }),
            go_on == edit_verdict::<F, UpdateProposal, E>(
                old(self).strategy(),
                old(self).proposals()@.updates,
                index as int,
                outcome_of(r),
            ),
    {
        let r = match r {
            Ok(_) => Ok(()),
            Err(e) => {
                self.edits.invalid_updates.insert(index);
                Err(e)
            },
        };
        self.apply_strategy::<UpdateProposal, E>(index, r)
    }

    /// Removal `index` was made, of this leaf, or was not possible.
    pub fn on_remove<E>(
        &mut self,
        index: usize,
        r: Result<(LeafIndex, Arc<LeafNode>), RatchetTreeError<E>>,
    ) -> (go_on: Result<(), RatchetTreeError<E>>)
        requires
            old(self).wf(),
            r is Err ==> index < old(self).proposals()@.removals.len(),
        ensures
            final(self).wf(),
            old(self).only_ignored() && go_on is Ok ==> final(self).only_ignored(),
            forall|additions: int| #[trigger]
                old(self).told_of(index as int, additions) && index
                    < old(self).proposals()@.removals.len() && (r matches Ok((leaf_index, _))
                    ==> leaf_index
                    == old(self).proposals()@.removals[index as int].proposal.to_remove)
                    ==> final(self).told_of(index + 1, additions),
            final(self).strategy() == old(self).strategy(),
            final(self).proposals() == old(self).proposals(),
            final(self).edits() == (match r {
                Ok(leaf) => EditsView {
                    removed_leaves: old(self).edits().removed_leaves.push(leaf),
                    ..old(self).edits()
                },
                Err(_) => EditsView {
                    invalid_removals: old(self).edits().invalid_removals.insert(index),
                    ..old(self).edits()
                },
            }),
            go_on == edit_verdict::<F, RemoveProposal, E>(
                old(self).strategy(),
                old(self).proposals()@.removals,
                index as int,
                outcome_of(r),
            ),
    {
        proof {
            let items = self.proposals()@.removals;
            let set = self.edits().invalid_removals;
            if index < items.len() && positions_in(set, index as nat) {
                lemma_next(items, set, index);
            }
        }
        let r = match r {
            Ok(leaf) => {
                self.edits.removed_leaves.push(leaf);
                Ok(())
            },
            Err(e) => {
                self.edits.invalid_removals.insert(index);
                Err(e)
            },
        };
        self.apply_strategy::<RemoveProposal, E>(index, r)
    }

    /// Addition `index` was made, at this leaf, or was not possible.
    pub fn on_add<E>(
        &mut self,
        index: usize,
        r: Result<LeafIndex, RatchetTreeError<E>>,
    ) -> (go_on: Result<(), RatchetTreeError<E>>)
        requires
            old(self).wf(),
            r is Err ==> index < old(self).proposals()@.additions.len(),
        ensures
            final(self).wf(),
            old(self).only_ignored() && go_on is Ok ==> final(self).only_ignored(),
            forall|removals: int| #[trigger]
                old(self).told_of(removals, index as int) && index
                    < old(self).proposals()@.additions.len() ==> final(self).told_of(
                    removals,
                    index + 1,
                ),
            final(self).strategy() == old(self).strategy(),
            final(self).proposals() == old(self).proposals(),
            final(self).edits() == (match r {
                Ok(leaf_index) => EditsView {
                    new_leaf_indexes: old(self).edits().new_leaf_indexes.push(leaf_index),
                    ..old(self).edits()
                },
                Err(_) => EditsView {
                    invalid_additions: old(self).edits().invalid_additions.insert(index),
                    ..old(self).edits()
                },
            }),
            go_on == edit_verdict::<F, AddProposal, E>(
                old(self).strategy(),
                old(self).proposals()@.additions,
                index as int,
                outcome_of(r),
            ),
    {
        proof {
            let items = self.proposals()@.additions;
            let set = self.edits().invalid_additions;
            if index < items.len() && positions_in(set, index as nat) {
                lemma_next(items, set, index);
            }
        }
        let r = match r {
            Ok(leaf_index) => {
                self.edits.new_leaf_indexes.push(leaf_index);
                Ok(())
            },
            Err(e) => {
                self.edits.invalid_additions.insert(index);
                Err(e)
            },
        };
        self.apply_strategy::<AddProposal, E>(index, r)
    }

    /// What was collected.
    pub fn finish(self) -> (edits: BatchEdits)
        requires
            self.wf(),
        ensures
            edits@ == self.edits(),
            edits_fit(edits@, self.proposals()@),
            self.only_ignored() ==> edits_ignored(self.strategy(), edits@, self.proposals()@),
            self.told_of(
                self.proposals()@.removals.len() as int,
                self.proposals()@.additions.len() as int,
            ) ==> all_told(edits@, self.proposals()@),
    {
        self.edits
    }
}

} // verus!
