//! What applying the proposals of a commit leads to.

use vstd::prelude::*;

use std::collections::BTreeSet;
use std::sync::Arc;

use crate::group::proposal::{
    AddProposal, CustomProposal, ProposalInfo, RemoveProposal, UpdateProposal,
};
use crate::group::proposal_filter::bundle::{BundleView, Bundled, ProposalBundle};
use crate::group::proposal_filter::error::ProposalFilterError;
use crate::group::proposal_filter::filtering::custom_verdicts;
use crate::group::proposal_filter::screening::{
    retain_flagged, screened, screened_flags, selected, selected_of,
};
use crate::group::proposal_filter::strategy::{apply_strategy, borrowed_info, FilterStrategy};
use crate::tree_kem::{LeafIndex, LeafNode, TreeKemPublic};

verus! {

/// The group after the proposals of a commit, and the proposals that were applied.
#[derive(Debug, PartialEq)]
pub struct ProposalState {
    pub tree: TreeKemPublic,
    pub proposals: ProposalBundle,
    pub added_indexes: Vec<LeafIndex>,
    pub removed_leaves: Vec<(LeafIndex, Arc<LeafNode>)>,
    pub external_leaf_index: Option<LeafIndex>,
}

/// A state with its collections as sequences.
pub ghost struct StateView {
    pub tree: Seq<Option<Arc<LeafNode>>>,
    pub proposals: BundleView,
    pub added_indexes: Seq<LeafIndex>,
    pub removed_leaves: Seq<(LeafIndex, Arc<LeafNode>)>,
    pub external_leaf_index: Option<LeafIndex>,
}

impl View for ProposalState {
    type V = StateView;

    open spec fn view(&self) -> StateView {
        StateView {
            tree: self.tree@,
            proposals: self.proposals@,
            added_indexes: self.added_indexes@,
            removed_leaves: self.removed_leaves@,
            external_leaf_index: self.external_leaf_index,
        }
    }
}

impl ProposalState {
    /// The state before any proposal is applied.
    pub fn new(tree: TreeKemPublic, proposals: ProposalBundle) -> (state: Self)
        ensures
            state@ == (StateView {
                tree: tree@,
                proposals: proposals@,
                added_indexes: seq![],
                removed_leaves: seq![],
                external_leaf_index: None,
            }),
    {
        let state = ProposalState {
            tree,
            proposals,
            added_indexes: Vec::new(),
            removed_leaves: Vec::new(),
            external_leaf_index: None,
        };
        assert(state@.added_indexes =~= seq![]);
        assert(state@.removed_leaves =~= seq![]);
        state
    }
}

/// What editing the ratchet tree did: the leaves that were added and removed, and
/// which of the requested changes were not possible.
#[derive(Debug, PartialEq)]
pub struct BatchEdits {
    pub new_leaf_indexes: Vec<LeafIndex>,
    pub removed_leaves: Vec<(LeafIndex, Arc<LeafNode>)>,
    pub invalid_additions: BTreeSet<usize>,
    pub invalid_removals: BTreeSet<usize>,
    pub invalid_updates: BTreeSet<usize>,
}

/// Edits with their collections as sequences and sets.
pub ghost struct EditsView {
    pub new_leaf_indexes: Seq<LeafIndex>,
    pub removed_leaves: Seq<(LeafIndex, Arc<LeafNode>)>,
    pub invalid_additions: Set<usize>,
    pub invalid_removals: Set<usize>,
    pub invalid_updates: Set<usize>,
}

impl View for BatchEdits {
    type V = EditsView;

    open spec fn view(&self) -> EditsView {
        EditsView {
            new_leaf_indexes: self.new_leaf_indexes@,
            removed_leaves: self.removed_leaves@,
            invalid_additions: self.invalid_additions@,
            invalid_removals: self.invalid_removals@,
            invalid_updates: self.invalid_updates@,
        }
    }
}

/// Every number in the set is a position in a list of this length.
pub open spec fn positions_in(set: Set<usize>, len: nat) -> bool {
    forall|i: usize| #[trigger] set.contains(i) ==> i < len
}

/// The edits speak of proposals that the bundle holds.
pub open spec fn edits_fit(edits: EditsView, bundle: BundleView) -> bool {
    &&& positions_in(edits.invalid_additions, bundle.additions.len())
    &&& positions_in(edits.invalid_removals, bundle.removals.len())
    &&& positions_in(edits.invalid_updates, bundle.updates.len())
}

/// Every position in the set is that of a proposal that the strategy ignores.
pub open spec fn positions_ignored<F: FilterStrategy, P: Bundled>(
    strategy: F,
    set: Set<usize>,
    items: Seq<Arc<ProposalInfo<P>>>,
) -> bool {
    forall|i: usize| #[trigger]
        set.contains(i) ==> i < items.len() && strategy.ignores(borrowed_info(&*items[i as int]))
}

/// Every change that was not possible belongs to a proposal that the strategy ignores.
pub open spec fn edits_ignored<F: FilterStrategy>(
    strategy: F,
    edits: EditsView,
    bundle: BundleView,
) -> bool {
    &&& positions_ignored(strategy, edits.invalid_additions, bundle.additions)
    &&& positions_ignored(strategy, edits.invalid_removals, bundle.removals)
    &&& positions_ignored(strategy, edits.invalid_updates, bundle.updates)
}

/// Of `n` positions, those that are not in the set.
pub open spec fn outside(set: Set<usize>, n: nat) -> Seq<bool> {
    Seq::new(n, |i: int| i > usize::MAX || !set.contains(i as usize))
}

/// The items whose position is not in the set, in order.
pub open spec fn without<T>(items: Seq<T>, set: Set<usize>) -> Seq<T> {
    selected(items, outside(set, items.len()))
}

/// The first `n` items whose position is not in the set, in order.
pub open spec fn without_among<T>(items: Seq<T>, set: Set<usize>, n: int) -> Seq<T> {
    selected_of(items, outside(set, items.len()), n)
}

/// Of the first `n` additions each was made at one new leaf, or not possible.
pub open spec fn additions_told(edits: EditsView, bundle: BundleView, n: int) -> bool {
    &&& 0 <= n <= bundle.additions.len()
    &&& positions_in(edits.invalid_additions, n as nat)
    &&& edits.new_leaf_indexes.len() == without_among(
        bundle.additions,
        edits.invalid_additions,
        n,
    ).len()
}

/// These leaves are the ones that the removals name, in order.
pub open spec fn leaves_named(
    removed: Seq<(LeafIndex, Arc<LeafNode>)>,
    removals: Seq<Arc<ProposalInfo<RemoveProposal>>>,
) -> bool {
    &&& removed.len() == removals.len()
    &&& forall|k: int|
        0 <= k < removed.len() ==> (#[trigger] removed[k]).0 == removals[k].proposal.to_remove
}

/// Of the first `n` removals each removed the leaf that it names, or was not possible.
pub open spec fn removals_told(edits: EditsView, bundle: BundleView, n: int) -> bool {
    &&& 0 <= n <= bundle.removals.len()
    &&& positions_in(edits.invalid_removals, n as nat)
    &&& leaves_named(
        edits.removed_leaves,
        without_among(bundle.removals, edits.invalid_removals, n),
    )
}

/// The edits tell what became of every addition and removal, in order.
pub open spec fn all_told(edits: EditsView, bundle: BundleView) -> bool {
    &&& additions_told(edits, bundle, bundle.additions.len() as int)
    &&& removals_told(edits, bundle, bundle.removals.len() as int)
}

/// The state after the tree was edited: proposals that were not possible are gone.
pub open spec fn after_edit(
    bundle: BundleView,
    tree: Seq<Option<Arc<LeafNode>>>,
    edits: EditsView,
) -> StateView {
    StateView {
        tree,
        proposals: BundleView {
            additions: without(bundle.additions, edits.invalid_additions),
            removals: without(bundle.removals, edits.invalid_removals),
            updates: without(bundle.updates, edits.invalid_updates),
            ..bundle
        },
        added_indexes: edits.new_leaf_indexes,
        removed_leaves: edits.removed_leaves,
        external_leaf_index: None,
    }
}

/// Of `n` positions, those that are not in the set.
fn flags_outside(set: &BTreeSet<usize>, n: usize) -> (flags: Vec<bool>)
    ensures
        flags@ == outside(set@, n as nat),
{
    broadcast use vstd::std_specs::btree::group_btree_axioms;

    let mut flags: Vec<bool> = Vec::new();
    for i in 0..n
        invariant
            flags@ == outside(set@, n as nat).take(i as int),
    {
        flags.push(!set.contains(&i));
        assert(flags@ =~= outside(set@, n as nat).take(i + 1));
    }
    assert(flags@ =~= outside(set@, n as nat));
    flags
}

impl ProposalState {
    /// The state after the tree was edited: proposals that were not possible are gone.
    pub fn from_edits(proposals: ProposalBundle, tree: TreeKemPublic, edits: BatchEdits) -> (state:
        Self)
        requires
            edits_fit(edits@, proposals@),
        ensures
            state@ == after_edit(proposals@, tree@, edits@),
    {
        let mut state = ProposalState::new(tree, proposals);
        state.added_indexes = edits.new_leaf_indexes;
        state.removed_leaves = edits.removed_leaves;
        let valid_additions = flags_outside(
            &edits.invalid_additions,
            state.proposals.additions.len(),
        );
        retain_flagged::<AddProposal>(
            &mut state.proposals,
            &valid_additions,
        );
        let valid_removals = flags_outside(&edits.invalid_removals, state.proposals.removals.len());
        retain_flagged::<RemoveProposal>(
            &mut state.proposals,
            &valid_removals,
        );
        let valid_updates = flags_outside(&edits.invalid_updates, state.proposals.updates.len());
        retain_flagged::<UpdateProposal>(
            &mut state.proposals,
            &valid_updates,
        );
        state
    }
}

/// The state without custom proposals that some member does not support.
pub open spec fn custom_filtered<F: FilterStrategy, E>(
    strategy: F,
    state: StateView,
) -> Result<StateView, ProposalFilterError<E>> {
    match screened::<F, CustomProposal, E>(
        strategy,
        state.proposals,
        custom_verdicts(state.tree, state.proposals.custom_proposals),
    ) {
        Ok(proposals) => Ok(StateView { proposals, ..state }),
        Err(e) => Err(e),
    }
}

/// The result stands for this state, or for this error.
pub open spec fn leads_to<E>(
    r: Result<ProposalState, ProposalFilterError<E>>,
    expected: Result<StateView, ProposalFilterError<E>>,
) -> bool {
    match expected {
        Ok(state) => r matches Ok(s) && s@ == state,
        Err(e) => r == Err::<ProposalState, ProposalFilterError<E>>(e),
    }
}

/// Drops the custom proposals of a type that some member does not support.
pub fn filter_out_unsupported_custom_proposals<F: FilterStrategy, E>(
    state: ProposalState,
    strategy: &F,
) -> (r: Result<ProposalState, ProposalFilterError<E>>)
    ensures
        leads_to(r, custom_filtered::<F, E>(*strategy, state@)),
{
    let ghost list = state@.proposals.custom_proposals;
    let ghost verdicts = custom_verdicts::<E>(state@.tree, list);
    let mut remaining = state;
    let mut flags: Vec<bool> = Vec::new();
    let n: usize = remaining.proposals.custom_proposals.len();
    for i in 0..n
        invariant
            n == list.len(),
            list == state@.proposals.custom_proposals,
            remaining@ == state@,
            flags.len() == i,
            verdicts == custom_verdicts::<E>(state@.tree, list),
            screened_flags::<F, CustomProposal, E>(*strategy, list, verdicts, flags@)
                == screened_flags::<F, CustomProposal, E>(*strategy, list, verdicts, seq![]),
    {
        let p = &remaining.proposals.custom_proposals[i];
        let proposal_type = p.proposal.proposal_type;
        let res = if remaining.tree.can_support_proposal(proposal_type) {
            Ok(())
        } else {
            Err(ProposalFilterError::UnsupportedCustomProposal(proposal_type))
        };
        match apply_strategy(strategy, &**p, res) {
            Ok(keep) => flags.push(keep),
            Err(e) => return Err(e),
        }
    }
    retain_flagged::<CustomProposal>(&mut remaining.proposals, &flags);
    Ok(remaining)
}

} // verus!
