//! The leaves that a commit adds and removes are those that its proposals ask for.

use vstd::prelude::*;

use std::sync::Arc;

use crate::extension::Extension;
use crate::group::proposal_filter::bundle::{without_group_context_extensions, BundleView};
use crate::group::proposal_filter::outcome::{
    after_self_removal, applied, changed, changed_and_concluded, edit_answer, governing,
    tree_changed, Committer, Governing, ProposalApplier, Replies, TreeReplies,
};
use crate::group::proposal_filter::state::{
    after_edit, all_told, leaves_named, without, without_among, EditsView, StateView,
};
use crate::group::proposal_filter::strategy::FilterStrategy;
use crate::group::sender::Sender;
use crate::tree_kem::{LeafIndex, LeafNode};

verus! {

/// Every edit of the tree tells what became of each addition and removal, in order. An edit
/// that tells its accumulator of each is such.
pub open spec fn edits_tell_all<E>(replies: TreeReplies<E>) -> bool {
    forall|bundle: BundleView| #[trigger]
        edit_answer(replies, bundle) matches Ok((tree, edits)) ==> all_told(edits, bundle)
}

/// There is one new leaf for each addition that is left, and the leaves that were removed are
/// those that the removals that are left name, in order.
pub open spec fn leaves_match_proposals(state: StateView) -> bool {
    &&& state.added_indexes.len() == state.proposals.additions.len()
    &&& leaves_named(state.removed_leaves, state.proposals.removals)
}

proof fn lemma_edit_matches(
    bundle: BundleView,
    tree: Seq<Option<Arc<LeafNode>>>,
    edits: EditsView,
)
    requires
        all_told(edits, bundle),
    ensures
        leaves_match_proposals(after_edit(bundle, tree, edits)),
{
    assert(without(bundle.additions, edits.invalid_additions) == without_among(
        bundle.additions,
        edits.invalid_additions,
        bundle.additions.len() as int,
    ));
    assert(without(bundle.removals, edits.invalid_removals) == without_among(
        bundle.removals,
        edits.invalid_removals,
        bundle.removals.len() as int,
    ));
}

proof fn lemma_tree_changes_match<F: FilterStrategy, E>(
    strategy: F,
    bundle: BundleView,
    extensions: Seq<Extension>,
    replies: TreeReplies<E>,
)
    requires
        edits_tell_all(replies),
    ensures
        tree_changed::<F, E>(strategy, bundle, extensions, replies) matches Ok(state)
            ==> leaves_match_proposals(state),
{
    assert forall|b: BundleView| #[trigger]
        edit_answer(replies, b) matches Ok((tree, edits)) ==> leaves_match_proposals(
            after_edit(b, tree, edits),
        ) by {
        if let Ok((tree, edits)) = edit_answer(replies, b) {
            lemma_edit_matches(b, tree, edits);
        }
    }
}

proof fn lemma_changes_match<F: FilterStrategy, E>(
    applier: ProposalApplier<E>,
    strategy: F,
    bundle: BundleView,
    replies: Replies<E>,
)
    requires
        edits_tell_all(replies.trial),
        edits_tell_all(replies.original),
    ensures
        changed::<F, E>(applier, strategy, bundle, replies) matches Ok(state)
            ==> leaves_match_proposals(state),
{
    lemma_tree_changes_match::<F, E>(strategy, bundle, seq![], replies.trial);
    lemma_tree_changes_match::<F, E>(
        strategy,
        without_group_context_extensions(bundle),
        applier.original_group_extensions@,
        replies.original,
    );
}

proof fn lemma_conclusions_match<F: FilterStrategy, E>(
    applier: ProposalApplier<E>,
    strategy: F,
    committer: Committer,
    replies: Replies<E>,
)
    requires
        edits_tell_all(replies.trial),
        edits_tell_all(replies.original),
    ensures
        forall|b: BundleView| #[trigger]
            changed_and_concluded::<F, E>(applier, strategy, committer, b, replies) matches Ok(
                state,
            ) ==> leaves_match_proposals(state),
{
    assert forall|b: BundleView| #[trigger]
        changed_and_concluded::<F, E>(applier, strategy, committer, b, replies) matches Ok(
            state,
        ) ==> leaves_match_proposals(state) by {
        lemma_changes_match::<Governing<'_, F>, E>(
            applier,
            governing(&strategy, committer),
            b,
            replies,
        );
    }
}

/// A commit that is applied adds one leaf for each addition that is left, and removes the
/// leaves that the removals that are left name, if the edit of the tree tells what became of
/// each. The leaf of whoever joins by the commit is not counted among those added.
pub proof fn leaves_follow_the_proposals<F: FilterStrategy, E>(
    applier: ProposalApplier<E>,
    strategy: F,
    sender: Sender,
    bundle: BundleView,
    replies: Replies<E>,
)
    requires
        edits_tell_all(replies.trial),
        edits_tell_all(replies.original),
    ensures
        applied::<F, E>(applier, strategy, sender, bundle, replies) matches Ok(state)
            ==> leaves_match_proposals(state),
{
    match sender {
        Sender::Member(i) => {
            lemma_conclusions_match::<F, E>(
                applier,
                strategy,
                Committer::Member(LeafIndex(i)),
                replies,
            );
        },
        Sender::NewMemberCommit => {
            if let Some(leaf) = applier.external_leaf {
                lemma_joining_matches::<F, E>(applier, strategy, leaf, bundle, replies);
            }
        },
        Sender::External(_) | Sender::NewMemberProposal => {},
    }
}

proof fn lemma_joining_matches<F: FilterStrategy, E>(
    applier: ProposalApplier<E>,
    strategy: F,
    leaf: Arc<LeafNode>,
    bundle: BundleView,
    replies: Replies<E>,
)
    requires
        edits_tell_all(replies.trial),
        edits_tell_all(replies.original),
    ensures
        after_self_removal::<F, E>(applier, strategy, leaf, bundle, replies) matches Ok(state)
            ==> leaves_match_proposals(state),
{
    lemma_conclusions_match::<F, E>(applier, strategy, Committer::NewMember(leaf), replies);
}

} // verus!
