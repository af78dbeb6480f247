//! What is handed out with each question, and what the answer is about.

use vstd::prelude::*;

use std::sync::Arc;

use crate::extension::{Extension, RequiredCapabilitiesExt};
use crate::group::proposal::{
    AddProposal, JustPreSharedKeyID, ProposalInfo, RemoveProposal, UpdateProposal,
};
use crate::group::proposal_filter::applier::{edit_view, external_leaf_view};
use crate::group::proposal_filter::asked::{ends_in, PlanView};
use crate::group::proposal_filter::bundle::BundleView;
use crate::group::proposal_filter::error::ProposalFilterError;
use crate::group::proposal_filter::outcome::{
    edit_answer, external_senders_answers, key_package_answers,
    key_package_verdicts, leaf_additions, leaf_check_answers, leaf_removals, leaf_updates,
    psk_answers, tree_changed, update_leaf_answers, update_node_verdicts, update_sender_verdicts,
    ProposalApplier, Replies, TreeReplies,
};
use crate::group::proposal_filter::rule_laws::{leaves_support_what_they_list, lists_all};
use crate::group::proposal_filter::screening::{nothing_wrong, screened, screening_keeps_valid};
use crate::group::proposal_filter::state::{
    after_edit, BatchEdits, EditsView, ProposalState, StateView,
};
use crate::group::proposal_filter::step::{
    continued, ExternalSendersStep, KeyPackageStep, Plan, PskStep, RequiredCapabilitiesStep, Step,
    TreeEditStep, UpdateLeafStep,
};
use crate::group::proposal_filter::strategy::FilterStrategy;
use crate::group::sender::Sender;
use crate::tree_kem::{members, LeafIndex, LeafNode, RatchetTreeError, TreeKemPublic};

verus! {

// ---------------------------------------------------------------------------
// The edit of the tree
// ---------------------------------------------------------------------------

/// The change is the one that this update asks for: its own leaf, where its sender sits.
pub open spec fn is_update_of(
    change: (LeafIndex, Arc<LeafNode>),
    info: ProposalInfo<UpdateProposal>,
) -> bool {
    &&& info.sender == Sender::Member(change.0.0)
    &&& info.proposal.leaf_node == change.1
}

/// The tree is asked for one change for each update that is left, at the same position: to put
/// that update's own leaf where its own sender sits.
pub proof fn each_update_is_asked_for(step: TreeEditStep)
    requires
        Step::TreeEdit(step).wf(),
    ensures
        step.updates@.len() == step.proposals.updates@.len(),
        forall|i: int|
            0 <= i < step.updates@.len() ==> is_update_of(
                #[trigger] step.updates@[i],
                *step.proposals.updates@[i],
            ),
{
    assert forall|i: int| 0 <= i < step.updates@.len() implies is_update_of(
        #[trigger] step.updates@[i],
        *step.proposals.updates@[i],
    ) by {
        assert(step.proposals@.updates[i].sender is Member);
    }
}

/// Whoever sent each update, the change that it asks for is its own, in the same position, and
/// so for removals and additions: each leaf that a removal names, and the leaf of each key
/// package. No change depends on another proposal.
pub proof fn each_change_is_of_its_proposal(
    updates: Seq<Arc<ProposalInfo<UpdateProposal>>>,
    removals: Seq<Arc<ProposalInfo<RemoveProposal>>>,
    additions: Seq<Arc<ProposalInfo<AddProposal>>>,
)
    ensures
        leaf_updates(updates).len() == updates.len(),
        forall|i: int|
            0 <= i < updates.len() ==> (#[trigger] leaf_updates(updates)[i]).1
                == updates[i].proposal.leaf_node && (updates[i].sender matches Sender::Member(k)
                ==> leaf_updates(updates)[i].0 == LeafIndex(k)),
        leaf_removals(removals).len() == removals.len(),
        forall|i: int|
            0 <= i < removals.len() ==> #[trigger] leaf_removals(removals)[i]
                == removals[i].proposal.to_remove,
        leaf_additions(additions).len() == additions.len(),
        forall|i: int|
            0 <= i < additions.len() ==> #[trigger] leaf_additions(additions)[i]
                == additions[i].proposal.key_package.leaf_node,
{
}

/// The leaf that the tree is asked to put somewhere is the one that the validator was asked
/// about, for the same place: whatever update was asked about, if it is left, it is asked for
/// as it was asked about. The same holds of the leaf of a key package.
pub proof fn what_was_asked_about_is_asked_for(
    asked: UpdateLeafStep,
    package: KeyPackageStep,
    step: TreeEditStep,
    i: int,
)
    requires
        Step::UpdateLeaf(asked).wf(),
        Step::KeyPackage(package).wf(),
        Step::TreeEdit(step).wf(),
    ensures
        0 <= i < step.proposals.updates@.len() && step.proposals.updates@[i]
            == asked.proposals.updates@[asked.flags@.len() as int] ==> step.updates@[i]
            == asked.asked(),
        0 <= i < step.proposals.additions@.len() && step.proposals.additions@[i]
            == package.proposals.additions@[package.flags@.len() as int] ==> leaf_additions(
            step.proposals.additions@,
        )[i] == package.asked().leaf_node,
{
    each_update_is_asked_for(step);
}

/// Whoever answers about leaves and key packages, and whatever the strategy, the tree is edited by
/// nothing that was not accepted: every update that the edit is made from is one of those that
/// were proposed, its validator accepted its own leaf for its own sender's place, and the leaf
/// lists the extensions in use; and so for every addition.
pub proof fn edits_are_made_from_what_was_accepted<F: FilterStrategy, E>(
    strategy: F,
    bundle: BundleView,
    extensions: Seq<Extension>,
    replies: TreeReplies<E>,
) -> (r: (BundleView, Seq<int>, Seq<int>))
    ensures
        tree_changed::<F, E>(strategy, bundle, extensions, replies) matches Ok(state) ==> {
            let (edited, u, a) = r;
            &&& edit_answer(replies, edited) matches Ok((tree, edits)) && state == after_edit(
                edited,
                tree,
                edits,
            )
            &&& edited.removals == bundle.removals
            &&& u.len() == edited.updates.len()
            &&& a.len() == edited.additions.len()
            &&& forall|i: int|
                0 <= i < u.len() ==> {
                    &&& 0 <= #[trigger] u[i] < bundle.updates.len()
                    &&& edited.updates[i] == bundle.updates[u[i]]
                    &&& edited.updates[i].sender matches Sender::Member(k) && (
                    replies.update_leaves)(
                        u[i],
                        LeafIndex(k),
                        edited.updates[i].proposal.leaf_node,
                    ) is Ok
                    &&& lists_all(*edited.updates[i].proposal.leaf_node, extensions)
                }
            &&& forall|i: int|
                0 <= i < a.len() ==> {
                    &&& 0 <= #[trigger] a[i] < bundle.additions.len()
                    &&& edited.additions[i] == bundle.additions[a[i]]
                    &&& (replies.key_packages)(
                        a[i],
                        edited.additions[i].proposal.key_package,
                    ) is Ok
                    &&& lists_all(
                        *edited.additions[i].proposal.key_package.leaf_node,
                        extensions,
                    )
                }
        },
{
    let v1 = update_node_verdicts(
        bundle.updates,
        extensions,
        update_leaf_answers(replies, bundle.updates),
    );
    let p = screening_keeps_valid::<F, UpdateProposal, E>(strategy, bundle, v1);
    if let Ok(b1) = screened::<F, UpdateProposal, E>(strategy, bundle, v1) {
        let v2 = key_package_verdicts(
            b1.additions,
            extensions,
            key_package_answers(replies, b1.additions),
        );
        let a = screening_keeps_valid::<F, AddProposal, E>(strategy, b1, v2);
        if let Ok(b2) = screened::<F, AddProposal, E>(strategy, b1, v2) {
            let v3 = update_sender_verdicts::<E>(b2.updates);
            let q = screening_keeps_valid::<F, UpdateProposal, E>(strategy, b2, v3);
            if let Ok(b3) = screened::<F, UpdateProposal, E>(strategy, b2, v3) {
                let u = Seq::new(b3.updates.len(), |i: int| p[q[i]]);
                assert forall|i: int| 0 <= i < u.len() implies {
                    &&& 0 <= #[trigger] u[i] < bundle.updates.len()
                    &&& b3.updates[i] == bundle.updates[u[i]]
                    &&& b3.updates[i].sender matches Sender::Member(k) && (replies.update_leaves)(
                        u[i],
                        LeafIndex(k),
                        b3.updates[i].proposal.leaf_node,
                    ) is Ok
                    &&& lists_all(*b3.updates[i].proposal.leaf_node, extensions)
                } by {
                    assert(b3.updates[i] == b2.updates[q[i]]);
                    assert(b1.updates[q[i]] == bundle.updates[p[q[i]]]);
                    assert(nothing_wrong(v1[p[q[i]]]));
                    leaves_support_what_they_list::<E>(
                        *b3.updates[i].proposal.leaf_node,
                        extensions,
                    );
                }
                assert forall|i: int| 0 <= i < a.len() implies {
                    &&& 0 <= #[trigger] a[i] < bundle.additions.len()
                    &&& b3.additions[i] == bundle.additions[a[i]]
                    &&& (replies.key_packages)(
                        a[i],
                        b3.additions[i].proposal.key_package,
                    ) is Ok
                    &&& lists_all(*b3.additions[i].proposal.key_package.leaf_node, extensions)
                } by {
                    assert(b2.additions[i] == b1.additions[a[i]]);
                    assert(nothing_wrong(v2[a[i]]));
                    leaves_support_what_they_list::<E>(
                        *b3.additions[i].proposal.key_package.leaf_node,
                        extensions,
                    );
                }
                (b3, u, a)
            } else {
                (bundle, seq![], seq![])
            }
        } else {
            (bundle, seq![], seq![])
        }
    } else {
        (bundle, seq![], seq![])
    }
}

// ---------------------------------------------------------------------------
// Questions and answers
// ---------------------------------------------------------------------------

/// Each question is about the proposal after those that are decided: the name of that
/// pre-shared key, the extensions of that change, the leaf of that update with its sender's
/// place, and that key package.
pub proof fn questions_are_about_the_next(
    psk: PskStep,
    senders: ExternalSendersStep,
    capabilities: RequiredCapabilitiesStep,
    update: UpdateLeafStep,
    package: KeyPackageStep,
)
    requires
        Step::Psk(psk).wf(),
        Step::ExternalSenders(senders).wf(),
        Step::RequiredCapabilities(capabilities).wf(),
        Step::UpdateLeaf(update).wf(),
        Step::KeyPackage(package).wf(),
    ensures
        psk.flags@.len() < psk.proposals.psks@.len(),
        psk.proposals.psks@[psk.flags@.len() as int].proposal.psk.key_id
            == JustPreSharedKeyID::External(psk.asked()),
        senders.flags@.len() < senders.proposals.group_context_extensions@.len(),
        senders.asked() == senders.proposals.group_context_extensions@[
            senders.flags@.len() as int
        ].proposal,
        capabilities.proposals.group_context_extensions@.len() > 0,
        capabilities.asked() == capabilities.proposals.group_context_extensions@[0].proposal,
        update.flags@.len() < update.proposals.updates@.len(),
        is_update_of(
            update.asked(),
            *update.proposals.updates@[update.flags@.len() as int],
        ),
        package.flags@.len() < package.proposals.additions@.len(),
        package.asked() == package.proposals.additions@[
            package.flags@.len() as int
        ].proposal.key_package,
{
}

/// An answer belongs to the proposal that it is about: there is one for each, in order, to the
/// question about that proposal.
pub proof fn answers_are_about_their_proposals<E>(bundle: BundleView, replies: Replies<E>, i: int)
    ensures
        psk_answers(replies, bundle.psks).len() == bundle.psks.len(),
        0 <= i < bundle.psks.len() ==> (bundle.psks[i].proposal.psk.key_id matches
            JustPreSharedKeyID::External(id) ==> psk_answers(replies, bundle.psks)[i] == (
        replies.psk_ids)(i, id)),
        external_senders_answers(replies, bundle.group_context_extensions).len()
            == bundle.group_context_extensions.len(),
        0 <= i < bundle.group_context_extensions.len() ==> external_senders_answers(
            replies,
            bundle.group_context_extensions,
        )[i] == (replies.external_senders)(i, bundle.group_context_extensions[i].proposal),
        update_leaf_answers(replies.original, bundle.updates).len() == bundle.updates.len(),
        0 <= i < bundle.updates.len() ==> (bundle.updates[i].sender matches Sender::Member(k)
            ==> update_leaf_answers(replies.original, bundle.updates)[i] == (
        replies.original.update_leaves)(i, LeafIndex(k), bundle.updates[i].proposal.leaf_node)),
        key_package_answers(replies.original, bundle.additions).len() == bundle.additions.len(),
        0 <= i < bundle.additions.len() ==> key_package_answers(
            replies.original,
            bundle.additions,
        )[i] == (replies.original.key_packages)(i, bundle.additions[i].proposal.key_package),
{
}

/// Where capabilities are required anew, each member of the tree is asked about, once, in order;
/// where none are, nobody is. The first refusal is the one that counts.
pub proof fn each_member_is_asked_about<E>(
    replies: Replies<E>,
    tree: Seq<Option<Arc<LeafNode>>>,
    required: RequiredCapabilitiesExt,
    i: int,
)
    ensures
        leaf_check_answers(replies, tree, Some(required)).len() == members(tree).len(),
        0 <= i < members(tree).len() ==> leaf_check_answers(replies, tree, Some(required))[i] == (
        replies.leaf_checks)(i, members(tree)[i], required),
        leaf_check_answers(replies, tree, None).len() == 0,
{
}

/// Under a trial no extensions are in use, and otherwise those of the group; the answers are
/// those that were given meanwhile.
pub proof fn trials_use_no_extensions<E>(
    plan: Plan,
    applier: ProposalApplier<E>,
    replies: Replies<E>,
)
    ensures
        plan is Original ==> plan.extensions(applier) == applier.original_group_extensions.0@
            && plan.replies(replies) == replies.original && plan@ is Original,
        plan is Trial ==> plan.extensions(applier).len() == 0 && plan.replies(replies)
            == replies.trial,
        plan matches Plan::Trial { saved, capabilities } ==> plan@ == (PlanView::Trial {
            saved: saved@,
            capabilities,
        }),
{
}

/// The end of a commit is the state that it holds, and an error is an error: what a result leads
/// to is nothing else, whatever is answered.
pub proof fn ends_are_final<F: FilterStrategy, E>(
    applier: ProposalApplier<E>,
    strategy: F,
    replies: Replies<E>,
    state: ProposalState,
    e: ProposalFilterError<E>,
    expected: Result<StateView, ProposalFilterError<E>>,
)
    ensures
        continued::<F, E>(Ok(Step::Done(state)), applier, strategy, replies) == Ok::<
            StateView,
            ProposalFilterError<E>,
        >(state@),
        continued::<F, E>(Err(e), applier, strategy, replies) == Err::<
            StateView,
            ProposalFilterError<E>,
        >(e),
        ends_in::<E>(Ok(Step::Done(state)), expected) <==> expected == Ok::<
            StateView,
            ProposalFilterError<E>,
        >(state@),
        ends_in::<E>(Err(e), expected) <==> expected == Err::<StateView, ProposalFilterError<E>>(e),
{
}

/// An answer about the tree is taken as it is.
pub proof fn trees_are_taken_as_they_are<E>(
    tree: TreeKemPublic,
    edits: BatchEdits,
    indexes: Vec<LeafIndex>,
    e: RatchetTreeError<E>,
)
    ensures
        edit_view::<E>(Ok((tree, edits))) == Ok::<
            (Seq<Option<Arc<LeafNode>>>, EditsView),
            RatchetTreeError<E>,
        >(
            (
                tree.leaves@,
                EditsView {
                    new_leaf_indexes: edits.new_leaf_indexes@,
                    removed_leaves: edits.removed_leaves@,
                    invalid_additions: edits.invalid_additions@,
                    invalid_removals: edits.invalid_removals@,
                    invalid_updates: edits.invalid_updates@,
                },
            ),
        ),
        edit_view::<E>(Err(e)) == Err::<
            (Seq<Option<Arc<LeafNode>>>, EditsView),
            RatchetTreeError<E>,
        >(e),
        external_leaf_view::<E>(Ok((tree, indexes))) == Ok::<
            (Seq<Option<Arc<LeafNode>>>, Seq<LeafIndex>),
            RatchetTreeError<E>,
        >((tree.leaves@, indexes@)),
        external_leaf_view::<E>(Err(e)) == Err::<
            (Seq<Option<Arc<LeafNode>>>, Seq<LeafIndex>),
            RatchetTreeError<E>,
        >(e),
{
}

} // verus!
