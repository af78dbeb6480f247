//! The points at which applying a commit waits for an answer.

use vstd::pervasive::unreached;
use vstd::prelude::*;

use std::sync::Arc;

use crate::extension::{Extension, ExtensionList, RequiredCapabilitiesExt};
use crate::group::proposal::{
    JustPreSharedKeyID, KeyPackage, ProposalInfo, ProtocolVersion, UpdateProposal,
};
use crate::group::proposal_filter::bundle::ProposalBundle;
use crate::group::proposal_filter::error::ProposalFilterError;
use crate::group::proposal_filter::filtering::and_then;
use crate::group::proposal_filter::outcome::{
    changed_and_concluded, concluded, edit_answer, edit_applied, external_leaf_added,
    from_external_senders, from_psks, governing, key_packages_then_edit, leaf_additions,
    leaf_removals, leaf_updates, successor_verdict_then, trial_concluded, updates_then_edit,
    Committer, Governing, ProposalApplier, Replies, TreeReplies,
};
use crate::group::proposal_filter::state::{ProposalState, StateView};
use crate::group::proposal_filter::strategy::FilterStrategy;
use crate::group::sender::Sender;
use crate::tree_kem::{members, LeafIndex, LeafNode, TreeKemPublic};

verus! {

/// Under what the changes to the tree are made.
#[derive(Debug)]
pub enum Plan {
    /// Under the group's own extensions and required capabilities.
    Original,
    /// Without any, to see whether the members that are left support new extensions.
    Trial {
        /// The proposals before the trial.
        saved: ProposalBundle,
        /// The capabilities that the new extensions require.
        capabilities: Option<RequiredCapabilitiesExt>,
    },
}

impl Plan {
    /// A trial is of some new extensions.
    pub open spec fn wf(self) -> bool {
        self matches Plan::Trial { saved, .. } ==> saved@.group_context_extensions.len() > 0
    }

    /// The extensions in use.
    pub open spec fn extensions<E>(self, applier: ProposalApplier<E>) -> Seq<Extension> {
        match self {
            Plan::Original => applier.original_group_extensions@,
            Plan::Trial { .. } => seq![],
        }
    }

    /// The answers that belong to these changes.
    pub open spec fn replies<E>(self, replies: Replies<E>) -> TreeReplies<E> {
        match self {
            Plan::Original => replies.original,
            Plan::Trial { .. } => replies.trial,
        }
    }

    /// What follows once the changes are made.
    pub open spec fn conclusion<F: FilterStrategy, E>(
        self,
        applier: ProposalApplier<E>,
        strategy: F,
        committer: Committer,
        state: StateView,
        replies: Replies<E>,
    ) -> Result<StateView, ProposalFilterError<E>> {
        match self {
            Plan::Original => concluded::<F, E>(strategy, committer, state, replies),
            Plan::Trial { saved, capabilities } => and_then(
                trial_concluded::<Governing<'_, F>, E>(
                    applier,
                    governing(&strategy, committer),
                    saved@,
                    capabilities,
                    state,
                    replies,
                ),
                |s: StateView| concluded::<F, E>(strategy, committer, s, replies),
            ),
        }
    }

    /// How far the changes are from the end of the commit.
    pub open spec fn rank(self) -> nat {
        match self {
            Plan::Original => 2,
            Plan::Trial { .. } => 6,
        }
    }
}

/// Waits for the identity provider: does the newcomer succeed the member that its
/// commit removes?
#[derive(Debug)]
pub struct SelfRemovalStep {
    pub proposals: ProposalBundle,
    /// The leaf that is removed.
    pub existing: Arc<LeafNode>,
    /// The newcomer's leaf.
    pub external_leaf: Arc<LeafNode>,
}

/// Waits for the validator of external pre-shared keys: is this name known?
#[derive(Debug)]
pub struct PskStep {
    pub committer: Committer,
    pub proposals: ProposalBundle,
    /// Which of the keys before this one are kept.
    pub flags: Vec<bool>,
}

/// Waits for the external senders of a change of extensions: can they be decoded,
/// and does the identity provider accept them?
#[derive(Debug)]
pub struct ExternalSendersStep {
    pub commit_sender: LeafIndex,
    pub proposals: ProposalBundle,
    /// Which of the changes before this one are kept.
    pub flags: Vec<bool>,
}

/// Waits for the capabilities that new extensions require.
#[derive(Debug)]
pub struct RequiredCapabilitiesStep {
    pub committer: Committer,
    pub proposals: ProposalBundle,
}

/// Waits for the validator of leaves: is the leaf of this update valid?
#[derive(Debug)]
pub struct UpdateLeafStep {
    pub committer: Committer,
    pub plan: Plan,
    pub proposals: ProposalBundle,
    /// Which of the updates before this one are kept.
    pub flags: Vec<bool>,
}

/// Waits for the validator of key packages: is the package of this addition valid?
#[derive(Debug)]
pub struct KeyPackageStep {
    pub committer: Committer,
    pub plan: Plan,
    pub proposals: ProposalBundle,
    /// Which of the additions before this one are kept.
    pub flags: Vec<bool>,
}

/// Waits for the tree to be edited.
#[derive(Debug)]
pub struct TreeEditStep {
    pub committer: Committer,
    pub plan: Plan,
    pub proposals: ProposalBundle,
    /// The leaves to replace, and by what.
    pub updates: Vec<(LeafIndex, Arc<LeafNode>)>,
}

/// Waits for the validator of leaves: which members have the new capabilities?
#[derive(Debug)]
pub struct LeafChecksStep {
    pub committer: Committer,
    /// The proposals before the trial.
    pub saved: ProposalBundle,
    pub capabilities: RequiredCapabilitiesExt,
    /// The state after the trial.
    pub state: ProposalState,
}

/// Waits for the newcomer's leaf to be added to the tree.
#[derive(Debug)]
pub struct ExternalLeafStep {
    pub state: ProposalState,
    /// The newcomer's leaf.
    pub external_leaf: Arc<LeafNode>,
}

/// Where the application of a commit stands.
#[derive(Debug)]
pub enum Step {
    SelfRemoval(SelfRemovalStep),
    Psk(PskStep),
    ExternalSenders(ExternalSendersStep),
    RequiredCapabilities(RequiredCapabilitiesStep),
    UpdateLeaf(UpdateLeafStep),
    KeyPackage(KeyPackageStep),
    TreeEdit(TreeEditStep),
    LeafChecks(LeafChecksStep),
    ExternalLeaf(ExternalLeafStep),
    /// Nothing is left to ask.
    Done(ProposalState),
}

/// Every update was sent by a member.
pub open spec fn all_by_members(updates: Seq<Arc<ProposalInfo<UpdateProposal>>>) -> bool {
    forall|i: int| 0 <= i < updates.len() ==> (#[trigger] updates[i]).sender is Member
}

impl Step {
    /// There is something to wait for.
    pub open spec fn wf(self) -> bool {
        match self {
            Step::SelfRemoval(_) => true,
            Step::Psk(s) => {
                &&& s.flags@.len() < s.proposals@.psks.len()
                &&& s.proposals@.psks[s.flags@.len() as int].proposal.psk.key_id is External
            },
            Step::ExternalSenders(s) => s.flags@.len()
                < s.proposals@.group_context_extensions.len(),
            Step::RequiredCapabilities(s) => s.proposals@.group_context_extensions.len() > 0,
            Step::UpdateLeaf(s) => {
                &&& s.plan.wf()
                &&& s.flags@.len() < s.proposals@.updates.len()
                &&& s.proposals@.updates[s.flags@.len() as int].sender is Member
            },
            Step::KeyPackage(s) => {
                &&& s.plan.wf()
                &&& s.flags@.len() < s.proposals@.additions.len()
            },
            Step::TreeEdit(s) => {
                &&& s.plan.wf()
                &&& all_by_members(s.proposals@.updates)
                &&& s.updates@ == leaf_updates(s.proposals@.updates)
            },
            Step::LeafChecks(s) => s.saved@.group_context_extensions.len() > 0,
            Step::ExternalLeaf(_) => true,
            Step::Done(_) => true,
        }
    }

    /// What the commit leads to from here, given what is still to be answered.
    pub open spec fn outcome<F: FilterStrategy, E>(
        self,
        applier: ProposalApplier<E>,
        strategy: F,
        replies: Replies<E>,
    ) -> Result<StateView, ProposalFilterError<E>> {
        match self {
            Step::SelfRemoval(s) => successor_verdict_then::<F, E>(
                applier,
                strategy,
                s.existing,
                s.external_leaf,
                s.proposals@,
                replies,
            ),
            Step::Psk(s) => from_psks::<F, E>(
                applier,
                strategy,
                s.committer,
                s.proposals@,
                s.flags@,
                replies,
            ),
            Step::ExternalSenders(s) => from_external_senders::<F, E>(
                applier,
                strategy,
                s.commit_sender,
                s.proposals@,
                s.flags@,
                replies,
            ),
            Step::RequiredCapabilities(s) => changed_and_concluded::<F, E>(
                applier,
                strategy,
                s.committer,
                s.proposals@,
                replies,
            ),
            Step::UpdateLeaf(s) => and_then(
                updates_then_edit::<Governing<'_, F>, E>(
                    governing(&strategy, s.committer),
                    s.proposals@,
                    s.plan.extensions(applier),
                    s.plan.replies(replies),
                    s.flags@,
                ),
                |st: StateView|
                    s.plan.conclusion::<F, E>(applier, strategy, s.committer, st, replies),
            ),
            Step::KeyPackage(s) => and_then(
                key_packages_then_edit::<Governing<'_, F>, E>(
                    governing(&strategy, s.committer),
                    s.proposals@,
                    s.plan.extensions(applier),
                    s.plan.replies(replies),
                    s.flags@,
                ),
                |st: StateView|
                    s.plan.conclusion::<F, E>(applier, strategy, s.committer, st, replies),
            ),
            Step::TreeEdit(s) => and_then(
                edit_applied(s.proposals@, edit_answer(s.plan.replies(replies), s.proposals@)),
                |st: StateView|
                    s.plan.conclusion::<F, E>(applier, strategy, s.committer, st, replies),
            ),
            Step::LeafChecks(s) => and_then(
                trial_concluded::<Governing<'_, F>, E>(
                    applier,
                    governing(&strategy, s.committer),
                    s.saved@,
                    Some(s.capabilities),
                    s.state@,
                    replies,
                ),
                |st: StateView| concluded::<F, E>(strategy, s.committer, st, replies),
            ),
            Step::ExternalLeaf(s) => external_leaf_added::<F, E>(
                strategy,
                s.external_leaf,
                s.state@,
                replies,
            ),
            Step::Done(s) => Ok(s@),
        }
    }

    /// How far the step is from the end; see [`Step::questions_left`].
    pub open spec fn rank(self) -> nat {
        match self {
            Step::SelfRemoval(_) => 12,
            Step::Psk(_) => 11,
            Step::ExternalSenders(_) => 10,
            Step::RequiredCapabilities(_) => 9,
            Step::UpdateLeaf(s) => s.plan.rank() + 2,
            Step::KeyPackage(s) => s.plan.rank() + 1,
            Step::TreeEdit(s) => s.plan.rank(),
            Step::LeafChecks(_) => 5,
            Step::ExternalLeaf(_) => 1,
            Step::Done(_) => 0,
        }
    }

    /// How many proposals the step still has to ask about.
    pub open spec fn questions_left(self) -> int {
        match self {
            Step::Psk(s) => s.proposals@.psks.len() - s.flags@.len(),
            Step::ExternalSenders(s) => s.proposals@.group_context_extensions.len()
                - s.flags@.len(),
            Step::UpdateLeaf(s) => s.proposals@.updates.len() - s.flags@.len(),
            Step::KeyPackage(s) => s.proposals@.additions.len() - s.flags@.len(),
            _ => 0,
        }
    }

    /// The step comes after `earlier`: steps of lower rank, or of the same rank with
    /// fewer proposals to ask about. So an application of a commit comes to an end.
    pub open spec fn follows(self, earlier: Step) -> bool {
        ||| self.rank() < earlier.rank()
        ||| self.rank() == earlier.rank() && 0 <= self.questions_left() < earlier.questions_left()
    }
}

/// What a result leads to: its error, or what its step leads to.
pub open spec fn continued<F: FilterStrategy, E>(
    r: Result<Step, ProposalFilterError<E>>,
    applier: ProposalApplier<E>,
    strategy: F,
    replies: Replies<E>,
) -> Result<StateView, ProposalFilterError<E>> {
    match r {
        Ok(step) => step.outcome::<F, E>(applier, strategy, replies),
        Err(e) => Err(e),
    }
}

// ---------------------------------------------------------------------------
// What each step asks
// ---------------------------------------------------------------------------

impl PskStep {
    /// The name to ask about.
    pub open spec fn asked(self) -> Vec<u8> {
        self.proposals@.psks[self.flags@.len() as int].proposal.psk.key_id->External_0
    }

    /// The name to ask about.
    pub fn psk_id(&self) -> (id: &Vec<u8>)
        requires
            Step::Psk(*self).wf(),
        ensures
            *id == self.asked(),
    {
        match &self.proposals.psks[self.flags.len()].proposal.psk.key_id {
            JustPreSharedKeyID::External(id) => id,
            JustPreSharedKeyID::Resumption(_) => unreached(),
        }
    }
}

impl ExternalSendersStep {
    /// The extensions to ask about.
    pub open spec fn asked(self) -> ExtensionList {
        self.proposals@.group_context_extensions[self.flags@.len() as int].proposal
    }

    /// The extensions to ask about.
    pub fn extensions(&self) -> (list: &ExtensionList)
        requires
            Step::ExternalSenders(*self).wf(),
        ensures
            *list == self.asked(),
    {
        &self.proposals.group_context_extensions[self.flags.len()].proposal
    }
}

impl RequiredCapabilitiesStep {
    /// The extensions to ask about.
    pub open spec fn asked(self) -> ExtensionList {
        self.proposals@.group_context_extensions[0].proposal
    }

    /// The extensions to ask about.
    pub fn extensions(&self) -> (list: &ExtensionList)
        requires
            Step::RequiredCapabilities(*self).wf(),
        ensures
            *list == self.asked(),
    {
        &self.proposals.group_context_extensions[0].proposal
    }
}

impl Plan {
    /// The capabilities that validators are to require of new leaves.
    pub fn required_capabilities<'p, E>(&'p self, applier: &'p ProposalApplier<E>) -> (c: Option<
        &'p RequiredCapabilitiesExt,
    >)
        ensures
            self is Original ==> match applier.original_required_capabilities {
                Some(required) => c == Some(&required),
                None => c is None,
            },
            self is Trial ==> c is None,
    {
        match self {
            Plan::Original => applier.original_required_capabilities.as_ref(),
            Plan::Trial { .. } => None,
        }
    }
}

impl UpdateLeafStep {
    /// The leaf to ask about, and where it is to go.
    pub open spec fn asked(self) -> (LeafIndex, Arc<LeafNode>) {
        let p = self.proposals@.updates[self.flags@.len() as int];
        (LeafIndex(p.sender->Member_0), p.proposal.leaf_node)
    }

    /// The leaf to ask about, and where it is to go.
    pub fn leaf(&self) -> (leaf: (LeafIndex, &Arc<LeafNode>))
        requires
            Step::UpdateLeaf(*self).wf(),
        ensures
            leaf.0 == self.asked().0,
            *leaf.1 == self.asked().1,
    {
        let p = &self.proposals.updates[self.flags.len()];
        let index: u32 = match p.sender {
            Sender::Member(i) => i,
            _ => unreached(),
        };
        (LeafIndex(index), &p.proposal.leaf_node)
    }

    /// The group that the leaf is to belong to.
    pub fn group_id<'a, E>(&self, applier: &'a ProposalApplier<E>) -> (id: &'a Vec<u8>)
        ensures
            *id == applier.group_id,
    {
        &applier.group_id
    }
}

impl KeyPackageStep {
    /// The key package to ask about.
    pub open spec fn asked(self) -> KeyPackage {
        self.proposals@.additions[self.flags@.len() as int].proposal.key_package
    }

    /// The key package to ask about.
    pub fn key_package(&self) -> (key_package: &KeyPackage)
        requires
            Step::KeyPackage(*self).wf(),
        ensures
            *key_package == self.asked(),
    {
        &self.proposals.additions[self.flags.len()].proposal.key_package
    }

    /// The version of the protocol that the key package is to be valid for.
    pub fn protocol_version<E>(&self, applier: &ProposalApplier<E>) -> (version: ProtocolVersion)
        ensures
            version == applier.protocol_version,
    {
        applier.protocol_version
    }
}

impl LeafChecksStep {
    /// The members to ask about: those of the tree after the trial, in the order of their
    /// leaves.
    pub fn leaves(&self) -> (leaves: Vec<Arc<LeafNode>>)
        ensures
            leaves@ == members(self.state@.tree),
    {
        self.state.tree.non_empty_leaves()
    }
}

impl TreeEditStep {
    /// The tree to edit: the changes start from the group's own, whatever was tried before.
    pub fn tree<'a, E>(&self, applier: &'a ProposalApplier<E>) -> (tree: &'a TreeKemPublic)
        ensures
            *tree == applier.original_tree,
            tree@ == applier.original_tree@,
    {
        &applier.original_tree
    }

    /// The leaves to remove.
    pub fn removals(&self) -> (removals: Vec<LeafIndex>)
        ensures
            removals@ == leaf_removals(self.proposals@.removals),
            removals@.len() == self.proposals.removals@.len(),
            forall|i: int|
                0 <= i < removals@.len() ==> #[trigger] removals@[i]
                    == self.proposals.removals@[i].proposal.to_remove,
    {
        let mut removals: Vec<LeafIndex> = Vec::new();
        let n: usize = self.proposals.removals.len();
        for i in 0..n
            invariant
                n == self.proposals@.removals.len(),
                removals@.len() == i,
                forall|j: int|
                    0 <= j < i ==> #[trigger] removals@[j]
                        == self.proposals@.removals[j].proposal.to_remove,
        {
            removals.push(self.proposals.removals[i].proposal.to_remove);
        }
        assert(removals@ =~= leaf_removals(self.proposals@.removals));
        removals
    }

    /// The leaves to add.
    pub fn additions(&self) -> (additions: Vec<Arc<LeafNode>>)
        ensures
            additions@ == leaf_additions(self.proposals@.additions),
            additions@.len() == self.proposals.additions@.len(),
            forall|i: int|
                0 <= i < additions@.len() ==> #[trigger] additions@[i]
                    == self.proposals.additions@[i].proposal.key_package.leaf_node,
    {
        let mut additions: Vec<Arc<LeafNode>> = Vec::new();
        let n: usize = self.proposals.additions.len();
        for i in 0..n
            invariant
                n == self.proposals@.additions.len(),
                additions@.len() == i,
                forall|j: int|
                    0 <= j < i ==> #[trigger] additions@[j]
                        == self.proposals@.additions[j].proposal.key_package.leaf_node,
        {
            additions.push(self.proposals.additions[i].proposal.key_package.leaf_node.clone());
        }
        assert(additions@ =~= leaf_additions(self.proposals@.additions));
        additions
    }
}

} // verus!
