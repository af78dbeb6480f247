//! Going on with a commit once an answer has come in.
//!
//! Each step says what it leads to once it is answered: what the step itself led to,
//! for every way in which the remaining questions may be answered. And each answer
//! brings the commit closer to its end.

use vstd::prelude::*;

use crate::extension::{ExtensionList, RequiredCapabilitiesExt};
use crate::group::proposal_filter::accumulator::{no_edits, TreeBatchEditAccumulator};
use crate::group::proposal_filter::applier::{
    check_group_extensions_supported, edit_view, external_leaf_view, governing_strategy,
};
use crate::group::proposal_filter::asked::{
    asked_after_edit, external_leaf_answered, external_senders_answered, key_package_answered,
    leaf_checks_answered, psk_answered, required_capabilities_answered, self_removal_answered,
    update_leaf_answered,
};
use crate::group::proposal_filter::error::ProposalFilterError;
use crate::group::proposal_filter::external_commit::ensure_removal_is_for_self;
use crate::group::proposal_filter::filtering::{
    extension_support, leaf_supports_extensions, supported_by,
};
use crate::group::proposal_filter::outcome::{
    checks_are_of, checks_suffice, edit_answer, first_failure, first_failure_is_enough, governing,
    leaf_check_answers, with_external_leaf, Governing, ProposalApplier, Replies,
};
use crate::group::proposal_filter::psk::check_psk;
use crate::group::proposal_filter::state::{
    edits_fit, filter_out_unsupported_custom_proposals, leads_to, BatchEdits, ProposalState,
};
use crate::group::proposal_filter::step::{
    continued, ExternalLeafStep, ExternalSendersStep, KeyPackageStep, LeafChecksStep, Plan, PskStep,
    RequiredCapabilitiesStep, SelfRemovalStep, Step, TreeEditStep, UpdateLeafStep,
};
use crate::group::proposal_filter::strategy::{apply_strategy, FilterStrategy};
use crate::tree_kem::{LeafIndex, LeafNode, RatchetTreeError, TreeKemPublic};

verus! {

impl SelfRemovalStep {
    /// Goes on once it is known whether the newcomer is a valid successor of the
    /// member that its commit removes.
    pub fn resume<F: FilterStrategy, E>(
        self,
        applier: &ProposalApplier<E>,
        strategy: &F,
        valid_successor: Result<bool, E>,
    ) -> (r: Result<Step, ProposalFilterError<E>>)
        ensures
            self_removal_answered::<F, E>(r, *applier, *strategy, self, valid_successor),
            r matches Ok(step) ==> step.wf() && step.follows(Step::SelfRemoval(self)),
            forall|replies: Replies<E>|
                (replies.successor)(
                    self.existing.signing_identity,
                    self.external_leaf.signing_identity,
                ) == valid_successor ==> #[trigger] continued::<F, E>(
                    r,
                    *applier,
                    *strategy,
                    replies,
                ) == Step::SelfRemoval(self).outcome::<F, E>(*applier, *strategy, replies),
    {
        match ensure_removal_is_for_self(valid_successor) {
            Ok(_) => applier.continue_after_self_removal(
                strategy,
                self.external_leaf,
                self.proposals,
            ),
            Err(e) => Err(e),
        }
    }
}

impl PskStep {
    /// Goes on once it is known whether the name of the key is.
    pub fn resume<F: FilterStrategy, E>(
        self,
        applier: &ProposalApplier<E>,
        strategy: &F,
        external_id: Result<(), E>,
    ) -> (r: Result<Step, ProposalFilterError<E>>)
        requires
            Step::Psk(self).wf(),
        ensures
            psk_answered::<F, E>(r, *applier, *strategy, self, external_id),
            r matches Ok(step) ==> step.wf() && step.follows(Step::Psk(self)),
            forall|replies: Replies<E>|
                (replies.psk_ids)(self.flags@.len() as int, self.asked()) == external_id
                    ==> #[trigger] continued::<F, E>(r, *applier, *strategy, replies) == Step::Psk(
                    self,
                ).outcome::<F, E>(*applier, *strategy, replies),
    {
        let mut flags = self.flags;
        let i: usize = flags.len();
        let res = check_psk(&self.proposals.psks, i, applier.kdf_extract_size, external_id);
        let governing_commit = governing_strategy(strategy, &self.committer);
        match apply_strategy(&governing_commit, &*self.proposals.psks[i], res) {
            Ok(keep) => flags.push(keep),
            Err(e) => return Err(e),
        }
        applier.filter_out_invalid_psks(strategy, self.committer, self.proposals, flags)
    }
}

impl ExternalSendersStep {
    /// Goes on once the external senders were looked at: they could not be decoded,
    /// there are none, or the identity provider was asked about them.
    pub fn resume<F: FilterStrategy, E>(
        self,
        applier: &ProposalApplier<E>,
        strategy: &F,
        external_senders: Result<Option<Result<(), E>>, E>,
    ) -> (r: Result<Step, ProposalFilterError<E>>)
        requires
            Step::ExternalSenders(self).wf(),
        ensures
            external_senders_answered::<F, E>(r, *applier, *strategy, self, external_senders),
            r matches Ok(step) ==> step.wf() && step.follows(Step::ExternalSenders(self)),
            forall|replies: Replies<E>|
                (replies.external_senders)(self.flags@.len() as int, self.asked())
                    == external_senders ==> #[trigger] continued::<F, E>(
                    r,
                    *applier,
                    *strategy,
                    replies,
                ) == Step::ExternalSenders(self).outcome::<F, E>(*applier, *strategy, replies),
    {
        let mut flags = self.flags;
        let res = match external_senders {
            Ok(None) => Ok(()),
            Ok(Some(Ok(_))) => Ok(()),
            Ok(Some(Err(e))) => Err(ProposalFilterError::IdentityProviderError(e)),
            Err(e) => Err(ProposalFilterError::ExtensionError(e)),
        };
        match apply_strategy(
            strategy,
            &*self.proposals.group_context_extensions[flags.len()],
            res,
        ) {
            Ok(keep) => flags.push(keep),
            Err(e) => return Err(e),
        }
        applier.filter_out_invalid_group_extensions(
            strategy,
            self.commit_sender,
            self.proposals,
            flags,
        )
    }
}

impl RequiredCapabilitiesStep {
    /// Goes on once it is known which capabilities the new extensions require, or
    /// that they could not be decoded.
    pub fn resume<F: FilterStrategy, E>(
        self,
        applier: &ProposalApplier<E>,
        strategy: &F,
        required_capabilities: Result<Option<RequiredCapabilitiesExt>, E>,
    ) -> (r: Result<Step, ProposalFilterError<E>>)
        requires
            Step::RequiredCapabilities(self).wf(),
        ensures
            required_capabilities_answered::<F, E>(r, *strategy, self, required_capabilities),
            r matches Ok(step) ==> step.wf() && step.follows(Step::RequiredCapabilities(self)),
            forall|replies: Replies<E>|
                (replies.required_capabilities)(self.asked()) == required_capabilities
                    ==> #[trigger] continued::<F, E>(r, *applier, *strategy, replies)
                    == Step::RequiredCapabilities(self).outcome::<F, E>(
                    *applier,
                    *strategy,
                    replies,
                ),
    {
        let mut proposals = self.proposals;
        match required_capabilities {
            Ok(capabilities) => {
                let saved = proposals.clone();
                applier.apply_tree_changes(
                    strategy,
                    self.committer,
                    Plan::Trial { saved, capabilities },
                    proposals,
                )
            },
            Err(e) => {
                if governing_strategy(strategy, &self.committer).ignore(
                    &proposals.group_context_extensions[0].by_ref(),
                ) {
                    proposals.clear_group_context_extensions();
                    applier.apply_tree_changes(strategy, self.committer, Plan::Original, proposals)
                } else {
                    Err(ProposalFilterError::ExtensionError(e))
                }
            },
        }
    }
}

impl UpdateLeafStep {
    /// Goes on once it is known whether the leaf is valid.
    pub fn resume<F: FilterStrategy, E>(
        self,
        applier: &ProposalApplier<E>,
        strategy: &F,
        valid: Result<(), E>,
    ) -> (r: Result<Step, ProposalFilterError<E>>)
        requires
            Step::UpdateLeaf(self).wf(),
        ensures
            update_leaf_answered::<F, E>(r, *applier, *strategy, self, valid),
            r matches Ok(step) ==> step.wf() && step.follows(Step::UpdateLeaf(self)),
            forall|replies: Replies<E>|
                (self.plan.replies(replies).update_leaves)(
                    self.flags@.len() as int,
                    self.asked().0,
                    self.asked().1,
                ) == valid
                    ==> #[trigger] continued::<F, E>(r, *applier, *strategy, replies)
                    == Step::UpdateLeaf(self).outcome::<F, E>(*applier, *strategy, replies),
    {
        let mut flags = self.flags;
        let p = &self.proposals.updates[flags.len()];
        let res = match valid {
            Err(e) => Err(ProposalFilterError::LeafNodeValidationError(e)),
            Ok(_) => self.plan.check_extensions(applier, &p.proposal.leaf_node),
        };
        let governing_commit = governing_strategy(strategy, &self.committer);
        match apply_strategy(&governing_commit, &**p, res) {
            Ok(keep) => flags.push(keep),
            Err(e) => return Err(e),
        }
        applier.validate_new_update_nodes(
            strategy,
            self.committer,
            self.plan,
            self.proposals,
            flags,
        )
    }
}

impl KeyPackageStep {
    /// Goes on once it is known whether the key package is valid.
    pub fn resume<F: FilterStrategy, E>(
        self,
        applier: &ProposalApplier<E>,
        strategy: &F,
        valid: Result<(), E>,
    ) -> (r: Result<Step, ProposalFilterError<E>>)
        requires
            Step::KeyPackage(self).wf(),
        ensures
            key_package_answered::<F, E>(r, *applier, *strategy, self, valid),
            r matches Ok(step) ==> step.wf() && step.follows(Step::KeyPackage(self)),
            forall|replies: Replies<E>|
                (self.plan.replies(replies).key_packages)(self.flags@.len() as int, self.asked())
                    == valid
                    ==> #[trigger] continued::<F, E>(r, *applier, *strategy, replies)
                    == Step::KeyPackage(self).outcome::<F, E>(*applier, *strategy, replies),
    {
        let mut flags = self.flags;
        let p = &self.proposals.additions[flags.len()];
        let res = match valid {
            Err(e) => Err(ProposalFilterError::KeyPackageValidationError(e)),
            Ok(_) => self.plan.check_extensions(applier, &p.proposal.key_package.leaf_node),
        };
        let governing_commit = governing_strategy(strategy, &self.committer);
        match apply_strategy(&governing_commit, &**p, res) {
            Ok(keep) => flags.push(keep),
            Err(e) => return Err(e),
        }
        applier.validate_new_key_packages(
            strategy,
            self.committer,
            self.plan,
            self.proposals,
            flags,
        )
    }
}

impl TreeEditStep {
    /// Collects what happens while the tree is edited.
    pub fn accumulator<'a, F: FilterStrategy>(&'a self, strategy: &'a F) -> (acc:
        TreeBatchEditAccumulator<'a, Governing<'a, F>>)
        ensures
            acc.wf(),
            acc.only_ignored(),
            acc.told_of(0, 0),
            acc.strategy() == governing(strategy, self.committer),
            acc.proposals() == self.proposals,
            acc.edits() == no_edits(),
    {
        TreeBatchEditAccumulator::new(
            governing_strategy(strategy, &self.committer),
            &self.proposals,
        )
    }

    /// Goes on once the tree was edited, with the new tree and what was collected, or
    /// failed to be.
    pub fn resume<F: FilterStrategy, E>(
        self,
        applier: &ProposalApplier<E>,
        strategy: &F,
        edit: Result<(TreeKemPublic, BatchEdits), RatchetTreeError<E>>,
    ) -> (r: Result<Step, ProposalFilterError<E>>)
        requires
            Step::TreeEdit(self).wf(),
            edit matches Ok((_, edits)) ==> edits_fit(edits@, self.proposals@),
        ensures
            asked_after_edit::<F, E>(
                r,
                *applier,
                *strategy,
                self.committer,
                self.plan@,
                self.proposals@,
                edit_view(edit),
            ),
            r matches Ok(step) ==> step.wf() && step.follows(Step::TreeEdit(self)),
            forall|replies: Replies<E>|
                edit_answer(self.plan.replies(replies), self.proposals@) == edit_view(edit)
                    ==> #[trigger] continued::<F, E>(r, *applier, *strategy, replies)
                    == Step::TreeEdit(self).outcome::<F, E>(*applier, *strategy, replies),
    {
        let (tree, edits) = match edit {
            Ok((tree, edits)) => (tree, edits),
            Err(e) => return Err(ProposalFilterError::RatchetTreeError(e)),
        };
        let state = ProposalState::from_edits(self.proposals, tree, edits);
        match self.plan {
            Plan::Original => applier.conclude(strategy, self.committer, state),
            Plan::Trial { saved, capabilities: Some(capabilities) } => Ok(
                Step::LeafChecks(
                    LeafChecksStep { committer: self.committer, saved, capabilities, state },
                ),
            ),
            Plan::Trial { saved, capabilities: None } => {
                let supported = check_group_extensions_supported::<E>(
                    &saved.group_context_extensions[0].proposal,
                    &None,
                    &state.tree,
                    Vec::new(),
                );
                applier.apply_proposals_with_new_capabilities(
                    strategy,
                    self.committer,
                    saved,
                    state,
                    supported,
                )
            },
        }
    }
}

impl LeafChecksStep {
    /// Goes on once it is known which members have the new capabilities, in the order of
    /// [`LeafChecksStep::leaves`]. After one that has not, nothing more needs to be asked.
    pub fn resume<F: FilterStrategy, E>(
        self,
        applier: &ProposalApplier<E>,
        strategy: &F,
        checks: Vec<Result<(), E>>,
    ) -> (r: Result<Step, ProposalFilterError<E>>)
        requires
            Step::LeafChecks(self).wf(),
            checks_suffice(checks@, self.state@.tree),
        ensures
            leaf_checks_answered::<F, E>(r, *applier, *strategy, self, checks@),
            r matches Ok(step) ==> step.wf() && step.follows(Step::LeafChecks(self)),
            forall|replies: Replies<E>|
                checks_are_of(
                    checks@,
                    leaf_check_answers(replies, self.state@.tree, Some(self.capabilities)),
                ) ==> #[trigger] continued::<F, E>(r, *applier, *strategy, replies)
                    == Step::LeafChecks(self).outcome::<F, E>(*applier, *strategy, replies),
    {
        proof {
            assert forall|replies: Replies<E>|
                checks_are_of(
                    checks@,
                    #[trigger] leaf_check_answers(
                        replies,
                        self.state@.tree,
                        Some(self.capabilities),
                    ),
                ) implies first_failure(checks@, 0) == first_failure(
                leaf_check_answers(replies, self.state@.tree, Some(self.capabilities)),
                0,
            ) by {
                first_failure_is_enough(
                    checks@,
                    leaf_check_answers(replies, self.state@.tree, Some(self.capabilities)),
                    0,
                );
            }
        }
        let capabilities = Some(self.capabilities);
        let supported = check_group_extensions_supported(
            &self.saved.group_context_extensions[0].proposal,
            &capabilities,
            &self.state.tree,
            checks,
        );
        applier.apply_proposals_with_new_capabilities(
            strategy,
            self.committer,
            self.saved,
            self.state,
            supported,
        )
    }
}

impl ExternalLeafStep {
    /// Goes on once the newcomer's leaf was added, with the new tree and where the
    /// leaf went, or failed to be.
    pub fn resume<F: FilterStrategy, E>(
        self,
        applier: &ProposalApplier<E>,
        strategy: &F,
        added: Result<(TreeKemPublic, Vec<LeafIndex>), RatchetTreeError<E>>,
    ) -> (r: Result<Step, ProposalFilterError<E>>)
        ensures
            external_leaf_answered::<F, E>(r, *strategy, self, external_leaf_view(added)),
            r matches Ok(step) ==> step.wf() && step.follows(Step::ExternalLeaf(self)),
            forall|replies: Replies<E>|
                (replies.external_leaf)(self.state@.tree, self.external_leaf) == external_leaf_view(
                    added,
                ) ==> #[trigger] continued::<F, E>(
                    r,
                    *applier,
                    *strategy,
                    replies,
                ) == Step::ExternalLeaf(self).outcome::<F, E>(*applier, *strategy, replies),
    {
        let state = match insert_external_leaf(self.state, added) {
            Ok(state) => state,
            Err(e) => return Err(e),
        };
        match filter_out_unsupported_custom_proposals::<F, E>(state, strategy) {
            Ok(s) => Ok(Step::Done(s)),
            Err(e) => Err(e),
        }
    }
}

/// Takes the tree to which a newcomer's leaf was added, and the leaf's position.
pub fn insert_external_leaf<E>(
    state: ProposalState,
    added: Result<(TreeKemPublic, Vec<LeafIndex>), RatchetTreeError<E>>,
) -> (r: Result<ProposalState, ProposalFilterError<E>>)
    ensures
        leads_to(r, with_external_leaf(state@, external_leaf_view(added))),
        added matches Ok((tree, indexes)) ==> (r matches Ok(s) && s.tree == tree
            && s.external_leaf_index == (if indexes@.len() > 0 {
            Some(indexes@[0])
        } else {
            None
        }) && s.proposals == state.proposals),
{
    let (tree, leaf_indexes) = match added {
        Ok((tree, leaf_indexes)) => (tree, leaf_indexes),
        Err(e) => return Err(ProposalFilterError::RatchetTreeError(e)),
    };
    let mut state = state;
    state.tree = tree;
    state.external_leaf_index = if leaf_indexes.len() > 0 {
        Some(leaf_indexes[0])
    } else {
        None
    };
    Ok(state)
}

impl Plan {
    /// Checks that a leaf supports the extensions in use.
    fn check_extensions<E>(&self, applier: &ProposalApplier<E>, leaf: &LeafNode) -> (r: Result<
        (),
        ProposalFilterError<E>,
    >)
        ensures
            r == extension_support::<E>(self.extensions(*applier), supported_by(*leaf)),
    {
        match self {
            Plan::Original => leaf_supports_extensions(leaf, &applier.original_group_extensions),
            Plan::Trial { .. } => leaf_supports_extensions(leaf, &ExtensionList::new()),
        }
    }
}

} // verus!
