//! Applying the proposals of a commit, from one answer to the next.

use vstd::prelude::*;

use std::sync::Arc;

use crate::extension::{ExtensionList, ExternalSendersExt, RequiredCapabilitiesExt};
use crate::group::proposal::{AddProposal, PreSharedKeyProposal, ProtocolVersion, UpdateProposal};
use crate::group::proposal_filter::asked::{
    asked_after_psks, asked_after_self_removal, asked_after_trial, asked_first, asked_of_member,
    asked_of_newcomer, changes_asked, conclusion_asked, edit_asked, external_senders_asked,
    key_packages_asked, psks_asked, updates_asked,
};
use crate::group::proposal_filter::bundle::ProposalBundle;
use crate::group::proposal_filter::error::ProposalFilterError;
use crate::group::proposal_filter::external_commit::{
    ensure_at_most_one_removal_for_self, ensure_exactly_one_external_init,
    ensure_no_proposal_by_ref, ensure_proposals_in_external_commit_are_allowed,
};
use crate::group::proposal_filter::filtering::{
    and_then, filter_out_external_init, filter_out_extra_group_context_extensions,
    filter_out_invalid_proposers, filter_out_invalid_reinit, filter_out_reinit_if_other_proposals,
    filter_out_removal_of_committer, filter_out_update_for_committer, first_unsupported,
    leaf_index_of_update_sender,
};
use crate::group::proposal_filter::leaf_conflicts::filter_out_extra_removal_or_update_for_same_leaf;
use crate::group::proposal_filter::outcome::{
    after_psks, after_self_removal, applied, capabilities_supported, changed_and_concluded,
    checks_suffice, concluded, edited, first_failure, from_external_senders, from_psks, governing,
    group_extensions_supported, key_packages_then_edit, leaf_updates, member_applied,
    new_member_applied, no_failure_is_success_of_all, psk_answers, supported_by_all, trial_judged,
    update_sender_verdicts, updates_then_edit, Committer, Governing, Leaves, ProposalApplier,
    Replies,
};
use crate::group::proposal_filter::psk::{fails_at, none_external, psk_flags, screen_psks};
use crate::group::proposal_filter::screening::{retain_flagged, screened_flags, selected_of};
use crate::group::proposal_filter::state::{
    filter_out_unsupported_custom_proposals, BatchEdits, EditsView, ProposalState, StateView,
};
use crate::group::proposal_filter::step::{
    all_by_members, continued, ExternalLeafStep, ExternalSendersStep, KeyPackageStep,
    Plan, PskStep, RequiredCapabilitiesStep, SelfRemovalStep, Step, TreeEditStep, UpdateLeafStep,
};
use crate::group::proposal_filter::strategy::{apply_strategy, FailInvalidProposal, FilterStrategy};
use crate::group::sender::Sender;
use crate::tree_kem::{members, LeafIndex, LeafNode, RatchetTreeError, TreeKemPublic};

verus! {

/// The strategy that governs the committer's commit.
pub(crate) fn governing_strategy<'s, F: FilterStrategy>(
    strategy: &'s F,
    committer: &Committer,
) -> (g: Governing<'s, F>)
    ensures
        g == governing(strategy, *committer),
{
    match committer {
        Committer::Member(_) => Governing::Given(strategy),
        Committer::NewMember(_) => Governing::Fail,
    }
}

impl<E> ProposalApplier<E> {
    /// What is left to do once the changes are made.
    pub(crate) fn conclude<F: FilterStrategy>(
        &self,
        strategy: &F,
        committer: Committer,
        state: ProposalState,
    ) -> (r: Result<Step, ProposalFilterError<E>>)
        ensures
            conclusion_asked::<F, E>(r, *strategy, committer, state@),
            r matches Ok(step) ==> step.wf() && step.rank() <= 1,
            forall|replies: Replies<E>| #[trigger]
                continued::<F, E>(r, *self, *strategy, replies) == concluded::<F, E>(
                    *strategy,
                    committer,
                    state@,
                    replies,
                ),
    {
        match committer {
            Committer::Member(_) => match filter_out_unsupported_custom_proposals::<F, E>(
                state,
                strategy,
            ) {
                Ok(s) => Ok(Step::Done(s)),
                Err(e) => Err(e),
            },
            Committer::NewMember(external_leaf) => Ok(
                Step::ExternalLeaf(ExternalLeafStep { state, external_leaf }),
            ),
        }
    }

    /// Screens the pre-shared keys, from the one after `flags` on, up to the first
    /// whose name the validator has to be asked about.
    pub fn filter_out_invalid_psks<F: FilterStrategy>(
        &self,
        strategy: &F,
        committer: Committer,
        proposals: ProposalBundle,
        flags: Vec<bool>,
    ) -> (r: Result<Step, ProposalFilterError<E>>)
        requires
            flags@.len() <= proposals@.psks.len(),
        ensures
            psks_asked::<F, E>(r, *self, *strategy, committer, proposals@, flags@),
            r matches Ok(Step::Psk(s)) ==> none_external(
                proposals@.psks,
                flags@.len() as int,
                s.flags@.len() as int,
            ),
            r matches Ok(step) && !(step is Psk) ==> none_external(
                proposals@.psks,
                flags@.len() as int,
                proposals@.psks.len() as int,
            ),
            r matches Err(e) ==> none_external(
                proposals@.psks,
                flags@.len() as int,
                proposals@.psks.len() as int,
            ) || exists|n: int| #[trigger]
                fails_at::<Governing<'_, F>, E>(
                    governing(strategy, committer),
                    proposals@.psks,
                    self.kdf_extract_size,
                    flags@.len() as int,
                    n,
                    e,
                ),
            r matches Ok(step) ==> step.wf() && (step.rank() < 11 || step.rank() == 11 && 0
                <= step.questions_left() <= proposals@.psks.len() - flags@.len()),
            forall|replies: Replies<E>| #[trigger]
                continued::<F, E>(r, *self, *strategy, replies) == from_psks::<F, E>(
                    *self,
                    *strategy,
                    committer,
                    proposals@,
                    flags@,
                    replies,
                ),
    {
        let governing_commit = governing_strategy(strategy, &committer);
        let kept = match screen_psks::<Governing<'_, F>, E>(
            &governing_commit,
            &proposals.psks,
            self.kdf_extract_size,
            flags,
        ) {
            Ok(kept) => kept,
            Err(e) => {
                assert forall|replies: Replies<E>| #[trigger]
                    continued::<F, E>(Err(e), *self, *strategy, replies) == from_psks::<F, E>(
                        *self,
                        *strategy,
                        committer,
                        proposals@,
                        flags@,
                        replies,
                    ) by {
                    assert(psk_flags::<Governing<'_, F>, E>(
                        governing_commit,
                        proposals@.psks,
                        self.kdf_extract_size,
                        psk_answers(replies, proposals@.psks),
                        flags@,
                    ) is Err);
                }
                return Err(e);
            },
        };
        assert forall|replies: Replies<E>| #[trigger]
            from_psks::<F, E>(*self, *strategy, committer, proposals@, kept@, replies)
                == from_psks::<F, E>(
                *self,
                *strategy,
                committer,
                proposals@,
                flags@,
                replies,
            ) by {
            assert(psk_flags::<Governing<'_, F>, E>(
                governing_commit,
                proposals@.psks,
                self.kdf_extract_size,
                psk_answers(replies, proposals@.psks),
                flags@,
            ) == psk_flags::<Governing<'_, F>, E>(
                governing_commit,
                proposals@.psks,
                self.kdf_extract_size,
                psk_answers(replies, proposals@.psks),
                kept@,
            ));
        }
        if kept.len() < proposals.psks.len() {
            let step = Step::Psk(PskStep { committer, proposals, flags: kept });
            return Ok(step);
        }
        let mut remaining = proposals;
        retain_flagged::<PreSharedKeyProposal>(&mut remaining, &kept);
        let ghost bundle = remaining@;
        let r = self.continue_after_psks(strategy, committer, remaining);
        assert forall|replies: Replies<E>| #[trigger]
            continued::<F, E>(r, *self, *strategy, replies) == from_psks::<F, E>(
                *self,
                *strategy,
                committer,
                proposals@,
                flags@,
                replies,
            ) by {
            assert(from_psks::<F, E>(*self, *strategy, committer, proposals@, kept@, replies)
                == after_psks::<F, E>(*self, *strategy, committer, bundle, replies));
        }
        r
    }

    /// What follows the screening of pre-shared keys.
    fn continue_after_psks<F: FilterStrategy>(
        &self,
        strategy: &F,
        committer: Committer,
        proposals: ProposalBundle,
    ) -> (r: Result<Step, ProposalFilterError<E>>)
        ensures
            asked_after_psks::<F, E>(r, *self, *strategy, committer, proposals@),
            r matches Ok(step) ==> step.wf() && step.rank() < 11,
            forall|replies: Replies<E>| #[trigger]
                continued::<F, E>(r, *self, *strategy, replies) == after_psks::<F, E>(
                    *self,
                    *strategy,
                    committer,
                    proposals@,
                    replies,
                ),
    {
        match committer {
            Committer::Member(i) => self.filter_out_invalid_group_extensions(
                strategy,
                i,
                proposals,
                Vec::new(),
            ),
            Committer::NewMember(external_leaf) => self.apply_proposal_changes(
                strategy,
                Committer::NewMember(external_leaf),
                proposals,
            ),
        }
    }

    /// Goes on with the external senders of new extensions, from the change after
    /// `flags` on; each has to be asked about. Then come the remaining filters of a
    /// member's commit.
    pub fn filter_out_invalid_group_extensions<F: FilterStrategy>(
        &self,
        strategy: &F,
        commit_sender: LeafIndex,
        proposals: ProposalBundle,
        flags: Vec<bool>,
    ) -> (r: Result<Step, ProposalFilterError<E>>)
        requires
            flags@.len() <= proposals@.group_context_extensions.len(),
        ensures
            external_senders_asked::<F, E>(
                r,
                *self,
                *strategy,
                commit_sender,
                proposals@,
                flags@,
            ),
            r matches Ok(step) ==> step.wf() && (step.rank() < 10 || step.rank() == 10 && 0
                <= step.questions_left() <= proposals@.group_context_extensions.len()
                - flags@.len()),
            forall|replies: Replies<E>| #[trigger]
                continued::<F, E>(r, *self, *strategy, replies) == from_external_senders::<F, E>(
                    *self,
                    *strategy,
                    commit_sender,
                    proposals@,
                    flags@,
                    replies,
                ),
    {
        if flags.len() < proposals.group_context_extensions.len() {
            return Ok(
                Step::ExternalSenders(ExternalSendersStep { commit_sender, proposals, flags }),
            );
        }
        let mut remaining = proposals;
        retain_flagged::<ExtensionList>(&mut remaining, &flags);
        let remaining = match filter_out_extra_group_context_extensions(strategy, remaining) {
            Ok(b) => b,
            Err(e) => return Err(e),
        };
        let remaining = match filter_out_invalid_reinit(
            strategy,
            remaining,
            self.protocol_version,
        ) {
            Ok(b) => b,
            Err(e) => return Err(e),
        };
        let remaining = match filter_out_reinit_if_other_proposals(strategy, remaining) {
            Ok(b) => b,
            Err(e) => return Err(e),
        };
        let remaining = match filter_out_external_init(strategy, commit_sender, remaining) {
            Ok(b) => b,
            Err(e) => return Err(e),
        };
        self.apply_proposal_changes(strategy, Committer::Member(commit_sender), remaining)
    }

    /// Makes the changes, once it is known which capabilities new extensions require.
    pub fn apply_proposal_changes<F: FilterStrategy>(
        &self,
        strategy: &F,
        committer: Committer,
        proposals: ProposalBundle,
    ) -> (r: Result<Step, ProposalFilterError<E>>)
        ensures
            changes_asked::<F, E>(r, *strategy, committer, proposals@),
            r matches Ok(step) ==> step.wf() && step.rank() < 10,
            forall|replies: Replies<E>| #[trigger]
                continued::<F, E>(r, *self, *strategy, replies) == changed_and_concluded::<F, E>(
                    *self,
                    *strategy,
                    committer,
                    proposals@,
                    replies,
                ),
    {
        if proposals.group_context_extensions_proposal().is_some() {
            return Ok(
                Step::RequiredCapabilities(RequiredCapabilitiesStep { committer, proposals }),
            );
        }
        let mut remaining = proposals;
        remaining.clear_group_context_extensions();
        self.apply_tree_changes(strategy, committer, Plan::Original, remaining)
    }

    /// Makes the changes to the tree.
    pub fn apply_tree_changes<F: FilterStrategy>(
        &self,
        strategy: &F,
        committer: Committer,
        plan: Plan,
        proposals: ProposalBundle,
    ) -> (r: Result<Step, ProposalFilterError<E>>)
        requires
            plan.wf(),
        ensures
            updates_asked::<F, E>(r, *strategy, committer, plan@, proposals@, seq![]),
            r matches Ok(step) ==> step.wf() && step.rank() <= plan.rank() + 2,
            forall|replies: Replies<E>| #[trigger]
                continued::<F, E>(r, *self, *strategy, replies) == and_then(
                    updates_then_edit::<Governing<'_, F>, E>(
                        governing(strategy, committer),
                        proposals@,
                        plan.extensions(*self),
                        plan.replies(replies),
                        seq![],
                    ),
                    |st: StateView|
                        plan.conclusion::<F, E>(*self, *strategy, committer, st, replies),
                ),
    {
        self.validate_new_update_nodes(strategy, committer, plan, proposals, Vec::new())
    }

    /// Goes on with the leaves of updates, from the one after `flags` on; each has to
    /// be asked about.
    pub fn validate_new_update_nodes<F: FilterStrategy>(
        &self,
        strategy: &F,
        committer: Committer,
        plan: Plan,
        proposals: ProposalBundle,
        flags: Vec<bool>,
    ) -> (r: Result<Step, ProposalFilterError<E>>)
        requires
            plan.wf(),
            flags@.len() <= proposals@.updates.len(),
        ensures
            updates_asked::<F, E>(r, *strategy, committer, plan@, proposals@, flags@),
            r matches Ok(step) ==> step.wf() && (step.rank() < plan.rank() + 2 || step.rank()
                == plan.rank() + 2 && 0 <= step.questions_left() <= proposals@.updates.len()
                - flags@.len()),
            forall|replies: Replies<E>| #[trigger]
                continued::<F, E>(r, *self, *strategy, replies) == and_then(
                    updates_then_edit::<Governing<'_, F>, E>(
                        governing(strategy, committer),
                        proposals@,
                        plan.extensions(*self),
                        plan.replies(replies),
                        flags@,
                    ),
                    |st: StateView|
                        plan.conclusion::<F, E>(*self, *strategy, committer, st, replies),
                ),
    {
        if flags.len() < proposals.updates.len() {
            match leaf_index_of_update_sender::<E>(&proposals.updates[flags.len()]) {
                Ok(_) => {},
                Err(e) => return Err(e),
            }
            return Ok(Step::UpdateLeaf(UpdateLeafStep { committer, plan, proposals, flags }));
        }
        let mut remaining = proposals;
        retain_flagged::<UpdateProposal>(&mut remaining, &flags);
        self.validate_new_key_packages(strategy, committer, plan, remaining, Vec::new())
    }

    /// Goes on with the key packages of additions, from the one after `flags` on;
    /// each has to be asked about.
    pub fn validate_new_key_packages<F: FilterStrategy>(
        &self,
        strategy: &F,
        committer: Committer,
        plan: Plan,
        proposals: ProposalBundle,
        flags: Vec<bool>,
    ) -> (r: Result<Step, ProposalFilterError<E>>)
        requires
            plan.wf(),
            flags@.len() <= proposals@.additions.len(),
        ensures
            key_packages_asked::<F, E>(r, *strategy, committer, plan@, proposals@, flags@),
            r matches Ok(step) ==> step.wf() && (step.rank() < plan.rank() + 1 || step.rank()
                == plan.rank() + 1 && 0 <= step.questions_left() <= proposals@.additions.len()
                - flags@.len()),
            forall|replies: Replies<E>| #[trigger]
                continued::<F, E>(r, *self, *strategy, replies) == and_then(
                    key_packages_then_edit::<Governing<'_, F>, E>(
                        governing(strategy, committer),
                        proposals@,
                        plan.extensions(*self),
                        plan.replies(replies),
                        flags@,
                    ),
                    |st: StateView|
                        plan.conclusion::<F, E>(*self, *strategy, committer, st, replies),
                ),
    {
        if flags.len() < proposals.additions.len() {
            return Ok(Step::KeyPackage(KeyPackageStep { committer, plan, proposals, flags }));
        }
        let mut remaining = proposals;
        retain_flagged::<AddProposal>(&mut remaining, &flags);
        self.edit_tree(strategy, committer, plan, remaining)
    }

    /// Gathers what the tree is to be edited by.
    fn edit_tree<F: FilterStrategy>(
        &self,
        strategy: &F,
        committer: Committer,
        plan: Plan,
        proposals: ProposalBundle,
    ) -> (r: Result<Step, ProposalFilterError<E>>)
        requires
            plan.wf(),
        ensures
            edit_asked::<F, E>(r, *strategy, committer, plan@, proposals@),
            r matches Ok(step) ==> step.wf() && step.rank() == plan.rank(),
            forall|replies: Replies<E>| #[trigger]
                continued::<F, E>(r, *self, *strategy, replies) == and_then(
                    edited::<Governing<'_, F>, E>(
                        governing(strategy, committer),
                        proposals@,
                        plan.replies(replies),
                    ),
                    |st: StateView|
                        plan.conclusion::<F, E>(*self, *strategy, committer, st, replies),
                ),
    {
        let governing_commit = governing_strategy(strategy, &committer);
        let ghost list = proposals@.updates;
        let ghost verdicts = update_sender_verdicts::<E>(list);
        let mut updates: Vec<(LeafIndex, Arc<LeafNode>)> = Vec::new();
        let mut flags: Vec<bool> = Vec::new();
        let n: usize = proposals.updates.len();
        for i in 0..n
            invariant
                n == list.len(),
                list == proposals@.updates,
                verdicts == update_sender_verdicts::<E>(list),
                governing_commit == governing(strategy, committer),
                flags.len() == i,
                all_by_members(selected_of(list, flags@, i as int)),
                updates@ == leaf_updates(selected_of(list, flags@, i as int)),
                screened_flags::<Governing<'_, F>, UpdateProposal, E>(
                    governing_commit,
                    list,
                    verdicts,
                    flags@,
                ) == screened_flags::<Governing<'_, F>, UpdateProposal, E>(
                    governing_commit,
                    list,
                    verdicts,
                    seq![],
                ),
        {
            let p = &proposals.updates[i];
            let ghost before = flags@;
            let res = match leaf_index_of_update_sender::<E>(p) {
                Ok(leaf_index) => {
                    updates.push((leaf_index, p.proposal.leaf_node.clone()));
                    Ok(())
                },
                Err(e) => Err(e),
            };
            match apply_strategy(&governing_commit, &**p, res) {
                Ok(keep) => flags.push(keep),
                Err(e) => return Err(e),
            }
            proof {
                lemma_selected_prefix(list, before, flags@, i as int);
                assert(updates@ =~= leaf_updates(selected_of(list, flags@, i + 1)));
            }
        }
        let mut remaining = proposals;
        retain_flagged::<UpdateProposal>(&mut remaining, &flags);
        Ok(Step::TreeEdit(TreeEditStep { committer, plan, proposals: remaining, updates }))
    }
}

/// A flag that comes later does not matter for what is selected before it.
proof fn lemma_selected_prefix<T>(items: Seq<T>, flags: Seq<bool>, more: Seq<bool>, n: int)
    requires
        0 <= n <= flags.len() <= more.len(),
        forall|i: int| 0 <= i < n ==> flags[i] == more[i],
    ensures
        selected_of(items, flags, n) == selected_of(items, more, n),
    decreases n,
{
    if n > 0 {
        lemma_selected_prefix(items, flags, more, n - 1);
    }
}

/// The first check that failed.
fn take_first_failure<E>(checks: Vec<Result<(), E>>) -> (r: Option<E>)
    ensures
        r == first_failure(checks@, 0),
{
    let mut remaining = checks;
    let n: usize = remaining.len();
    let mut i: usize = 0;
    while i < n
        invariant
            i <= n,
            n == checks@.len(),
            remaining@ == checks@,
            first_failure(checks@, i as int) == first_failure(checks@, 0),
        decreases n - i,
    {
        if remaining[i].is_err() {
            return remaining.swap_remove(i).err();
        }
        i += 1;
    }
    None
}

/// Checks that every member of the tree has the capabilities that are required anew,
/// and supports the new extensions. `checks` are the validator's answers about the
/// members' capabilities, in the order of their leaves; they may end at the first
/// that failed. Success means that each member was accepted.
pub fn check_group_extensions_supported<E>(
    extensions: &ExtensionList,
    capabilities: &Option<RequiredCapabilitiesExt>,
    tree: &TreeKemPublic,
    checks: Vec<Result<(), E>>,
) -> (r: Result<(), ProposalFilterError<E>>)
    requires
        capabilities is Some ==> checks_suffice(checks@, tree@),
    ensures
        r == group_extensions_supported(extensions@, *capabilities, tree@, checks@),
        r is Ok && capabilities is Some ==> checks@.len() == members(tree@).len() && forall|i: int|
            0 <= i < checks@.len() ==> #[trigger] checks@[i] is Ok,
{
    proof {
        no_failure_is_success_of_all(checks@, 0);
    }
    if capabilities.is_some() {
        if let Some(e) = take_first_failure(checks) {
            return Err(ProposalFilterError::LeafNodeValidationError(e));
        }
    }
    let n: usize = extensions.0.len();
    for i in 0..n
        invariant
            n == extensions@.len(),
            first_unsupported(extensions@, supported_by_all(tree@), i as int) == first_unsupported(
                extensions@,
                supported_by_all(tree@),
                0,
            ),
            capabilities_supported(*capabilities, checks@) is Ok,
    {
        let extension = &extensions.0[i];
        if !extension.is_default && !tree.can_support_extension(extension.extension_type) {
            return Err(ProposalFilterError::UnsupportedGroupExtension(extension.extension_type));
        }
    }
    Ok(())
}

/// The edit of a tree with its parts as sequences and sets.
pub open spec fn edit_view<E>(
    reply: Result<(TreeKemPublic, BatchEdits), RatchetTreeError<E>>,
) -> Result<(Leaves, EditsView), RatchetTreeError<E>> {
    match reply {
        Ok((tree, edits)) => Ok((tree@, edits@)),
        Err(e) => Err(e),
    }
}

/// The tree with a newcomer's leaf, with its parts as sequences.
pub open spec fn external_leaf_view<E>(
    reply: Result<(TreeKemPublic, Vec<LeafIndex>), RatchetTreeError<E>>,
) -> Result<(Leaves, Seq<LeafIndex>), RatchetTreeError<E>> {
    match reply {
        Ok((tree, indexes)) => Ok((tree@, indexes@)),
        Err(e) => Err(e),
    }
}

impl<E> ProposalApplier<E> {
    /// The group that proposals are applied to. `kdf_extract_size` is the length of
    /// the nonce of a pre-shared key, and `external_senders` what decoding that
    /// extension of the group gave.
    pub fn new(
        original_tree: TreeKemPublic,
        protocol_version: ProtocolVersion,
        group_id: Vec<u8>,
        kdf_extract_size: usize,
        original_group_extensions: ExtensionList,
        external_senders: Result<Option<ExternalSendersExt>, E>,
        original_required_capabilities: Option<RequiredCapabilitiesExt>,
        external_leaf: Option<Arc<LeafNode>>,
    ) -> (applier: Self)
        ensures
            applier == (ProposalApplier {
                original_tree,
                protocol_version,
                group_id,
                kdf_extract_size,
                original_group_extensions,
                external_senders,
                original_required_capabilities,
                external_leaf,
            }),
    {
        ProposalApplier {
            original_tree,
            protocol_version,
            group_id,
            kdf_extract_size,
            original_group_extensions,
            external_senders,
            original_required_capabilities,
            external_leaf,
        }
    }

    /// Decides about a trial of new extensions. `saved` are the proposals before it,
    /// `state` is the state after it, and `supported` says whether the members support
    /// the new extensions.
    pub fn apply_proposals_with_new_capabilities<F: FilterStrategy>(
        &self,
        strategy: &F,
        committer: Committer,
        saved: ProposalBundle,
        state: ProposalState,
        supported: Result<(), ProposalFilterError<E>>,
    ) -> (r: Result<Step, ProposalFilterError<E>>)
        requires
            saved@.group_context_extensions.len() > 0,
        ensures
            asked_after_trial::<F, E>(
                r,
                *self,
                *strategy,
                committer,
                saved@,
                state@,
                supported,
            ),
            r matches Ok(step) ==> step.wf() && step.rank() < 5,
            forall|replies: Replies<E>| #[trigger]
                continued::<F, E>(r, *self, *strategy, replies) == and_then(
                    trial_judged::<Governing<'_, F>, E>(
                        *self,
                        governing(strategy, committer),
                        saved@,
                        state@,
                        supported,
                        replies.original,
                    ),
                    |st: StateView| concluded::<F, E>(*strategy, committer, st, replies),
                ),
    {
        let e = match supported {
            Ok(_) => return self.conclude(strategy, committer, state),
            Err(e) => e,
        };
        let ignored = governing_strategy(strategy, &committer).ignore(
            &saved.group_context_extensions[0].by_ref(),
        );
        if !ignored {
            return Err(e);
        }
        if self.original_required_capabilities.is_none()
            && self.original_group_extensions.is_empty() {
            let mut new_state = state;
            new_state.proposals.clear_group_context_extensions();
            self.conclude(strategy, committer, new_state)
        } else {
            let mut proposals = saved;
            proposals.clear_group_context_extensions();
            self.apply_tree_changes(strategy, committer, Plan::Original, proposals)
        }
    }

    /// Starts a member's commit.
    pub fn apply_proposals_from_member<F: FilterStrategy>(
        &self,
        strategy: &F,
        commit_sender: LeafIndex,
        proposals: ProposalBundle,
    ) -> (r: Result<Step, ProposalFilterError<E>>)
        ensures
            asked_of_member::<F, E>(r, *self, *strategy, commit_sender, proposals@),
            r matches Ok(step) ==> step.wf(),
            forall|replies: Replies<E>| #[trigger]
                continued::<F, E>(r, *self, *strategy, replies) == member_applied::<F, E>(
                    *self,
                    *strategy,
                    commit_sender,
                    proposals@,
                    replies,
                ),
    {
        let proposals = match filter_out_invalid_proposers(
            strategy,
            &self.original_tree,
            &self.external_senders,
            proposals,
        ) {
            Ok(b) => b,
            Err(e) => return Err(e),
        };
        let proposals = match filter_out_update_for_committer(strategy, commit_sender, proposals) {
            Ok(b) => b,
            Err(e) => return Err(e),
        };
        let proposals = match filter_out_removal_of_committer(strategy, commit_sender, proposals) {
            Ok(b) => b,
            Err(e) => return Err(e),
        };
        let proposals = match filter_out_extra_removal_or_update_for_same_leaf(
            strategy,
            proposals,
        ) {
            Ok(b) => b,
            Err(e) => return Err(e),
        };
        self.filter_out_invalid_psks(
            strategy,
            Committer::Member(commit_sender),
            proposals,
            Vec::new(),
        )
    }

    /// Goes on with a commit by which somebody joins, once the removal of an earlier
    /// self is settled.
    pub(crate) fn continue_after_self_removal<F: FilterStrategy>(
        &self,
        strategy: &F,
        external_leaf: Arc<LeafNode>,
        proposals: ProposalBundle,
    ) -> (r: Result<Step, ProposalFilterError<E>>)
        ensures
            asked_after_self_removal::<F, E>(r, *self, *strategy, external_leaf, proposals@),
            r matches Ok(step) ==> step.wf() && step.rank() <= 11,
            forall|replies: Replies<E>| #[trigger]
                continued::<F, E>(r, *self, *strategy, replies) == after_self_removal::<F, E>(
                    *self,
                    *strategy,
                    external_leaf,
                    proposals@,
                    replies,
                ),
    {
        if let Err(e) = ensure_proposals_in_external_commit_are_allowed::<E>(&proposals) {
            return Err(e);
        }
        if let Err(e) = ensure_no_proposal_by_ref::<E>(&proposals) {
            return Err(e);
        }
        let proposals = match filter_out_invalid_proposers(
            &FailInvalidProposal,
            &self.original_tree,
            &self.external_senders,
            proposals,
        ) {
            Ok(b) => b,
            Err(e) => return Err(e),
        };
        self.filter_out_invalid_psks(
            strategy,
            Committer::NewMember(external_leaf),
            proposals,
            Vec::new(),
        )
    }

    /// Starts a commit by which somebody joins.
    pub fn apply_proposals_from_new_member<F: FilterStrategy>(
        &self,
        strategy: &F,
        proposals: ProposalBundle,
    ) -> (r: Result<Step, ProposalFilterError<E>>)
        ensures
            asked_of_newcomer::<F, E>(r, *self, *strategy, proposals@),
            r matches Ok(step) ==> step.wf(),
            forall|replies: Replies<E>| #[trigger]
                continued::<F, E>(r, *self, *strategy, replies) == new_member_applied::<F, E>(
                    *self,
                    *strategy,
                    proposals@,
                    replies,
                ),
    {
        let external_leaf = match &self.external_leaf {
            Some(leaf) => leaf.clone(),
            None => return Err(ProposalFilterError::ExternalCommitMustHaveNewLeaf),
        };
        if let Err(e) = ensure_exactly_one_external_init::<E>(&proposals) {
            return Err(e);
        }
        match ensure_at_most_one_removal_for_self::<E>(&proposals, &self.original_tree) {
            Err(e) => Err(e),
            Ok(Some(existing)) => Ok(
                Step::SelfRemoval(SelfRemovalStep { proposals, existing, external_leaf }),
            ),
            Ok(None) => self.continue_after_self_removal(strategy, external_leaf, proposals),
        }
    }

    /// Starts to apply the proposals of a commit: goes on until something has to be
    /// asked. Whatever is answered from there on, the commit leads to what
    /// [`applied`] says for those answers.
    pub fn apply_proposals<F: FilterStrategy>(
        &self,
        strategy: &F,
        commit_sender: &Sender,
        proposals: ProposalBundle,
    ) -> (r: Result<Step, ProposalFilterError<E>>)
        ensures
            asked_first::<F, E>(r, *self, *strategy, *commit_sender, proposals@),
            r matches Ok(step) ==> step.wf(),
            forall|replies: Replies<E>| #[trigger]
                continued::<F, E>(r, *self, *strategy, replies) == applied::<F, E>(
                    *self,
                    *strategy,
                    *commit_sender,
                    proposals@,
                    replies,
                ),
    {
        match *commit_sender {
            Sender::Member(sender) => self.apply_proposals_from_member(
                strategy,
                LeafIndex(sender),
                proposals,
            ),
            Sender::NewMemberCommit => self.apply_proposals_from_new_member(strategy, proposals),
            Sender::External(_) | Sender::NewMemberProposal => Err(
                ProposalFilterError::ExternalSenderCannotCommit,
            ),
        }
    }
}

} // verus!
