//! What is asked next.
//!
//! For every point at which the application of a commit may stand, this says at which step
//! it stops: what is asked, in which order, and that nothing that has to be asked is passed
//! over.

use vstd::prelude::*;

use std::sync::Arc;

use crate::extension::{ExtensionList, RequiredCapabilitiesExt};
use crate::group::proposal::{AddProposal, PreSharedKeyProposal, UpdateProposal};
use crate::group::proposal_filter::bundle::{
    without_group_context_extensions, BundleView, Bundled,
};
use crate::group::proposal_filter::error::ProposalFilterError;
use crate::group::proposal_filter::external_commit::{
    one_external_init, self_removal, successor_verdict,
};
use crate::group::proposal_filter::filtering::update_leaf;
use crate::group::proposal_filter::outcome::{
    edit_applied, external_senders_verdict, governing, group_extensions_supported,
    key_package_verdict, member_filtered_early, member_filtered_late, new_member_filtered,
    update_node_verdict, update_sender_verdicts, with_external_leaf, Committer, Governing, Leaves,
    ProposalApplier,
};
use crate::group::proposal_filter::psk::{psk_decision, psk_run, PskRun};
use crate::group::proposal_filter::screening::{decided, screened, selected};
use crate::group::proposal_filter::state::{custom_filtered, EditsView, StateView};
use crate::group::proposal_filter::step::{
    ExternalLeafStep, ExternalSendersStep, KeyPackageStep, LeafChecksStep, Plan, PskStep,
    RequiredCapabilitiesStep, SelfRemovalStep, Step, UpdateLeafStep,
};
use crate::group::proposal_filter::strategy::{borrowed_info, strategy_applied, FilterStrategy};
use crate::group::sender::Sender;
use crate::tree_kem::{LeafIndex, LeafNode, RatchetTreeError};

verus! {

/// A plan with its proposals as sequences.
pub ghost enum PlanView {
    Original,
    Trial { saved: BundleView, capabilities: Option<RequiredCapabilitiesExt> },
}

impl View for Plan {
    type V = PlanView;

    open spec fn view(&self) -> PlanView {
        match self {
            Plan::Original => PlanView::Original,
            Plan::Trial { saved, capabilities } => PlanView::Trial {
                saved: saved@,
                capabilities: *capabilities,
            },
        }
    }
}

/// The bundle with those of one kind of its proposals whose flag is set.
pub open spec fn retained<P: Bundled>(bundle: BundleView, flags: Seq<bool>) -> BundleView {
    P::with_list(bundle, selected(P::list(bundle), flags))
}

/// A commit that ends in this state, or fails.
pub open spec fn ends_in<E>(
    r: Result<Step, ProposalFilterError<E>>,
    expected: Result<StateView, ProposalFilterError<E>>,
) -> bool {
    match expected {
        Ok(state) => r matches Ok(Step::Done(s)) && s@ == state,
        Err(e) => r == Err::<Step, ProposalFilterError<E>>(e),
    }
}

/// Once the changes are made: the leaf of whoever joins has to be added, and a member's
/// commit is at its end.
pub open spec fn conclusion_asked<F: FilterStrategy, E>(
    r: Result<Step, ProposalFilterError<E>>,
    strategy: F,
    committer: Committer,
    state: StateView,
) -> bool {
    match committer {
        Committer::Member(_) => ends_in(r, custom_filtered::<F, E>(strategy, state)),
        Committer::NewMember(leaf) => r matches Ok(Step::ExternalLeaf(s)) && s.state@ == state
            && s.external_leaf == leaf,
    }
}

/// Once leaves and key packages were looked at: the tree has to be edited.
pub open spec fn edit_asked<F: FilterStrategy, E>(
    r: Result<Step, ProposalFilterError<E>>,
    strategy: F,
    committer: Committer,
    plan: PlanView,
    bundle: BundleView,
) -> bool {
    match screened::<Governing<'_, F>, UpdateProposal, E>(
        governing(&strategy, committer),
        bundle,
        update_sender_verdicts(bundle.updates),
    ) {
        Err(e) => r == Err::<Step, ProposalFilterError<E>>(e),
        Ok(b) => r matches Ok(Step::TreeEdit(s)) && s.committer == committer && s.plan@ == plan
            && s.proposals@ == b,
    }
}

/// Every key package is asked about, in order, from the one after `flags` on.
pub open spec fn key_packages_asked<F: FilterStrategy, E>(
    r: Result<Step, ProposalFilterError<E>>,
    strategy: F,
    committer: Committer,
    plan: PlanView,
    bundle: BundleView,
    flags: Seq<bool>,
) -> bool {
    if flags.len() < bundle.additions.len() {
        r matches Ok(Step::KeyPackage(s)) && s.committer == committer && s.plan@ == plan
            && s.proposals@ == bundle && s.flags@ == flags
    } else {
        edit_asked::<F, E>(r, strategy, committer, plan, retained::<AddProposal>(bundle, flags))
    }
}

/// The leaf of every update is asked about, in order, from the one after `flags` on; an
/// update that no member sent makes the commit fail.
pub open spec fn updates_asked<F: FilterStrategy, E>(
    r: Result<Step, ProposalFilterError<E>>,
    strategy: F,
    committer: Committer,
    plan: PlanView,
    bundle: BundleView,
    flags: Seq<bool>,
) -> bool {
    if flags.len() < bundle.updates.len() {
        match update_leaf::<E>(*bundle.updates[flags.len() as int]) {
            Err(e) => r == Err::<Step, ProposalFilterError<E>>(e),
            Ok(_) => r matches Ok(Step::UpdateLeaf(s)) && s.committer == committer && s.plan@
                == plan && s.proposals@ == bundle && s.flags@ == flags,
        }
    } else {
        key_packages_asked::<F, E>(
            r,
            strategy,
            committer,
            plan,
            retained::<UpdateProposal>(bundle, flags),
            seq![],
        )
    }
}

/// The capabilities that new extensions require are asked for, if there are any.
pub open spec fn changes_asked<F: FilterStrategy, E>(
    r: Result<Step, ProposalFilterError<E>>,
    strategy: F,
    committer: Committer,
    bundle: BundleView,
) -> bool {
    if bundle.group_context_extensions.len() > 0 {
        r matches Ok(Step::RequiredCapabilities(s)) && s.committer == committer && s.proposals@
            == bundle
    } else {
        updates_asked::<F, E>(
            r,
            strategy,
            committer,
            PlanView::Original,
            without_group_context_extensions(bundle),
            seq![],
        )
    }
}

/// The external senders of every change of extensions are asked about, in order, from the
/// one after `flags` on.
pub open spec fn external_senders_asked<F: FilterStrategy, E>(
    r: Result<Step, ProposalFilterError<E>>,
    applier: ProposalApplier<E>,
    strategy: F,
    commit_sender: LeafIndex,
    bundle: BundleView,
    flags: Seq<bool>,
) -> bool {
    if flags.len() < bundle.group_context_extensions.len() {
        r matches Ok(Step::ExternalSenders(s)) && s.commit_sender == commit_sender && s.proposals@
            == bundle && s.flags@ == flags
    } else {
        match member_filtered_late::<F, E>(
            applier,
            strategy,
            commit_sender,
            retained::<ExtensionList>(bundle, flags),
        ) {
            Err(e) => r == Err::<Step, ProposalFilterError<E>>(e),
            Ok(b) => changes_asked::<F, E>(r, strategy, Committer::Member(commit_sender), b),
        }
    }
}

/// What is asked once all pre-shared keys are decided.
pub open spec fn asked_after_psks<F: FilterStrategy, E>(
    r: Result<Step, ProposalFilterError<E>>,
    applier: ProposalApplier<E>,
    strategy: F,
    committer: Committer,
    bundle: BundleView,
) -> bool {
    match committer {
        Committer::Member(i) => external_senders_asked::<F, E>(
            r,
            applier,
            strategy,
            i,
            bundle,
            seq![],
        ),
        Committer::NewMember(_) => changes_asked::<F, E>(r, strategy, committer, bundle),
    }
}

/// The name of every external pre-shared key is asked about, in order, from the one after
/// `flags` on, even where something else is wrong with the key; nothing is asked about
/// secrets of other epochs. The law `every_external_psk_is_asked_about` says so.
pub open spec fn psks_asked<F: FilterStrategy, E>(
    r: Result<Step, ProposalFilterError<E>>,
    applier: ProposalApplier<E>,
    strategy: F,
    committer: Committer,
    bundle: BundleView,
    flags: Seq<bool>,
) -> bool {
    match psk_run::<Governing<'_, F>, E>(
        governing(&strategy, committer),
        bundle.psks,
        applier.kdf_extract_size,
        flags,
    ) {
        PskRun::Asks(kept) => r matches Ok(Step::Psk(s)) && s.committer == committer
            && s.proposals@ == bundle && s.flags@ == kept,
        PskRun::Done(kept) => asked_after_psks::<F, E>(
            r,
            applier,
            strategy,
            committer,
            retained::<PreSharedKeyProposal>(bundle, kept),
        ),
        PskRun::Fails(e) => r == Err::<Step, ProposalFilterError<E>>(e),
    }
}

/// What is asked once a trial of new extensions was judged.
pub open spec fn asked_after_trial<F: FilterStrategy, E>(
    r: Result<Step, ProposalFilterError<E>>,
    applier: ProposalApplier<E>,
    strategy: F,
    committer: Committer,
    saved: BundleView,
    state: StateView,
    supported: Result<(), ProposalFilterError<E>>,
) -> bool {
    match supported {
        Ok(_) => conclusion_asked::<F, E>(r, strategy, committer, state),
        Err(e) => if !governing(&strategy, committer).ignores(
            borrowed_info(&*saved.group_context_extensions[0]),
        ) {
            r == Err::<Step, ProposalFilterError<E>>(e)
        } else if applier.original_required_capabilities is None
            && applier.original_group_extensions@.len() == 0 {
            conclusion_asked::<F, E>(
                r,
                strategy,
                committer,
                StateView {
                    proposals: without_group_context_extensions(state.proposals),
                    ..state
                },
            )
        } else {
            updates_asked::<F, E>(
                r,
                strategy,
                committer,
                PlanView::Original,
                without_group_context_extensions(saved),
                seq![],
            )
        },
    }
}

/// What is asked once the tree was edited: after a trial, whether the members have newly
/// required capabilities, if any are required.
pub open spec fn asked_after_edit<F: FilterStrategy, E>(
    r: Result<Step, ProposalFilterError<E>>,
    applier: ProposalApplier<E>,
    strategy: F,
    committer: Committer,
    plan: PlanView,
    bundle: BundleView,
    edit: Result<(Leaves, EditsView), RatchetTreeError<E>>,
) -> bool {
    match edit_applied(bundle, edit) {
        Err(e) => r == Err::<Step, ProposalFilterError<E>>(e),
        Ok(state) => match plan {
            PlanView::Original => conclusion_asked::<F, E>(r, strategy, committer, state),
            PlanView::Trial { saved, capabilities: Some(required) } => r matches Ok(
                Step::LeafChecks(s),
            ) && s.committer == committer && s.saved@ == saved && s.capabilities == required
                && s.state@ == state,
            PlanView::Trial { saved, capabilities: None } => asked_after_trial::<F, E>(
                r,
                applier,
                strategy,
                committer,
                saved,
                state,
                group_extensions_supported(
                    saved.group_context_extensions[0].proposal@,
                    None,
                    state.tree,
                    seq![],
                ),
            ),
        },
    }
}

/// What is asked first in a member's commit.
pub open spec fn asked_of_member<F: FilterStrategy, E>(
    r: Result<Step, ProposalFilterError<E>>,
    applier: ProposalApplier<E>,
    strategy: F,
    commit_sender: LeafIndex,
    bundle: BundleView,
) -> bool {
    match member_filtered_early::<F, E>(applier, strategy, commit_sender, bundle) {
        Err(e) => r == Err::<Step, ProposalFilterError<E>>(e),
        Ok(b) => psks_asked::<F, E>(
            r,
            applier,
            strategy,
            Committer::Member(commit_sender),
            b,
            seq![],
        ),
    }
}

/// What is asked once the removal of an earlier self is settled.
pub open spec fn asked_after_self_removal<F: FilterStrategy, E>(
    r: Result<Step, ProposalFilterError<E>>,
    applier: ProposalApplier<E>,
    strategy: F,
    external_leaf: Arc<LeafNode>,
    bundle: BundleView,
) -> bool {
    match new_member_filtered::<E>(applier, bundle) {
        Err(e) => r == Err::<Step, ProposalFilterError<E>>(e),
        Ok(b) => psks_asked::<F, E>(
            r,
            applier,
            strategy,
            Committer::NewMember(external_leaf),
            b,
            seq![],
        ),
    }
}

/// What is asked first of whoever joins: whether it succeeds the member that it removes, if
/// it removes one.
pub open spec fn asked_of_newcomer<F: FilterStrategy, E>(
    r: Result<Step, ProposalFilterError<E>>,
    applier: ProposalApplier<E>,
    strategy: F,
    bundle: BundleView,
) -> bool {
    match (
        applier.external_leaf,
        one_external_init::<E>(bundle),
        self_removal::<E>(bundle, applier.original_tree@),
    ) {
        (None, _, _) => r == Err::<Step, ProposalFilterError<E>>(
            ProposalFilterError::ExternalCommitMustHaveNewLeaf,
        ),
        (Some(_), Err(e), _) => r == Err::<Step, ProposalFilterError<E>>(e),
        (Some(_), Ok(_), Err(e)) => r == Err::<Step, ProposalFilterError<E>>(e),
        (Some(leaf), Ok(_), Ok(Some(existing))) => r matches Ok(Step::SelfRemoval(s))
            && s.external_leaf == leaf && s.existing == existing && s.proposals@ == bundle,
        (Some(leaf), Ok(_), Ok(None)) => asked_after_self_removal::<F, E>(
            r,
            applier,
            strategy,
            leaf,
            bundle,
        ),
    }
}

/// What is asked first in a commit.
pub open spec fn asked_first<F: FilterStrategy, E>(
    r: Result<Step, ProposalFilterError<E>>,
    applier: ProposalApplier<E>,
    strategy: F,
    commit_sender: Sender,
    bundle: BundleView,
) -> bool {
    match commit_sender {
        Sender::Member(i) => asked_of_member::<F, E>(
            r,
            applier,
            strategy,
            LeafIndex(i),
            bundle,
        ),
        Sender::NewMemberCommit => asked_of_newcomer::<F, E>(r, applier, strategy, bundle),
        Sender::External(_) | Sender::NewMemberProposal => r == Err::<
            Step,
            ProposalFilterError<E>,
        >(ProposalFilterError::ExternalSenderCannotCommit),
    }
}

// ---------------------------------------------------------------------------
// What is asked after an answer
// ---------------------------------------------------------------------------

/// Whether the proposal that was asked about is kept, and that the next one comes, or that
/// the commit fails.
pub open spec fn after_decision<E>(
    decided: Result<bool, ProposalFilterError<E>>,
    flags: Seq<bool>,
) -> Result<Seq<bool>, ProposalFilterError<E>> {
    match decided {
        Ok(keep) => Ok(flags.push(keep)),
        Err(e) => Err(e),
    }
}

/// The answer about the removal of an earlier self.
pub open spec fn self_removal_answered<F: FilterStrategy, E>(
    r: Result<Step, ProposalFilterError<E>>,
    applier: ProposalApplier<E>,
    strategy: F,
    step: SelfRemovalStep,
    answer: Result<bool, E>,
) -> bool {
    match successor_verdict(answer) {
        Err(e) => r == Err::<Step, ProposalFilterError<E>>(e),
        Ok(_) => asked_after_self_removal::<F, E>(
            r,
            applier,
            strategy,
            step.external_leaf,
            step.proposals@,
        ),
    }
}

/// The answer about the name of a pre-shared key.
pub open spec fn psk_answered<F: FilterStrategy, E>(
    r: Result<Step, ProposalFilterError<E>>,
    applier: ProposalApplier<E>,
    strategy: F,
    step: PskStep,
    answer: Result<(), E>,
) -> bool {
    match after_decision(
        psk_decision::<Governing<'_, F>, E>(
            governing(&strategy, step.committer),
            step.proposals@.psks,
            step.flags@.len() as int,
            applier.kdf_extract_size,
            answer,
        ),
        step.flags@,
    ) {
        Err(e) => r == Err::<Step, ProposalFilterError<E>>(e),
        Ok(flags) => psks_asked::<F, E>(
            r,
            applier,
            strategy,
            step.committer,
            step.proposals@,
            flags,
        ),
    }
}

/// The answer about the external senders of a change of extensions.
pub open spec fn external_senders_answered<F: FilterStrategy, E>(
    r: Result<Step, ProposalFilterError<E>>,
    applier: ProposalApplier<E>,
    strategy: F,
    step: ExternalSendersStep,
    answer: Result<Option<Result<(), E>>, E>,
) -> bool {
    match after_decision(
        strategy_applied(
            strategy,
            *step.proposals@.group_context_extensions[step.flags@.len() as int],
            external_senders_verdict(answer),
        ),
        step.flags@,
    ) {
        Err(e) => r == Err::<Step, ProposalFilterError<E>>(e),
        Ok(flags) => external_senders_asked::<F, E>(
            r,
            applier,
            strategy,
            step.commit_sender,
            step.proposals@,
            flags,
        ),
    }
}

/// The answer about the capabilities that new extensions require: they are tried, or do not
/// count, or make the commit fail.
pub open spec fn required_capabilities_answered<F: FilterStrategy, E>(
    r: Result<Step, ProposalFilterError<E>>,
    strategy: F,
    step: RequiredCapabilitiesStep,
    answer: Result<Option<RequiredCapabilitiesExt>, E>,
) -> bool {
    match answer {
        Ok(capabilities) => updates_asked::<F, E>(
            r,
            strategy,
            step.committer,
            PlanView::Trial { saved: step.proposals@, capabilities },
            step.proposals@,
            seq![],
        ),
        Err(e) => if governing(&strategy, step.committer).ignores(
            borrowed_info(&*step.proposals@.group_context_extensions[0]),
        ) {
            updates_asked::<F, E>(
                r,
                strategy,
                step.committer,
                PlanView::Original,
                without_group_context_extensions(step.proposals@),
                seq![],
            )
        } else {
            r == Err::<Step, ProposalFilterError<E>>(ProposalFilterError::ExtensionError(e))
        },
    }
}

/// The answer about the leaf of an update.
pub open spec fn update_leaf_answered<F: FilterStrategy, E>(
    r: Result<Step, ProposalFilterError<E>>,
    applier: ProposalApplier<E>,
    strategy: F,
    step: UpdateLeafStep,
    answer: Result<(), E>,
) -> bool {
    let info = *step.proposals@.updates[step.flags@.len() as int];
    match after_decision(
        decided(
            governing(&strategy, step.committer),
            info,
            update_node_verdict(info, step.plan.extensions(applier), answer),
        ),
        step.flags@,
    ) {
        Err(e) => r == Err::<Step, ProposalFilterError<E>>(e),
        Ok(flags) => updates_asked::<F, E>(
            r,
            strategy,
            step.committer,
            step.plan@,
            step.proposals@,
            flags,
        ),
    }
}

/// The answer about the key package of an addition.
pub open spec fn key_package_answered<F: FilterStrategy, E>(
    r: Result<Step, ProposalFilterError<E>>,
    applier: ProposalApplier<E>,
    strategy: F,
    step: KeyPackageStep,
    answer: Result<(), E>,
) -> bool {
    let info = *step.proposals@.additions[step.flags@.len() as int];
    match after_decision(
        strategy_applied(
            governing(&strategy, step.committer),
            info,
            key_package_verdict(info, step.plan.extensions(applier), answer),
        ),
        step.flags@,
    ) {
        Err(e) => r == Err::<Step, ProposalFilterError<E>>(e),
        Ok(flags) => key_packages_asked::<F, E>(
            r,
            strategy,
            step.committer,
            step.plan@,
            step.proposals@,
            flags,
        ),
    }
}

/// The answers about the capabilities of the members after a trial.
pub open spec fn leaf_checks_answered<F: FilterStrategy, E>(
    r: Result<Step, ProposalFilterError<E>>,
    applier: ProposalApplier<E>,
    strategy: F,
    step: LeafChecksStep,
    answers: Seq<Result<(), E>>,
) -> bool {
    asked_after_trial::<F, E>(
        r,
        applier,
        strategy,
        step.committer,
        step.saved@,
        step.state@,
        group_extensions_supported(
            step.saved@.group_context_extensions[0].proposal@,
            Some(step.capabilities),
            step.state@.tree,
            answers,
        ),
    )
}

/// The answer about the leaf of whoever joins.
pub open spec fn external_leaf_answered<F: FilterStrategy, E>(
    r: Result<Step, ProposalFilterError<E>>,
    strategy: F,
    step: ExternalLeafStep,
    answer: Result<(Leaves, Seq<LeafIndex>), RatchetTreeError<E>>,
) -> bool {
    match with_external_leaf(step.state@, answer) {
        Err(e) => r == Err::<Step, ProposalFilterError<E>>(e),
        Ok(state) => ends_in(r, custom_filtered::<F, E>(strategy, state)),
    }
}

} // verus!
