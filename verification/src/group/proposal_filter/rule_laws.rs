//! What each rule of commits refuses, said of the proposals and the answers about them.

use vstd::prelude::*;

use std::sync::Arc;

use crate::extension::{Extension, ExtensionList, ExtensionType, RequiredCapabilitiesExt};
use crate::group::proposal::{
    AddProposal, CustomProposal, ExternalInit, JustPreSharedKeyID, PreSharedKeyID,
    PreSharedKeyProposal, ProposalInfo, ProposalType, ProtocolVersion, ReInitProposal,
    RemoveProposal, UpdateProposal,
};
use crate::group::proposal_filter::accumulator::{edit_verdict, no_edits, outcome_of};
use crate::group::proposal_filter::bundle::{
    custom_types, picks, type_if_any, types_in, BundleView, Bundled,
};
use crate::group::proposal_filter::error::ProposalFilterError;
use crate::group::proposal_filter::external_commit::{
    first_disallowed, none_by_ref, one_external_init, only_allowed_types, self_removal,
    successor_verdict,
};
use crate::group::proposal_filter::filter_laws::{filters, screening_filters};
use crate::group::proposal_filter::filtering::{
    custom_verdicts, extension_support, extra_extensions_verdicts, first_unsupported,
    lone_reinit_verdicts, no_external_init_verdicts, only_reinit, reinit_version_verdicts,
    self_removal_verdicts, self_update_verdicts, supported_by, update_leaf,
};
use crate::group::proposal_filter::leaf_conflicts::{
    is_last_update, leaf_conflicts_filtered, removal_verdicts, removed_among, update_verdicts,
};
use crate::group::proposal_filter::outcome::{
    external_senders_answers, external_senders_verdicts, first_failure,
    group_extensions_supported, key_package_answers, key_package_verdicts, psk_answers,
    supported_by_all, tree_changed, trial_judged, update_leaf_answers, update_node_verdict,
    update_node_verdicts, update_sender_verdicts, with_external_leaf, ProposalApplier, Replies,
    TreeReplies,
};
use crate::group::proposal_filter::psk::{named_among, psk_verdicts};
use crate::group::proposal_filter::screening::{
    flagged_positions, screened, screening_keeps_valid, selection_keeps_order, Verdict,
};
use crate::group::proposal_filter::state::{
    after_edit, custom_filtered, outside, without, EditsView, StateView,
};
use crate::group::proposal_filter::strategy::FilterStrategy;
use crate::group::sender::Sender;
use crate::tree_kem::{support_is_of_each, LeafIndex, LeafNode, RatchetTreeError};

verus! {

// ---------------------------------------------------------------------------
// The committer, and leaves that would change twice
// ---------------------------------------------------------------------------

/// Of the updates, those that the committer sent are refused, and no others.
pub proof fn own_updates_are_refused<F: FilterStrategy, E>(
    strategy: F,
    committer: LeafIndex,
    bundle: BundleView,
)
    ensures
        filters::<F, UpdateProposal, E>(
            strategy,
            bundle,
            screened::<F, UpdateProposal, E>(
                strategy,
                bundle,
                self_update_verdicts(committer, bundle.updates),
            ),
            Seq::new(
                bundle.updates.len(),
                |i: int|
                    if bundle.updates[i].sender == Sender::Member(committer.0) {
                        Some(ProposalFilterError::InvalidCommitSelfUpdate)
                    } else {
                        None
                    },
            ),
        ),
{
    screening_filters::<F, UpdateProposal, E>(
        strategy,
        bundle,
        self_update_verdicts(committer, bundle.updates),
        Seq::new(
            bundle.updates.len(),
            |i: int|
                if bundle.updates[i].sender == Sender::Member(committer.0) {
                    Some(ProposalFilterError::InvalidCommitSelfUpdate)
                } else {
                    None
                },
        ),
    );
}

/// Of the removals, those of the committer's leaf are refused, whoever sent them, and no others.
pub proof fn removals_of_the_committer_are_refused<F: FilterStrategy, E>(
    strategy: F,
    committer: LeafIndex,
    bundle: BundleView,
)
    ensures
        filters::<F, RemoveProposal, E>(
            strategy,
            bundle,
            screened::<F, RemoveProposal, E>(
                strategy,
                bundle,
                self_removal_verdicts(committer, bundle.removals),
            ),
            Seq::new(
                bundle.removals.len(),
                |i: int|
                    if bundle.removals[i].proposal.to_remove.0 == committer.0 {
                        Some(ProposalFilterError::CommitterSelfRemoval)
                    } else {
                        None
                    },
            ),
        ),
{
    screening_filters::<F, RemoveProposal, E>(
        strategy,
        bundle,
        self_removal_verdicts(committer, bundle.removals),
        Seq::new(
            bundle.removals.len(),
            |i: int|
                if bundle.removals[i].proposal.to_remove.0 == committer.0 {
                    Some(ProposalFilterError::CommitterSelfRemoval)
                } else {
                    None
                },
        ),
    );
}

/// What is wrong with a removal: an earlier one removes the same leaf.
pub open spec fn removal_faults<E>(bundle: BundleView) -> Seq<Option<ProposalFilterError<E>>> {
    Seq::new(
        bundle.removals.len(),
        |i: int|
            if exists|j: int|
                0 <= j < i && (#[trigger] bundle.removals[j]).proposal.to_remove
                    == bundle.removals[i].proposal.to_remove {
                Some(
                    ProposalFilterError::MoreThanOneProposalForLeaf(
                        bundle.removals[i].proposal.to_remove.0,
                    ),
                )
            } else {
                None
            },
    )
}

/// What is wrong with a member's update: the same member sent a later one, or its leaf is to be
/// removed.
pub open spec fn update_faults<E>(bundle: BundleView) -> Seq<Option<ProposalFilterError<E>>> {
    Seq::new(
        bundle.updates.len(),
        |i: int|
            if bundle.updates[i].sender is Member && ((exists|j: int|
                i < j < bundle.updates.len() && (#[trigger] bundle.updates[j]).sender
                    == bundle.updates[i].sender) || (exists|j: int|
                0 <= j < bundle.removals.len() && Sender::Member(
                    (#[trigger] bundle.removals[j]).proposal.to_remove.0,
                ) == bundle.updates[i].sender)) {
                Some(
                    ProposalFilterError::MoreThanOneProposalForLeaf(
                        bundle.updates[i].sender->Member_0,
                    ),
                )
            } else {
                None
            },
    )
}

/// Of several removals of a leaf the first is kept; of several updates of a leaf the last, and
/// none if the leaf is to be removed. Removals are looked at first.
pub proof fn leaves_are_changed_by_one_proposal<F: FilterStrategy, E>(
    strategy: F,
    bundle: BundleView,
) -> (removals: Result<BundleView, ProposalFilterError<E>>)
    ensures
        filters::<F, RemoveProposal, E>(strategy, bundle, removals, removal_faults(bundle)),
        removals matches Err(e) ==> leaf_conflicts_filtered::<F, E>(strategy, bundle) == Err::<
            BundleView,
            ProposalFilterError<E>,
        >(e),
        removals matches Ok(b) ==> filters::<F, UpdateProposal, E>(
            strategy,
            b,
            leaf_conflicts_filtered::<F, E>(strategy, bundle),
            update_faults(bundle),
        ),
{
    let first = removal_verdicts::<E>(bundle.removals);
    assert forall|i: int| 0 <= i < bundle.removals.len() implies #[trigger] first[i]
        == Verdict::Judged(
        match removal_faults::<E>(bundle)[i] {
            None => Ok(()),
            Some(e) => Err(e),
        },
    ) by {
        let leaf = bundle.removals[i].proposal.to_remove;
        if removed_among(bundle.removals, i, leaf.0) {
            let j = choose|j: int|
                0 <= j < i && (#[trigger] bundle.removals[j]).proposal.to_remove.0 == leaf.0;
            assert(bundle.removals[j].proposal.to_remove == leaf);
        }
    }
    screening_filters::<F, RemoveProposal, E>(strategy, bundle, first, removal_faults(bundle));
    let second = update_verdicts::<E>(bundle.removals, bundle.updates);
    assert forall|i: int| 0 <= i < bundle.updates.len() implies #[trigger] second[i]
        == Verdict::Judged(
        match update_faults::<E>(bundle)[i] {
            None => Ok(()),
            Some(e) => Err(e),
        },
    ) by {
        if let Sender::Member(leaf) = bundle.updates[i].sender {
            if !is_last_update(bundle.updates, i, leaf) {
                let j = choose|j: int|
                    i < j < bundle.updates.len() && (#[trigger] bundle.updates[j]).sender
                        == Sender::Member(leaf);
                assert(bundle.updates[j].sender == bundle.updates[i].sender);
            }
            if removed_among(bundle.removals, bundle.removals.len() as int, leaf) {
                let j = choose|j: int|
                    0 <= j < bundle.removals.len() && (
                    #[trigger] bundle.removals[j]).proposal.to_remove.0 == leaf;
                assert(Sender::Member(bundle.removals[j].proposal.to_remove.0)
                    == bundle.updates[i].sender);
            }
        }
    }
    let removals = screened::<F, RemoveProposal, E>(strategy, bundle, first);
    if let Ok(b) = removals {
        screening_keeps_valid::<F, RemoveProposal, E>(strategy, bundle, first);
        assert(b.updates == bundle.updates);
        screening_filters::<F, UpdateProposal, E>(strategy, b, second, update_faults(bundle));
    }
    removals
}

// ---------------------------------------------------------------------------
// Extensions, new starts and initializations
// ---------------------------------------------------------------------------

/// Of several changes of the group context's extensions all but the first are refused.
pub proof fn later_changes_of_extensions_are_refused<F: FilterStrategy, E>(
    strategy: F,
    bundle: BundleView,
)
    ensures
        filters::<F, ExtensionList, E>(
            strategy,
            bundle,
            screened::<F, ExtensionList, E>(
                strategy,
                bundle,
                extra_extensions_verdicts(bundle.group_context_extensions),
            ),
            Seq::new(
                bundle.group_context_extensions.len(),
                |i: int|
                    if i > 0 {
                        Some(ProposalFilterError::MoreThanOneGroupContextExtensionsProposal)
                    } else {
                        None
                    },
            ),
        ),
{
    screening_filters::<F, ExtensionList, E>(
        strategy,
        bundle,
        extra_extensions_verdicts(bundle.group_context_extensions),
        Seq::new(
            bundle.group_context_extensions.len(),
            |i: int|
                if i > 0 {
                    Some(ProposalFilterError::MoreThanOneGroupContextExtensionsProposal)
                } else {
                    None
                },
        ),
    );
}

/// A new start is refused exactly if it goes back to an earlier version of the protocol.
pub proof fn earlier_versions_are_refused<F: FilterStrategy, E>(
    strategy: F,
    version: ProtocolVersion,
    bundle: BundleView,
)
    ensures
        filters::<F, ReInitProposal, E>(
            strategy,
            bundle,
            screened::<F, ReInitProposal, E>(
                strategy,
                bundle,
                reinit_version_verdicts(version, bundle.reinitializations),
            ),
            Seq::new(
                bundle.reinitializations.len(),
                |i: int|
                    if bundle.reinitializations[i].proposal.version.0 < version.0 {
                        Some(
                            ProposalFilterError::InvalidProtocolVersionInReInit {
                                proposed: bundle.reinitializations[i].proposal.version,
                                original: version,
                            },
                        )
                    } else {
                        None
                    },
            ),
        ),
{
    screening_filters::<F, ReInitProposal, E>(
        strategy,
        bundle,
        reinit_version_verdicts(version, bundle.reinitializations),
        Seq::new(
            bundle.reinitializations.len(),
            |i: int|
                if bundle.reinitializations[i].proposal.version.0 < version.0 {
                    Some(
                        ProposalFilterError::InvalidProtocolVersionInReInit {
                            proposed: bundle.reinitializations[i].proposal.version,
                            original: version,
                        },
                    )
                } else {
                    None
                },
        ),
    );
}

/// The bundle holds nothing but new starts of the group, and custom proposals of that type.
pub open spec fn holds_new_starts_only(bundle: BundleView) -> bool {
    &&& bundle.additions.len() == 0
    &&& bundle.updates.len() == 0
    &&& bundle.removals.len() == 0
    &&& bundle.psks.len() == 0
    &&& bundle.external_initializations.len() == 0
    &&& bundle.group_context_extensions.len() == 0
    &&& forall|i: int|
        0 <= i < bundle.custom_proposals.len() ==> (#[trigger] bundle.custom_proposals[
            i
        ]).proposal.proposal_type == ProposalType::ReInit
}

/// The types that occur in a bundle: those that the protocol defines, each once, in this order,
/// if there is a proposal of the kind; then the type of every custom proposal.
pub proof fn types_are_those_of_the_proposals(bundle: BundleView, t: ProposalType)
    ensures
        types_in(bundle).contains(t) <==> {
            ||| t is Add && bundle.additions.len() > 0
            ||| t is Update && bundle.updates.len() > 0
            ||| t is Remove && bundle.removals.len() > 0
            ||| t is Psk && bundle.psks.len() > 0
            ||| t is ReInit && bundle.reinitializations.len() > 0
            ||| t is ExternalInit && bundle.external_initializations.len() > 0
            ||| t is GroupContextExtensions && bundle.group_context_extensions.len() > 0
            ||| exists|i: int|
                0 <= i < bundle.custom_proposals.len() && (#[trigger] bundle.custom_proposals[
                    i
                ]).proposal.proposal_type == t
        },
{
    let a = type_if_any(bundle.additions, ProposalType::Add);
    let b = a + type_if_any(bundle.updates, ProposalType::Update);
    let c = b + type_if_any(bundle.removals, ProposalType::Remove);
    let d = c + type_if_any(bundle.psks, ProposalType::Psk);
    let e = d + type_if_any(bundle.reinitializations, ProposalType::ReInit);
    let f = e + type_if_any(bundle.external_initializations, ProposalType::ExternalInit);
    let g = f + type_if_any(
        bundle.group_context_extensions,
        ProposalType::GroupContextExtensions,
    );
    let all = types_in(bundle);
    assert(all == g + custom_types(bundle));
    if bundle.additions.len() > 0 {
        assert(all[0] == ProposalType::Add);
    }
    if bundle.updates.len() > 0 {
        assert(all[a.len() as int] == ProposalType::Update);
    }
    if bundle.removals.len() > 0 {
        assert(all[b.len() as int] == ProposalType::Remove);
    }
    if bundle.psks.len() > 0 {
        assert(all[c.len() as int] == ProposalType::Psk);
    }
    if bundle.reinitializations.len() > 0 {
        assert(all[d.len() as int] == ProposalType::ReInit);
    }
    if bundle.external_initializations.len() > 0 {
        assert(all[e.len() as int] == ProposalType::ExternalInit);
    }
    if bundle.group_context_extensions.len() > 0 {
        assert(all[f.len() as int] == ProposalType::GroupContextExtensions);
    }
    if exists|i: int|
        0 <= i < bundle.custom_proposals.len() && (#[trigger] bundle.custom_proposals[
            i
        ]).proposal.proposal_type == t {
        let i = choose|i: int|
            0 <= i < bundle.custom_proposals.len() && (#[trigger] bundle.custom_proposals[
                i
            ]).proposal.proposal_type == t;
        assert(all[g.len() + i] == t);
    }
    if all.contains(t) {
        let i = choose|i: int| 0 <= i < all.len() && all[i] == t;
        if i >= g.len() {
            assert(bundle.custom_proposals[i - g.len()].proposal.proposal_type == t);
        }
    }
}

/// A new start is refused if anything else is proposed, and if another was proposed before it.
pub proof fn accompanied_new_starts_are_refused<F: FilterStrategy, E>(
    strategy: F,
    bundle: BundleView,
)
    ensures
        filters::<F, ReInitProposal, E>(
            strategy,
            bundle,
            screened::<F, ReInitProposal, E>(
                strategy,
                bundle,
                lone_reinit_verdicts(only_reinit(bundle), bundle.reinitializations),
            ),
            Seq::new(
                bundle.reinitializations.len(),
                |i: int|
                    if i > 0 || !holds_new_starts_only(bundle) {
                        Some(ProposalFilterError::OtherProposalWithReInit)
                    } else {
                        None
                    },
            ),
        ),
{
    lemma_new_starts_only(bundle);
    screening_filters::<F, ReInitProposal, E>(
        strategy,
        bundle,
        lone_reinit_verdicts(only_reinit(bundle), bundle.reinitializations),
        Seq::new(
            bundle.reinitializations.len(),
            |i: int|
                if i > 0 || !holds_new_starts_only(bundle) {
                    Some(ProposalFilterError::OtherProposalWithReInit)
                } else {
                    None
                },
        ),
    );
}

proof fn lemma_new_starts_only(bundle: BundleView)
    ensures
        only_reinit(bundle) <==> holds_new_starts_only(bundle),
{
    let all = types_in(bundle);
    types_are_those_of_the_proposals(bundle, ProposalType::Add);
    types_are_those_of_the_proposals(bundle, ProposalType::Update);
    types_are_those_of_the_proposals(bundle, ProposalType::Remove);
    types_are_those_of_the_proposals(bundle, ProposalType::Psk);
    types_are_those_of_the_proposals(bundle, ProposalType::ExternalInit);
    types_are_those_of_the_proposals(bundle, ProposalType::GroupContextExtensions);
    if only_reinit(bundle) {
        assert forall|i: int| 0 <= i < bundle.custom_proposals.len() implies (
        #[trigger] bundle.custom_proposals[i]).proposal.proposal_type == ProposalType::ReInit by {
            let t = bundle.custom_proposals[i].proposal.proposal_type;
            types_are_those_of_the_proposals(bundle, t);
            let k = choose|k: int| 0 <= k < all.len() && all[k] == t;
            assert(all[k] == ProposalType::ReInit);
        }
    }
    if holds_new_starts_only(bundle) {
        assert forall|k: int| 0 <= k < all.len() implies all[k] == ProposalType::ReInit by {
            assert(all.contains(all[k]));
            types_are_those_of_the_proposals(bundle, all[k]);
        }
    }
}

/// In a member's commit every external initialization is refused.
pub proof fn members_do_not_initialize<F: FilterStrategy, E>(
    strategy: F,
    committer: LeafIndex,
    bundle: BundleView,
)
    ensures
        filters::<F, ExternalInit, E>(
            strategy,
            bundle,
            screened::<F, ExternalInit, E>(
                strategy,
                bundle,
                no_external_init_verdicts(committer, bundle.external_initializations),
            ),
            Seq::new(
                bundle.external_initializations.len(),
                |i: int|
                    Some(
                        ProposalFilterError::InvalidProposalTypeForSender {
                            proposal_type: ProposalType::ExternalInit,
                            sender: Sender::Member(committer.0),
                            by_ref: bundle.external_initializations[i].proposal_ref is Some,
                        },
                    ),
            ),
        ),
{
    screening_filters::<F, ExternalInit, E>(
        strategy,
        bundle,
        no_external_init_verdicts(committer, bundle.external_initializations),
        Seq::new(
            bundle.external_initializations.len(),
            |i: int|
                Some(
                    ProposalFilterError::InvalidProposalTypeForSender {
                        proposal_type: ProposalType::ExternalInit,
                        sender: Sender::Member(committer.0),
                        by_ref: bundle.external_initializations[i].proposal_ref is Some,
                    },
                ),
        ),
    );
}

/// A change of extensions is refused exactly if the external senders that it names cannot be
/// decoded or are not accepted; if it names none, it is not.
pub proof fn refused_external_senders_are_refused<F: FilterStrategy, E>(
    strategy: F,
    bundle: BundleView,
    replies: Replies<E>,
)
    ensures
        filters::<F, ExtensionList, E>(
            strategy,
            bundle,
            screened::<F, ExtensionList, E>(
                strategy,
                bundle,
                external_senders_verdicts(
                    bundle.group_context_extensions,
                    external_senders_answers(replies, bundle.group_context_extensions),
                ),
            ),
            external_senders_faults(bundle, replies),
        ),
{
    screening_filters::<F, ExtensionList, E>(
        strategy,
        bundle,
        external_senders_verdicts(
            bundle.group_context_extensions,
            external_senders_answers(replies, bundle.group_context_extensions),
        ),
        external_senders_faults(bundle, replies),
    );
}

/// What the answers about external senders find wrong with each change of extensions.
pub open spec fn external_senders_faults<E>(bundle: BundleView, replies: Replies<E>) -> Seq<
    Option<ProposalFilterError<E>>,
> {
    Seq::new(
        bundle.group_context_extensions.len(),
        |i: int|
            match (replies.external_senders)(i, bundle.group_context_extensions[i].proposal) {
                Err(e) => Some(ProposalFilterError::ExtensionError(e)),
                Ok(Some(Err(e))) => Some(ProposalFilterError::IdentityProviderError(e)),
                Ok(Some(Ok(_))) | Ok(None) => None,
            },
    )
}

// ---------------------------------------------------------------------------
// Pre-shared keys
// ---------------------------------------------------------------------------

/// Both name the same key, with the same nonce.
pub open spec fn same_key(a: PreSharedKeyID, b: PreSharedKeyID) -> bool {
    &&& a.psk_nonce@ == b.psk_nonce@
    &&& match (a.key_id, b.key_id) {
        (JustPreSharedKeyID::External(x), JustPreSharedKeyID::External(y)) => x@ == y@,
        (JustPreSharedKeyID::Resumption(x), JustPreSharedKeyID::Resumption(y)) => {
            &&& x.usage == y.usage
            &&& x.psk_group_id@ == y.psk_group_id@
            &&& x.psk_epoch == y.psk_epoch
        },
        _ => false,
    }
}

/// Names of keys are told apart by all that they say.
pub proof fn keys_are_told_apart(a: PreSharedKeyID, b: PreSharedKeyID)
    ensures
        a@ == b@ <==> same_key(a, b),
{
}

/// The key with this number was named before, with the same nonce.
pub open spec fn named_before(
    psks: Seq<Arc<ProposalInfo<PreSharedKeyProposal>>>,
    i: int,
) -> bool {
    exists|j: int| 0 <= j < i && same_key((#[trigger] psks[j]).proposal.psk, psks[i].proposal.psk)
}

/// What is wrong with each pre-shared key. A secret of another epoch is for the application,
/// a nonce is as long as what is extracted, a key is named once, and the validator knows the
/// name of a key from outside. What is said first here counts first.
pub open spec fn psk_faults<E>(
    psks: Seq<Arc<ProposalInfo<PreSharedKeyProposal>>>,
    kdf_extract_size: usize,
    replies: Replies<E>,
) -> Seq<Option<ProposalFilterError<E>>> {
    Seq::new(
        psks.len(),
        |i: int|
            {
                let psk = psks[i].proposal.psk;
                if psk.key_id is Resumption && psk.key_id->Resumption_0.usage !is Application {
                    Some(ProposalFilterError::InvalidTypeOrUsageInPreSharedKeyProposal)
                } else if psk.psk_nonce@.len() != kdf_extract_size {
                    Some(
                        ProposalFilterError::InvalidPskNonceLength {
                            expected: kdf_extract_size,
                            found: psk.psk_nonce@.len() as usize,
                        },
                    )
                } else if named_before(psks, i) {
                    Some(ProposalFilterError::DuplicatePskIds)
                } else if psk.key_id is External {
                    match (replies.psk_ids)(i, psk.key_id->External_0) {
                        Ok(_) => None,
                        Err(e) => Some(ProposalFilterError::PskIdValidationError(e)),
                    }
                } else {
                    None
                }
            },
    )
}

/// Pre-shared keys are filtered by what is wrong with them, and by nothing else.
pub proof fn faulty_psks_are_refused<F: FilterStrategy, E>(
    strategy: F,
    bundle: BundleView,
    kdf_extract_size: usize,
    replies: Replies<E>,
)
    ensures
        filters::<F, PreSharedKeyProposal, E>(
            strategy,
            bundle,
            screened::<F, PreSharedKeyProposal, E>(
                strategy,
                bundle,
                psk_verdicts(bundle.psks, kdf_extract_size, psk_answers(replies, bundle.psks)),
            ),
            psk_faults(bundle.psks, kdf_extract_size, replies),
        ),
{
    let psks = bundle.psks;
    let verdicts = psk_verdicts(psks, kdf_extract_size, psk_answers(replies, psks));
    let faults = psk_faults(psks, kdf_extract_size, replies);
    assert forall|i: int| 0 <= i < psks.len() implies #[trigger] verdicts[i] == Verdict::Judged(
        match faults[i] {
            None => Ok(()),
            Some(e) => Err(e),
        },
    ) by {
        lemma_named_before(psks, i);
    }
    screening_filters::<F, PreSharedKeyProposal, E>(strategy, bundle, verdicts, faults);
}

proof fn lemma_named_before(psks: Seq<Arc<ProposalInfo<PreSharedKeyProposal>>>, i: int)
    ensures
        named_before(psks, i) <==> named_among(psks, i, psks[i].proposal.psk),
{
    let psk = psks[i].proposal.psk;
    if named_before(psks, i) {
        let j = choose|j: int|
            0 <= j < i && same_key((#[trigger] psks[j]).proposal.psk, psks[i].proposal.psk);
        let earlier = psks[j].proposal.psk;
        keys_are_told_apart(earlier, psk);
    }
    if named_among(psks, i, psk) {
        let j = choose|j: int| 0 <= j < i && (#[trigger] psks[j]).proposal.psk@ == psk@;
        let earlier = psks[j].proposal.psk;
        keys_are_told_apart(earlier, psk);
    }
}

// ---------------------------------------------------------------------------
// Leaves
// ---------------------------------------------------------------------------

/// The leaf lists every one of these extensions that is not a default one.
pub open spec fn lists_all(leaf: LeafNode, extensions: Seq<Extension>) -> bool {
    forall|k: int|
        0 <= k < extensions.len() ==> (#[trigger] extensions[k]).is_default
            || leaf.capabilities.extensions@.contains(extensions[k].extension_type)
}

/// Extension `k` is the first that is neither a default one nor listed by the leaf.
pub open spec fn first_unlisted(leaf: LeafNode, extensions: Seq<Extension>, k: int) -> bool {
    &&& 0 <= k < extensions.len()
    &&& !extensions[k].is_default
    &&& !leaf.capabilities.extensions@.contains(extensions[k].extension_type)
    &&& lists_all(leaf, extensions.take(k))
}

proof fn lemma_first_unsupported(
    extensions: Seq<Extension>,
    supported: spec_fn(ExtensionType) -> bool,
    from: int,
)
    requires
        0 <= from <= extensions.len(),
    ensures
        match first_unsupported(extensions, supported, from) {
            None => forall|k: int|
                from <= k < extensions.len() ==> (#[trigger] extensions[k]).is_default || supported(
                    extensions[k].extension_type,
                ),
            Some(t) => exists|k: int|
                {
                    &&& from <= k < extensions.len()
                    &&& !(#[trigger] extensions[k]).is_default
                    &&& !supported(extensions[k].extension_type)
                    &&& t == extensions[k].extension_type
                    &&& forall|j: int|
                        from <= j < k ==> (#[trigger] extensions[j]).is_default || supported(
                            extensions[j].extension_type,
                        )
                },
        },
    decreases extensions.len() - from,
{
    if from < extensions.len() {
        if !extensions[from].is_default && !supported(extensions[from].extension_type) {
        } else {
            lemma_first_unsupported(extensions, supported, from + 1);
        }
    }
}

/// A leaf supports extensions exactly if it lists all that are not default ones; if not, the
/// first that it does not list is complained of.
pub proof fn leaves_support_what_they_list<E>(leaf: LeafNode, extensions: Seq<Extension>)
    ensures
        extension_support::<E>(extensions, supported_by(leaf)) is Ok <==> lists_all(
            leaf,
            extensions,
        ),
        extension_support::<E>(extensions, supported_by(leaf)) matches Err(e) ==> exists|k: int|
            #[trigger]
            first_unlisted(leaf, extensions, k)
                && e == ProposalFilterError::<E>::UnsupportedGroupExtension(
                extensions[k].extension_type,
            ),
{
    let supported = supported_by(leaf);
    lemma_first_unsupported(extensions, supported, 0);
    match first_unsupported(extensions, supported, 0) {
        None => {
            assert forall|k: int| 0 <= k < extensions.len() implies (
            #[trigger] extensions[k]).is_default || leaf.capabilities.extensions@.contains(
                extensions[k].extension_type,
            ) by {
                assert(extensions[k].is_default || supported(extensions[k].extension_type));
            }
        },
        Some(t) => {
            let k = choose|k: int|
                {
                    &&& 0 <= k < extensions.len()
                    &&& !(#[trigger] extensions[k]).is_default
                    &&& !supported(extensions[k].extension_type)
                    &&& t == extensions[k].extension_type
                    &&& forall|j: int|
                        0 <= j < k ==> (#[trigger] extensions[j]).is_default || supported(
                            extensions[j].extension_type,
                        )
                };
            let before = extensions.take(k);
            assert forall|j: int| 0 <= j < before.len() implies (#[trigger] before[j]).is_default
                || leaf.capabilities.extensions@.contains(before[j].extension_type) by {
                assert(extensions[j].is_default || supported(extensions[j].extension_type));
            }
            assert(first_unlisted(leaf, extensions, k));
        },
    }
}

/// Every leaf that is not blank lists all of these extensions that are not default ones.
pub open spec fn all_list_all(
    leaves: Seq<Option<Arc<LeafNode>>>,
    extensions: Seq<Extension>,
) -> bool {
    forall|i: int|
        0 <= i < leaves.len() ==> (#[trigger] leaves[i] matches Some(leaf) ==> lists_all(
            *leaf,
            extensions,
        ))
}

/// The members of a tree support extensions exactly if each lists all that are not default ones.
pub proof fn trees_support_what_all_list<E>(
    leaves: Seq<Option<Arc<LeafNode>>>,
    extensions: Seq<Extension>,
)
    ensures
        extension_support::<E>(extensions, supported_by_all(leaves)) is Ok <==> all_list_all(
            leaves,
            extensions,
        ),
        extension_support::<E>(extensions, supported_by_all(leaves)) matches Err(e) ==> exists|
            k: int,
            i: int,
        |
            {
                &&& 0 <= k < extensions.len()
                &&& 0 <= i < leaves.len()
                &&& !(#[trigger] extensions[k]).is_default
                &&& #[trigger] leaves[i] matches Some(leaf)
                    && !leaf.capabilities.extensions@.contains(extensions[k].extension_type)
                &&& e == ProposalFilterError::<E>::UnsupportedGroupExtension(
                    extensions[k].extension_type,
                )
                &&& all_list_all(leaves, extensions.take(k))
            },
{
    let supported = supported_by_all(leaves);
    lemma_first_unsupported(extensions, supported, 0);
    match first_unsupported(extensions, supported, 0) {
        None => {
            assert forall|i: int|
                0 <= i < leaves.len() && (#[trigger] leaves[i]) is Some implies lists_all(
                *leaves[i]->0,
                extensions,
            ) by {
                let leaf = leaves[i]->0;
                assert forall|k: int| 0 <= k < extensions.len() implies (
                #[trigger] extensions[k]).is_default || leaf.capabilities.extensions@.contains(
                    extensions[k].extension_type,
                ) by {
                    let t = extensions[k].extension_type;
                    assert(extensions[k].is_default || supported(t));
                    support_is_of_each(leaves, ProposalType::Add, t);
                }
            }
        },
        Some(t) => {
            let k = choose|k: int|
                {
                    &&& 0 <= k < extensions.len()
                    &&& !(#[trigger] extensions[k]).is_default
                    &&& !supported(extensions[k].extension_type)
                    &&& t == extensions[k].extension_type
                    &&& forall|j: int|
                        0 <= j < k ==> (#[trigger] extensions[j]).is_default || supported(
                            extensions[j].extension_type,
                        )
                };
            support_is_of_each(leaves, ProposalType::Add, t);
            let i = choose|i: int|
                0 <= i < leaves.len() && ((#[trigger] leaves[i]) matches Some(leaf)
                    && !leaf.capabilities.extensions@.contains(t));
            assert(leaves[i] is Some);
            assert(!lists_all(*leaves[i]->0, extensions)) by {
                assert(!extensions[k].is_default);
            }
            let before = extensions.take(k);
            assert forall|i: int|
                0 <= i < leaves.len() && (#[trigger] leaves[i]) is Some implies lists_all(
                *leaves[i]->0,
                before,
            ) by {
                let leaf = leaves[i]->0;
                assert forall|j: int| 0 <= j < before.len() implies (
                #[trigger] before[j]).is_default || leaf.capabilities.extensions@.contains(
                    before[j].extension_type,
                ) by {
                    let u = extensions[j].extension_type;
                    assert(extensions[j].is_default || supported(u));
                    support_is_of_each(leaves, ProposalType::Add, u);
                }
            }
        },
    }
}

/// What is wrong with a leaf: `answer` is what the validator says of it, and counts first;
/// then the first extension that it does not list.
pub open spec fn is_leaf_fault<E>(
    fault: Option<ProposalFilterError<E>>,
    refusal: Option<ProposalFilterError<E>>,
    leaf: LeafNode,
    extensions: Seq<Extension>,
) -> bool {
    if refusal is Some {
        fault == refusal
    } else if lists_all(leaf, extensions) {
        fault is None
    } else {
        exists|k: int| #[trigger]
            first_unlisted(leaf, extensions, k) && fault == Some(
                ProposalFilterError::<E>::UnsupportedGroupExtension(extensions[k].extension_type),
            )
    }
}

/// Updates of members are refused exactly if the validator refuses their leaf, asked about it
/// and about the leaf that their sender sits at, or if it does not list an extension in use.
pub proof fn invalid_updates_are_refused<F: FilterStrategy, E>(
    strategy: F,
    bundle: BundleView,
    extensions: Seq<Extension>,
    replies: TreeReplies<E>,
) -> (faults: Seq<Option<ProposalFilterError<E>>>)
    requires
        forall|i: int|
            0 <= i < bundle.updates.len() ==> (#[trigger] bundle.updates[i]).sender is Member,
    ensures
        filters::<F, UpdateProposal, E>(
            strategy,
            bundle,
            screened::<F, UpdateProposal, E>(
                strategy,
                bundle,
                update_node_verdicts(
                    bundle.updates,
                    extensions,
                    update_leaf_answers(replies, bundle.updates),
                ),
            ),
            faults,
        ),
        forall|i: int|
            0 <= i < bundle.updates.len() ==> is_leaf_fault(
                #[trigger] faults[i],
                match (replies.update_leaves)(
                    i,
                    LeafIndex(bundle.updates[i].sender->Member_0),
                    bundle.updates[i].proposal.leaf_node,
                ) {
                    Ok(_) => None,
                    Err(e) => Some(ProposalFilterError::LeafNodeValidationError(e)),
                },
                *bundle.updates[i].proposal.leaf_node,
                extensions,
            ),
{
    let items = bundle.updates;
    let verdicts = update_node_verdicts(
        items,
        extensions,
        update_leaf_answers(replies, items),
    );
    let faults = Seq::new(
        items.len(),
        |i: int|
            match verdicts[i] {
                Verdict::Judged(Err(e)) => Some(e),
                _ => None,
            },
    );
    assert forall|i: int| 0 <= i < items.len() implies {
        &&& #[trigger] verdicts[i] == Verdict::Judged(
            match faults[i] {
                None => Ok(()),
                Some(e) => Err(e),
            },
        )
        &&& is_leaf_fault(
            faults[i],
            match (replies.update_leaves)(
                i,
                LeafIndex(items[i].sender->Member_0),
                items[i].proposal.leaf_node,
            ) {
                Ok(_) => None,
                Err(e) => Some(ProposalFilterError::LeafNodeValidationError(e)),
            },
            *items[i].proposal.leaf_node,
            extensions,
        )
    } by {
        assert(items[i].sender is Member);
        leaves_support_what_they_list::<E>(*items[i].proposal.leaf_node, extensions);
    }
    screening_filters::<F, UpdateProposal, E>(strategy, bundle, verdicts, faults);
    assert forall|i: int| 0 <= i < bundle.updates.len() implies is_leaf_fault(
        #[trigger] faults[i],
        match (replies.update_leaves)(
            i,
            LeafIndex(bundle.updates[i].sender->Member_0),
            bundle.updates[i].proposal.leaf_node,
        ) {
            Ok(_) => None,
            Err(e) => Some(ProposalFilterError::LeafNodeValidationError(e)),
        },
        *bundle.updates[i].proposal.leaf_node,
        extensions,
    ) by {
        assert(verdicts[i] is Judged);
    }
    faults
}

/// Additions are refused exactly if the validator refuses their key package, or if its leaf
/// does not list an extension in use.
pub proof fn invalid_additions_are_refused<F: FilterStrategy, E>(
    strategy: F,
    bundle: BundleView,
    extensions: Seq<Extension>,
    replies: TreeReplies<E>,
) -> (faults: Seq<Option<ProposalFilterError<E>>>)
    ensures
        filters::<F, AddProposal, E>(
            strategy,
            bundle,
            screened::<F, AddProposal, E>(
                strategy,
                bundle,
                key_package_verdicts(
                    bundle.additions,
                    extensions,
                    key_package_answers(replies, bundle.additions),
                ),
            ),
            faults,
        ),
        forall|i: int|
            0 <= i < bundle.additions.len() ==> is_leaf_fault(
                #[trigger] faults[i],
                match (replies.key_packages)(i, bundle.additions[i].proposal.key_package) {
                    Ok(_) => None,
                    Err(e) => Some(ProposalFilterError::KeyPackageValidationError(e)),
                },
                *bundle.additions[i].proposal.key_package.leaf_node,
                extensions,
            ),
{
    let items = bundle.additions;
    let verdicts = key_package_verdicts(
        items,
        extensions,
        key_package_answers(replies, items),
    );
    let faults = Seq::new(
        items.len(),
        |i: int|
            match verdicts[i] {
                Verdict::Judged(Err(e)) => Some(e),
                _ => None,
            },
    );
    assert forall|i: int| 0 <= i < bundle.additions.len() implies is_leaf_fault(
        #[trigger] faults[i],
        match (replies.key_packages)(i, bundle.additions[i].proposal.key_package) {
            Ok(_) => None,
            Err(e) => Some(ProposalFilterError::KeyPackageValidationError(e)),
        },
        *bundle.additions[i].proposal.key_package.leaf_node,
        extensions,
    ) by {
        leaves_support_what_they_list::<E>(*items[i].proposal.key_package.leaf_node, extensions);
    }
    screening_filters::<F, AddProposal, E>(strategy, bundle, verdicts, faults);
    faults
}

/// Every leaf that is not blank lists proposals of this type.
pub open spec fn all_list_proposal(
    leaves: Seq<Option<Arc<LeafNode>>>,
    proposal_type: ProposalType,
) -> bool {
    forall|i: int|
        0 <= i < leaves.len() ==> (#[trigger] leaves[i] matches Some(leaf)
            ==> leaf.capabilities.proposals@.contains(proposal_type))
}

/// A custom proposal is refused exactly if some member of the tree does not list its type. What
/// is not a custom proposal is not touched.
pub proof fn unlisted_custom_proposals_are_refused<F: FilterStrategy, E>(
    strategy: F,
    state: StateView,
) -> (left: Result<BundleView, ProposalFilterError<E>>)
    ensures
        filters::<F, CustomProposal, E>(
            strategy,
            state.proposals,
            left,
            Seq::new(
                state.proposals.custom_proposals.len(),
                |i: int|
                    {
                        let t = state.proposals.custom_proposals[i].proposal.proposal_type;
                        if all_list_proposal(state.tree, t) {
                            None
                        } else {
                            Some(ProposalFilterError::UnsupportedCustomProposal(t))
                        }
                    },
            ),
        ),
        left matches Err(e) ==> custom_filtered::<F, E>(strategy, state) == Err::<
            StateView,
            ProposalFilterError<E>,
        >(e),
        left matches Ok(b) ==> (custom_filtered::<F, E>(strategy, state) matches Ok(s) && {
            &&& s.proposals == b
            &&& s.tree == state.tree
            &&& s.added_indexes == state.added_indexes
            &&& s.removed_leaves == state.removed_leaves
            &&& s.external_leaf_index == state.external_leaf_index
        }),
{
    let items = state.proposals.custom_proposals;
    let verdicts = custom_verdicts::<E>(state.tree, items);
    let faults = Seq::new(
        items.len(),
        |i: int|
            {
                let t = state.proposals.custom_proposals[i].proposal.proposal_type;
                if all_list_proposal(state.tree, t) {
                    None
                } else {
                    Some(ProposalFilterError::<E>::UnsupportedCustomProposal(t))
                }
            },
    );
    assert forall|i: int| 0 <= i < items.len() implies #[trigger] verdicts[i] == Verdict::Judged(
        match faults[i] {
            None => Ok(()),
            Some(e) => Err(e),
        },
    ) by {
        support_is_of_each(
            state.tree,
            items[i].proposal.proposal_type,
            ExtensionType(0),
        );
    }
    screening_filters::<F, CustomProposal, E>(strategy, state.proposals, verdicts, faults);
    screened::<F, CustomProposal, E>(strategy, state.proposals, verdicts)
}

/// The leaf that an update replaces is its sender's; there is none if no member sent it.
pub proof fn updates_replace_their_senders_leaf<E>(info: ProposalInfo<UpdateProposal>)
    ensures
        info.sender matches Sender::Member(i) ==> update_leaf::<E>(info) == Ok::<
            LeafIndex,
            ProposalFilterError<E>,
        >(LeafIndex(i)),
        info.sender !is Member ==> update_leaf::<E>(info) == Err::<
            LeafIndex,
            ProposalFilterError<E>,
        >(
            ProposalFilterError::InvalidProposalTypeForSender {
                proposal_type: ProposalType::Update,
                sender: info.sender,
                by_ref: info.proposal_ref is Some,
            },
        ),
{
}

// ---------------------------------------------------------------------------
// Commits by which somebody joins
// ---------------------------------------------------------------------------

/// Whoever joins initializes once: none is too few, two are too many.
pub proof fn newcomers_initialize_once<E>(bundle: BundleView)
    ensures
        one_external_init::<E>(bundle) is Ok <==> bundle.external_initializations.len() == 1,
        one_external_init::<E>(bundle) matches Err(e)
            ==> e is ExternalCommitMustHaveExactlyOneExternalInit,
{
}

/// Whoever joins commits nothing by reference, of whatever kind.
pub proof fn newcomers_commit_by_value<E>(bundle: BundleView)
    ensures
        none_by_ref::<E>(bundle) is Ok <==> {
            &&& forall|i: int|
                0 <= i < bundle.additions.len() ==> (#[trigger] bundle.additions[
                    i
                ]).proposal_ref is None
            &&& forall|i: int|
                0 <= i < bundle.updates.len() ==> (#[trigger] bundle.updates[
                    i
                ]).proposal_ref is None
            &&& forall|i: int|
                0 <= i < bundle.removals.len() ==> (#[trigger] bundle.removals[
                    i
                ]).proposal_ref is None
            &&& forall|i: int|
                0 <= i < bundle.psks.len() ==> (#[trigger] bundle.psks[i]).proposal_ref is None
            &&& forall|i: int|
                0 <= i < bundle.reinitializations.len() ==> (#[trigger] bundle.reinitializations[
                    i
                ]).proposal_ref is None
            &&& forall|i: int|
                0 <= i < bundle.external_initializations.len() ==> (
                #[trigger] bundle.external_initializations[i]).proposal_ref is None
            &&& forall|i: int|
                0 <= i < bundle.group_context_extensions.len() ==> (
                #[trigger] bundle.group_context_extensions[i]).proposal_ref is None
            &&& forall|i: int|
                0 <= i < bundle.custom_proposals.len() ==> (#[trigger] bundle.custom_proposals[
                    i
                ]).proposal_ref is None
        },
        none_by_ref::<E>(bundle) matches Err(e) ==> e is OnlyMembersCanCommitProposalsByRef,
{
}

/// The type may occur in a commit by which somebody joins.
pub open spec fn newcomers_may_commit(t: ProposalType) -> bool {
    t == ProposalType::ExternalInit || t == ProposalType::Remove || t == ProposalType::Psk
}

proof fn lemma_first_disallowed(types: Seq<ProposalType>, from: int)
    requires
        0 <= from <= types.len(),
    ensures
        match first_disallowed(types, from) {
            None => forall|i: int|
                from <= i < types.len() ==> newcomers_may_commit(#[trigger] types[i]),
            Some(t) => exists|i: int|
                {
                    &&& from <= i < types.len()
                    &&& #[trigger] types[i] == t
                    &&& !newcomers_may_commit(t)
                    &&& forall|j: int| from <= j < i ==> newcomers_may_commit(#[trigger] types[j])
                },
        },
    decreases types.len() - from,
{
    if from < types.len() && newcomers_may_commit(types[from]) {
        lemma_first_disallowed(types, from + 1);
    }
}

/// Whoever joins commits initializations, removals and pre-shared keys, and nothing else; a
/// custom proposal may claim one of these types. The first type that is not one of them is
/// complained of: of those that the protocol defines the first in its order, else the first
/// that a custom proposal claims.
pub proof fn newcomers_commit_few_types<E>(bundle: BundleView)
    ensures
        only_allowed_types::<E>(bundle) is Ok <==> {
            &&& bundle.additions.len() == 0
            &&& bundle.updates.len() == 0
            &&& bundle.reinitializations.len() == 0
            &&& bundle.group_context_extensions.len() == 0
            &&& forall|i: int|
                0 <= i < bundle.custom_proposals.len() ==> newcomers_may_commit(
                    (#[trigger] bundle.custom_proposals[i]).proposal.proposal_type,
                )
        },
        only_allowed_types::<E>(bundle) matches Err(e) ==> e
            == ProposalFilterError::<E>::InvalidProposalTypeInExternalCommit(
            if bundle.additions.len() > 0 {
                ProposalType::Add
            } else if bundle.updates.len() > 0 {
                ProposalType::Update
            } else if bundle.reinitializations.len() > 0 {
                ProposalType::ReInit
            } else if bundle.group_context_extensions.len() > 0 {
                ProposalType::GroupContextExtensions
            } else {
                e->InvalidProposalTypeInExternalCommit_0
            },
        ),
        (only_allowed_types::<E>(bundle) is Err && bundle.additions.len() == 0
            && bundle.updates.len() == 0 && bundle.reinitializations.len() == 0
            && bundle.group_context_extensions.len() == 0) ==> exists|i: int|
            {
                &&& 0 <= i < bundle.custom_proposals.len()
                &&& only_allowed_types::<E>(bundle) == Err::<(), ProposalFilterError<E>>(
                    ProposalFilterError::InvalidProposalTypeInExternalCommit(
                        (#[trigger] bundle.custom_proposals[i]).proposal.proposal_type,
                    ),
                )
                &&& !newcomers_may_commit(bundle.custom_proposals[i].proposal.proposal_type)
                &&& forall|j: int|
                    0 <= j < i ==> newcomers_may_commit(
                        (#[trigger] bundle.custom_proposals[j]).proposal.proposal_type,
                    )
            },
{
    let a = type_if_any(bundle.additions, ProposalType::Add);
    let b = a + type_if_any(bundle.updates, ProposalType::Update);
    let c = b + type_if_any(bundle.removals, ProposalType::Remove);
    let d = c + type_if_any(bundle.psks, ProposalType::Psk);
    let e = d + type_if_any(bundle.reinitializations, ProposalType::ReInit);
    let f = e + type_if_any(bundle.external_initializations, ProposalType::ExternalInit);
    let g = f + type_if_any(
        bundle.group_context_extensions,
        ProposalType::GroupContextExtensions,
    );
    let all = types_in(bundle);
    assert(all == g + custom_types(bundle));
    lemma_first_disallowed(all, 0);
    if bundle.additions.len() > 0 {
        assert(all[0] == ProposalType::Add);
    }
    if bundle.updates.len() > 0 {
        assert(all[a.len() as int] == ProposalType::Update);
    }
    if bundle.reinitializations.len() > 0 {
        assert(all[d.len() as int] == ProposalType::ReInit);
    }
    if bundle.group_context_extensions.len() > 0 {
        assert(all[f.len() as int] == ProposalType::GroupContextExtensions);
    }
    assert forall|i: int| 0 <= i < bundle.custom_proposals.len() implies all[g.len() + i] == (
    #[trigger] bundle.custom_proposals[i]).proposal.proposal_type by {
        assert(all[g.len() + i] == custom_types(bundle)[i]);
    }
    if let Some(t) = first_disallowed(all, 0) {
        let i = choose|i: int|
            {
                &&& 0 <= i < all.len()
                &&& #[trigger] all[i] == t
                &&& !newcomers_may_commit(t)
                &&& forall|j: int| 0 <= j < i ==> newcomers_may_commit(#[trigger] all[j])
            };
        if i >= g.len() {
            let k = i - g.len();
            assert(bundle.custom_proposals[k].proposal.proposal_type == t);
            assert forall|j: int| 0 <= j < k implies newcomers_may_commit(
                (#[trigger] bundle.custom_proposals[j]).proposal.proposal_type,
            ) by {
                assert(newcomers_may_commit(all[g.len() + j]));
            }
        }
    } else {
        assert forall|i: int| 0 <= i < bundle.custom_proposals.len() implies newcomers_may_commit(
            (#[trigger] bundle.custom_proposals[i]).proposal.proposal_type,
        ) by {
            assert(newcomers_may_commit(all[g.len() + i]));
        }
    }
}

/// Whoever joins removes at most one leaf. The member who sits there is asked about; it is an
/// error if nobody does. Without a removal nobody is asked about, and nothing is refused.
pub proof fn newcomers_remove_one_leaf<E>(
    bundle: BundleView,
    leaves: Seq<Option<Arc<LeafNode>>>,
)
    ensures
        bundle.removals.len() == 0 ==> (self_removal::<E>(bundle, leaves) matches Ok(found)
            && found is None),
        bundle.removals.len() > 1 ==> (self_removal::<E>(bundle, leaves) matches Err(e)
            && e is ExternalCommitWithMoreThanOneRemove),
        bundle.removals.len() == 1 ==> {
            let index = bundle.removals[0].proposal.to_remove;
            if index.0 < leaves.len() && leaves[index.0 as int] is Some {
                self_removal::<E>(bundle, leaves) matches Ok(found) && found
                    == leaves[index.0 as int]
            } else {
                self_removal::<E>(bundle, leaves) == Err::<
                    Option<Arc<LeafNode>>,
                    ProposalFilterError<E>,
                >(ProposalFilterError::RatchetTreeError(RatchetTreeError::LeafNotFound(index)))
            }
        },
{
}

/// Whoever joins may remove a leaf exactly if the identity provider says that it succeeds its
/// member; that it does not, and that this cannot be said, are different errors.
pub proof fn newcomers_succeed_whom_they_remove<E>(e: E)
    ensures
        successor_verdict::<E>(Ok(true)) is Ok,
        successor_verdict::<E>(Ok(false)) matches Err(f) && f is ExternalCommitRemovesOtherIdentity,
        successor_verdict::<E>(Err(e)) == Err::<(), ProposalFilterError<E>>(
            ProposalFilterError::RatchetTreeError(RatchetTreeError::CredentialValidationError(e)),
        ),
{
}

// ---------------------------------------------------------------------------
// Edits of the tree
// ---------------------------------------------------------------------------

/// The items are those of `from` whose position the set does not hold, in order.
pub open spec fn is_rest<T>(items: Seq<T>, from: Seq<T>, set: Set<usize>) -> bool {
    exists|positions: Seq<int>|
        {
            &&& #[trigger] picks(items, from, positions)
            &&& forall|i: usize|
                i < from.len() ==> (positions.contains(i as int) <==> !#[trigger] set.contains(i))
        }
}

proof fn lemma_is_rest<T>(from: Seq<T>, set: Set<usize>)
    ensures
        is_rest(without(from, set), from, set),
{
    let flags = outside(set, from.len());
    let n = from.len() as int;
    let positions = flagged_positions(flags, n);
    selection_keeps_order(from, flags, n);
    assert forall|i: usize| i < from.len() implies (positions.contains(i as int)
        <==> !#[trigger] set.contains(i)) by {
        assert(flags[i as int] == !set.contains(i));
        if positions.contains(i as int) {
            let k = choose|k: int| 0 <= k < positions.len() && positions[k] == i as int;
            assert(flags[positions[k]]);
        }
    }
    assert(picks(without(from, set), from, positions));
}

/// An edit of the tree drops exactly the additions, removals and updates that were not possible,
/// and nothing else; the state has the tree, the new leaves and the removed ones that it gave.
pub proof fn edits_drop_what_was_not_possible(
    bundle: BundleView,
    tree: Seq<Option<Arc<LeafNode>>>,
    edits: EditsView,
)
    ensures
        ({
            let state = after_edit(bundle, tree, edits);
            &&& state.tree == tree
            &&& state.added_indexes == edits.new_leaf_indexes
            &&& state.removed_leaves == edits.removed_leaves
            &&& state.external_leaf_index is None
            &&& is_rest(state.proposals.additions, bundle.additions, edits.invalid_additions)
            &&& is_rest(state.proposals.removals, bundle.removals, edits.invalid_removals)
            &&& is_rest(state.proposals.updates, bundle.updates, edits.invalid_updates)
            &&& state.proposals == (BundleView {
                additions: state.proposals.additions,
                removals: state.proposals.removals,
                updates: state.proposals.updates,
                ..bundle
            })
        }),
{
    lemma_is_rest(bundle.additions, edits.invalid_additions);
    lemma_is_rest(bundle.removals, edits.invalid_removals);
    lemma_is_rest(bundle.updates, edits.invalid_updates);
}

/// An edit goes on exactly if a change was possible, or if the strategy ignores the proposal that
/// asked for it; if it does not, it stops with the reason for which the change was not possible.
pub proof fn edits_stop_at_what_is_not_ignored<F: FilterStrategy, P: Bundled, E>(
    strategy: F,
    items: Seq<Arc<ProposalInfo<P>>>,
    index: int,
    e: RatchetTreeError<E>,
)
    ensures
        edit_verdict::<F, P, E>(strategy, items, index, Ok(())) is Ok,
        edit_verdict::<F, P, E>(strategy, items, index, Err(e)) is Ok <==> strategy.ignores(
            ProposalInfo {
                proposal: items[index].proposal.borrowed(),
                sender: items[index].sender,
                proposal_ref: items[index].proposal_ref,
            },
        ),
        edit_verdict::<F, P, E>(strategy, items, index, Err(e)) matches Err(f) ==> f == e,
{
}

/// An edit of which nothing was told yet added and removed nothing, and nothing was impossible.
pub proof fn edits_start_with_nothing()
    ensures
        no_edits().new_leaf_indexes.len() == 0,
        no_edits().removed_leaves.len() == 0,
        forall|i: usize| !#[trigger] no_edits().invalid_additions.contains(i),
        forall|i: usize| !#[trigger] no_edits().invalid_removals.contains(i),
        forall|i: usize| !#[trigger] no_edits().invalid_updates.contains(i),
{
}

/// Once the leaf of whoever joins was added, the tree is the one with it, and the leaf sits at
/// the first of the places that were given; nothing else changes, whatever was removed before.
/// Why it could not be added is why the commit fails.
pub proof fn the_new_leaf_is_taken_as_it_is<E>(
    state: StateView,
    tree: Seq<Option<Arc<LeafNode>>>,
    indexes: Seq<LeafIndex>,
    e: RatchetTreeError<E>,
)
    ensures
        with_external_leaf::<E>(state, Ok((tree, indexes))) matches Ok(s) && {
            &&& s.tree == tree
            &&& indexes.len() > 0 ==> s.external_leaf_index == Some(indexes[0])
            &&& indexes.len() == 0 ==> s.external_leaf_index is None
            &&& s.proposals == state.proposals
            &&& s.added_indexes == state.added_indexes
            &&& s.removed_leaves == state.removed_leaves
        },
        with_external_leaf::<E>(state, Err(e)) == Err::<StateView, ProposalFilterError<E>>(
            ProposalFilterError::RatchetTreeError(e),
        ),
{
}

// ---------------------------------------------------------------------------
// Trials of new extensions
// ---------------------------------------------------------------------------

/// New extensions are supported exactly if no member was refused, where capabilities are required
/// anew, and every member lists them. The first refusal counts most.
pub proof fn new_extensions_need_all_members<E>(
    extensions: Seq<Extension>,
    capabilities: Option<RequiredCapabilitiesExt>,
    tree: Seq<Option<Arc<LeafNode>>>,
    checks: Seq<Result<(), E>>,
)
    ensures
        ({
            let r = group_extensions_supported(extensions, capabilities, tree, checks);
            let refused = capabilities is Some && exists|i: int|
                0 <= i < checks.len() && #[trigger] checks[i] is Err;
            &&& r is Ok <==> !refused && all_list_all(tree, extensions)
            &&& refused ==> exists|i: int|
                {
                    &&& 0 <= i < checks.len()
                    &&& #[trigger] checks[i] matches Err(e) && r == Err::<
                        (),
                        ProposalFilterError<E>,
                    >(ProposalFilterError::LeafNodeValidationError(e))
                    &&& forall|j: int| 0 <= j < i ==> #[trigger] checks[j] is Ok
                }
            &&& !refused && r is Err ==> exists|k: int|
                {
                    &&& 0 <= k < extensions.len()
                    &&& !(#[trigger] extensions[k]).is_default
                    &&& r == Err::<(), ProposalFilterError<E>>(
                        ProposalFilterError::UnsupportedGroupExtension(
                            extensions[k].extension_type,
                        ),
                    )
                    &&& all_list_all(tree, extensions.take(k))
                    &&& !all_list_all(tree, extensions.take(k + 1))
                }
        }),
{
    trees_support_what_all_list::<E>(tree, extensions);
    the_first_failure_counts(checks, 0);
    let r = group_extensions_supported(extensions, capabilities, tree, checks);
    let refused = capabilities is Some && exists|i: int|
        0 <= i < checks.len() && #[trigger] checks[i] is Err;
    if !refused && r is Err {
        let e = r->Err_0;
        let (k, i) = choose|k: int, i: int|
            {
                &&& 0 <= k < extensions.len()
                &&& 0 <= i < tree.len()
                &&& !(#[trigger] extensions[k]).is_default
                &&& #[trigger] tree[i] matches Some(leaf)
                    && !leaf.capabilities.extensions@.contains(extensions[k].extension_type)
                &&& e == ProposalFilterError::<E>::UnsupportedGroupExtension(
                    extensions[k].extension_type,
                )
                &&& all_list_all(tree, extensions.take(k))
            };
        assert(!lists_all(*tree[i]->0, extensions.take(k + 1))) by {
            assert(extensions.take(k + 1)[k] == extensions[k]);
        }
    }
}

/// A failure that is found is that of a check, and none before it failed; if none is found, no
/// check failed.
pub proof fn the_first_failure_counts<E>(checks: Seq<Result<(), E>>, from: int)
    requires
        0 <= from <= checks.len(),
    ensures
        match first_failure(checks, from) {
            Some(e) => exists|i: int|
                {
                    &&& from <= i < checks.len()
                    &&& #[trigger] checks[i] == Err::<(), E>(e)
                    &&& forall|j: int| from <= j < i ==> #[trigger] checks[j] is Ok
                },
            None => forall|i: int| from <= i < checks.len() ==> #[trigger] checks[i] is Ok,
        },
    decreases checks.len() - from,
{
    if from < checks.len() && checks[from] is Ok {
        the_first_failure_counts(checks, from + 1);
    }
}

/// A trial stands if the new extensions are supported. If they are not, their fault makes the
/// commit fail, unless the strategy ignores the change; then the change is gone, and so is every
/// change of extensions, and the proposals have been applied without it: as in the trial, if the
/// group has neither extensions nor required capabilities, and else under those.
pub proof fn trials_stand_or_are_made_anew<F: FilterStrategy, E>(
    applier: ProposalApplier<E>,
    strategy: F,
    saved: BundleView,
    state: StateView,
    e: ProposalFilterError<E>,
    replies: TreeReplies<E>,
)
    ensures
        ({
            let first = saved.group_context_extensions[0];
            let ignored = strategy.ignores(
                ProposalInfo {
                    proposal: first.proposal.borrowed(),
                    sender: first.sender,
                    proposal_ref: first.proposal_ref,
                },
            );
            let judged = trial_judged::<F, E>(applier, strategy, saved, state, Err(e), replies);
            let none = Seq::<Arc<ProposalInfo<ExtensionList>>>::empty();
            &&& trial_judged::<F, E>(applier, strategy, saved, state, Ok(()), replies) == Ok::<
                StateView,
                ProposalFilterError<E>,
            >(state)
            &&& !ignored ==> judged == Err::<StateView, ProposalFilterError<E>>(e)
            &&& ignored && applier.original_required_capabilities is None
                && applier.original_group_extensions.0@.len() == 0 ==> judged == Ok::<
                StateView,
                ProposalFilterError<E>,
            >(
                StateView {
                    proposals: BundleView { group_context_extensions: none, ..state.proposals },
                    ..state
                },
            )
            &&& ignored && (applier.original_required_capabilities is Some
                || applier.original_group_extensions.0@.len() > 0) ==> judged == tree_changed::<
                F,
                E,
            >(
                strategy,
                BundleView { group_context_extensions: none, ..saved },
                applier.original_group_extensions.0@,
                replies,
            )
        }),
{
}

/// An update that no member sent makes the commit fail when its leaf is looked at, whatever the
/// strategy; where the tree is edited it is at fault as any other proposal may be.
pub proof fn updates_need_a_member<F: FilterStrategy, E>(
    strategy: F,
    bundle: BundleView,
    info: ProposalInfo<UpdateProposal>,
    extensions: Seq<Extension>,
    reply: Result<(), E>,
)
    ensures
        info.sender !is Member ==> update_node_verdict::<E>(info, extensions, reply)
            == Verdict::<E>::Fatal(
            ProposalFilterError::InvalidProposalTypeForSender {
                proposal_type: ProposalType::Update,
                sender: info.sender,
                by_ref: info.proposal_ref is Some,
            },
        ),
        info.sender is Member ==> update_node_verdict::<E>(info, extensions, reply) is Judged,
        filters::<F, UpdateProposal, E>(
            strategy,
            bundle,
            screened::<F, UpdateProposal, E>(
                strategy,
                bundle,
                update_sender_verdicts(bundle.updates),
            ),
            Seq::new(
                bundle.updates.len(),
                |i: int|
                    if bundle.updates[i].sender is Member {
                        None
                    } else {
                        Some(
                            ProposalFilterError::InvalidProposalTypeForSender {
                                proposal_type: ProposalType::Update,
                                sender: bundle.updates[i].sender,
                                by_ref: bundle.updates[i].proposal_ref is Some,
                            },
                        )
                    },
            ),
        ),
{
    screening_filters::<F, UpdateProposal, E>(
        strategy,
        bundle,
        update_sender_verdicts(bundle.updates),
        Seq::new(
            bundle.updates.len(),
            |i: int|
                if bundle.updates[i].sender is Member {
                    None
                } else {
                    Some(
                        ProposalFilterError::InvalidProposalTypeForSender {
                            proposal_type: ProposalType::Update,
                            sender: bundle.updates[i].sender,
                            by_ref: bundle.updates[i].proposal_ref is Some,
                        },
                    )
                },
        ),
    );
}

/// Whether a change of the tree happened is whether it was reported to.
pub proof fn changes_happen_as_reported<T, X>(made: T, e: X)
    ensures
        outcome_of::<T, X>(Ok(made)) == Ok::<(), X>(()),
        outcome_of::<T, X>(Err(e)) == Err::<(), X>(e),
{
}

/// How many of the kinds that the protocol defines, and that come before this type, occur.
#[verifier::opaque]
pub open spec fn kinds_before(bundle: BundleView, t: ProposalType) -> int {
    let a: int = if bundle.additions.len() > 0 {
        1
    } else {
        0
    };
    let b: int = a + if bundle.updates.len() > 0 {
        1int
    } else {
        0
    };
    let c: int = b + if bundle.removals.len() > 0 {
        1int
    } else {
        0
    };
    let d: int = c + if bundle.psks.len() > 0 {
        1int
    } else {
        0
    };
    let e: int = d + if bundle.reinitializations.len() > 0 {
        1int
    } else {
        0
    };
    let f: int = e + if bundle.external_initializations.len() > 0 {
        1int
    } else {
        0
    };
    let g: int = f + if bundle.group_context_extensions.len() > 0 {
        1int
    } else {
        0
    };
    match t {
        ProposalType::Add => 0,
        ProposalType::Update => a,
        ProposalType::Remove => b,
        ProposalType::Psk => c,
        ProposalType::ReInit => d,
        ProposalType::ExternalInit => e,
        ProposalType::GroupContextExtensions => f,
        ProposalType::Custom(_) => g,
    }
}

/// The types that occur in a bundle come in the order in which the protocol defines them, each
/// once, and then those of the custom proposals, one for each, in their order.
pub proof fn types_come_in_order(bundle: BundleView, code: u16)
    ensures
        ({
            let all = types_in(bundle);
            let n = kinds_before(bundle, ProposalType::Custom(code));
            &&& all.len() == n + bundle.custom_proposals.len()
            &&& bundle.additions.len() > 0 ==> all[kinds_before(bundle, ProposalType::Add)]
                == ProposalType::Add
            &&& bundle.updates.len() > 0 ==> all[kinds_before(bundle, ProposalType::Update)]
                == ProposalType::Update
            &&& bundle.removals.len() > 0 ==> all[kinds_before(bundle, ProposalType::Remove)]
                == ProposalType::Remove
            &&& bundle.psks.len() > 0 ==> all[kinds_before(bundle, ProposalType::Psk)]
                == ProposalType::Psk
            &&& bundle.reinitializations.len() > 0 ==> all[kinds_before(
                bundle,
                ProposalType::ReInit,
            )] == ProposalType::ReInit
            &&& bundle.external_initializations.len() > 0 ==> all[kinds_before(
                bundle,
                ProposalType::ExternalInit,
            )] == ProposalType::ExternalInit
            &&& bundle.group_context_extensions.len() > 0 ==> all[kinds_before(
                bundle,
                ProposalType::GroupContextExtensions,
            )] == ProposalType::GroupContextExtensions
            &&& forall|i: int|
                0 <= i < bundle.custom_proposals.len() ==> all[n + i] == (
                #[trigger] bundle.custom_proposals[i]).proposal.proposal_type
        }),
{
    let a = type_if_any(bundle.additions, ProposalType::Add);
    let b = a + type_if_any(bundle.updates, ProposalType::Update);
    let c = b + type_if_any(bundle.removals, ProposalType::Remove);
    let d = c + type_if_any(bundle.psks, ProposalType::Psk);
    let e = d + type_if_any(bundle.reinitializations, ProposalType::ReInit);
    let f = e + type_if_any(bundle.external_initializations, ProposalType::ExternalInit);
    let g = f + type_if_any(
        bundle.group_context_extensions,
        ProposalType::GroupContextExtensions,
    );
    let all = types_in(bundle);
    let n = kinds_before(bundle, ProposalType::Custom(code));
    assert(all == g + custom_types(bundle));
    reveal(kinds_before);
    assert(a.len() == kinds_before(bundle, ProposalType::Update));
    assert(b.len() == kinds_before(bundle, ProposalType::Remove));
    assert(c.len() == kinds_before(bundle, ProposalType::Psk));
    assert(d.len() == kinds_before(bundle, ProposalType::ReInit));
    assert(e.len() == kinds_before(bundle, ProposalType::ExternalInit));
    assert(f.len() == kinds_before(bundle, ProposalType::GroupContextExtensions));
    assert(g.len() == n);
    if bundle.additions.len() > 0 {
        assert(all[0] == ProposalType::Add);
    }
    if bundle.updates.len() > 0 {
        assert(all[a.len() as int] == ProposalType::Update);
    }
    if bundle.removals.len() > 0 {
        assert(all[b.len() as int] == ProposalType::Remove);
    }
    if bundle.psks.len() > 0 {
        assert(all[c.len() as int] == ProposalType::Psk);
    }
    if bundle.reinitializations.len() > 0 {
        assert(all[d.len() as int] == ProposalType::ReInit);
    }
    if bundle.external_initializations.len() > 0 {
        assert(all[e.len() as int] == ProposalType::ExternalInit);
    }
    if bundle.group_context_extensions.len() > 0 {
        assert(all[f.len() as int] == ProposalType::GroupContextExtensions);
    }
    assert forall|i: int| 0 <= i < bundle.custom_proposals.len() implies all[n + i] == (
    #[trigger] bundle.custom_proposals[i]).proposal.proposal_type by {
        assert(all[n + i] == custom_types(bundle)[i]);
    }
}

} // verus!
