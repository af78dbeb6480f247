//! In what order the rules of a commit are held against it, and what it comes to.

use vstd::prelude::*;

use std::sync::Arc;

use crate::extension::{Extension, ExtensionList};
use crate::group::proposal::{
    AddProposal, ExternalInit, PreSharedKeyProposal, ProposalInfo, ProposalType, ReInitProposal,
    RemoveProposal, UpdateProposal,
};
use crate::group::proposal_filter::bundle::{
    without_group_context_extensions, BundleView, Bundled, Proposable,
};
use crate::group::proposal_filter::error::ProposalFilterError;
use crate::group::proposal_filter::external_commit::{none_by_ref, only_allowed_types, self_removal};
use crate::group::proposal_filter::filter_laws::{
    filtered, filters, first_to_fail, not_ignored, wrongly_sent_is_filtered_out,
};
use crate::group::proposal_filter::filtering::{
    extra_extensions_verdicts, lone_reinit_verdicts, no_external_init_verdicts, only_reinit,
    proposers_filtered, proposers_screened, reinit_version_verdicts, self_removal_verdicts,
    self_update_verdicts, usable_senders,
};
use crate::group::proposal_filter::leaf_conflicts::leaf_conflicts_filtered;
use crate::group::proposal_filter::outcome::{
    after_self_removal, applied, changed, changed_and_concluded, external_senders_answers,
    external_senders_verdicts, from_external_senders, from_psks, governing,
    group_extensions_supported, key_package_answers, key_package_verdicts, leaf_check_answers,
    member_filtered_early, member_filtered_late, new_member_filtered, psk_answers, tree_changed,
    trial_judged, update_leaf_answers, update_node_verdicts, update_sender_verdicts,
    with_external_leaf, Committer, Governing, ProposalApplier, Replies, TreeReplies,
};
use crate::group::proposal_filter::acceptance_laws::valid_proposals_stay;
use crate::group::proposal_filter::psk::psk_verdicts;
use crate::group::proposal_filter::rule_laws::{
    accompanied_new_starts_are_refused, earlier_versions_are_refused, external_senders_faults,
    faulty_psks_are_refused, holds_new_starts_only, invalid_additions_are_refused,
    invalid_updates_are_refused, is_leaf_fault, later_changes_of_extensions_are_refused,
    leaves_are_changed_by_one_proposal, members_do_not_initialize, own_updates_are_refused,
    psk_faults, refused_external_senders_are_refused, removal_faults,
    removals_of_the_committer_are_refused, update_faults,
};
use crate::group::proposal_filter::screening::{nothing_wrong, screened, screening_keeps_valid};
use crate::group::proposal_filter::state::{after_edit, custom_filtered, StateView};
use crate::group::proposal_filter::strategy::{FailInvalidProposal, FilterStrategy};
use crate::group::proposal_filter::validity_laws::{listed_by, sender_faults};
use crate::group::sender::Sender;
use crate::tree_kem::{members, LeafIndex, LeafNode};

verus! {

// ---------------------------------------------------------------------------
// One filter after the other
// ---------------------------------------------------------------------------

/// `after` is what a filter makes of what one before it left; if that failed, it is its error.
pub open spec fn leads_on<F: FilterStrategy, P: Bundled, E>(
    strategy: F,
    before: Result<BundleView, ProposalFilterError<E>>,
    after: Result<BundleView, ProposalFilterError<E>>,
    faults: Seq<Option<ProposalFilterError<E>>>,
) -> bool {
    match before {
        Err(e) => after == Err::<BundleView, ProposalFilterError<E>>(e),
        Ok(bundle) => filters::<F, P, E>(strategy, bundle, after, faults),
    }
}

/// The updates that the committer sent are at fault.
pub open spec fn own_update_faults<E>(committer: LeafIndex, bundle: BundleView) -> Seq<
    Option<ProposalFilterError<E>>,
> {
    Seq::new(
        bundle.updates.len(),
        |i: int|
            if bundle.updates[i].sender == Sender::Member(committer.0) {
                Some(ProposalFilterError::InvalidCommitSelfUpdate)
            } else {
                None
            },
    )
}

/// The removals of the committer are at fault.
pub open spec fn own_removal_faults<E>(committer: LeafIndex, bundle: BundleView) -> Seq<
    Option<ProposalFilterError<E>>,
> {
    Seq::new(
        bundle.removals.len(),
        |i: int|
            if bundle.removals[i].proposal.to_remove.0 == committer.0 {
                Some(ProposalFilterError::CommitterSelfRemoval)
            } else {
                None
            },
    )
}

/// All changes of extensions but the first are at fault.
pub open spec fn later_change_faults<E>(bundle: BundleView) -> Seq<Option<ProposalFilterError<E>>> {
    Seq::new(
        bundle.group_context_extensions.len(),
        |i: int|
            if i > 0 {
                Some(ProposalFilterError::MoreThanOneGroupContextExtensionsProposal)
            } else {
                None
            },
    )
}

/// New starts under an earlier version of the protocol are at fault.
pub open spec fn version_faults<E>(applier: ProposalApplier<E>, bundle: BundleView) -> Seq<
    Option<ProposalFilterError<E>>,
> {
    Seq::new(
        bundle.reinitializations.len(),
        |i: int|
            if bundle.reinitializations[i].proposal.version.0 < applier.protocol_version.0 {
                Some(
                    ProposalFilterError::InvalidProtocolVersionInReInit {
                        proposed: bundle.reinitializations[i].proposal.version,
                        original: applier.protocol_version,
                    },
                )
            } else {
                None
            },
    )
}

/// New starts that are not alone are at fault.
pub open spec fn company_faults<E>(bundle: BundleView) -> Seq<Option<ProposalFilterError<E>>> {
    Seq::new(
        bundle.reinitializations.len(),
        |i: int|
            if i > 0 || !holds_new_starts_only(bundle) {
                Some(ProposalFilterError::OtherProposalWithReInit)
            } else {
                None
            },
    )
}

/// All external initializations are at fault.
pub open spec fn initialization_faults<E>(committer: LeafIndex, bundle: BundleView) -> Seq<
    Option<ProposalFilterError<E>>,
> {
    Seq::new(
        bundle.external_initializations.len(),
        |i: int|
            Some(
                ProposalFilterError::InvalidProposalTypeForSender {
                    proposal_type: ProposalType::ExternalInit,
                    sender: Sender::Member(committer.0),
                    by_ref: bundle.external_initializations[i].proposal_ref is Some,
                },
            ),
    )
}

/// The senders of all kinds of proposals are looked at, one kind after the other.
pub open spec fn senders_in_order<F: FilterStrategy, E>(
    applier: ProposalApplier<E>,
    strategy: F,
    r: Seq<Result<BundleView, ProposalFilterError<E>>>,
) -> bool {
    &&& leads_on::<F, AddProposal, E>(
        strategy,
        r[0],
        r[1],
        sender_faults::<AddProposal, E>(applier, r[0]->Ok_0),
    )
    &&& leads_on::<F, UpdateProposal, E>(
        strategy,
        r[1],
        r[2],
        sender_faults::<UpdateProposal, E>(applier, r[1]->Ok_0),
    )
    &&& leads_on::<F, RemoveProposal, E>(
        strategy,
        r[2],
        r[3],
        sender_faults::<RemoveProposal, E>(applier, r[2]->Ok_0),
    )
    &&& leads_on::<F, PreSharedKeyProposal, E>(
        strategy,
        r[3],
        r[4],
        sender_faults::<PreSharedKeyProposal, E>(applier, r[3]->Ok_0),
    )
    &&& leads_on::<F, ReInitProposal, E>(
        strategy,
        r[4],
        r[5],
        sender_faults::<ReInitProposal, E>(applier, r[4]->Ok_0),
    )
    &&& leads_on::<F, ExternalInit, E>(
        strategy,
        r[5],
        r[6],
        sender_faults::<ExternalInit, E>(applier, r[5]->Ok_0),
    )
    &&& leads_on::<F, ExtensionList, E>(
        strategy,
        r[6],
        r[7],
        sender_faults::<ExtensionList, E>(applier, r[6]->Ok_0),
    )
}

/// The rules of a member's commit are held against it one after the other: its senders, its
/// own updates and removal, leaves that change twice, pre-shared keys, external senders, and the
/// rules for changes of extensions, new starts and initializations.
pub open spec fn member_rules_in_order<F: FilterStrategy, E>(
    applier: ProposalApplier<E>,
    strategy: F,
    committer: LeafIndex,
    replies: Replies<E>,
    r: Seq<Result<BundleView, ProposalFilterError<E>>>,
) -> bool {
    &&& senders_in_order::<F, E>(applier, strategy, r)
    &&& leads_on::<F, UpdateProposal, E>(
        strategy,
        r[7],
        r[8],
        own_update_faults(committer, r[7]->Ok_0),
    )
    &&& leads_on::<F, RemoveProposal, E>(
        strategy,
        r[8],
        r[9],
        own_removal_faults(committer, r[8]->Ok_0),
    )
    &&& leads_on::<F, RemoveProposal, E>(strategy, r[9], r[10], removal_faults(r[9]->Ok_0))
    &&& leads_on::<F, UpdateProposal, E>(strategy, r[10], r[11], update_faults(r[9]->Ok_0))
    &&& leads_on::<F, PreSharedKeyProposal, E>(
        strategy,
        r[11],
        r[12],
        psk_faults(r[11]->Ok_0.psks, applier.kdf_extract_size, replies),
    )
    &&& leads_on::<F, ExtensionList, E>(
        strategy,
        r[12],
        r[13],
        external_senders_faults(r[12]->Ok_0, replies),
    )
    &&& leads_on::<F, ExtensionList, E>(strategy, r[13], r[14], later_change_faults(r[13]->Ok_0))
    &&& leads_on::<F, ReInitProposal, E>(
        strategy,
        r[14],
        r[15],
        version_faults(applier, r[14]->Ok_0),
    )
    &&& leads_on::<F, ReInitProposal, E>(strategy, r[15], r[16], company_faults(r[15]->Ok_0))
    &&& leads_on::<F, ExternalInit, E>(
        strategy,
        r[16],
        r[17],
        initialization_faults(committer, r[16]->Ok_0),
    )
}

proof fn lemma_sender_stage<F: FilterStrategy, P: Proposable, E>(
    applier: ProposalApplier<E>,
    strategy: F,
    bundle: BundleView,
)
    ensures
        filters::<F, P, E>(
            strategy,
            bundle,
            proposers_screened::<F, P, E>(
                strategy,
                applier.original_tree@,
                usable_senders(applier.external_senders),
                bundle,
            ),
            sender_faults::<P, E>(applier, bundle),
        ),
{
    assert(usable_senders(applier.external_senders) == listed_by(applier));
    wrongly_sent_is_filtered_out::<F, P, E>(
        strategy,
        applier.original_tree@,
        listed_by(applier),
        bundle,
    );
}

proof fn lemma_senders_in_order<F: FilterStrategy, E>(
    applier: ProposalApplier<E>,
    strategy: F,
    bundle: BundleView,
) -> (r: Seq<Result<BundleView, ProposalFilterError<E>>>)
    ensures
        r.len() == 8,
        r[0] == Ok::<BundleView, ProposalFilterError<E>>(bundle),
        senders_in_order::<F, E>(applier, strategy, r),
        r[7] == proposers_filtered::<F, E>(
            strategy,
            applier.original_tree@,
            usable_senders(applier.external_senders),
            bundle,
        ),
{
    let tree = applier.original_tree@;
    let senders = usable_senders(applier.external_senders);
    let r0 = Ok::<BundleView, ProposalFilterError<E>>(bundle);
    let r1 = proposers_screened::<F, AddProposal, E>(strategy, tree, senders, bundle);
    let r2 = match r1 {
        Ok(b) => proposers_screened::<F, UpdateProposal, E>(strategy, tree, senders, b),
        Err(e) => Err(e),
    };
    let r3 = match r2 {
        Ok(b) => proposers_screened::<F, RemoveProposal, E>(strategy, tree, senders, b),
        Err(e) => Err(e),
    };
    let r4 = match r3 {
        Ok(b) => proposers_screened::<F, PreSharedKeyProposal, E>(strategy, tree, senders, b),
        Err(e) => Err(e),
    };
    let r5 = match r4 {
        Ok(b) => proposers_screened::<F, ReInitProposal, E>(strategy, tree, senders, b),
        Err(e) => Err(e),
    };
    let r6 = match r5 {
        Ok(b) => proposers_screened::<F, ExternalInit, E>(strategy, tree, senders, b),
        Err(e) => Err(e),
    };
    let r7 = match r6 {
        Ok(b) => proposers_screened::<F, ExtensionList, E>(strategy, tree, senders, b),
        Err(e) => Err(e),
    };
    lemma_sender_stage::<F, AddProposal, E>(applier, strategy, bundle);
    if let Ok(b) = r1 {
        lemma_sender_stage::<F, UpdateProposal, E>(applier, strategy, b);
    }
    if let Ok(b) = r2 {
        lemma_sender_stage::<F, RemoveProposal, E>(applier, strategy, b);
    }
    if let Ok(b) = r3 {
        lemma_sender_stage::<F, PreSharedKeyProposal, E>(applier, strategy, b);
    }
    if let Ok(b) = r4 {
        lemma_sender_stage::<F, ReInitProposal, E>(applier, strategy, b);
    }
    if let Ok(b) = r5 {
        lemma_sender_stage::<F, ExternalInit, E>(applier, strategy, b);
    }
    if let Ok(b) = r6 {
        lemma_sender_stage::<F, ExtensionList, E>(applier, strategy, b);
    }
    seq![r0, r1, r2, r3, r4, r5, r6, r7]
}

proof fn lemma_early_in_order<F: FilterStrategy, E>(
    applier: ProposalApplier<E>,
    strategy: F,
    committer: LeafIndex,
    first: Result<BundleView, ProposalFilterError<E>>,
) -> (r: (
    Result<BundleView, ProposalFilterError<E>>,
    Result<BundleView, ProposalFilterError<E>>,
    Result<BundleView, ProposalFilterError<E>>,
    Result<BundleView, ProposalFilterError<E>>,
))
    ensures
        leads_on::<F, UpdateProposal, E>(
            strategy,
            first,
            r.0,
            own_update_faults(committer, first->Ok_0),
        ),
        leads_on::<F, RemoveProposal, E>(
            strategy,
            r.0,
            r.1,
            own_removal_faults(committer, r.0->Ok_0),
        ),
        leads_on::<F, RemoveProposal, E>(strategy, r.1, r.2, removal_faults(r.1->Ok_0)),
        leads_on::<F, UpdateProposal, E>(strategy, r.2, r.3, update_faults(r.1->Ok_0)),
        forall|bundle: BundleView|
            #![trigger member_filtered_early::<F, E>(applier, strategy, committer, bundle)]
            proposers_filtered::<F, E>(
                strategy,
                applier.original_tree@,
                usable_senders(applier.external_senders),
                bundle,
            ) == first ==> member_filtered_early::<F, E>(applier, strategy, committer, bundle)
                == r.3,
{
    let r1 = match first {
        Ok(b) => screened::<F, UpdateProposal, E>(
            strategy,
            b,
            self_update_verdicts(committer, b.updates),
        ),
        Err(e) => Err(e),
    };
    if let Ok(b) = first {
        own_updates_are_refused::<F, E>(strategy, committer, b);
        assert(filters::<F, UpdateProposal, E>(
            strategy,
            b,
            r1,
            own_update_faults(committer, b),
        ));
    }
    let r2 = match r1 {
        Ok(b) => screened::<F, RemoveProposal, E>(
            strategy,
            b,
            self_removal_verdicts(committer, b.removals),
        ),
        Err(e) => Err(e),
    };
    if let Ok(b) = r1 {
        removals_of_the_committer_are_refused::<F, E>(strategy, committer, b);
        assert(filters::<F, RemoveProposal, E>(
            strategy,
            b,
            r2,
            own_removal_faults(committer, b),
        ));
    }
    let r3 = match r2 {
        Ok(b) => leaves_are_changed_by_one_proposal::<F, E>(strategy, b),
        Err(e) => Err(e),
    };
    let r4 = match r2 {
        Ok(b) => leaf_conflicts_filtered::<F, E>(strategy, b),
        Err(e) => Err(e),
    };
    (r1, r2, r3, r4)
}

proof fn lemma_late_in_order<F: FilterStrategy, E>(
    applier: ProposalApplier<E>,
    strategy: F,
    committer: LeafIndex,
    first: Result<BundleView, ProposalFilterError<E>>,
) -> (r: (
    Result<BundleView, ProposalFilterError<E>>,
    Result<BundleView, ProposalFilterError<E>>,
    Result<BundleView, ProposalFilterError<E>>,
    Result<BundleView, ProposalFilterError<E>>,
))
    ensures
        leads_on::<F, ExtensionList, E>(strategy, first, r.0, later_change_faults(first->Ok_0)),
        leads_on::<F, ReInitProposal, E>(strategy, r.0, r.1, version_faults(applier, r.0->Ok_0)),
        leads_on::<F, ReInitProposal, E>(strategy, r.1, r.2, company_faults(r.1->Ok_0)),
        leads_on::<F, ExternalInit, E>(
            strategy,
            r.2,
            r.3,
            initialization_faults(committer, r.2->Ok_0),
        ),
        first matches Ok(b) ==> r.3 == member_filtered_late::<F, E>(
            applier,
            strategy,
            committer,
            b,
        ),
        first matches Err(e) ==> r.3 == Err::<BundleView, ProposalFilterError<E>>(e),
{
    let version = applier.protocol_version;
    let r1 = match first {
        Ok(b) => screened::<F, ExtensionList, E>(
            strategy,
            b,
            extra_extensions_verdicts(b.group_context_extensions),
        ),
        Err(e) => Err(e),
    };
    if let Ok(b) = first {
        later_changes_of_extensions_are_refused::<F, E>(strategy, b);
        assert(filters::<F, ExtensionList, E>(strategy, b, r1, later_change_faults(b)));
    }
    let r2 = match r1 {
        Ok(b) => screened::<F, ReInitProposal, E>(
            strategy,
            b,
            reinit_version_verdicts(version, b.reinitializations),
        ),
        Err(e) => Err(e),
    };
    if let Ok(b) = r1 {
        earlier_versions_are_refused::<F, E>(strategy, version, b);
        assert(filters::<F, ReInitProposal, E>(strategy, b, r2, version_faults(applier, b)));
    }
    let r3 = match r2 {
        Ok(b) => screened::<F, ReInitProposal, E>(
            strategy,
            b,
            lone_reinit_verdicts(only_reinit(b), b.reinitializations),
        ),
        Err(e) => Err(e),
    };
    if let Ok(b) = r2 {
        accompanied_new_starts_are_refused::<F, E>(strategy, b);
        assert(filters::<F, ReInitProposal, E>(strategy, b, r3, company_faults(b)));
    }
    let r4 = match r3 {
        Ok(b) => screened::<F, ExternalInit, E>(
            strategy,
            b,
            no_external_init_verdicts(committer, b.external_initializations),
        ),
        Err(e) => Err(e),
    };
    if let Ok(b) = r3 {
        members_do_not_initialize::<F, E>(strategy, committer, b);
        assert(filters::<F, ExternalInit, E>(
            strategy,
            b,
            r4,
            initialization_faults(committer, b),
        ));
    }
    (r1, r2, r3, r4)
}

/// Filters see no difference between a strategy and the one that governs a member's commit.
proof fn lemma_given<F: FilterStrategy, P: Bundled, E>(
    strategy: F,
    committer: LeafIndex,
    bundle: BundleView,
    r: Result<BundleView, ProposalFilterError<E>>,
    faults: Seq<Option<ProposalFilterError<E>>>,
)
    requires
        filters::<Governing<'_, F>, P, E>(
            governing(&strategy, Committer::Member(committer)),
            bundle,
            r,
            faults,
        ),
    ensures
        filters::<F, P, E>(strategy, bundle, r, faults),
{
    let g = governing(&strategy, Committer::Member(committer));
    let items = P::list(bundle);
    assert forall|i: int| #[trigger] not_ignored::<F, P>(strategy, items, i) == not_ignored::<
        Governing<'_, F>,
        P,
    >(g, items, i) by {}
    match r {
        Ok(left) => {
            assert(filtered::<Governing<'_, F>, P, E>(g, bundle, left, faults));
            assert(filtered::<F, P, E>(strategy, bundle, left, faults));
        },
        Err(e) => {
            let i = choose|i: int| #[trigger]
                first_to_fail::<Governing<'_, F>, P, E>(g, items, faults, i, e);
            assert(not_ignored::<F, P>(strategy, items, i));
            assert forall|j: int| 0 <= j < i implies (#[trigger] faults[j] is None
                || !not_ignored::<F, P>(strategy, items, j)) by {
                assert(not_ignored::<F, P>(strategy, items, j) == not_ignored::<
                    Governing<'_, F>,
                    P,
                >(g, items, j));
            }
            assert(first_to_fail::<F, P, E>(strategy, items, faults, i, e));
        },
    }
}

/// A member's commit goes through the filters in order, each of which is given what the one
/// before it left. The first that fails decides with which error the commit does. If none does,
/// the changes are made, and custom proposals are looked at last.
pub proof fn member_commits_go_in_order<F: FilterStrategy, E>(
    applier: ProposalApplier<E>,
    strategy: F,
    committer: LeafIndex,
    bundle: BundleView,
    replies: Replies<E>,
) -> (r: Seq<Result<BundleView, ProposalFilterError<E>>>)
    ensures
        r.len() == 18,
        r[0] == Ok::<BundleView, ProposalFilterError<E>>(bundle),
        member_rules_in_order::<F, E>(applier, strategy, committer, replies, r),
        applied::<F, E>(
            applier,
            strategy,
            Sender::Member(committer.0),
            bundle,
            replies,
        ) == match r[17] {
            Err(e) => Err(e),
            Ok(b) => match changed::<Governing<'_, F>, E>(
                applier,
                Governing::Given(&strategy),
                b,
                replies,
            ) {
                Err(e) => Err(e),
                Ok(state) => custom_filtered::<F, E>(strategy, state),
            },
        },
{
    let c = Committer::Member(committer);
    let g = governing(&strategy, c);
    assert(g == Governing::Given(&strategy));
    let s = lemma_senders_in_order::<F, E>(applier, strategy, bundle);
    let early = lemma_early_in_order::<F, E>(applier, strategy, committer, s[7]);
    let r11 = early.3;
    assert(member_filtered_early::<F, E>(applier, strategy, committer, bundle) == r11);
    let r12 = match r11 {
        Ok(b) => screened::<Governing<'_, F>, PreSharedKeyProposal, E>(
            g,
            b,
            psk_verdicts(b.psks, applier.kdf_extract_size, psk_answers(replies, b.psks)),
        ),
        Err(e) => Err(e),
    };
    if let Ok(b) = r11 {
        faulty_psks_are_refused::<Governing<'_, F>, E>(g, b, applier.kdf_extract_size, replies);
        lemma_given::<F, PreSharedKeyProposal, E>(
            strategy,
            committer,
            b,
            r12,
            psk_faults(b.psks, applier.kdf_extract_size, replies),
        );
    }
    let r13 = match r12 {
        Ok(b) => screened::<F, ExtensionList, E>(
            strategy,
            b,
            external_senders_verdicts(
                b.group_context_extensions,
                external_senders_answers(replies, b.group_context_extensions),
            ),
        ),
        Err(e) => Err(e),
    };
    if let Ok(b) = r12 {
        refused_external_senders_are_refused::<F, E>(strategy, b, replies);
    }
    let late = lemma_late_in_order::<F, E>(applier, strategy, committer, r13);
    let r = s + seq![early.0, early.1, early.2, r11, r12, r13, late.0, late.1, late.2, late.3];
    assert(r.len() == 18);
    assert(r[0] == s[0] && r[1] == s[1] && r[2] == s[2] && r[3] == s[3] && r[4] == s[4] && r[5]
        == s[5] && r[6] == s[6] && r[7] == s[7]);
    assert(r[8] == early.0 && r[9] == early.1 && r[10] == early.2 && r[11] == r11 && r[12] == r12
        && r[13] == r13 && r[14] == late.0 && r[15] == late.1 && r[16] == late.2 && r[17]
        == late.3);
    assert(senders_in_order::<F, E>(applier, strategy, r));
    if let Ok(b) = r12 {
        assert(from_external_senders::<F, E>(applier, strategy, committer, b, seq![], replies)
            == match r[17] {
            Err(e) => Err(e),
            Ok(b) => changed_and_concluded::<F, E>(applier, strategy, c, b, replies),
        });
    }
    if let Ok(b) = r11 {
        assert(from_psks::<F, E>(applier, strategy, c, b, seq![], replies) == match r[17] {
            Err(e) => Err(e),
            Ok(b) => changed_and_concluded::<F, E>(applier, strategy, c, b, replies),
        });
    }
    r
}

// ---------------------------------------------------------------------------
// Changes
// ---------------------------------------------------------------------------

/// The changes of a commit are made under the group's own extensions, with the answers that were
/// given for them, unless it changes the extensions: then the capabilities that those require
/// come first, and the changes are tried without any extensions. Capabilities that are not known
/// make the commit fail, or the change of extensions is gone if it is ignored.
pub proof fn changes_go_in_order<F: FilterStrategy, E>(
    applier: ProposalApplier<E>,
    strategy: F,
    bundle: BundleView,
    replies: Replies<E>,
)
    ensures
        ({
            let r = changed::<F, E>(applier, strategy, bundle, replies);
            let none = Seq::<Arc<ProposalInfo<ExtensionList>>>::empty();
            let own = tree_changed::<F, E>(
                strategy,
                BundleView { group_context_extensions: none, ..bundle },
                applier.original_group_extensions.0@,
                replies.original,
            );
            if bundle.group_context_extensions.len() == 0 {
                r == own
            } else {
                let first = bundle.group_context_extensions[0];
                let ignored = strategy.ignores(
                    ProposalInfo {
                        proposal: first.proposal.borrowed(),
                        sender: first.sender,
                        proposal_ref: first.proposal_ref,
                    },
                );
                match (replies.required_capabilities)(first.proposal) {
                    Err(e) => if ignored {
                        r == own
                    } else {
                        r == Err::<StateView, ProposalFilterError<E>>(
                            ProposalFilterError::ExtensionError(e),
                        )
                    },
                    Ok(capabilities) => match tree_changed::<F, E>(
                        strategy,
                        bundle,
                        Seq::<Extension>::empty(),
                        replies.trial,
                    ) {
                        Err(e) => r == Err::<StateView, ProposalFilterError<E>>(e),
                        Ok(state) => r == trial_judged::<F, E>(
                            applier,
                            strategy,
                            bundle,
                            state,
                            group_extensions_supported(
                                first.proposal.0@,
                                capabilities,
                                state.tree,
                                match capabilities {
                                    None => seq![],
                                    Some(required) => Seq::new(
                                        members(state.tree).len(),
                                        |i: int|
                                            (replies.leaf_checks)(
                                                i,
                                                members(state.tree)[i],
                                                required,
                                            ),
                                    ),
                                },
                            ),
                            replies.original,
                        ),
                    },
                }
            }
        }),
{
    let none = Seq::<Arc<ProposalInfo<ExtensionList>>>::empty();
    assert(without_group_context_extensions(bundle) == (BundleView {
        group_context_extensions: none,
        ..bundle
    }));
    if bundle.group_context_extensions.len() > 0 {
        if let Ok(Some(required)) = (replies.required_capabilities)(
            bundle.group_context_extensions[0].proposal,
        ) {
            if let Ok(state) = tree_changed::<F, E>(strategy, bundle, seq![], replies.trial) {
                assert(leaf_check_answers(replies, state.tree, Some(required)) =~= Seq::new(
                    members(state.tree).len(),
                    |i: int| (replies.leaf_checks)(i, members(state.tree)[i], required),
                ));
            }
        }
    }
}

/// Where members sent all updates, the tree is changed in order: updates are looked at, then
/// additions, each by what its validator says of it and by what its leaf lists; and what is left
/// is handed to the tree, which has the last word.
pub proof fn tree_changes_go_in_order<F: FilterStrategy, E>(
    strategy: F,
    bundle: BundleView,
    extensions: Seq<Extension>,
    replies: TreeReplies<E>,
) -> (r: (
    Result<BundleView, ProposalFilterError<E>>,
    Result<BundleView, ProposalFilterError<E>>,
    Seq<Option<ProposalFilterError<E>>>,
    Seq<Option<ProposalFilterError<E>>>,
))
    requires
        forall|i: int|
            0 <= i < bundle.updates.len() ==> (#[trigger] bundle.updates[i]).sender is Member,
    ensures
        filters::<F, UpdateProposal, E>(strategy, bundle, r.0, r.2),
        forall|i: int|
            0 <= i < bundle.updates.len() ==> is_leaf_fault(
                #[trigger] r.2[i],
                match (replies.update_leaves)(
                    i,
                    LeafIndex(bundle.updates[i].sender->Member_0),
                    bundle.updates[i].proposal.leaf_node,
                ) {
                    Ok(_) => None,
                    Err(e) => Some(ProposalFilterError::LeafNodeValidationError(e)),
                },
                *bundle.updates[i].proposal.leaf_node,
                extensions,
            ),
        leads_on::<F, AddProposal, E>(strategy, r.0, r.1, r.3),
        r.0 matches Ok(b) ==> forall|i: int|
            0 <= i < b.additions.len() ==> is_leaf_fault(
                #[trigger] r.3[i],
                match (replies.key_packages)(i, b.additions[i].proposal.key_package) {
                    Ok(_) => None,
                    Err(e) => Some(ProposalFilterError::KeyPackageValidationError(e)),
                },
                *b.additions[i].proposal.key_package.leaf_node,
                extensions,
            ),
        tree_changed::<F, E>(strategy, bundle, extensions, replies) == match r.1 {
            Err(e) => Err(e),
            Ok(b) => match (replies.edit)(b.updates, b.removals, b.additions) {
                Err(e) => Err(ProposalFilterError::RatchetTreeError(e)),
                Ok((tree, edits)) => Ok(after_edit(b, tree, edits)),
            },
        },
{
    let f1 = invalid_updates_are_refused::<F, E>(strategy, bundle, extensions, replies);
    let v1 = update_node_verdicts(
        bundle.updates,
        extensions,
        update_leaf_answers(replies, bundle.updates),
    );
    let r1 = screened::<F, UpdateProposal, E>(strategy, bundle, v1);
    let p = screening_keeps_valid::<F, UpdateProposal, E>(strategy, bundle, v1);
    match r1 {
        Err(e) => (r1, Err(e), f1, seq![]),
        Ok(b1) => {
            let f2 = invalid_additions_are_refused::<F, E>(strategy, b1, extensions, replies);
            let v2 = key_package_verdicts(
                b1.additions,
                extensions,
                key_package_answers(replies, b1.additions),
            );
            let r2 = screened::<F, AddProposal, E>(strategy, b1, v2);
            screening_keeps_valid::<F, AddProposal, E>(strategy, b1, v2);
            if let Ok(b2) = r2 {
                let v3 = update_sender_verdicts::<E>(b2.updates);
                assert forall|i: int| 0 <= i < b2.updates.len() implies nothing_wrong(
                    #[trigger] v3[i],
                ) by {
                    assert(b1.updates[i] == bundle.updates[p[i]]);
                }
                valid_proposals_stay::<F, UpdateProposal, E>(strategy, b2, v3);
            }
            (r1, r2, f1, f2)
        },
    }
}

// ---------------------------------------------------------------------------
// Newcomers
// ---------------------------------------------------------------------------

/// What a commit by which somebody joins comes to once its earlier self is settled: its types
/// come first, then that nothing is by reference, then senders and pre-shared keys, with nothing
/// ignored; then the changes, with nothing ignored; then the new leaf, and custom proposals last.
pub proof fn joining_goes_in_order<F: FilterStrategy, E>(
    applier: ProposalApplier<E>,
    strategy: F,
    leaf: Arc<LeafNode>,
    bundle: BundleView,
    replies: Replies<E>,
) -> (r: Seq<Result<BundleView, ProposalFilterError<E>>>)
    ensures
        r.len() == 9,
        r[0] == match only_allowed_types::<E>(bundle) {
            Err(e) => Err(e),
            Ok(_) => match none_by_ref::<E>(bundle) {
                Err(e) => Err(e),
                Ok(_) => Ok::<BundleView, ProposalFilterError<E>>(bundle),
            },
        },
        senders_in_order::<FailInvalidProposal, E>(applier, FailInvalidProposal, r),
        leads_on::<Governing<'_, F>, PreSharedKeyProposal, E>(
            Governing::Fail,
            r[7],
            r[8],
            psk_faults(r[7]->Ok_0.psks, applier.kdf_extract_size, replies),
        ),
        after_self_removal::<F, E>(applier, strategy, leaf, bundle, replies) == match r[8] {
            Err(e) => Err(e),
            Ok(b) => match changed::<Governing<'_, F>, E>(applier, Governing::Fail, b, replies) {
                Err(e) => Err(e),
                Ok(state) => match with_external_leaf(
                    state,
                    (replies.external_leaf)(state.tree, leaf),
                ) {
                    Err(e) => Err(e),
                    Ok(s) => custom_filtered::<F, E>(strategy, s),
                },
            },
        },
{
    let c = Committer::NewMember(leaf);
    let g = governing(&strategy, c);
    assert(g == Governing::<'_, F>::Fail);
    let s = lemma_senders_in_order::<FailInvalidProposal, E>(
        applier,
        FailInvalidProposal,
        bundle,
    );
    let r0 = match only_allowed_types::<E>(bundle) {
        Err(e) => Err(e),
        Ok(_) => match none_by_ref::<E>(bundle) {
            Err(e) => Err(e),
            Ok(_) => Ok::<BundleView, ProposalFilterError<E>>(bundle),
        },
    };
    let r = match r0 {
        Err(e) => Seq::new(9, |i: int| r0),
        Ok(b) => s.push(
            match s[7] {
                Err(e) => Err(e),
                Ok(b) => screened::<Governing<'_, F>, PreSharedKeyProposal, E>(
                    g,
                    b,
                    psk_verdicts(b.psks, applier.kdf_extract_size, psk_answers(replies, b.psks)),
                ),
            },
        ),
    };
    if r0 is Ok {
        if let Ok(b) = s[7] {
            faulty_psks_are_refused::<Governing<'_, F>, E>(
                g,
                b,
                applier.kdf_extract_size,
                replies,
            );
        }
        assert(r[0] == s[0] && r[1] == s[1] && r[2] == s[2] && r[3] == s[3] && r[4] == s[4] && r[5]
            == s[5] && r[6] == s[6] && r[7] == s[7]);
    }
    assert(new_member_filtered::<E>(applier, bundle) == match r0 {
        Err(e) => Err(e),
        Ok(_) => s[7],
    });
    if let Ok(b) = new_member_filtered::<E>(applier, bundle) {
        assert(from_psks::<F, E>(applier, strategy, c, b, seq![], replies) == match r[8] {
            Err(e) => Err(e),
            Ok(b) => changed_and_concluded::<F, E>(applier, strategy, c, b, replies),
        });
    }
    r
}

/// Somebody joins with a leaf, by one initialization, and with at most one removal; whom it
/// removes it has to succeed. These are held against the commit in this order, and before
/// anything else is.
pub proof fn newcomers_are_settled_first<F: FilterStrategy, E>(
    applier: ProposalApplier<E>,
    strategy: F,
    bundle: BundleView,
    replies: Replies<E>,
)
    ensures
        ({
            let r = applied::<F, E>(applier, strategy, Sender::NewMemberCommit, bundle, replies);
            match applier.external_leaf {
                None => r == Err::<StateView, ProposalFilterError<E>>(
                    ProposalFilterError::ExternalCommitMustHaveNewLeaf,
                ),
                Some(leaf) => if bundle.external_initializations.len() != 1 {
                    r == Err::<StateView, ProposalFilterError<E>>(
                        ProposalFilterError::ExternalCommitMustHaveExactlyOneExternalInit,
                    )
                } else {
                    let rest = after_self_removal::<F, E>(
                        applier,
                        strategy,
                        leaf,
                        bundle,
                        replies,
                    );
                    match self_removal::<E>(bundle, applier.original_tree.leaves@) {
                        Err(e) => r == Err::<StateView, ProposalFilterError<E>>(e),
                        Ok(None) => r == rest,
                        Ok(Some(old)) => match (replies.successor)(
                            old.signing_identity,
                            leaf.signing_identity,
                        ) {
                            Ok(true) => r == rest,
                            Ok(false) => r == Err::<StateView, ProposalFilterError<E>>(
                                ProposalFilterError::ExternalCommitRemovesOtherIdentity,
                            ),
                            Err(e) => r matches Err(f) && f is RatchetTreeError,
                        },
                    }
                },
            }
        }),
{
}

} // verus!
