//! What each filter of proposals does, said of the proposals themselves.

use vstd::prelude::*;

use std::sync::Arc;

use crate::extension::{ExtensionList, ExternalSendersExt};
use crate::group::proposal::{
    AddProposal, BorrowedProposal, CustomProposal, ExternalInit, PreSharedKeyProposal,
    ProposalInfo, ProposalType, ReInitProposal, RemoveProposal, UpdateProposal,
};
use crate::group::proposal_filter::bundle::{
    picks, without_group_context_extensions, BundleView, Bundled, Proposable, ProposalBundle,
};
use crate::group::proposal_filter::error::ProposalFilterError;
use crate::group::proposal_filter::filtering::{
    may_propose, proposer_verdict, proposer_verdicts, proposers_screened, sender_verdict,
    usable_senders,
};
use crate::group::proposal_filter::outcome::{governing, Committer};
use crate::group::proposal_filter::screening::{
    decided, decision, flagged_positions, screened, screened_flags, screening_decides_each,
    selected, selection_keeps_order, yields, Verdict,
};
use crate::group::proposal_filter::state::{leads_to, ProposalState, StateView};
use crate::group::proposal_filter::strategy::{
    borrowed_info, strategy_applied, FailInvalidProposal, FilterStrategy,
    IgnoreInvalidByRefProposal,
};
use crate::group::sender::Sender;
use crate::tree_kem::LeafNode;

verus! {

// ---------------------------------------------------------------------------
// Bundles and strategies
// ---------------------------------------------------------------------------

/// Nothing of a bundle is left out of its view, and a result that stands for a bundle holds
/// that bundle, list by list.
pub proof fn bundles_are_their_lists<E>(
    bundle: ProposalBundle,
    other: BundleView,
    e: ProposalFilterError<E>,
)
    ensures
        bundle@.additions == bundle.additions@,
        bundle@.updates == bundle.updates@,
        bundle@.removals == bundle.removals@,
        bundle@.psks == bundle.psks@,
        bundle@.reinitializations == bundle.reinitializations@,
        bundle@.external_initializations == bundle.external_initializations@,
        bundle@.group_context_extensions == bundle.group_context_extensions@,
        bundle@.custom_proposals == bundle.custom_proposals@,
        yields(Ok::<ProposalBundle, ProposalFilterError<E>>(bundle), Ok(other)) <==> {
            &&& bundle.additions@ == other.additions
            &&& bundle.updates@ == other.updates
            &&& bundle.removals@ == other.removals
            &&& bundle.psks@ == other.psks
            &&& bundle.reinitializations@ == other.reinitializations
            &&& bundle.external_initializations@ == other.external_initializations
            &&& bundle.group_context_extensions@ == other.group_context_extensions
            &&& bundle.custom_proposals@ == other.custom_proposals
        },
        !yields(Ok::<ProposalBundle, ProposalFilterError<E>>(bundle), Err(e)),
        !yields(Err::<ProposalBundle, ProposalFilterError<E>>(e), Ok(other)),
{
}

/// A result that stands for an error is that error.
pub proof fn errors_are_themselves<E>(e: ProposalFilterError<E>, f: ProposalFilterError<E>)
    ensures
        yields(Err::<ProposalBundle, ProposalFilterError<E>>(e), Err(f)) <==> e == f,
        leads_to(Err::<ProposalState, ProposalFilterError<E>>(e), Err(f)) <==> e == f,
{
}

/// Nothing of a state is left out of its view, and a result that stands for a state holds that
/// state.
pub proof fn states_are_their_parts<E>(
    state: ProposalState,
    other: StateView,
    e: ProposalFilterError<E>,
)
    ensures
        state@.tree == state.tree.leaves@,
        state@.proposals == state.proposals@,
        state@.added_indexes == state.added_indexes@,
        state@.removed_leaves == state.removed_leaves@,
        state@.external_leaf_index == state.external_leaf_index,
        leads_to(Ok::<ProposalState, ProposalFilterError<E>>(state), Ok(other)) <==> {
            &&& state.tree.leaves@ == other.tree
            &&& state.proposals@ == other.proposals
            &&& state.added_indexes@ == other.added_indexes
            &&& state.removed_leaves@ == other.removed_leaves
            &&& state.external_leaf_index == other.external_leaf_index
        },
        !leads_to(Ok::<ProposalState, ProposalFilterError<E>>(state), Err(e)),
        !leads_to(Err::<ProposalState, ProposalFilterError<E>>(e), Ok(other)),
{
}

/// Each kind of proposal has its own list, and its own type.
pub proof fn kinds_have_their_lists(bundle: BundleView)
    ensures
        AddProposal::list(bundle) == bundle.additions,
        UpdateProposal::list(bundle) == bundle.updates,
        RemoveProposal::list(bundle) == bundle.removals,
        PreSharedKeyProposal::list(bundle) == bundle.psks,
        ReInitProposal::list(bundle) == bundle.reinitializations,
        ExternalInit::list(bundle) == bundle.external_initializations,
        ExtensionList::list(bundle) == bundle.group_context_extensions,
        CustomProposal::list(bundle) == bundle.custom_proposals,
        AddProposal::kind() == ProposalType::Add,
        UpdateProposal::kind() == ProposalType::Update,
        RemoveProposal::kind() == ProposalType::Remove,
        PreSharedKeyProposal::kind() == ProposalType::Psk,
        ReInitProposal::kind() == ProposalType::ReInit,
        ExternalInit::kind() == ProposalType::ExternalInit,
        ExtensionList::kind() == ProposalType::GroupContextExtensions,
{
}

/// Replacing the list of one kind leaves those of all others as they were.
pub proof fn kinds_are_replaced_alone(bundle: BundleView, from: BundleView)
    ensures
        AddProposal::with_list(bundle, from.additions) == (BundleView {
            additions: from.additions,
            ..bundle
        }),
        UpdateProposal::with_list(bundle, from.updates) == (BundleView {
            updates: from.updates,
            ..bundle
        }),
        RemoveProposal::with_list(bundle, from.removals) == (BundleView {
            removals: from.removals,
            ..bundle
        }),
        PreSharedKeyProposal::with_list(bundle, from.psks) == (BundleView {
            psks: from.psks,
            ..bundle
        }),
        ReInitProposal::with_list(bundle, from.reinitializations) == (BundleView {
            reinitializations: from.reinitializations,
            ..bundle
        }),
        ExternalInit::with_list(bundle, from.external_initializations) == (BundleView {
            external_initializations: from.external_initializations,
            ..bundle
        }),
        ExtensionList::with_list(bundle, from.group_context_extensions) == (BundleView {
            group_context_extensions: from.group_context_extensions,
            ..bundle
        }),
        CustomProposal::with_list(bundle, from.custom_proposals) == (BundleView {
            custom_proposals: from.custom_proposals,
            ..bundle
        }),
        without_group_context_extensions(bundle).group_context_extensions.len() == 0,
        without_group_context_extensions(bundle) == (BundleView {
            group_context_extensions: without_group_context_extensions(
                bundle,
            ).group_context_extensions,
            ..bundle
        }),
{
}

/// A strategy sees the proposal itself, who sent it and how it was committed.
pub proof fn strategies_see_the_proposal<P: Bundled>(info: ProposalInfo<P>)
    ensures
        borrowed_info(&info).proposal == info.proposal.borrowed(),
        borrowed_info(&info).sender == info.sender,
        borrowed_info(&info).proposal_ref == info.proposal_ref,
{
}

/// The proposal that a strategy sees is of its own kind, and says the same.
pub proof fn strategies_see_the_kind(
    add: AddProposal,
    update: UpdateProposal,
    remove: RemoveProposal,
    psk: PreSharedKeyProposal,
    reinit: ReInitProposal,
    init: ExternalInit,
    list: ExtensionList,
    custom: CustomProposal,
)
    ensures
        add.borrowed() matches BorrowedProposal::Add(p) && *p == add,
        update.borrowed() matches BorrowedProposal::Update(p) && *p == update,
        remove.borrowed() matches BorrowedProposal::Remove(p) && *p == remove,
        psk.borrowed() matches BorrowedProposal::Psk(p) && *p == psk,
        reinit.borrowed() matches BorrowedProposal::ReInit(p) && *p == reinit,
        init.borrowed() matches BorrowedProposal::ExternalInit(p) && *p == init,
        list.borrowed() matches BorrowedProposal::GroupContextExtensions(p) && *p == list,
        custom.borrowed() matches BorrowedProposal::Custom(p) && *p == custom,
{
}

/// The given strategy decides about a member's commit; nothing is ignored in the commit of
/// whoever joins.
pub proof fn newcomers_are_granted_nothing<F: FilterStrategy>(
    strategy: F,
    committer: Committer,
    proposal: ProposalInfo<BorrowedProposal<'_>>,
)
    ensures
        governing(&strategy, committer).ignores(proposal) <==> committer is Member
            && strategy.ignores(proposal),
        IgnoreInvalidByRefProposal.ignores(proposal) <==> proposal.proposal_ref is Some,
        !FailInvalidProposal.ignores(proposal),
{
}

/// A strategy decides the same when it is borrowed.
pub proof fn borrowed_strategies_decide_alike<F: FilterStrategy>(
    strategy: F,
    proposal: ProposalInfo<BorrowedProposal<'_>>,
)
    ensures
        (&strategy).ignores(proposal) <==> strategy.ignores(proposal),
{
}

/// A proposal that is valid is kept; one that is not is dropped if the strategy ignores it,
/// and makes the commit fail if not, with its own fault.
pub proof fn strategies_decide_about_faults<F: FilterStrategy, P: Bundled, E>(
    strategy: F,
    info: ProposalInfo<P>,
    e: ProposalFilterError<E>,
)
    ensures
        strategy_applied::<F, P, E>(strategy, info, Ok(())) == Ok::<bool, ProposalFilterError<E>>(
            true,
        ),
        strategy.ignores(borrowed_info(&info)) ==> strategy_applied::<F, P, E>(
            strategy,
            info,
            Err(e),
        ) == Ok::<bool, ProposalFilterError<E>>(false),
        !strategy.ignores(borrowed_info(&info)) ==> strategy_applied::<F, P, E>(
            strategy,
            info,
            Err(e),
        ) == Err::<bool, ProposalFilterError<E>>(e),
{
}

// ---------------------------------------------------------------------------
// Filters
// ---------------------------------------------------------------------------

/// The strategy does not ignore the proposal with this number.
pub open spec fn not_ignored<F: FilterStrategy, P: Bundled>(
    strategy: F,
    items: Seq<Arc<ProposalInfo<P>>>,
    i: int,
) -> bool {
    !strategy.ignores(
        ProposalInfo {
            proposal: items[i].proposal.borrowed(),
            sender: items[i].sender,
            proposal_ref: items[i].proposal_ref,
        },
    )
}

/// The items come from these positions of `from`, in order, which are those with which nothing
/// is wrong.
pub open spec fn picks_faultless<P: Bundled, E>(
    items: Seq<Arc<ProposalInfo<P>>>,
    from: Seq<Arc<ProposalInfo<P>>>,
    positions: Seq<int>,
    faults: Seq<Option<ProposalFilterError<E>>>,
) -> bool {
    &&& picks(items, from, positions)
    &&& forall|i: int|
        0 <= i < from.len() ==> (#[trigger] positions.contains(i) <==> faults[i] is None)
}

/// Proposal `i` makes the commit fail with this error, and none before it makes it fail.
pub open spec fn first_to_fail<F: FilterStrategy, P: Bundled, E>(
    strategy: F,
    items: Seq<Arc<ProposalInfo<P>>>,
    faults: Seq<Option<ProposalFilterError<E>>>,
    i: int,
    e: ProposalFilterError<E>,
) -> bool {
    &&& 0 <= i < items.len()
    &&& faults[i] == Some(e)
    &&& not_ignored::<F, P>(strategy, items, i)
    &&& forall|j: int|
        0 <= j < i ==> (#[trigger] faults[j] is None || !not_ignored::<F, P>(strategy, items, j))
}

/// What is left of the proposals of one kind are those with which nothing is wrong, in order;
/// whatever is wrong is ignored, and no other proposals are touched.
pub open spec fn filtered<F: FilterStrategy, P: Bundled, E>(
    strategy: F,
    bundle: BundleView,
    left: BundleView,
    faults: Seq<Option<ProposalFilterError<E>>>,
) -> bool {
    &&& left == P::with_list(bundle, P::list(left))
    &&& exists|positions: Seq<int>| #[trigger]
        picks_faultless::<P, E>(P::list(left), P::list(bundle), positions, faults)
    &&& forall|i: int|
        0 <= i < P::list(bundle).len() && #[trigger] not_ignored::<F, P>(
            strategy,
            P::list(bundle),
            i,
        ) ==> faults[i] is None
}

/// A filter of the proposals of one kind, by what is wrong with each: `faults` says it. It
/// keeps those with which nothing is wrong, in order, and touches no others; a fault that is
/// not ignored makes it fail, and of several the first counts.
pub open spec fn filters<F: FilterStrategy, P: Bundled, E>(
    strategy: F,
    bundle: BundleView,
    r: Result<BundleView, ProposalFilterError<E>>,
    faults: Seq<Option<ProposalFilterError<E>>>,
) -> bool {
    match r {
        Ok(left) => filtered::<F, P, E>(strategy, bundle, left, faults),
        Err(e) => exists|i: int| #[trigger]
            first_to_fail::<F, P, E>(strategy, P::list(bundle), faults, i, e),
    }
}

/// What is wrong with a proposal is left to the strategy, or makes the commit fail whatever the
/// strategy, with its own error.
pub proof fn verdicts_are_decided<F: FilterStrategy, P: Bundled, E>(
    strategy: F,
    info: ProposalInfo<P>,
    r: Result<(), ProposalFilterError<E>>,
    e: ProposalFilterError<E>,
)
    ensures
        decided::<F, P, E>(strategy, info, Verdict::Fatal(e)) == Err::<
            bool,
            ProposalFilterError<E>,
        >(e),
        decided::<F, P, E>(strategy, info, Verdict::Judged(r)) is Ok <==> r is Ok
            || strategy.ignores(borrowed_info(&info)),
        decided::<F, P, E>(strategy, info, Verdict::Judged(r)) matches Ok(keep) ==> (keep
            <==> r is Ok),
        decided::<F, P, E>(strategy, info, Verdict::Judged(r)) matches Err(f) ==> r == Err::<
            (),
            ProposalFilterError<E>,
        >(f),
{
}

/// Screening by verdicts is a filter by the faults that they name.
pub proof fn screening_filters<F: FilterStrategy, P: Bundled, E>(
    strategy: F,
    bundle: BundleView,
    verdicts: Seq<Verdict<E>>,
    faults: Seq<Option<ProposalFilterError<E>>>,
)
    requires
        forall|i: int|
            0 <= i < P::list(bundle).len() ==> #[trigger] verdicts[i] == Verdict::Judged(
                match faults[i] {
                    None => Ok(()),
                    Some(e) => Err(e),
                },
            ),
    ensures
        filters::<F, P, E>(
            strategy,
            bundle,
            screened::<F, P, E>(strategy, bundle, verdicts),
            faults,
        ),
{
    let items = P::list(bundle);
    screening_decides_each::<F, P, E>(strategy, items, verdicts, seq![]);
    assert forall|i: int| 0 <= i < items.len() implies #[trigger] decision(
        strategy,
        items,
        verdicts,
        i,
    ) == (match faults[i] {
        None => Ok::<bool, ProposalFilterError<E>>(true),
        Some(e) => if not_ignored::<F, P>(strategy, items, i) {
            Err(e)
        } else {
            Ok(false)
        },
    }) by {
        assert(verdicts[i] == Verdict::Judged(
            match faults[i] {
                None => Ok(()),
                Some(e) => Err(e),
            },
        ));
    }
    match screened_flags::<F, P, E>(strategy, items, verdicts, seq![]) {
        Ok(all) => {
            let n = items.len() as int;
            let kept = selected(items, all);
            let positions = flagged_positions(all, n);
            selection_keeps_order(items, all, n);
            P::list_laws(bundle, kept);
            assert forall|i: int| 0 <= i < items.len() implies (#[trigger] positions.contains(i)
                <==> faults[i] is None) by {
                assert(decision(strategy, items, verdicts, i) == Ok::<
                    bool,
                    ProposalFilterError<E>,
                >(all[i]));
                if positions.contains(i) {
                    let k = choose|k: int| 0 <= k < positions.len() && positions[k] == i;
                    assert(all[positions[k]]);
                }
            }
            assert forall|i: int|
                0 <= i < items.len() && #[trigger] not_ignored::<F, P>(
                    strategy,
                    items,
                    i,
                ) implies faults[i] is None by {
                assert(decision(strategy, items, verdicts, i) is Ok);
            }
            let b = P::with_list(bundle, kept);
            assert(P::list(b) == kept);
            assert(picks_faultless::<P, E>(P::list(b), items, positions, faults));
            assert(screened::<F, P, E>(strategy, bundle, verdicts) == Ok::<
                BundleView,
                ProposalFilterError<E>,
            >(b));
            assert(filtered::<F, P, E>(strategy, bundle, b, faults));
        },
        Err(e) => {
            let i = choose|i: int|
                {
                    &&& 0 <= i < items.len()
                    &&& #[trigger] decision(strategy, items, verdicts, i) == Err::<
                        bool,
                        ProposalFilterError<E>,
                    >(e)
                    &&& forall|j: int|
                        0 <= j < i ==> #[trigger] decision(strategy, items, verdicts, j) is Ok
                };
            assert(faults[i] == Some(e) && not_ignored::<F, P>(strategy, items, i));
            assert forall|j: int| 0 <= j < i implies (#[trigger] faults[j] is None
                || !not_ignored::<F, P>(strategy, items, j)) by {
                assert(decision(strategy, items, verdicts, j) is Ok);
            }
            assert(first_to_fail::<F, P, E>(strategy, items, faults, i, e));
        },
    }
}

// ---------------------------------------------------------------------------
// Senders
// ---------------------------------------------------------------------------

/// Who may propose what, by the type of the proposal. Nobody but members changes extensions;
/// additions may come from anybody who does not join by the commit; a leaf is updated by its
/// member alone, ahead of the commit; whoever joins by the commit may remove, use keys and
/// initialize, in the commit itself; everybody else outside proposes ahead of it.
pub proof fn types_have_their_proposers(sender: Sender, by_ref: bool, code: u16)
    ensures
        may_propose(sender, ProposalType::Add, by_ref) <==> sender is Member || by_ref && (
        sender is External || sender is NewMemberProposal),
        may_propose(sender, ProposalType::Update, by_ref) <==> sender is Member && by_ref,
        may_propose(sender, ProposalType::Remove, by_ref) <==> sender is Member || by_ref
            && sender is External || !by_ref && sender is NewMemberCommit,
        may_propose(sender, ProposalType::Psk, by_ref) <==> sender is Member || !by_ref
            && sender is NewMemberCommit,
        may_propose(sender, ProposalType::ReInit, by_ref) <==> sender is Member || by_ref
            && sender is External,
        may_propose(sender, ProposalType::ExternalInit, by_ref) <==> !by_ref
            && sender is NewMemberCommit,
        may_propose(sender, ProposalType::GroupContextExtensions, by_ref) <==> sender is Member,
        !may_propose(sender, ProposalType::Custom(code), by_ref),
{
}

/// A member is a valid sender exactly if it sits in the tree, at the leaf that it names; an
/// external sender exactly if the group lists external senders and its number is below their
/// number; and a newcomer always is.
pub proof fn senders_are_known<E>(
    leaves: Seq<Option<Arc<LeafNode>>>,
    external_senders: Option<ExternalSendersExt>,
    i: u32,
)
    ensures
        sender_verdict::<E>(leaves, external_senders, Sender::Member(i)) is Ok <==> i
            < leaves.len() && leaves[i as int] is Some,
        sender_verdict::<E>(leaves, external_senders, Sender::Member(i)) matches Err(e)
            ==> e == ProposalFilterError::<E>::InvalidMemberProposer(i),
        external_senders matches Some(ext) ==> (sender_verdict::<E>(
            leaves,
            external_senders,
            Sender::External(i),
        ) is Ok <==> i < ext.allowed_senders@.len()),
        external_senders is Some ==> (sender_verdict::<E>(
            leaves,
            external_senders,
            Sender::External(i),
        ) matches Err(e) ==> e == ProposalFilterError::<E>::InvalidExternalSenderIndex(i)),
        external_senders is None ==> sender_verdict::<E>(
            leaves,
            external_senders,
            Sender::External(i),
        ) == Err::<(), ProposalFilterError<E>>(
            ProposalFilterError::ExternalSenderWithoutExternalSendersExtension,
        ),
        sender_verdict::<E>(leaves, external_senders, Sender::NewMemberCommit) is Ok,
        sender_verdict::<E>(leaves, external_senders, Sender::NewMemberProposal) is Ok,
{
}

/// External senders that cannot be decoded count as absent, others as they are.
pub proof fn undecoded_senders_are_absent<E>(ext: ExternalSendersExt, e: E)
    ensures
        usable_senders::<E>(Ok(Some(ext))) == Some(ext),
        usable_senders::<E>(Ok(None)) is None,
        usable_senders::<E>(Err(e)) is None,
{
}

/// The sender is a member who sits in this tree.
pub open spec fn sits_in(sender: Sender, leaves: Seq<Option<Arc<LeafNode>>>) -> bool {
    sender matches Sender::Member(i) && i < leaves.len() && leaves[i as int] is Some
}

/// The sender is one of the external senders that are listed.
pub open spec fn is_listed(sender: Sender, listed: Option<ExternalSendersExt>) -> bool {
    sender matches Sender::External(i) && listed matches Some(ext) && i
        < ext.allowed_senders@.len()
}

/// A proposal of this type was sent by somebody who may send it, as it was committed.
pub open spec fn rightly_sent(
    t: ProposalType,
    sender: Sender,
    by_ref: bool,
    leaves: Seq<Option<Arc<LeafNode>>>,
    listed: Option<ExternalSendersExt>,
) -> bool {
    match t {
        ProposalType::Add => sits_in(sender, leaves) || by_ref && (is_listed(sender, listed)
            || sender is NewMemberProposal),
        ProposalType::Update => sits_in(sender, leaves) && by_ref,
        ProposalType::Remove => sits_in(sender, leaves) || by_ref && is_listed(sender, listed)
            || !by_ref && sender is NewMemberCommit,
        ProposalType::Psk => sits_in(sender, leaves) || !by_ref && sender is NewMemberCommit,
        ProposalType::ReInit => sits_in(sender, leaves) || by_ref && is_listed(sender, listed),
        ProposalType::ExternalInit => !by_ref && sender is NewMemberCommit,
        ProposalType::GroupContextExtensions => sits_in(sender, leaves),
        ProposalType::Custom(_) => false,
    }
}

/// What is wrong with the sender of a proposal of this type: it may not send such proposals at
/// all, or not in this way; or it is nobody that the group knows.
pub open spec fn sender_fault<E>(
    t: ProposalType,
    sender: Sender,
    by_ref: bool,
    leaves: Seq<Option<Arc<LeafNode>>>,
    listed: Option<ExternalSendersExt>,
) -> Option<ProposalFilterError<E>> {
    if rightly_sent(t, sender, by_ref, leaves, listed) {
        None
    } else if sender is Member && t !is ExternalInit && t !is Custom && (t is Update ==> by_ref) {
        Some(ProposalFilterError::InvalidMemberProposer(sender->Member_0))
    } else if sender is External && by_ref && (t is Add || t is Remove || t is ReInit) {
        if listed is Some {
            Some(ProposalFilterError::InvalidExternalSenderIndex(sender->External_0))
        } else {
            Some(ProposalFilterError::ExternalSenderWithoutExternalSendersExtension)
        }
    } else {
        Some(
            ProposalFilterError::InvalidProposalTypeForSender { proposal_type: t, sender, by_ref },
        )
    }
}

/// A proposal is accepted from its sender exactly if it was rightly sent; if not, the error
/// names the fault.
pub proof fn rightly_sent_is_accepted<P: Proposable, E>(
    leaves: Seq<Option<Arc<LeafNode>>>,
    listed: Option<ExternalSendersExt>,
    info: ProposalInfo<P>,
)
    ensures
        proposer_verdict::<P, E>(leaves, listed, info) is Ok <==> rightly_sent(
            P::kind(),
            info.sender,
            info.proposal_ref is Some,
            leaves,
            listed,
        ),
        proposer_verdict::<P, E>(leaves, listed, info) == match sender_fault::<E>(
            P::kind(),
            info.sender,
            info.proposal_ref is Some,
            leaves,
            listed,
        ) {
            None => Ok::<(), ProposalFilterError<E>>(()),
            Some(e) => Err(e),
        },
{
    match info.sender {
        Sender::Member(i) => {
            senders_are_known::<E>(leaves, listed, i);
        },
        Sender::External(i) => {
            senders_are_known::<E>(leaves, listed, i);
        },
        _ => {
            senders_are_known::<E>(leaves, listed, 0);
        },
    }
}

/// Proposals of one kind are filtered by whether they were rightly sent, and by nothing else.
pub proof fn wrongly_sent_is_filtered_out<F: FilterStrategy, P: Proposable, E>(
    strategy: F,
    leaves: Seq<Option<Arc<LeafNode>>>,
    listed: Option<ExternalSendersExt>,
    bundle: BundleView,
)
    ensures
        filters::<F, P, E>(
            strategy,
            bundle,
            proposers_screened::<F, P, E>(strategy, leaves, listed, bundle),
            Seq::new(
                P::list(bundle).len(),
                |i: int|
                    sender_fault::<E>(
                        P::kind(),
                        P::list(bundle)[i].sender,
                        P::list(bundle)[i].proposal_ref is Some,
                        leaves,
                        listed,
                    ),
            ),
        ),
{
    let items = P::list(bundle);
    let verdicts = proposer_verdicts::<P, E>(leaves, listed, items);
    let faults = Seq::new(
        items.len(),
        |i: int|
            sender_fault::<E>(
                P::kind(),
                P::list(bundle)[i].sender,
                P::list(bundle)[i].proposal_ref is Some,
                leaves,
                listed,
            ),
    );
    assert forall|i: int| 0 <= i < items.len() implies #[trigger] verdicts[i] == Verdict::Judged(
        match faults[i] {
            None => Ok(()),
            Some(e) => Err(e),
        },
    ) by {
        rightly_sent_is_accepted::<P, E>(leaves, listed, *items[i]);
    }
    screening_filters::<F, P, E>(strategy, bundle, verdicts, faults);
}

} // verus!
