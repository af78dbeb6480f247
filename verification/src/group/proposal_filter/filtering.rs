//! The filters: each drops the proposals of one kind that break one rule, or fails.

use vstd::prelude::*;

use std::sync::Arc;

use crate::extension::{Extension, ExtensionList, ExtensionType, ExternalSendersExt};
use crate::group::proposal::{
    AddProposal, CustomProposal, ExternalInit, PreSharedKeyProposal, ProposalInfo, ProposalType,
    ProtocolVersion, ReInitProposal, RemoveProposal, UpdateProposal,
};
use crate::group::proposal_filter::bundle::{types_in, BundleView, Proposable, ProposalBundle};
use crate::group::proposal_filter::error::ProposalFilterError;
use crate::group::proposal_filter::screening::{
    retain_flagged, screened, screened_flags, yields, Verdict,
};
use crate::group::proposal_filter::strategy::{apply_strategy, FilterStrategy};
use crate::group::sender::Sender;
use crate::tree_kem::{all_support_proposal, occupied, LeafIndex, LeafNode, TreeKemPublic};

verus! {

/// What a second step makes of the result of a first, if that succeeded.
pub open spec fn and_then<A, B, X>(r: Result<A, X>, f: spec_fn(A) -> Result<B, X>) -> Result<B, X> {
    match r {
        Ok(a) => f(a),
        Err(e) => Err(e),
    }
}

// ---------------------------------------------------------------------------
// Support for extensions
// ---------------------------------------------------------------------------

/// The first extension from position `from` on that is neither a default one nor
/// supported.
pub open spec fn first_unsupported(
    extensions: Seq<Extension>,
    supported: spec_fn(ExtensionType) -> bool,
    from: int,
) -> Option<ExtensionType>
    decreases extensions.len() - from,
{
    if from < 0 || from >= extensions.len() {
        None
    } else if !extensions[from].is_default && !supported(extensions[from].extension_type) {
        Some(extensions[from].extension_type)
    } else {
        first_unsupported(extensions, supported, from + 1)
    }
}

/// Success if every extension is a default one or supported, else the first that is not.
pub open spec fn extension_support<E>(
    extensions: Seq<Extension>,
    supported: spec_fn(ExtensionType) -> bool,
) -> Result<(), ProposalFilterError<E>> {
    match first_unsupported(extensions, supported, 0) {
        None => Ok(()),
        Some(t) => Err(ProposalFilterError::UnsupportedGroupExtension(t)),
    }
}

/// What a leaf supports.
pub open spec fn supported_by(leaf: LeafNode) -> spec_fn(ExtensionType) -> bool {
    |t: ExtensionType| leaf.capabilities.extensions@.contains(t)
}

/// Checks that a leaf supports every extension that is not a default one.
pub fn leaf_supports_extensions<E>(leaf: &LeafNode, extensions: &ExtensionList) -> (r: Result<
    (),
    ProposalFilterError<E>,
>)
    ensures
        r == extension_support::<E>(extensions@, supported_by(*leaf)),
{
    let n: usize = extensions.0.len();
    for i in 0..n
        invariant
            n == extensions@.len(),
            first_unsupported(extensions@, supported_by(*leaf), i as int) == first_unsupported(
                extensions@,
                supported_by(*leaf),
                0,
            ),
    {
        let extension = &extensions.0[i];
        if !extension.is_default && !leaf.capabilities.supports_extension(
            extension.extension_type,
        ) {
            return Err(ProposalFilterError::UnsupportedGroupExtension(extension.extension_type));
        }
    }
    Ok(())
}

// ---------------------------------------------------------------------------
// Who may propose what
// ---------------------------------------------------------------------------

/// Who may propose what. A member may send anything but an external
/// initialization, and an update only ahead of the commit; an external sender may
/// ask for additions, removals and a new start; whoever joins by the commit may
/// remove an old self, add keys and initialize; whoever asks to be added, just that.
pub open spec fn may_propose(proposer: Sender, proposal_type: ProposalType, by_ref: bool) -> bool {
    match proposer {
        Sender::Member(_) => match proposal_type {
            ProposalType::Update => by_ref,
            ProposalType::ExternalInit | ProposalType::Custom(_) => false,
            _ => true,
        },
        Sender::External(_) => by_ref && (proposal_type is Add || proposal_type is Remove
            || proposal_type is ReInit),
        Sender::NewMemberCommit => !by_ref && (proposal_type is Remove || proposal_type is Psk
            || proposal_type is ExternalInit),
        Sender::NewMemberProposal => by_ref && proposal_type is Add,
    }
}

/// Whether `proposer` may send a proposal of this type, by reference or in the
/// commit itself.
pub fn proposer_can_propose(proposer: &Sender, proposal_type: ProposalType, by_ref: bool) -> (b:
    bool)
    ensures
        b == may_propose(*proposer, proposal_type, by_ref),
{
    match (proposer, by_ref) {
        (Sender::Member(_), false) => match proposal_type {
            ProposalType::Add
            | ProposalType::Remove
            | ProposalType::Psk
            | ProposalType::ReInit
            | ProposalType::GroupContextExtensions => true,
            _ => false,
        },
        (Sender::Member(_), true) => match proposal_type {
            ProposalType::Add
            | ProposalType::Update
            | ProposalType::Remove
            | ProposalType::Psk
            | ProposalType::ReInit
            | ProposalType::GroupContextExtensions => true,
            _ => false,
        },
        (Sender::External(_), false) => false,
        (Sender::External(_), true) => match proposal_type {
            ProposalType::Add | ProposalType::Remove | ProposalType::ReInit => true,
            _ => false,
        },
        (Sender::NewMemberCommit, false) => match proposal_type {
            ProposalType::Remove | ProposalType::Psk | ProposalType::ExternalInit => true,
            _ => false,
        },
        (Sender::NewMemberCommit, true) => false,
        (Sender::NewMemberProposal, false) => false,
        (Sender::NewMemberProposal, true) => match proposal_type {
            ProposalType::Add => true,
            _ => false,
        },
    }
}

/// A member has to sit in the tree, and an external sender has to be among those
/// that the group allows.
pub open spec fn sender_verdict<E>(
    tree: Seq<Option<Arc<LeafNode>>>,
    external_senders: Option<ExternalSendersExt>,
    sender: Sender,
) -> Result<(), ProposalFilterError<E>> {
    match sender {
        Sender::Member(i) => if occupied(tree, i as int) {
            Ok(())
        } else {
            Err(ProposalFilterError::InvalidMemberProposer(i))
        },
        Sender::External(i) => match external_senders {
            None => Err(ProposalFilterError::ExternalSenderWithoutExternalSendersExtension),
            Some(ext) => if i < ext.allowed_senders@.len() {
                Ok(())
            } else {
                Err(ProposalFilterError::InvalidExternalSenderIndex(i))
            },
        },
        Sender::NewMemberCommit | Sender::NewMemberProposal => Ok(()),
    }
}

/// Checks that the sender is known to the group, or a newcomer.
pub fn validate_sender<E>(
    tree: &TreeKemPublic,
    external_senders: Option<&ExternalSendersExt>,
    sender: &Sender,
) -> (r: Result<(), ProposalFilterError<E>>)
    ensures
        r == sender_verdict::<E>(
            tree@,
            match external_senders {
                Some(ext) => Some(*ext),
                None => None,
            },
            *sender,
        ),
        sender matches Sender::Member(i) ==> (r is Ok <==> *i < tree.leaves@.len()
            && tree.leaves@[*i as int] is Some),
        sender matches Sender::External(i) ==> (r is Ok <==> (external_senders matches Some(ext)
            && *i < ext.allowed_senders@.len())),
{
    match *sender {
        Sender::Member(i) => match tree.get_leaf_node::<E>(LeafIndex(i)) {
            Ok(_) => Ok(()),
            Err(_) => Err(ProposalFilterError::InvalidMemberProposer(i)),
        },
        Sender::External(i) => match external_senders {
            None => Err(ProposalFilterError::ExternalSenderWithoutExternalSendersExtension),
            Some(ext) => {
                if ext.allowed_senders.len() > i as usize {
                    Ok(())
                } else {
                    Err(ProposalFilterError::InvalidExternalSenderIndex(i))
                }
            },
        },
        Sender::NewMemberCommit | Sender::NewMemberProposal => Ok(()),
    }
}

/// The sender may send this kind of proposal, in this way, and is a valid sender.
pub open spec fn proposer_verdict<P: Proposable, E>(
    tree: Seq<Option<Arc<LeafNode>>>,
    external_senders: Option<ExternalSendersExt>,
    info: ProposalInfo<P>,
) -> Result<(), ProposalFilterError<E>> {
    if may_propose(info.sender, P::kind(), info.proposal_ref is Some) {
        sender_verdict(tree, external_senders, info.sender)
    } else {
        Err(
            ProposalFilterError::InvalidProposalTypeForSender {
                proposal_type: P::kind(),
                sender: info.sender,
                by_ref: info.proposal_ref is Some,
            },
        )
    }
}

/// What [`proposer_verdict`] says of each proposal.
pub open spec fn proposer_verdicts<P: Proposable, E>(
    tree: Seq<Option<Arc<LeafNode>>>,
    external_senders: Option<ExternalSendersExt>,
    items: Seq<Arc<ProposalInfo<P>>>,
) -> Seq<Verdict<E>> {
    Seq::new(
        items.len(),
        |i: int| Verdict::Judged(proposer_verdict(tree, external_senders, *items[i])),
    )
}

/// Screens the proposals of one kind by their senders.
pub open spec fn proposers_screened<F: FilterStrategy, P: Proposable, E>(
    strategy: F,
    tree: Seq<Option<Arc<LeafNode>>>,
    external_senders: Option<ExternalSendersExt>,
    bundle: BundleView,
) -> Result<BundleView, ProposalFilterError<E>> {
    screened::<F, P, E>(
        strategy,
        bundle,
        proposer_verdicts::<P, E>(tree, external_senders, P::list(bundle)),
    )
}

/// Drops the proposals of one kind whose sender may not send them, or fails and
/// leaves the bundle as it was.
pub fn validate_proposer<P: Proposable, F: FilterStrategy, E>(
    strategy: &F,
    tree: &TreeKemPublic,
    external_senders: Option<&ExternalSendersExt>,
    proposals: &mut ProposalBundle,
) -> (r: Result<(), ProposalFilterError<E>>)
    ensures
        match proposers_screened::<F, P, E>(
            *strategy,
            tree@,
            match external_senders {
                Some(ext) => Some(*ext),
                None => None,
            },
            old(proposals)@,
        ) {
            Ok(bundle) => r is Ok && final(proposals)@ == bundle,
            Err(e) => r == Err::<(), ProposalFilterError<E>>(e) && final(proposals)@ == old(
                proposals,
            )@,
        },
{
    let ghost senders = match external_senders {
        Some(ext) => Some(*ext),
        None => None,
    };
    let ghost list = P::list(proposals@);
    let ghost verdicts = proposer_verdicts::<P, E>(tree@, senders, list);
    let mut flags: Vec<bool> = Vec::new();
    {
        let items = P::by_type(proposals);
        let n: usize = items.len();
        for i in 0..n
            invariant
                n == items.len(),
                items@ == list,
                list == P::list(old(proposals)@),
                proposals@ == old(proposals)@,
                flags.len() == i,
                verdicts == proposer_verdicts::<P, E>(tree@, senders, list),
                senders == (match external_senders {
                    Some(ext) => Some(*ext),
                    None => None,
                }),
                screened_flags::<F, P, E>(*strategy, list, verdicts, flags@) == screened_flags::<
                    F,
                    P,
                    E,
                >(*strategy, list, verdicts, seq![]),
        {
            let p = &items[i];
            let by_ref = p.proposal_ref.is_some();
            let kind = P::proposal_type();
            let res = if proposer_can_propose(&p.sender, kind, by_ref) {
                validate_sender::<E>(tree, external_senders, &p.sender)
            } else {
                Err(
                    ProposalFilterError::InvalidProposalTypeForSender {
                        proposal_type: kind,
                        sender: p.sender,
                        by_ref,
                    },
                )
            };
            match apply_strategy(strategy, &**p, res) {
                Ok(keep) => flags.push(keep),
                Err(e) => return Err(e),
            }
        }
    }
    retain_flagged::<P>(proposals, &flags);
    Ok(())
}

/// The external senders that count: those that could be decoded.
pub open spec fn usable_senders<E>(
    decoded: Result<Option<ExternalSendersExt>, E>,
) -> Option<ExternalSendersExt> {
    match decoded {
        Ok(senders) => senders,
        Err(_) => None,
    }
}

/// Screens the proposals of every kind that the protocol defines by their senders.
pub open spec fn proposers_filtered<F: FilterStrategy, E>(
    strategy: F,
    tree: Seq<Option<Arc<LeafNode>>>,
    senders: Option<ExternalSendersExt>,
    bundle: BundleView,
) -> Result<BundleView, ProposalFilterError<E>> {
    let r = proposers_screened::<F, AddProposal, E>(strategy, tree, senders, bundle);
    let r = and_then(
        r,
        |b: BundleView| proposers_screened::<F, UpdateProposal, E>(strategy, tree, senders, b),
    );
    let r = and_then(
        r,
        |b: BundleView| proposers_screened::<F, RemoveProposal, E>(strategy, tree, senders, b),
    );
    let r = and_then(
        r,
        |b: BundleView|
            proposers_screened::<F, PreSharedKeyProposal, E>(strategy, tree, senders, b),
    );
    let r = and_then(
        r,
        |b: BundleView| proposers_screened::<F, ReInitProposal, E>(strategy, tree, senders, b),
    );
    let r = and_then(
        r,
        |b: BundleView| proposers_screened::<F, ExternalInit, E>(strategy, tree, senders, b),
    );
    and_then(
        r,
        |b: BundleView| proposers_screened::<F, ExtensionList, E>(strategy, tree, senders, b),
    )
}

/// Drops every proposal whose sender may not send it. `external_senders` is what
/// decoding that extension of the group gave; one that cannot be decoded counts as
/// absent.
pub fn filter_out_invalid_proposers<F: FilterStrategy, E>(
    strategy: &F,
    tree: &TreeKemPublic,
    external_senders: &Result<Option<ExternalSendersExt>, E>,
    proposals: ProposalBundle,
) -> (r: Result<ProposalBundle, ProposalFilterError<E>>)
    ensures
        yields(
            r,
            proposers_filtered::<F, E>(
                *strategy,
                tree@,
                usable_senders(*external_senders),
                proposals@,
            ),
        ),
{
    let senders: Option<&ExternalSendersExt> = match external_senders {
        Ok(Some(ext)) => Some(ext),
        _ => None,
    };
    let mut proposals = proposals;
    if let Err(e) = validate_proposer::<AddProposal, F, E>(
        strategy,
        tree,
        senders,
        &mut proposals,
    ) {
        return Err(e);
    }
    if let Err(e) = validate_proposer::<UpdateProposal, F, E>(
        strategy,
        tree,
        senders,
        &mut proposals,
    ) {
        return Err(e);
    }
    if let Err(e) = validate_proposer::<RemoveProposal, F, E>(
        strategy,
        tree,
        senders,
        &mut proposals,
    ) {
        return Err(e);
    }
    if let Err(e) = validate_proposer::<PreSharedKeyProposal, F, E>(
        strategy,
        tree,
        senders,
        &mut proposals,
    ) {
        return Err(e);
    }
    if let Err(e) = validate_proposer::<ReInitProposal, F, E>(
        strategy,
        tree,
        senders,
        &mut proposals,
    ) {
        return Err(e);
    }
    if let Err(e) = validate_proposer::<ExternalInit, F, E>(
        strategy,
        tree,
        senders,
        &mut proposals,
    ) {
        return Err(e);
    }
    if let Err(e) = validate_proposer::<ExtensionList, F, E>(
        strategy,
        tree,
        senders,
        &mut proposals,
    ) {
        return Err(e);
    }
    Ok(proposals)
}

// ---------------------------------------------------------------------------
// Rules for single proposals
// ---------------------------------------------------------------------------

/// The committer does not update its own leaf by a proposal.
pub open spec fn self_update_verdicts<E>(
    commit_sender: LeafIndex,
    items: Seq<Arc<ProposalInfo<UpdateProposal>>>,
) -> Seq<Verdict<E>> {
    Seq::new(
        items.len(),
        |i: int|
            Verdict::Judged(
                if items[i].sender != Sender::Member(commit_sender.0) {
                    Ok(())
                } else {
                    Err(ProposalFilterError::InvalidCommitSelfUpdate)
                },
            ),
    )
}

/// Drops the updates of the committer: its leaf is replaced by the commit itself.
pub fn filter_out_update_for_committer<F: FilterStrategy, E>(
    strategy: &F,
    commit_sender: LeafIndex,
    proposals: ProposalBundle,
) -> (r: Result<ProposalBundle, ProposalFilterError<E>>)
    ensures
        yields(
            r,
            screened::<F, UpdateProposal, E>(
                *strategy,
                proposals@,
                self_update_verdicts(commit_sender, proposals@.updates),
            ),
        ),
{
    let ghost list = proposals@.updates;
    let ghost verdicts = self_update_verdicts::<E>(commit_sender, proposals@.updates);
    let mut remaining = proposals;
    let mut flags: Vec<bool> = Vec::new();
    let n: usize = remaining.updates.len();
    for i in 0..n
        invariant
            n == list.len(),
            list == proposals@.updates,
            remaining@ == proposals@,
            flags.len() == i,
            verdicts == self_update_verdicts::<E>(commit_sender, list),
            screened_flags::<F, UpdateProposal, E>(*strategy, list, verdicts, flags@)
                == screened_flags::<F, UpdateProposal, E>(*strategy, list, verdicts, seq![]),
    {
        let p = &remaining.updates[i];
        let res = if p.sender != Sender::Member(commit_sender.0) {
            Ok(())
        } else {
            Err(ProposalFilterError::InvalidCommitSelfUpdate)
        };
        match apply_strategy(strategy, &**p, res) {
            Ok(keep) => flags.push(keep),
            Err(e) => return Err(e),
        }
    }
    retain_flagged::<UpdateProposal>(&mut remaining, &flags);
    Ok(remaining)
}

/// The committer is not removed.
pub open spec fn self_removal_verdicts<E>(
    commit_sender: LeafIndex,
    items: Seq<Arc<ProposalInfo<RemoveProposal>>>,
) -> Seq<Verdict<E>> {
    Seq::new(
        items.len(),
        |i: int|
            Verdict::Judged(
                if items[i].proposal.to_remove != commit_sender {
                    Ok(())
                } else {
                    Err(ProposalFilterError::CommitterSelfRemoval)
                },
            ),
    )
}

/// Drops the removals of the committer.
pub fn filter_out_removal_of_committer<F: FilterStrategy, E>(
    strategy: &F,
    commit_sender: LeafIndex,
    proposals: ProposalBundle,
) -> (r: Result<ProposalBundle, ProposalFilterError<E>>)
    ensures
        yields(
            r,
            screened::<F, RemoveProposal, E>(
                *strategy,
                proposals@,
                self_removal_verdicts(commit_sender, proposals@.removals),
            ),
        ),
{
    let ghost list = proposals@.removals;
    let ghost verdicts = self_removal_verdicts::<E>(commit_sender, proposals@.removals);
    let mut remaining = proposals;
    let mut flags: Vec<bool> = Vec::new();
    let n: usize = remaining.removals.len();
    for i in 0..n
        invariant
            n == list.len(),
            list == proposals@.removals,
            remaining@ == proposals@,
            flags.len() == i,
            verdicts == self_removal_verdicts::<E>(commit_sender, list),
            screened_flags::<F, RemoveProposal, E>(*strategy, list, verdicts, flags@)
                == screened_flags::<F, RemoveProposal, E>(*strategy, list, verdicts, seq![]),
    {
        let p = &remaining.removals[i];
        let res = if p.proposal.to_remove != commit_sender {
            Ok(())
        } else {
            Err(ProposalFilterError::CommitterSelfRemoval)
        };
        match apply_strategy(strategy, &**p, res) {
            Ok(keep) => flags.push(keep),
            Err(e) => return Err(e),
        }
    }
    retain_flagged::<RemoveProposal>(&mut remaining, &flags);
    Ok(remaining)
}

/// Only the first change of the group context's extensions is valid.
pub open spec fn extra_extensions_verdicts<E>(
    items: Seq<Arc<ProposalInfo<ExtensionList>>>,
) -> Seq<Verdict<E>> {
    Seq::new(
        items.len(),
        |i: int|
            Verdict::Judged(
                if i == 0 {
                    Ok(())
                } else {
                    Err(ProposalFilterError::MoreThanOneGroupContextExtensionsProposal)
                },
            ),
    )
}

/// Drops all but the first change of the group context's extensions.
pub fn filter_out_extra_group_context_extensions<F: FilterStrategy, E>(
    strategy: &F,
    proposals: ProposalBundle,
) -> (r: Result<ProposalBundle, ProposalFilterError<E>>)
    ensures
        yields(
            r,
            screened::<F, ExtensionList, E>(
                *strategy,
                proposals@,
                extra_extensions_verdicts(proposals@.group_context_extensions),
            ),
        ),
{
    let ghost list = proposals@.group_context_extensions;
    let ghost verdicts = extra_extensions_verdicts::<E>(proposals@.group_context_extensions);
    let mut remaining = proposals;
    let mut flags: Vec<bool> = Vec::new();
    let mut found: bool = false;
    let n: usize = remaining.group_context_extensions.len();
    for i in 0..n
        invariant
            n == list.len(),
            list == proposals@.group_context_extensions,
            remaining@ == proposals@,
            flags.len() == i,
            verdicts == extra_extensions_verdicts::<E>(list),
            found == (i > 0),
            screened_flags::<F, ExtensionList, E>(*strategy, list, verdicts, flags@)
                == screened_flags::<F, ExtensionList, E>(*strategy, list, verdicts, seq![]),
    {
        let p = &remaining.group_context_extensions[i];
        let res = if !found {
            Ok(())
        } else {
            Err(ProposalFilterError::MoreThanOneGroupContextExtensionsProposal)
        };
        found = true;
        match apply_strategy(strategy, &**p, res) {
            Ok(keep) => flags.push(keep),
            Err(e) => return Err(e),
        }
    }
    retain_flagged::<ExtensionList>(&mut remaining, &flags);
    Ok(remaining)
}

/// A group does not go back to an earlier version of the protocol.
pub open spec fn reinit_version_verdicts<E>(
    protocol_version: ProtocolVersion,
    items: Seq<Arc<ProposalInfo<ReInitProposal>>>,
) -> Seq<Verdict<E>> {
    Seq::new(
        items.len(),
        |i: int|
            Verdict::Judged(
                if items[i].proposal.version.0 >= protocol_version.0 {
                    Ok(())
                } else {
                    Err(
                        ProposalFilterError::InvalidProtocolVersionInReInit {
                            proposed: items[i].proposal.version,
                            original: protocol_version,
                        },
                    )
                },
            ),
    )
}

/// Drops the proposals to start the group anew under an earlier version of the protocol.
pub fn filter_out_invalid_reinit<F: FilterStrategy, E>(
    strategy: &F,
    proposals: ProposalBundle,
    protocol_version: ProtocolVersion,
) -> (r: Result<ProposalBundle, ProposalFilterError<E>>)
    ensures
        yields(
            r,
            screened::<F, ReInitProposal, E>(
                *strategy,
                proposals@,
                reinit_version_verdicts(protocol_version, proposals@.reinitializations),
            ),
        ),
{
    let ghost list = proposals@.reinitializations;
    let ghost verdicts = reinit_version_verdicts::<E>(
        protocol_version,
        proposals@.reinitializations,
    );
    let mut remaining = proposals;
    let mut flags: Vec<bool> = Vec::new();
    let n: usize = remaining.reinitializations.len();
    for i in 0..n
        invariant
            n == list.len(),
            list == proposals@.reinitializations,
            remaining@ == proposals@,
            flags.len() == i,
            verdicts == reinit_version_verdicts::<E>(protocol_version, list),
            screened_flags::<F, ReInitProposal, E>(*strategy, list, verdicts, flags@)
                == screened_flags::<F, ReInitProposal, E>(*strategy, list, verdicts, seq![]),
    {
        let p = &remaining.reinitializations[i];
        let res = if p.proposal.version.0 >= protocol_version.0 {
            Ok(())
        } else {
            Err(
                ProposalFilterError::InvalidProtocolVersionInReInit {
                    proposed: p.proposal.version,
                    original: protocol_version,
                },
            )
        };
        match apply_strategy(strategy, &**p, res) {
            Ok(keep) => flags.push(keep),
            Err(e) => return Err(e),
        }
    }
    retain_flagged::<ReInitProposal>(&mut remaining, &flags);
    Ok(remaining)
}

/// No proposal of the bundle is of another type than a new start of the group.
pub open spec fn only_reinit(bundle: BundleView) -> bool {
    forall|i: int| 0 <= i < types_in(bundle).len() ==> types_in(bundle)[i] == ProposalType::ReInit
}

/// A new start of the group is the only proposal of its commit.
pub open spec fn lone_reinit_verdicts<E>(
    only_reinit: bool,
    items: Seq<Arc<ProposalInfo<ReInitProposal>>>,
) -> Seq<Verdict<E>> {
    Seq::new(
        items.len(),
        |i: int|
            Verdict::Judged(
                if only_reinit && i == 0 {
                    Ok(())
                } else {
                    Err(ProposalFilterError::OtherProposalWithReInit)
                },
            ),
    )
}

/// Drops the proposals to start the group anew if there are others, and all but the
/// first of them if not.
pub fn filter_out_reinit_if_other_proposals<F: FilterStrategy, E>(
    strategy: &F,
    proposals: ProposalBundle,
) -> (r: Result<ProposalBundle, ProposalFilterError<E>>)
    ensures
        yields(
            r,
            screened::<F, ReInitProposal, E>(
                *strategy,
                proposals@,
                lone_reinit_verdicts(only_reinit(proposals@), proposals@.reinitializations),
            ),
        ),
{
    let ghost list = proposals@.reinitializations;
    let ghost verdicts = lone_reinit_verdicts::<E>(
        only_reinit(proposals@),
        proposals@.reinitializations,
    );
    let mut remaining = proposals;
    let mut flags: Vec<bool> = Vec::new();
    let types = remaining.proposal_types();
    let mut has_only_reinit: bool = true;
    let m: usize = types.len();
    for k in 0..m
        invariant
            m == types.len(),
            has_only_reinit == (forall|j: int| 0 <= j < k ==> types@[j] == ProposalType::ReInit),
    {
        has_only_reinit = has_only_reinit && types[k] == ProposalType::ReInit;
    }
    let mut found: bool = false;
    let n: usize = remaining.reinitializations.len();
    for i in 0..n
        invariant
            n == list.len(),
            list == proposals@.reinitializations,
            remaining@ == proposals@,
            flags.len() == i,
            verdicts == lone_reinit_verdicts::<E>(only_reinit(proposals@), list),
            has_only_reinit == only_reinit(proposals@),
            found == (has_only_reinit && i > 0),
            screened_flags::<F, ReInitProposal, E>(*strategy, list, verdicts, flags@)
                == screened_flags::<F, ReInitProposal, E>(*strategy, list, verdicts, seq![]),
    {
        let p = &remaining.reinitializations[i];
        let res = if has_only_reinit && !found {
            found = true;
            Ok(())
        } else {
            Err(ProposalFilterError::OtherProposalWithReInit)
        };
        match apply_strategy(strategy, &**p, res) {
            Ok(keep) => flags.push(keep),
            Err(e) => return Err(e),
        }
    }
    retain_flagged::<ReInitProposal>(&mut remaining, &flags);
    Ok(remaining)
}

/// A member does not commit an external initialization.
pub open spec fn no_external_init_verdicts<E>(
    commit_sender: LeafIndex,
    items: Seq<Arc<ProposalInfo<ExternalInit>>>,
) -> Seq<Verdict<E>> {
    Seq::new(
        items.len(),
        |i: int|
            Verdict::Judged(
                Err(
                    ProposalFilterError::InvalidProposalTypeForSender {
                        proposal_type: ProposalType::ExternalInit,
                        sender: Sender::Member(commit_sender.0),
                        by_ref: items[i].proposal_ref is Some,
                    },
                ),
            ),
    )
}

/// Drops the external initializations: the committer is a member already.
pub fn filter_out_external_init<F: FilterStrategy, E>(
    strategy: &F,
    commit_sender: LeafIndex,
    proposals: ProposalBundle,
) -> (r: Result<ProposalBundle, ProposalFilterError<E>>)
    ensures
        yields(
            r,
            screened::<F, ExternalInit, E>(
                *strategy,
                proposals@,
                no_external_init_verdicts(commit_sender, proposals@.external_initializations),
            ),
        ),
{
    let ghost list = proposals@.external_initializations;
    let ghost verdicts = no_external_init_verdicts::<E>(
        commit_sender,
        proposals@.external_initializations,
    );
    let mut remaining = proposals;
    let mut flags: Vec<bool> = Vec::new();
    let n: usize = remaining.external_initializations.len();
    for i in 0..n
        invariant
            n == list.len(),
            list == proposals@.external_initializations,
            remaining@ == proposals@,
            flags.len() == i,
            verdicts == no_external_init_verdicts::<E>(commit_sender, list),
            screened_flags::<F, ExternalInit, E>(*strategy, list, verdicts, flags@)
                == screened_flags::<F, ExternalInit, E>(*strategy, list, verdicts, seq![]),
    {
        let p = &remaining.external_initializations[i];
        let res = Err(
            ProposalFilterError::InvalidProposalTypeForSender {
                proposal_type: ProposalType::ExternalInit,
                sender: Sender::Member(commit_sender.0),
                by_ref: p.proposal_ref.is_some(),
            },
        );
        match apply_strategy(strategy, &**p, res) {
            Ok(keep) => flags.push(keep),
            Err(e) => return Err(e),
        }
    }
    retain_flagged::<ExternalInit>(&mut remaining, &flags);
    Ok(remaining)
}

// ---------------------------------------------------------------------------
// Updates and custom proposals
// ---------------------------------------------------------------------------

/// The leaf that an update replaces: its sender's.
pub open spec fn update_leaf<E>(info: ProposalInfo<UpdateProposal>) -> Result<
    LeafIndex,
    ProposalFilterError<E>,
> {
    match info.sender {
        Sender::Member(i) => Ok(LeafIndex(i)),
        _ => Err(
            ProposalFilterError::InvalidProposalTypeForSender {
                proposal_type: ProposalType::Update,
                sender: info.sender,
                by_ref: info.proposal_ref is Some,
            },
        ),
    }
}

/// The leaf that an update replaces; only members have one.
pub fn leaf_index_of_update_sender<E>(p: &ProposalInfo<UpdateProposal>) -> (r: Result<
    LeafIndex,
    ProposalFilterError<E>,
>)
    ensures
        r == update_leaf::<E>(*p),
{
    match p.sender {
        Sender::Member(i) => Ok(LeafIndex(i)),
        _ => Err(
            ProposalFilterError::InvalidProposalTypeForSender {
                proposal_type: ProposalType::Update,
                sender: p.sender,
                by_ref: p.proposal_ref.is_some(),
            },
        ),
    }
}

/// A custom proposal has to be of a type that every member supports.
pub open spec fn custom_verdicts<E>(
    tree: Seq<Option<Arc<LeafNode>>>,
    items: Seq<Arc<ProposalInfo<CustomProposal>>>,
) -> Seq<Verdict<E>> {
    Seq::new(
        items.len(),
        |i: int|
            Verdict::Judged(
                if all_support_proposal(tree, items[i].proposal.proposal_type) {
                    Ok(())
                } else {
                    Err(
                        ProposalFilterError::UnsupportedCustomProposal(
                            items[i].proposal.proposal_type,
                        ),
                    )
                },
            ),
    )
}

} // verus!
