//! Why the proposals of a commit are refused.

use vstd::prelude::*;

use crate::extension::ExtensionType;
use crate::group::proposal::{ProposalType, ProtocolVersion};
use crate::group::sender::Sender;
use crate::tree_kem::RatchetTreeError;

verus! {

/// Why the proposals of a commit are refused. `E` is the error of the services
/// that are asked along the way.
#[derive(Clone, Debug, PartialEq)]
pub enum ProposalFilterError<E> {
    ExternalSenderCannotCommit,
    ExternalCommitMustHaveNewLeaf,
    ExternalCommitMustHaveExactlyOneExternalInit,
    ExternalCommitWithMoreThanOneRemove,
    ExternalCommitRemovesOtherIdentity,
    InvalidProposalTypeInExternalCommit(ProposalType),
    OnlyMembersCanCommitProposalsByRef,
    InvalidCommitSelfUpdate,
    CommitterSelfRemoval,
    MoreThanOneProposalForLeaf(u32),
    MoreThanOneGroupContextExtensionsProposal,
    InvalidProtocolVersionInReInit { proposed: ProtocolVersion, original: ProtocolVersion },
    OtherProposalWithReInit,
    InvalidProposalTypeForSender { proposal_type: ProposalType, sender: Sender, by_ref: bool },
    InvalidMemberProposer(u32),
    ExternalSenderWithoutExternalSendersExtension,
    InvalidExternalSenderIndex(u32),
    InvalidTypeOrUsageInPreSharedKeyProposal,
    InvalidPskNonceLength { expected: usize, found: usize },
    DuplicatePskIds,
    UnsupportedGroupExtension(ExtensionType),
    UnsupportedCustomProposal(ProposalType),
    /// The name of an external pre-shared key was not recognised.
    PskIdValidationError(E),
    /// The identity provider refused an external sender.
    IdentityProviderError(E),
    /// An extension could not be decoded.
    ExtensionError(E),
    /// The leaf of an update was not valid.
    LeafNodeValidationError(E),
    /// The key package of an addition was not valid.
    KeyPackageValidationError(E),
    /// The ratchet tree refused a change.
    RatchetTreeError(RatchetTreeError<E>),
}

} // verus!
