//! The proposals that a commit can carry.

use vstd::prelude::*;

use std::sync::Arc;

use crate::extension::ExtensionList;
use crate::group::sender::Sender;
use crate::tree_kem::{LeafIndex, LeafNode};

verus! {

/// The kind of a proposal.
#[derive(Clone, Copy, Debug, PartialEq, Eq, Structural)]
pub enum ProposalType {
    Add,
    Update,
    Remove,
    Psk,
    ReInit,
    ExternalInit,
    GroupContextExtensions,
    /// A kind that the protocol itself does not define, by its code point.
    Custom(u16),
}

/// A version of the protocol; later versions have larger numbers.
#[derive(Clone, Copy, Debug, PartialEq, Eq, Structural)]
pub struct ProtocolVersion(pub u16);

/// The keys of somebody who may be added to a group.
#[derive(Clone, Debug, PartialEq)]
pub struct KeyPackage {
    pub leaf_node: Arc<LeafNode>,
    /// The package as it was received, for validators that need all of it.
    pub encoded: Vec<u8>,
}

/// Add the owner of a key package to the group.
#[derive(Clone, Debug, PartialEq)]
pub struct AddProposal {
    pub key_package: KeyPackage,
}

/// Replace the sender's own leaf.
#[derive(Clone, Debug, PartialEq)]
pub struct UpdateProposal {
    pub leaf_node: Arc<LeafNode>,
}

/// Remove a member.
#[derive(Clone, Debug, PartialEq)]
pub struct RemoveProposal {
    pub to_remove: LeafIndex,
}

/// What a resumption secret is used for.
#[derive(Clone, Copy, Debug, PartialEq, Eq, Structural)]
pub enum ResumptionPSKUsage {
    Application,
    Reinit,
    Branch,
}

/// A secret of an earlier epoch of some group.
#[derive(Clone, Debug, PartialEq)]
pub struct ResumptionPsk {
    pub usage: ResumptionPSKUsage,
    pub psk_group_id: Vec<u8>,
    pub psk_epoch: u64,
}

/// Names a pre-shared key, without its nonce.
#[derive(Clone, Debug, PartialEq)]
pub enum JustPreSharedKeyID {
    External(Vec<u8>),
    Resumption(ResumptionPsk),
}

/// Names a pre-shared key.
#[derive(Clone, Debug, PartialEq)]
pub struct PreSharedKeyID {
    pub key_id: JustPreSharedKeyID,
    pub psk_nonce: Vec<u8>,
}

/// Mix a pre-shared key into the key schedule.
#[derive(Clone, Debug, PartialEq)]
pub struct PreSharedKeyProposal {
    pub psk: PreSharedKeyID,
}

/// Start the group anew, perhaps under other parameters.
#[derive(Clone, Debug, PartialEq)]
pub struct ReInitProposal {
    pub version: ProtocolVersion,
    /// The remaining parameters, as they were received.
    pub encoded: Vec<u8>,
}

/// Join a group by an external commit.
#[derive(Clone, Debug, PartialEq)]
pub struct ExternalInit {
    pub kem_output: Vec<u8>,
}

/// A proposal of a kind that the protocol itself does not define.
#[derive(Clone, Debug, PartialEq)]
pub struct CustomProposal {
    pub proposal_type: ProposalType,
    pub data: Vec<u8>,
}

/// A proposal of any kind.
#[derive(Clone, Copy, Debug, PartialEq)]
pub enum BorrowedProposal<'a> {
    Add(&'a AddProposal),
    Update(&'a UpdateProposal),
    Remove(&'a RemoveProposal),
    Psk(&'a PreSharedKeyProposal),
    ReInit(&'a ReInitProposal),
    ExternalInit(&'a ExternalInit),
    GroupContextExtensions(&'a ExtensionList),
    Custom(&'a CustomProposal),
}

/// The hash by which a commit refers to a proposal that was sent before it.
#[derive(Clone, Debug, PartialEq)]
pub struct ProposalRef(pub Vec<u8>);

/// A proposal with its sender, and with the reference by which it was committed;
/// a proposal that is part of the commit itself has none.
#[derive(Clone, Debug, PartialEq)]
pub struct ProposalInfo<T> {
    pub proposal: T,
    pub sender: Sender,
    pub proposal_ref: Option<Arc<ProposalRef>>,
}

} // verus!
