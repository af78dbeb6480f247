//! Who sent a message.

use vstd::prelude::*;

verus! {

/// Who sent a proposal or a commit.
#[derive(Clone, Copy, Debug, PartialEq, Eq, Structural)]
pub enum Sender {
    /// The member at this leaf.
    Member(u32),
    /// The allowed external sender with this number.
    External(u32),
    /// Somebody who joins by this very commit.
    NewMemberCommit,
    /// Somebody who proposes to be added.
    NewMemberProposal,
}

} // verus!
