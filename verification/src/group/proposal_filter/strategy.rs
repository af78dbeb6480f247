//! What becomes of a proposal that is not valid.

use vstd::prelude::*;

use crate::group::proposal::{BorrowedProposal, ProposalInfo};
use crate::group::proposal_filter::bundle::Bundled;
use crate::group::proposal_filter::error::ProposalFilterError;

verus! {

/// Decides what becomes of a proposal that is not valid: it is ignored, and the
/// commit goes on without it, or the commit fails. The answer depends on the
/// strategy and on the proposal alone.
pub trait FilterStrategy {
    /// The strategy ignores `proposal` if it is not valid.
    spec fn ignores(&self, proposal: ProposalInfo<BorrowedProposal<'_>>) -> bool;

    /// Whether to ignore `proposal`, which is not valid.
    fn ignore(&self, proposal: &ProposalInfo<BorrowedProposal<'_>>) -> (b: bool)
        ensures
            b == self.ignores(*proposal),
    ;
}

impl<T: FilterStrategy + ?Sized> FilterStrategy for &T {
    open spec fn ignores(&self, proposal: ProposalInfo<BorrowedProposal<'_>>) -> bool {
        (**self).ignores(proposal)
    }

    fn ignore(&self, proposal: &ProposalInfo<BorrowedProposal<'_>>) -> (b: bool) {
        (**self).ignore(proposal)
    }
}

/// Ignores what is not valid where it was committed by reference: the committer
/// did not choose what others have proposed.
#[derive(Clone, Copy, Debug)]
pub struct IgnoreInvalidByRefProposal;

impl FilterStrategy for IgnoreInvalidByRefProposal {
    open spec fn ignores(&self, proposal: ProposalInfo<BorrowedProposal<'_>>) -> bool {
        proposal.proposal_ref is Some
    }

    fn ignore(&self, proposal: &ProposalInfo<BorrowedProposal<'_>>) -> (b: bool) {
        proposal.proposal_ref.is_some()
    }
}

/// Never ignores anything.
#[derive(Clone, Copy, Debug)]
pub struct FailInvalidProposal;

impl FilterStrategy for FailInvalidProposal {
    open spec fn ignores(&self, proposal: ProposalInfo<BorrowedProposal<'_>>) -> bool {
        false
    }

    fn ignore(&self, proposal: &ProposalInfo<BorrowedProposal<'_>>) -> (b: bool) {
        false
    }
}

/// The proposal as one of any kind, with the same sender and reference.
pub open spec fn borrowed_info<P: Bundled>(info: &ProposalInfo<P>) -> ProposalInfo<
    BorrowedProposal<'_>,
> {
    ProposalInfo {
        proposal: info.proposal.borrowed(),
        sender: info.sender,
        proposal_ref: info.proposal_ref,
    }
}

impl<P: Bundled> ProposalInfo<P> {
    /// The proposal as one of any kind, with the same sender and reference.
    pub fn by_ref(&self) -> (info: ProposalInfo<BorrowedProposal<'_>>)
        ensures
            info == borrowed_info(self),
    {
        ProposalInfo {
            proposal: self.proposal.borrow(),
            sender: self.sender,
            proposal_ref: match &self.proposal_ref {
                Some(r) => Some(r.clone()),
                None => None,
            },
        }
    }
}

/// Whether a proposal is kept, given what is wrong with it; or that the commit fails.
pub open spec fn strategy_applied<F: FilterStrategy, P: Bundled, E>(
    strategy: F,
    info: ProposalInfo<P>,
    r: Result<(), ProposalFilterError<E>>,
) -> Result<bool, ProposalFilterError<E>> {
    match r {
        Ok(_) => Ok(true),
        Err(e) => if strategy.ignores(borrowed_info(&info)) {
            Ok(false)
        } else {
            Err(e)
        },
    }
}

/// Whether to keep `proposal`, given what is wrong with it. Where something is, it
/// is dropped if the strategy ignores it, and the commit fails if not.
pub fn apply_strategy<F: FilterStrategy, P: Bundled, E>(
    strategy: &F,
    proposal: &ProposalInfo<P>,
    r: Result<(), ProposalFilterError<E>>,
) -> (keep: Result<bool, ProposalFilterError<E>>)
    ensures
        keep == strategy_applied(*strategy, *proposal, r),
{
    match r {
        Ok(_) => Ok(true),
        Err(e) => {
            if strategy.ignore(&proposal.by_ref()) {
                Ok(false)
            } else {
                Err(e)
            }
        },
    }
}

} // verus!
