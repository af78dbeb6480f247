//! Rules for a commit by which somebody joins the group.

use vstd::prelude::*;

use std::sync::Arc;

use crate::group::proposal::{ProposalInfo, ProposalType};
use crate::group::proposal_filter::bundle::{types_in, BundleView, Bundled, ProposalBundle};
use crate::group::proposal_filter::error::ProposalFilterError;
use crate::tree_kem::{occupied, LeafNode, RatchetTreeError, TreeKemPublic};

verus! {

/// Checks that the commit holds exactly one external initialization.
pub fn ensure_exactly_one_external_init<E>(proposals: &ProposalBundle) -> (r: Result<
    (),
    ProposalFilterError<E>,
>)
    ensures
        r == one_external_init::<E>(proposals@),
{
    if proposals.external_initializations.len() == 1 {
        Ok(())
    } else {
        Err(ProposalFilterError::ExternalCommitMustHaveExactlyOneExternalInit)
    }
}

/// Success if the bundle holds exactly one external initialization.
pub open spec fn one_external_init<E>(bundle: BundleView) -> Result<(), ProposalFilterError<E>> {
    if bundle.external_initializations.len() == 1 {
        Ok(())
    } else {
        Err(ProposalFilterError::ExternalCommitMustHaveExactlyOneExternalInit)
    }
}

/// Proposals of this type may be part of an external commit.
pub open spec fn allowed_in_external_commit(t: ProposalType) -> bool {
    t is ExternalInit || t is Remove || t is Psk
}

/// The first type from position `from` on that may not be part of an external commit.
pub open spec fn first_disallowed(types: Seq<ProposalType>, from: int) -> Option<ProposalType>
    decreases types.len() - from,
{
    if from < 0 || from >= types.len() {
        None
    } else if !allowed_in_external_commit(types[from]) {
        Some(types[from])
    } else {
        first_disallowed(types, from + 1)
    }
}

/// Success if every type that occurs may be part of an external commit, else the
/// first that may not.
pub open spec fn only_allowed_types<E>(bundle: BundleView) -> Result<(), ProposalFilterError<E>> {
    match first_disallowed(types_in(bundle), 0) {
        Some(t) => Err(ProposalFilterError::InvalidProposalTypeInExternalCommit(t)),
        None => Ok(()),
    }
}

/// Checks that the commit holds only external initializations, removals and
/// pre-shared keys.
pub fn ensure_proposals_in_external_commit_are_allowed<E>(proposals: &ProposalBundle) -> (r: Result<
    (),
    ProposalFilterError<E>,
>)
    ensures
        r == only_allowed_types::<E>(proposals@),
{
    let types = proposals.proposal_types();
    let n: usize = types.len();
    for i in 0..n
        invariant
            n == types.len(),
            types@ == types_in(proposals@),
            first_disallowed(types@, i as int) == first_disallowed(types@, 0),
    {
        match types[i] {
            ProposalType::ExternalInit | ProposalType::Remove | ProposalType::Psk => {},
            _ => return Err(ProposalFilterError::InvalidProposalTypeInExternalCommit(types[i])),
        }
    }
    Ok(())
}

/// One of these proposals was committed by reference.
pub open spec fn any_by_ref<P>(list: Seq<Arc<ProposalInfo<P>>>) -> bool {
    exists|i: int| 0 <= i < list.len() && (#[trigger] list[i]).proposal_ref is Some
}

/// Some proposal of the bundle was committed by reference.
pub open spec fn holds_by_ref(bundle: BundleView) -> bool {
    ||| any_by_ref(bundle.additions)
    ||| any_by_ref(bundle.updates)
    ||| any_by_ref(bundle.removals)
    ||| any_by_ref(bundle.psks)
    ||| any_by_ref(bundle.reinitializations)
    ||| any_by_ref(bundle.external_initializations)
    ||| any_by_ref(bundle.group_context_extensions)
    ||| any_by_ref(bundle.custom_proposals)
}

/// Success if no proposal of the bundle was committed by reference.
pub open spec fn none_by_ref<E>(bundle: BundleView) -> Result<(), ProposalFilterError<E>> {
    if holds_by_ref(bundle) {
        Err(ProposalFilterError::OnlyMembersCanCommitProposalsByRef)
    } else {
        Ok(())
    }
}

/// Whether one of these proposals was committed by reference.
fn has_by_ref<P: Bundled>(list: &Vec<Arc<ProposalInfo<P>>>) -> (b: bool)
    ensures
        b == any_by_ref(list@),
{
    let n: usize = list.len();
    for i in 0..n
        invariant
            n == list.len(),
            forall|j: int| 0 <= j < i ==> (#[trigger] list@[j]).proposal_ref is None,
    {
        if list[i].proposal_ref.is_some() {
            assert(list@[i as int].proposal_ref is Some);
            return true;
        }
    }
    false
}

/// Checks that no proposal was committed by reference.
pub fn ensure_no_proposal_by_ref<E>(proposals: &ProposalBundle) -> (r: Result<
    (),
    ProposalFilterError<E>,
>)
    ensures
        r == none_by_ref::<E>(proposals@),
{
    if has_by_ref(&proposals.additions) || has_by_ref(&proposals.updates) || has_by_ref(
        &proposals.removals,
    ) || has_by_ref(&proposals.psks) || has_by_ref(&proposals.reinitializations) || has_by_ref(
        &proposals.external_initializations,
    ) || has_by_ref(&proposals.group_context_extensions) || has_by_ref(
        &proposals.custom_proposals,
    ) {
        Err(ProposalFilterError::OnlyMembersCanCommitProposalsByRef)
    } else {
        Ok(())
    }
}

/// Whoever joins may remove one leaf, its own earlier one. Gives the leaf whose
/// identity has to be compared with the newcomer's, if one is to be removed.
pub open spec fn self_removal<E>(
    bundle: BundleView,
    tree: Seq<Option<Arc<LeafNode>>>,
) -> Result<Option<Arc<LeafNode>>, ProposalFilterError<E>> {
    if bundle.removals.len() == 0 {
        Ok(None)
    } else if bundle.removals.len() > 1 {
        Err(ProposalFilterError::ExternalCommitWithMoreThanOneRemove)
    } else {
        let index = bundle.removals[0].proposal.to_remove;
        if occupied(tree, index.0 as int) {
            Ok(tree[index.0 as int])
        } else {
            Err(ProposalFilterError::RatchetTreeError(RatchetTreeError::LeafNotFound(index)))
        }
    }
}

/// Checks that the commit removes at most one leaf, and gives that leaf, whose
/// identity [`ensure_removal_is_for_self`] is to be asked about.
pub fn ensure_at_most_one_removal_for_self<E>(
    proposals: &ProposalBundle,
    tree: &TreeKemPublic,
) -> (r: Result<Option<Arc<LeafNode>>, ProposalFilterError<E>>)
    ensures
        r == self_removal::<E>(proposals@, tree@),
{
    if proposals.removals.len() == 0 {
        Ok(None)
    } else if proposals.removals.len() > 1 {
        Err(ProposalFilterError::ExternalCommitWithMoreThanOneRemove)
    } else {
        let removal = &proposals.removals[0].proposal;
        match tree.get_leaf_node::<E>(removal.to_remove) {
            Ok(leaf) => Ok(Some(leaf.clone())),
            Err(e) => Err(ProposalFilterError::RatchetTreeError(e)),
        }
    }
}

/// What the identity provider's answer means: the newcomer has to be a valid
/// successor of the member that the commit removes.
pub open spec fn successor_verdict<E>(valid_successor: Result<bool, E>) -> Result<
    (),
    ProposalFilterError<E>,
> {
    match valid_successor {
        Ok(true) => Ok(()),
        Ok(false) => Err(ProposalFilterError::ExternalCommitRemovesOtherIdentity),
        Err(e) => Err(
            ProposalFilterError::RatchetTreeError(RatchetTreeError::CredentialValidationError(e)),
        ),
    }
}

/// Checks the identity provider's answer to whether the newcomer is a valid
/// successor of the member that the commit removes.
pub fn ensure_removal_is_for_self<E>(valid_successor: Result<bool, E>) -> (r: Result<
    (),
    ProposalFilterError<E>,
>)
    ensures
        r == successor_verdict(valid_successor),
{
    match valid_successor {
        Ok(true) => Ok(()),
        Ok(false) => Err(ProposalFilterError::ExternalCommitRemovesOtherIdentity),
        Err(e) => Err(
            ProposalFilterError::RatchetTreeError(RatchetTreeError::CredentialValidationError(e)),
        ),
    }
}

} // verus!
