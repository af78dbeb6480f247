//! The public ratchet tree, as far as proposals are checked against it.

use vstd::prelude::*;

use std::sync::Arc;

use crate::extension::ExtensionType;
use crate::group::proposal::ProposalType;
use crate::identity::SigningIdentity;

verus! {

/// The position of a leaf in the tree.
#[derive(Clone, Copy, Debug, PartialEq, Eq, Structural)]
pub struct LeafIndex(pub u32);

/// What the owner of a leaf supports.
#[derive(Clone, Debug, PartialEq)]
pub struct Capabilities {
    pub extensions: Vec<ExtensionType>,
    pub proposals: Vec<ProposalType>,
}

/// A member of the group.
#[derive(Clone, Debug, PartialEq)]
pub struct LeafNode {
    pub signing_identity: SigningIdentity,
    pub capabilities: Capabilities,
    /// The leaf as it was received, for validators that need all of it.
    pub encoded: Vec<u8>,
}

/// The private state of a member: where it sits, and the secret key of its leaf, `K`.
#[derive(Clone, Debug, PartialEq)]
pub struct TreeKemPrivate<K> {
    pub self_index: LeafIndex,
    pub secret_key: K,
}

impl<K> TreeKemPrivate<K> {
    /// The private state of a member that knows of its own leaf alone.
    pub fn new_self_leaf(self_index: LeafIndex, secret_key: K) -> (private: Self)
        ensures
            private == (TreeKemPrivate { self_index, secret_key }),
    {
        TreeKemPrivate { self_index, secret_key }
    }
}

/// Why an operation on the ratchet tree failed. `E` is the error of the services
/// that the tree relies on.
#[derive(Clone, Debug, PartialEq)]
pub enum RatchetTreeError<E> {
    /// No member sits at this position.
    LeafNotFound(LeafIndex),
    /// The identity of a member could not be established.
    CredentialValidationError(E),
    /// The tree could not be changed.
    Edit(E),
}

/// The leaves of a ratchet tree; a blank leaf is `None`.
#[derive(Debug, PartialEq)]
pub struct TreeKemPublic {
    pub leaves: Vec<Option<Arc<LeafNode>>>,
}

impl View for TreeKemPublic {
    type V = Seq<Option<Arc<LeafNode>>>;

    open spec fn view(&self) -> Seq<Option<Arc<LeafNode>>> {
        self.leaves@
    }
}

/// A member sits at leaf `i` of the tree.
pub open spec fn occupied(leaves: Seq<Option<Arc<LeafNode>>>, i: int) -> bool {
    0 <= i < leaves.len() && leaves[i] is Some
}

/// The members of the tree, in the order of their leaves.
pub open spec fn members(leaves: Seq<Option<Arc<LeafNode>>>) -> Seq<Arc<LeafNode>>
    decreases leaves.len(),
{
    if leaves.len() == 0 {
        seq![]
    } else {
        match leaves.last() {
            Some(leaf) => members(leaves.drop_last()).push(leaf),
            None => members(leaves.drop_last()),
        }
    }
}

/// Whoever sits in the tree is among its members, and nobody else is.
pub proof fn members_sit_in_the_tree(leaves: Seq<Option<Arc<LeafNode>>>)
    ensures
        forall|i: int| #[trigger]
            occupied(leaves, i) ==> members(leaves).contains(leaves[i]->0),
        forall|k: int|
            0 <= k < members(leaves).len() ==> leaves.contains(Some(#[trigger] members(leaves)[k])),
    decreases leaves.len(),
{
    if leaves.len() > 0 {
        let before = leaves.drop_last();
        members_sit_in_the_tree(before);
        assert forall|i: int| #[trigger] occupied(leaves, i) implies members(leaves).contains(
            leaves[i]->0,
        ) by {
            if i < before.len() {
                assert(occupied(before, i));
                let k = choose|k: int|
                    0 <= k < members(before).len() && members(before)[k] == leaves[i]->0;
                assert(members(leaves)[k] == leaves[i]->0);
            } else {
                assert(members(leaves)[members(before).len() as int] == leaves[i]->0);
            }
        }
        assert forall|k: int| 0 <= k < members(leaves).len() implies leaves.contains(
            Some(#[trigger] members(leaves)[k]),
        ) by {
            if k < members(before).len() {
                let leaf = members(before)[k];
                assert(before.contains(Some(leaf)));
                let i = choose|i: int| 0 <= i < before.len() && before[i] == Some(leaf);
                assert(leaves[i] == Some(leaf));
            } else {
                assert(leaves[leaves.len() - 1] == Some(members(leaves)[k]));
            }
        }
    }
}

/// The members are the leaves that are not blank, each once, in the order of the tree: there is
/// an increasing sequence of positions, one for each member, that leaves no such leaf out.
pub proof fn members_are_the_leaves(leaves: Seq<Option<Arc<LeafNode>>>) -> (positions: Seq<int>)
    ensures
        positions.len() == members(leaves).len(),
        forall|k: int|
            0 <= k < positions.len() ==> 0 <= #[trigger] positions[k] < leaves.len()
                && leaves[positions[k]] == Some(members(leaves)[k]),
        forall|k: int, l: int|
            0 <= k < l < positions.len() ==> #[trigger] positions[k] < #[trigger] positions[l],
        forall|i: int|
            0 <= i < leaves.len() && #[trigger] leaves[i] is Some ==> positions.contains(i),
    decreases leaves.len(),
{
    if leaves.len() == 0 {
        seq![]
    } else {
        let before = leaves.drop_last();
        let n = before.len() as int;
        let p = members_are_the_leaves(before);
        assert forall|k: int| 0 <= k < p.len() implies leaves[#[trigger] p[k]] == Some(
            members(before)[k],
        ) by {
            assert(leaves[p[k]] == before[p[k]]);
        }
        let q = if leaves.last() is Some {
            p.push(n)
        } else {
            p
        };
        assert forall|i: int|
            0 <= i < leaves.len() && #[trigger] leaves[i] is Some implies q.contains(i) by {
            if i < n {
                assert(before[i] is Some);
                let k = choose|k: int| 0 <= k < p.len() && p[k] == i;
                assert(q[k] == i);
            } else {
                assert(q[p.len() as int] == i);
            }
        }
        q
    }
}

/// Support by all members is support by each: every leaf that is not blank lists the type.
pub proof fn support_is_of_each(
    leaves: Seq<Option<Arc<LeafNode>>>,
    proposal_type: ProposalType,
    extension_type: ExtensionType,
)
    ensures
        all_support_proposal(leaves, proposal_type) <==> forall|i: int|
            0 <= i < leaves.len() ==> (#[trigger] leaves[i] matches Some(leaf)
                ==> leaf.capabilities.proposals@.contains(proposal_type)),
        all_support_extension(leaves, extension_type) <==> forall|i: int|
            0 <= i < leaves.len() ==> (#[trigger] leaves[i] matches Some(leaf)
                ==> leaf.capabilities.extensions@.contains(extension_type)),
{
    assert(forall|i: int| #[trigger] occupied(leaves, i) ==> leaves[i] is Some);
    assert(forall|i: int|
        0 <= i < leaves.len() && (#[trigger] leaves[i]) is Some ==> occupied(leaves, i));
}

/// Every member of the tree lists `proposal_type` among its capabilities.
pub open spec fn all_support_proposal(
    leaves: Seq<Option<Arc<LeafNode>>>,
    proposal_type: ProposalType,
) -> bool {
    forall|i: int| #[trigger]
        occupied(leaves, i) ==> leaves[i]->0.capabilities.proposals@.contains(proposal_type)
}

/// Every member of the tree lists `extension_type` among its capabilities.
pub open spec fn all_support_extension(
    leaves: Seq<Option<Arc<LeafNode>>>,
    extension_type: ExtensionType,
) -> bool {
    forall|i: int| #[trigger]
        occupied(leaves, i) ==> leaves[i]->0.capabilities.extensions@.contains(extension_type)
}

impl Capabilities {
    /// Whether `extension_type` is listed.
    pub fn supports_extension(&self, extension_type: ExtensionType) -> (b: bool)
        ensures
            b == self.extensions@.contains(extension_type),
    {
        let n: usize = self.extensions.len();
        for i in 0..n
            invariant
                n == self.extensions.len(),
                forall|j: int| 0 <= j < i ==> self.extensions@[j] != extension_type,
        {
            if self.extensions[i] == extension_type {
                assert(self.extensions@[i as int] == extension_type);
                return true;
            }
        }
        false
    }

    /// Whether `proposal_type` is listed.
    pub fn supports_proposal(&self, proposal_type: ProposalType) -> (b: bool)
        ensures
            b == self.proposals@.contains(proposal_type),
    {
        let n: usize = self.proposals.len();
        for i in 0..n
            invariant
                n == self.proposals.len(),
                forall|j: int| 0 <= j < i ==> self.proposals@[j] != proposal_type,
        {
            if self.proposals[i] == proposal_type {
                assert(self.proposals@[i as int] == proposal_type);
                return true;
            }
        }
        false
    }
}

impl TreeKemPublic {
    /// The member at `index`.
    pub fn get_leaf_node<E>(&self, index: LeafIndex) -> (r: Result<
        &Arc<LeafNode>,
        RatchetTreeError<E>,
    >)
        ensures
            occupied(self@, index.0 as int) ==> r == Ok::<_, RatchetTreeError<E>>(
                &self@[index.0 as int]->0,
            ),
            r is Ok <==> index.0 < self.leaves@.len() && self.leaves@[index.0 as int] is Some,
            r matches Ok(leaf) ==> self.leaves@[index.0 as int] == Some(*leaf),
            !occupied(self@, index.0 as int) ==> r == Err::<&Arc<LeafNode>, _>(
                RatchetTreeError::<E>::LeafNotFound(index),
            ),
    {
        let i: usize = index.0 as usize;
        if i < self.leaves.len() {
            match &self.leaves[i] {
                Some(leaf) => Ok(leaf),
                None => Err(RatchetTreeError::LeafNotFound(index)),
            }
        } else {
            Err(RatchetTreeError::LeafNotFound(index))
        }
    }

    /// The members, in the order of their leaves.
    pub fn non_empty_leaves(&self) -> (leaves: Vec<Arc<LeafNode>>)
        ensures
            leaves@ == members(self@),
    {
        let mut leaves: Vec<Arc<LeafNode>> = Vec::new();
        let n: usize = self.leaves.len();
        for i in 0..n
            invariant
                n == self.leaves.len(),
                leaves@ == members(self@.take(i as int)),
        {
            assert(self@.take(i + 1).drop_last() =~= self@.take(i as int));
            if let Some(leaf) = &self.leaves[i] {
                leaves.push(leaf.clone());
            }
        }
        assert(self@.take(n as int) =~= self@);
        leaves
    }

    /// Whether every member supports custom proposals of this type.
    pub fn can_support_proposal(&self, proposal_type: ProposalType) -> (b: bool)
        ensures
            b == all_support_proposal(self@, proposal_type),
    {
        let n: usize = self.leaves.len();
        for i in 0..n
            invariant
                n == self.leaves.len(),
                forall|j: int|
                    0 <= j < i && #[trigger] occupied(self@, j)
                        ==> self@[j]->0.capabilities.proposals@.contains(proposal_type),
        {
            if let Some(leaf) = &self.leaves[i] {
                if !leaf.capabilities.supports_proposal(proposal_type) {
                    assert(occupied(self@, i as int));
                    return false;
                }
            }
        }
        true
    }

    /// Whether every member supports extensions of this type.
    pub fn can_support_extension(&self, extension_type: ExtensionType) -> (b: bool)
        ensures
            b == all_support_extension(self@, extension_type),
    {
        let n: usize = self.leaves.len();
        for i in 0..n
            invariant
                n == self.leaves.len(),
                forall|j: int|
                    0 <= j < i && #[trigger] occupied(self@, j)
                        ==> self@[j]->0.capabilities.extensions@.contains(extension_type),
        {
            if let Some(leaf) = &self.leaves[i] {
                if !leaf.capabilities.supports_extension(extension_type) {
                    assert(occupied(self@, i as int));
                    return false;
                }
            }
        }
        true
    }
}

impl Clone for TreeKemPublic {
    fn clone(&self) -> (tree: Self)
        ensures
            tree@ == self@,
    {
        let mut leaves: Vec<Option<Arc<LeafNode>>> = Vec::new();
        let n: usize = self.leaves.len();
        for i in 0..n
            invariant
                n == self.leaves.len(),
                leaves@ == self@.take(i as int),
        {
            match &self.leaves[i] {
                Some(leaf) => leaves.push(Some(leaf.clone())),
                None => leaves.push(None),
            }
            assert(self@.take(i as int).push(self@[i as int]) =~= self@.take(i + 1));
        }
        assert(self@.take(n as int) =~= self@);
        TreeKemPublic { leaves }
    }
}

} // verus!
