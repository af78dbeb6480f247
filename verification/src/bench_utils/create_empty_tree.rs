//! Groups whose members have sent nothing yet, from which encryption to the whole tree
//! is measured.
//!
//! Keys, and the tree over them, are generated by the caller. What is said here is for
//! which members, and how a group is put together from them.

use vstd::prelude::*;

use std::sync::Arc;

use crate::extension::{Extension, ExtensionList};
use crate::group::proposal::ProtocolVersion;
use crate::identity::SigningIdentity;
use crate::tree_kem::{LeafIndex, LeafNode, TreeKemPrivate, TreeKemPublic};

verus! {

/// The code point of a cipher suite.
#[derive(Clone, Copy, Debug, PartialEq, Eq, Structural)]
pub struct CipherSuite(pub u16);

/// The state of a group at its start.
#[derive(Debug, PartialEq)]
pub struct StageContext {
    pub protocol_version: ProtocolVersion,
    pub cipher_suite: CipherSuite,
    pub group_id: Vec<u8>,
    pub epoch: u64,
    pub tree_hash: Vec<u8>,
    pub confirmed_transcript_hash: Vec<u8>,
    pub extensions: ExtensionList,
}

/// A group to measure with: `K` are secret keys of leaves, `S` keys to sign with.
#[derive(Debug)]
pub struct TestCase<K, S> {
    /// The private state of every member but the first.
    pub private_keys: Vec<TreeKemPrivate<K>>,
    pub test_tree: TreeKemPublic,
    /// The same tree, for the first member to encrypt with.
    pub encap_tree: TreeKemPublic,
    pub encap_private_key: TreeKemPrivate<K>,
    pub encap_signer: S,
    pub group_context: StageContext,
    pub encap_identity: SigningIdentity,
}

/// The sizes of the groups to measure with.
pub fn test_sizes() -> (sizes: Vec<u32>)
    ensures
        sizes@ == seq![100u32, 1000u32, 10000u32],
{
    let sizes: Vec<u32> = vec![100, 1000, 10000];
    assert(sizes@ =~= seq![100u32, 1000u32, 10000u32]);
    sizes
}

/// A number in decimal, without leading zeros.
pub open spec fn decimal(n: nat) -> Seq<u8>
    decreases n,
{
    if n < 10 {
        seq![(0x30 + n) as u8]
    } else {
        decimal(n / 10).push((0x30 + n % 10) as u8)
    }
}

/// No two numbers are the same in decimal.
pub proof fn decimals_are_distinct(a: nat, b: nat)
    requires
        decimal(a) == decimal(b),
    ensures
        a == b,
    decreases a,
{
    let d = decimal(a);
    if a < 10 && b < 10 {
        assert(d[0] == 0x30 + a);
        assert(d[0] == 0x30 + b);
    } else if a < 10 {
        lemma_decimal_is_not_empty(b / 10);
        assert(d.len() == 1);
    } else if b < 10 {
        lemma_decimal_is_not_empty(a / 10);
        assert(d.len() == 1);
    } else {
        assert(d.last() == 0x30 + a % 10);
        assert(d.last() == 0x30 + b % 10);
        assert(d.drop_last() =~= decimal(a / 10));
        assert(d.drop_last() =~= decimal(b / 10));
        decimals_are_distinct(a / 10, b / 10);
    }
}

/// The number that decimal digits stand for.
pub open spec fn number(digits: Seq<u8>) -> int
    decreases digits.len(),
{
    if digits.len() == 0 {
        0
    } else {
        number(digits.drop_last()) * 10 + (digits.last() - 0x30)
    }
}

/// A number in decimal is made of digits that stand for it, and starts with a zero only if it
/// is zero, which is one digit.
pub proof fn decimals_stand_for_numbers(n: nat)
    ensures
        number(decimal(n)) == n,
        decimal(n).len() > 0,
        forall|i: int| 0 <= i < decimal(n).len() ==> 0x30 <= #[trigger] decimal(n)[i] <= 0x39,
        decimal(n)[0] == 0x30 <==> n == 0,
        n < 10 <==> decimal(n).len() == 1,
    decreases n,
{
    if n < 10 {
        let d = decimal(n);
        assert(d.drop_last() =~= seq![]);
        assert(number(d.drop_last()) == 0);
    } else {
        decimals_stand_for_numbers(n / 10);
        assert(decimal(n).drop_last() =~= decimal(n / 10));
        assert(decimal(n)[0] == decimal(n / 10)[0]);
    }
}

proof fn lemma_decimal_is_not_empty(n: nat)
    ensures
        decimal(n).len() > 0,
{
}

/// The name of the member at this leaf: its number in decimal.
pub fn member_name(index: LeafIndex) -> (name: Vec<u8>)
    ensures
        name@ == decimal(index.0 as nat),
{
    decimal_digits(index.0)
}

fn decimal_digits(n: u32) -> (digits: Vec<u8>)
    ensures
        digits@ == decimal(n as nat),
    decreases n,
{
    let last: u8 = 0x30 + (n % 10) as u8;
    if n < 10 {
        let mut digits: Vec<u8> = Vec::new();
        digits.push(last);
        digits
    } else {
        let mut digits = decimal_digits(n / 10);
        digits.push(last);
        digits
    }
}

/// The name of the first member, who encrypts.
pub fn encap_name() -> (name: Vec<u8>)
    ensures
        name@ == seq![0x65u8, 0x6eu8, 0x63u8, 0x61u8, 0x70u8],
{
    let name: Vec<u8> = vec![0x65, 0x6e, 0x63, 0x61, 0x70];
    assert(name@ =~= seq![0x65u8, 0x6eu8, 0x63u8, 0x61u8, 0x70u8]);
    name
}

/// The leaves of the members of a group of this size, but for the first.
pub fn stage_leaves(size: u32) -> (leaves: Vec<LeafIndex>)
    ensures
        leaves@.len() == if size > 0 {
            size - 1
        } else {
            0
        },
        forall|i: int| 0 <= i < leaves@.len() ==> (#[trigger] leaves@[i]).0 == i + 1,
{
    let mut leaves: Vec<LeafIndex> = Vec::new();
    let mut index: u32 = 1;
    while index < size
        invariant
            1 <= index,
            size > 0 ==> index <= size,
            size == 0 ==> index == 1,
            leaves@.len() == index - 1,
            forall|i: int| 0 <= i < leaves@.len() ==> (#[trigger] leaves@[i]).0 == i + 1,
        decreases size - index,
    {
        leaves.push(LeafIndex(index));
        index = index + 1;
    }
    leaves
}

/// The leaves of generated members, in order, and their private states: member `i` has
/// leaf `i + 1`.
pub fn split_members<K>(members: Vec<(Arc<LeafNode>, K)>) -> (r: (
    Vec<Arc<LeafNode>>,
    Vec<TreeKemPrivate<K>>,
))
    requires
        members@.len() < u32::MAX,
    ensures
        r.0@.len() == members@.len(),
        r.1@.len() == members@.len(),
        forall|i: int| 0 <= i < members@.len() ==> #[trigger] r.0@[i] == members@[i].0,
        forall|i: int|
            0 <= i < members@.len() ==> #[trigger] r.1@[i] == (TreeKemPrivate {
                self_index: LeafIndex((i + 1) as u32),
                secret_key: members@[i].1,
            }),
{
    let ghost all = members@;
    let mut leaf_nodes: Vec<Arc<LeafNode>> = Vec::new();
    let mut private_keys: Vec<TreeKemPrivate<K>> = Vec::new();
    let mut index: u32 = 0;
    for member in it: members.into_iter()
        invariant
            it.seq() == all,
            all.len() < u32::MAX,
            index == it.index(),
            leaf_nodes@.len() == index,
            private_keys@.len() == index,
            forall|i: int| 0 <= i < index ==> #[trigger] leaf_nodes@[i] == all[i].0,
            forall|i: int|
                0 <= i < index ==> #[trigger] private_keys@[i] == (TreeKemPrivate {
                    self_index: LeafIndex((i + 1) as u32),
                    secret_key: all[i].1,
                }),
    {
        let (leaf_node, hpke_secret) = member;
        index = index + 1;
        leaf_nodes.push(leaf_node);
        private_keys.push(TreeKemPrivate::new_self_leaf(LeafIndex(index), hpke_secret));
    }
    (leaf_nodes, private_keys)
}

/// `n` zeros.
fn zeros(n: usize) -> (bytes: Vec<u8>)
    ensures
        bytes@ == Seq::new(n as nat, |i: int| 0u8),
{
    let bytes: Vec<u8> = vec![0u8; n];
    assert(bytes@ =~= Seq::new(n as nat, |i: int| 0u8));
    bytes
}

/// The context of a group of which only the versions, and the length of a hash, are open.
pub fn stage_context(
    protocol_version: ProtocolVersion,
    cipher_suite: CipherSuite,
    kdf_extract_size: usize,
) -> (context: StageContext)
    ensures
        context.protocol_version == protocol_version,
        context.cipher_suite == cipher_suite,
        context.group_id@ == seq![
            0x74u8,
            0x65u8,
            0x73u8,
            0x74u8,
            0x5fu8,
            0x67u8,
            0x72u8,
            0x6fu8,
            0x75u8,
            0x70u8,
        ],
        context.epoch == 42,
        context.tree_hash@ == Seq::new(kdf_extract_size as nat, |i: int| 0u8),
        context.confirmed_transcript_hash@ == Seq::new(kdf_extract_size as nat, |i: int| 0u8),
        context.extensions@ == Seq::<Extension>::empty(),
{
    let group_id: Vec<u8> = vec![0x74, 0x65, 0x73, 0x74, 0x5f, 0x67, 0x72, 0x6f, 0x75, 0x70];
    assert(group_id@ =~= seq![
        0x74u8,
        0x65u8,
        0x73u8,
        0x74u8,
        0x5fu8,
        0x67u8,
        0x72u8,
        0x6fu8,
        0x75u8,
        0x70u8,
    ]);
    StageContext {
        protocol_version,
        cipher_suite,
        group_id,
        epoch: 42,
        tree_hash: zeros(kdf_extract_size),
        confirmed_transcript_hash: zeros(kdf_extract_size),
        extensions: ExtensionList::new(),
    }
}

/// Puts a group together, from the private states of its members, from the first member's
/// leaf, private state and signature key, and from the tree over all of them.
pub fn create_stage<K, S>(
    private_keys: Vec<TreeKemPrivate<K>>,
    encap_node: &LeafNode,
    encap_private_key: TreeKemPrivate<K>,
    encap_signer: S,
    test_tree: TreeKemPublic,
    group_context: StageContext,
) -> (stage: TestCase<K, S>)
    ensures
        stage.private_keys == private_keys,
        stage.test_tree == test_tree,
        stage.encap_tree@ == test_tree@,
        stage.encap_private_key == encap_private_key,
        stage.encap_signer == encap_signer,
        stage.group_context == group_context,
        stage.encap_identity@ == encap_node.signing_identity@,
{
    let encap_identity = encap_node.signing_identity.clone();
    // The first member encrypts with a tree of its own.
    let encap_tree = test_tree.clone();
    TestCase {
        private_keys,
        test_tree,
        encap_tree,
        encap_private_key,
        encap_signer,
        group_context,
        encap_identity,
    }
}

} // verus!
