use std::sync::Arc;

use aws_mls::bench_utils::create_empty_tree::{
    create_stage, encap_name, member_name, split_members, stage_context, stage_leaves, test_sizes,
    CipherSuite,
};
use aws_mls::extension::ExtensionList;
use aws_mls::group::proposal::ProtocolVersion;
use aws_mls::identity::{BasicCredential, Credential, SigningIdentity};
use aws_mls::tree_kem::{Capabilities, LeafIndex, LeafNode, TreeKemPrivate, TreeKemPublic};

fn leaf(name: &[u8]) -> Arc<LeafNode> {
    Arc::new(LeafNode {
        signing_identity: SigningIdentity {
            signature_key: name.to_vec(),
            credential: Credential::Basic(BasicCredential::new(name.to_vec())),
        },
        capabilities: Capabilities { extensions: vec![], proposals: vec![] },
        encoded: name.to_vec(),
    })
}

#[test]
fn groups_have_three_sizes() {
    assert_eq!(test_sizes(), vec![100, 1000, 10000]);
}

#[test]
fn members_are_named_by_their_leaf() {
    assert_eq!(member_name(LeafIndex(0)), b"0".to_vec());
    assert_eq!(member_name(LeafIndex(7)), b"7".to_vec());
    assert_eq!(member_name(LeafIndex(10)), b"10".to_vec());
    assert_eq!(member_name(LeafIndex(9999)), b"9999".to_vec());
    assert_eq!(member_name(LeafIndex(u32::MAX)), b"4294967295".to_vec());
    for n in 0..2000u32 {
        assert_eq!(member_name(LeafIndex(n)), format!("{n}").into_bytes());
    }
    assert_eq!(encap_name(), b"encap".to_vec());
}

#[test]
fn all_leaves_but_the_first_are_generated() {
    assert_eq!(stage_leaves(0), vec![]);
    assert_eq!(stage_leaves(1), vec![]);
    assert_eq!(stage_leaves(4), vec![LeafIndex(1), LeafIndex(2), LeafIndex(3)]);
    assert_eq!(stage_leaves(100).len(), 99);
}

#[test]
fn members_know_their_leaf() {
    let members = vec![(leaf(b"1"), "one"), (leaf(b"2"), "two")];
    let (leaves, keys) = split_members(members);
    assert_eq!(leaves, vec![leaf(b"1"), leaf(b"2")]);
    assert_eq!(
        keys,
        vec![
            TreeKemPrivate { self_index: LeafIndex(1), secret_key: "one" },
            TreeKemPrivate { self_index: LeafIndex(2), secret_key: "two" },
        ]
    );
}

#[test]
fn context_is_that_of_a_new_group() {
    let context = stage_context(ProtocolVersion(1), CipherSuite(3), 4);
    assert_eq!(context.protocol_version, ProtocolVersion(1));
    assert_eq!(context.cipher_suite, CipherSuite(3));
    assert_eq!(context.group_id, b"test_group".to_vec());
    assert_eq!(context.epoch, 42);
    assert_eq!(context.tree_hash, vec![0; 4]);
    assert_eq!(context.confirmed_transcript_hash, vec![0; 4]);
    assert_eq!(context.extensions, ExtensionList::new());
}

#[test]
fn stage_is_put_together() {
    let tree = TreeKemPublic { leaves: vec![Some(leaf(b"encap")), Some(leaf(b"1"))] };
    let (_, keys) = split_members(vec![(leaf(b"1"), 11u8)]);
    let stage = create_stage(
        keys,
        &leaf(b"encap"),
        TreeKemPrivate::new_self_leaf(LeafIndex(0), 10u8),
        "signer",
        tree.clone(),
        stage_context(ProtocolVersion(1), CipherSuite(3), 32),
    );
    assert_eq!(stage.test_tree, tree);
    assert_eq!(stage.encap_tree, tree);
    assert_eq!(stage.private_keys.len(), 1);
    assert_eq!(stage.encap_private_key.secret_key, 10);
    assert_eq!(stage.encap_signer, "signer");
    assert_eq!(stage.encap_identity, leaf(b"encap").signing_identity);
    assert_eq!(stage.group_context.tree_hash.len(), 32);
}
