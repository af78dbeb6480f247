use std::sync::Arc;

use aws_mls::extension::{
    Extension, ExtensionList, ExtensionType, ExternalSendersExt, RequiredCapabilitiesExt,
};
use aws_mls::group::proposal::{
    AddProposal, CustomProposal, ExternalInit, JustPreSharedKeyID, KeyPackage, PreSharedKeyID,
    PreSharedKeyProposal, ProposalInfo, ProposalRef, ProposalType, ProtocolVersion,
    ReInitProposal, RemoveProposal, ResumptionPSKUsage, ResumptionPsk, UpdateProposal,
};
use aws_mls::group::proposal_filter::bundle::ProposalBundle;
use aws_mls::group::proposal_filter::error::ProposalFilterError;
use aws_mls::group::proposal_filter::filtering::{
    filter_out_extra_group_context_extensions, leaf_supports_extensions, proposer_can_propose,
    validate_sender,
};
use aws_mls::group::proposal_filter::leaf_conflicts::filter_out_extra_removal_or_update_for_same_leaf;
use aws_mls::group::proposal_filter::outcome::ProposalApplier;
use aws_mls::group::proposal_filter::state::{BatchEdits, ProposalState};
use aws_mls::group::proposal_filter::step::{Plan, Step, TreeEditStep};
use aws_mls::group::proposal_filter::strategy::{
    FailInvalidProposal, FilterStrategy, IgnoreInvalidByRefProposal,
};
use aws_mls::group::sender::Sender;
use aws_mls::identity::{BasicCredential, Credential, SigningIdentity};
use aws_mls::tree_kem::{Capabilities, LeafIndex, LeafNode, RatchetTreeError, TreeKemPublic};

type Filtered = Result<ProposalState, ProposalFilterError<String>>;

const VERSION: ProtocolVersion = ProtocolVersion(2);
const NONCE_LEN: usize = 4;

fn identity(name: &str) -> SigningIdentity {
    SigningIdentity {
        signature_key: vec![1],
        credential: Credential::Basic(BasicCredential::new(name.as_bytes().to_vec())),
    }
}

fn leaf_with(name: &str, extensions: &[u16], proposals: &[u16]) -> Arc<LeafNode> {
    Arc::new(LeafNode {
        signing_identity: identity(name),
        capabilities: Capabilities {
            extensions: extensions.iter().map(|e| ExtensionType(*e)).collect(),
            proposals: proposals.iter().map(|p| ProposalType::Custom(*p)).collect(),
        },
        encoded: name.as_bytes().to_vec(),
    })
}

fn leaf(name: &str) -> Arc<LeafNode> {
    leaf_with(name, &[], &[])
}

fn name_of(leaf: &LeafNode) -> String {
    String::from_utf8(leaf.encoded.clone()).unwrap()
}

/// Members "m0" to "m3", and a blank leaf behind them.
fn tree() -> TreeKemPublic {
    let mut leaves: Vec<Option<Arc<LeafNode>>> =
        (0..4).map(|i| Some(leaf(&format!("m{i}")))).collect();
    leaves.push(None);
    TreeKemPublic { leaves }
}

fn names(tree: &TreeKemPublic) -> Vec<String> {
    tree.leaves
        .iter()
        .map(|l| match l {
            Some(l) => name_of(l),
            None => String::new(),
        })
        .collect()
}

fn by_value<T>(sender: Sender, proposal: T) -> Arc<ProposalInfo<T>> {
    Arc::new(ProposalInfo { proposal, sender, proposal_ref: None })
}

fn by_ref<T>(sender: Sender, proposal: T) -> Arc<ProposalInfo<T>> {
    Arc::new(ProposalInfo {
        proposal,
        sender,
        proposal_ref: Some(Arc::new(ProposalRef(vec![7]))),
    })
}

fn add_of(leaf_node: Arc<LeafNode>) -> AddProposal {
    let encoded = leaf_node.encoded.clone();
    AddProposal { key_package: KeyPackage { leaf_node, encoded } }
}

fn add(name: &str) -> AddProposal {
    add_of(leaf(name))
}

fn update(name: &str) -> UpdateProposal {
    UpdateProposal { leaf_node: leaf(name) }
}

fn remove(index: u32) -> RemoveProposal {
    RemoveProposal { to_remove: LeafIndex(index) }
}

fn psk(name: &str, nonce_len: usize) -> PreSharedKeyProposal {
    PreSharedKeyProposal {
        psk: PreSharedKeyID {
            key_id: JustPreSharedKeyID::External(name.as_bytes().to_vec()),
            psk_nonce: vec![0; nonce_len],
        },
    }
}

fn resumption(usage: ResumptionPSKUsage, epoch: u64) -> PreSharedKeyProposal {
    PreSharedKeyProposal {
        psk: PreSharedKeyID {
            key_id: JustPreSharedKeyID::Resumption(ResumptionPsk {
                usage,
                psk_group_id: vec![1],
                psk_epoch: epoch,
            }),
            psk_nonce: vec![0; NONCE_LEN],
        },
    }
}

fn reinit(version: u16) -> ReInitProposal {
    ReInitProposal { version: ProtocolVersion(version), encoded: vec![] }
}

fn external_init() -> ExternalInit {
    ExternalInit { kem_output: vec![1] }
}

fn custom(code: u16) -> CustomProposal {
    CustomProposal { proposal_type: ProposalType::Custom(code), data: vec![] }
}

fn extension(code: u16) -> Extension {
    Extension { extension_type: ExtensionType(code), is_default: false, extension_data: vec![] }
}

fn default_extension(code: u16) -> Extension {
    Extension { extension_type: ExtensionType(code), is_default: true, extension_data: vec![] }
}

fn no_capabilities() -> RequiredCapabilitiesExt {
    RequiredCapabilitiesExt { extensions: vec![], proposals: vec![], credentials: vec![] }
}

fn applier() -> ProposalApplier<String> {
    ProposalApplier::new(
        tree(),
        VERSION,
        b"group".to_vec(),
        NONCE_LEN,
        ExtensionList::new(),
        Ok(None),
        None,
        Some(leaf("newcomer")),
    )
}

/// What the services answer, and what they were asked.
struct Services {
    successor: Result<bool, String>,
    unknown_psks: Vec<&'static str>,
    external_senders: Result<Option<Result<(), String>>, String>,
    required_capabilities: Result<Option<RequiredCapabilitiesExt>, String>,
    invalid_leaves: Vec<&'static str>,
    invalid_packages: Vec<&'static str>,
    incapable: Vec<&'static str>,
    edit_fails: bool,
    asked: Vec<String>,
}

fn services() -> Services {
    Services {
        successor: Ok(true),
        unknown_psks: vec![],
        external_senders: Ok(None),
        required_capabilities: Ok(None),
        invalid_leaves: vec![],
        invalid_packages: vec![],
        incapable: vec![],
        edit_fails: false,
        asked: vec![],
    }
}

impl Services {
    fn verdict(&self, bad: &[&'static str], name: &str) -> Result<(), String> {
        if bad.contains(&name) {
            Err(format!("bad {name}"))
        } else {
            Ok(())
        }
    }

    fn edit<F: FilterStrategy>(
        &self,
        tree: &TreeKemPublic,
        step: &TreeEditStep,
        strategy: &F,
    ) -> Result<(TreeKemPublic, BatchEdits), RatchetTreeError<String>> {
        if self.edit_fails {
            return Err(RatchetTreeError::Edit("edit".to_string()));
        }
        let mut tree = tree.clone();
        let mut accumulator = step.accumulator(strategy);
        for (i, (index, leaf_node)) in step.updates.iter().enumerate() {
            let r = match tree.get_leaf_node::<String>(*index) {
                Ok(_) => {
                    tree.leaves[index.0 as usize] = Some(leaf_node.clone());
                    Ok(*index)
                }
                Err(e) => Err(e),
            };
            accumulator.on_update(i, r)?;
        }
        for (i, index) in step.removals().into_iter().enumerate() {
            let r = match tree.get_leaf_node::<String>(index) {
                Ok(found) => Ok((index, found.clone())),
                Err(e) => Err(e),
            };
            if r.is_ok() {
                tree.leaves[index.0 as usize] = None;
            }
            accumulator.on_remove(i, r)?;
        }
        for (i, leaf_node) in step.additions().into_iter().enumerate() {
            if tree.leaves.iter().flatten().any(|l| l.encoded == leaf_node.encoded) {
                accumulator.on_add(i, Err(RatchetTreeError::Edit("twice".to_string())))?;
            } else {
                let index = insert(&mut tree, leaf_node);
                accumulator.on_add::<String>(i, Ok(index))?;
            }
        }
        Ok((tree, accumulator.finish()))
    }
}

fn insert(tree: &mut TreeKemPublic, leaf_node: Arc<LeafNode>) -> LeafIndex {
    match tree.leaves.iter().position(|l| l.is_none()) {
        Some(i) => {
            tree.leaves[i] = Some(leaf_node);
            LeafIndex(i as u32)
        }
        None => {
            tree.leaves.push(Some(leaf_node));
            LeafIndex(tree.leaves.len() as u32 - 1)
        }
    }
}

/// Answers every question until nothing is left to ask.
fn run<F: FilterStrategy>(
    applier: &ProposalApplier<String>,
    strategy: &F,
    sender: Sender,
    bundle: ProposalBundle,
    services: &mut Services,
) -> Filtered {
    let mut step = applier.apply_proposals(strategy, &sender, bundle)?;
    loop {
        step = match step {
            Step::Done(state) => return Ok(state),
            Step::SelfRemoval(s) => {
                services.asked.push(format!(
                    "is {} the successor of {}",
                    name_of(&s.external_leaf),
                    name_of(&s.existing)
                ));
                s.resume(applier, strategy, services.successor.clone())?
            }
            Step::Psk(s) => {
                let name = String::from_utf8(s.psk_id().clone()).unwrap();
                services.asked.push(format!("psk {name}"));
                let answer = services.verdict(&services.unknown_psks, &name);
                s.resume(applier, strategy, answer)?
            }
            Step::ExternalSenders(s) => {
                services.asked.push(format!("external senders in {}", s.extensions().0.len()));
                s.resume(applier, strategy, services.external_senders.clone())?
            }
            Step::RequiredCapabilities(s) => {
                services.asked.push(format!("capabilities in {}", s.extensions().0.len()));
                s.resume(applier, strategy, services.required_capabilities.clone())?
            }
            Step::UpdateLeaf(s) => {
                let (index, leaf_node) = s.leaf();
                let name = name_of(leaf_node);
                services.asked.push(format!("leaf {name} at {}", index.0));
                let answer = services.verdict(&services.invalid_leaves, &name);
                s.resume(applier, strategy, answer)?
            }
            Step::KeyPackage(s) => {
                let name = name_of(&s.key_package().leaf_node);
                services.asked.push(format!("package {name}"));
                let answer = services.verdict(&services.invalid_packages, &name);
                s.resume(applier, strategy, answer)?
            }
            Step::TreeEdit(s) => {
                services.asked.push(match &s.plan {
                    Plan::Original => "edit".to_string(),
                    Plan::Trial { .. } => "trial".to_string(),
                });
                let answer = services.edit(s.tree(applier), &s, strategy);
                s.resume(applier, strategy, answer)?
            }
            Step::LeafChecks(s) => {
                services.asked.push("checks".to_string());
                let answers = s
                    .leaves()
                    .iter()
                    .map(|l| services.verdict(&services.incapable, &name_of(l)))
                    .collect();
                s.resume(applier, strategy, answers)?
            }
            Step::ExternalLeaf(s) => {
                services.asked.push("external leaf".to_string());
                let answer = if services.edit_fails {
                    Err(RatchetTreeError::Edit("add".to_string()))
                } else {
                    let mut tree = s.state.tree.clone();
                    let index = insert(&mut tree, s.external_leaf.clone());
                    Ok((tree, vec![index]))
                };
                s.resume(applier, strategy, answer)?
            }
        };
    }
}

fn strict(bundle: ProposalBundle) -> Filtered {
    run(&applier(), &FailInvalidProposal, Sender::Member(0), bundle, &mut services())
}

fn lenient(bundle: ProposalBundle) -> Filtered {
    run(&applier(), &IgnoreInvalidByRefProposal, Sender::Member(0), bundle, &mut services())
}

fn joining(bundle: ProposalBundle) -> Filtered {
    run(
        &applier(),
        &IgnoreInvalidByRefProposal,
        Sender::NewMemberCommit,
        bundle,
        &mut services(),
    )
}

fn empty() -> ProposalBundle {
    ProposalBundle::new()
}

fn copies(bundle: &ProposalBundle) -> ProposalBundle {
    bundle.clone()
}

const MEMBER: Sender = Sender::Member(1);

#[test]
fn empty_commit_changes_nothing() {
    let state = strict(empty()).unwrap();
    assert_eq!(state, ProposalState::new(tree(), empty()));
}

#[test]
fn valid_proposals_are_applied() {
    let mut bundle = empty();
    bundle.additions = vec![by_value(Sender::Member(0), add("new"))];
    bundle.updates = vec![by_ref(Sender::Member(2), update("u2"))];
    bundle.removals = vec![by_value(Sender::Member(0), remove(3))];
    bundle.psks = vec![by_value(Sender::Member(0), psk("p", NONCE_LEN))];
    let mut asked = services();
    let state = run(
        &applier(),
        &FailInvalidProposal,
        Sender::Member(0),
        copies(&bundle),
        &mut asked,
    )
    .unwrap();
    assert_eq!(asked.asked, vec!["psk p", "leaf u2 at 2", "package new", "edit"]);
    assert_eq!(names(&state.tree), vec!["m0", "m1", "u2", "new", ""]);
    assert_eq!(state.added_indexes, vec![LeafIndex(3)]);
    assert_eq!(state.removed_leaves, vec![(LeafIndex(3), leaf("m3"))]);
    assert_eq!(state.external_leaf_index, None);
    assert_eq!(state.proposals, bundle);
}

#[test]
fn outsiders_cannot_commit() {
    for sender in [Sender::External(0), Sender::NewMemberProposal] {
        let r = run(&applier(), &FailInvalidProposal, sender, empty(), &mut services());
        assert_eq!(r, Err(ProposalFilterError::ExternalSenderCannotCommit));
    }
}

#[test]
fn strategies_ignore_what_they_say() {
    let value = by_value(MEMBER, remove(2));
    let reference = by_ref(MEMBER, remove(2));
    assert!(!FailInvalidProposal.ignore(&value.by_ref()));
    assert!(!FailInvalidProposal.ignore(&reference.by_ref()));
    assert!(!IgnoreInvalidByRefProposal.ignore(&value.by_ref()));
    assert!(IgnoreInvalidByRefProposal.ignore(&reference.by_ref()));
    assert!((&IgnoreInvalidByRefProposal).ignore(&reference.by_ref()));
}

#[test]
fn committer_does_not_update_itself() {
    let mut bundle = empty();
    bundle.updates = vec![
        by_ref(Sender::Member(0), update("u0")),
        by_ref(Sender::Member(1), update("u1")),
    ];
    assert_eq!(
        strict(copies(&bundle)),
        Err(ProposalFilterError::InvalidCommitSelfUpdate)
    );
    let state = lenient(copies(&bundle)).unwrap();
    assert_eq!(state.proposals.updates, vec![by_ref(Sender::Member(1), update("u1"))]);
    assert_eq!(names(&state.tree), vec!["m0", "u1", "m2", "m3", ""]);
}

#[test]
fn committer_is_not_removed() {
    let mut bundle = empty();
    bundle.removals = vec![by_value(Sender::Member(0), remove(0))];
    assert_eq!(lenient(copies(&bundle)), Err(ProposalFilterError::CommitterSelfRemoval));
    bundle.removals = vec![by_ref(Sender::Member(1), remove(0))];
    assert_eq!(strict(copies(&bundle)), Err(ProposalFilterError::CommitterSelfRemoval));
    assert_eq!(lenient(bundle), Ok(ProposalState::new(tree(), empty())));
}

#[test]
fn leaves_change_once() {
    let mut bundle = empty();
    bundle.removals = vec![by_ref(MEMBER, remove(2)), by_ref(MEMBER, remove(2))];
    assert_eq!(
        strict(copies(&bundle)),
        Err(ProposalFilterError::MoreThanOneProposalForLeaf(2))
    );
    let state = lenient(copies(&bundle)).unwrap();
    assert_eq!(state.proposals.removals, vec![by_ref(MEMBER, remove(2))]);

    bundle.updates = vec![by_ref(Sender::Member(2), update("u2"))];
    let state = lenient(copies(&bundle)).unwrap();
    assert_eq!(state.proposals.updates, vec![]);
    assert_eq!(names(&state.tree), vec!["m0", "m1", "", "m3", ""]);
}

#[test]
fn last_update_of_a_leaf_counts() {
    let mut bundle = empty();
    bundle.updates = vec![
        by_ref(Sender::Member(1), update("first")),
        by_ref(Sender::Member(1), update("second")),
    ];
    let kept = filter_out_extra_removal_or_update_for_same_leaf::<_, String>(
        &IgnoreInvalidByRefProposal,
        copies(&bundle),
    )
    .unwrap();
    assert_eq!(kept.updates, vec![by_ref(Sender::Member(1), update("second"))]);
    assert_eq!(
        filter_out_extra_removal_or_update_for_same_leaf::<_, String>(
            &FailInvalidProposal,
            bundle
        ),
        Err(ProposalFilterError::MoreThanOneProposalForLeaf(1))
    );
}

#[test]
fn updates_of_outsiders_are_left_to_other_checks() {
    let mut bundle = empty();
    bundle.updates = vec![by_value(Sender::External(0), update("x"))];
    let kept = filter_out_extra_removal_or_update_for_same_leaf::<_, String>(
        &FailInvalidProposal,
        copies(&bundle),
    );
    assert_eq!(kept, Ok(bundle));
}

#[test]
fn members_may_propose_what_suits_them() {
    let types = [
        ProposalType::Add,
        ProposalType::Update,
        ProposalType::Remove,
        ProposalType::Psk,
        ProposalType::ReInit,
        ProposalType::ExternalInit,
        ProposalType::GroupContextExtensions,
        ProposalType::Custom(1),
    ];
    let allowed = |sender: Sender, by_ref: bool| -> Vec<ProposalType> {
        types.iter().copied().filter(|t| proposer_can_propose(&sender, *t, by_ref)).collect()
    };
    assert_eq!(
        allowed(MEMBER, false),
        vec![
            ProposalType::Add,
            ProposalType::Remove,
            ProposalType::Psk,
            ProposalType::ReInit,
            ProposalType::GroupContextExtensions,
        ]
    );
    assert_eq!(
        allowed(MEMBER, true),
        vec![
            ProposalType::Add,
            ProposalType::Update,
            ProposalType::Remove,
            ProposalType::Psk,
            ProposalType::ReInit,
            ProposalType::GroupContextExtensions,
        ]
    );
    assert_eq!(allowed(Sender::External(0), false), vec![]);
    assert_eq!(
        allowed(Sender::External(0), true),
        vec![ProposalType::Add, ProposalType::Remove, ProposalType::ReInit]
    );
    assert_eq!(
        allowed(Sender::NewMemberCommit, false),
        vec![ProposalType::Remove, ProposalType::Psk, ProposalType::ExternalInit]
    );
    assert_eq!(allowed(Sender::NewMemberCommit, true), vec![]);
    assert_eq!(allowed(Sender::NewMemberProposal, false), vec![]);
    assert_eq!(allowed(Sender::NewMemberProposal, true), vec![ProposalType::Add]);
}

#[test]
fn proposals_of_the_wrong_sender_are_refused() {
    let mut bundle = empty();
    bundle.updates = vec![by_value(Sender::Member(1), update("u1"))];
    assert_eq!(
        lenient(bundle),
        Err(ProposalFilterError::InvalidProposalTypeForSender {
            proposal_type: ProposalType::Update,
            sender: Sender::Member(1),
            by_ref: false,
        })
    );
}

#[test]
fn senders_have_to_exist() {
    let senders = ExternalSendersExt { allowed_senders: vec![identity("a")] };
    let check = |senders: Option<&ExternalSendersExt>, sender: Sender| {
        validate_sender::<String>(&tree(), senders, &sender)
    };
    assert_eq!(check(None, Sender::Member(3)), Ok(()));
    assert_eq!(
        check(None, Sender::Member(4)),
        Err(ProposalFilterError::InvalidMemberProposer(4))
    );
    assert_eq!(
        check(None, Sender::Member(9)),
        Err(ProposalFilterError::InvalidMemberProposer(9))
    );
    assert_eq!(
        check(None, Sender::External(0)),
        Err(ProposalFilterError::ExternalSenderWithoutExternalSendersExtension)
    );
    assert_eq!(check(Some(&senders), Sender::External(0)), Ok(()));
    assert_eq!(
        check(Some(&senders), Sender::External(1)),
        Err(ProposalFilterError::InvalidExternalSenderIndex(1))
    );
    assert_eq!(check(None, Sender::NewMemberCommit), Ok(()));
    assert_eq!(check(None, Sender::NewMemberProposal), Ok(()));
}

#[test]
fn external_senders_of_the_group_count() {
    let mut bundle = empty();
    bundle.additions = vec![by_ref(Sender::External(0), add("new"))];
    assert_eq!(
        strict(copies(&bundle)),
        Err(ProposalFilterError::ExternalSenderWithoutExternalSendersExtension)
    );
    let mut group = applier();
    group.external_senders =
        Ok(Some(ExternalSendersExt { allowed_senders: vec![identity("a")] }));
    let state = run(
        &group,
        &FailInvalidProposal,
        Sender::Member(0),
        copies(&bundle),
        &mut services(),
    )
    .unwrap();
    assert_eq!(state.added_indexes, vec![LeafIndex(4)]);
    group.external_senders = Err("garbled".to_string());
    assert_eq!(
        run(&group, &FailInvalidProposal, Sender::Member(0), bundle, &mut services()),
        Err(ProposalFilterError::ExternalSenderWithoutExternalSendersExtension)
    );
}

#[test]
fn pre_shared_keys_are_checked_in_order() {
    let mut bundle = empty();
    bundle.psks = vec![by_value(MEMBER, resumption(ResumptionPSKUsage::Reinit, 1))];
    assert_eq!(
        lenient(copies(&bundle)),
        Err(ProposalFilterError::InvalidTypeOrUsageInPreSharedKeyProposal)
    );
    bundle.psks = vec![by_value(MEMBER, resumption(ResumptionPSKUsage::Branch, 1))];
    assert_eq!(
        lenient(copies(&bundle)),
        Err(ProposalFilterError::InvalidTypeOrUsageInPreSharedKeyProposal)
    );
    bundle.psks = vec![by_value(MEMBER, psk("p", NONCE_LEN + 1))];
    assert_eq!(
        lenient(copies(&bundle)),
        Err(ProposalFilterError::InvalidPskNonceLength {
            expected: NONCE_LEN,
            found: NONCE_LEN + 1,
        })
    );
    bundle.psks = vec![
        by_value(MEMBER, psk("p", NONCE_LEN)),
        by_value(MEMBER, psk("p", NONCE_LEN)),
    ];
    assert_eq!(lenient(copies(&bundle)), Err(ProposalFilterError::DuplicatePskIds));
    bundle.psks = vec![
        by_value(MEMBER, resumption(ResumptionPSKUsage::Application, 1)),
        by_value(MEMBER, resumption(ResumptionPSKUsage::Application, 2)),
    ];
    assert_eq!(strict(copies(&bundle)).map(|s| s.proposals), Ok(bundle));
}

#[test]
fn invalid_pre_shared_keys_by_reference_are_dropped() {
    let mut bundle = empty();
    bundle.psks = vec![
        by_ref(MEMBER, psk("bad", NONCE_LEN)),
        by_ref(MEMBER, psk("good", NONCE_LEN)),
        by_ref(MEMBER, psk("good", NONCE_LEN)),
        by_ref(MEMBER, resumption(ResumptionPSKUsage::Branch, 1)),
    ];
    let mut asked = services();
    asked.unknown_psks = vec!["bad"];
    let state = run(
        &applier(),
        &IgnoreInvalidByRefProposal,
        Sender::Member(0),
        copies(&bundle),
        &mut asked,
    )
    .unwrap();
    assert_eq!(state.proposals.psks, vec![by_ref(MEMBER, psk("good", NONCE_LEN))]);
    assert_eq!(asked.asked, vec!["psk bad", "psk good", "psk good", "edit"]);
    asked.asked.clear();
    let r = run(&applier(), &FailInvalidProposal, Sender::Member(0), bundle, &mut asked);
    assert_eq!(r, Err(ProposalFilterError::PskIdValidationError("bad bad".to_string())));
    assert_eq!(asked.asked, vec!["psk bad"]);
}

#[test]
fn new_start_does_not_go_back() {
    let mut bundle = empty();
    bundle.reinitializations = vec![by_value(MEMBER, reinit(1))];
    assert_eq!(
        strict(copies(&bundle)),
        Err(ProposalFilterError::InvalidProtocolVersionInReInit {
            proposed: ProtocolVersion(1),
            original: VERSION,
        })
    );
    bundle.reinitializations = vec![by_value(MEMBER, reinit(2))];
    assert_eq!(strict(copies(&bundle)).map(|s| s.proposals), Ok(bundle));
}

#[test]
fn new_start_is_alone() {
    let mut bundle = empty();
    bundle.reinitializations = vec![by_ref(MEMBER, reinit(2)), by_ref(MEMBER, reinit(3))];
    assert_eq!(strict(copies(&bundle)), Err(ProposalFilterError::OtherProposalWithReInit));
    let state = lenient(copies(&bundle)).unwrap();
    assert_eq!(state.proposals.reinitializations, vec![by_ref(MEMBER, reinit(2))]);
    bundle.removals = vec![by_value(MEMBER, remove(2))];
    let state = lenient(bundle).unwrap();
    assert_eq!(state.proposals.reinitializations, vec![]);
    assert_eq!(state.proposals.removals, vec![by_value(MEMBER, remove(2))]);
}

#[test]
fn members_do_not_join() {
    let mut bundle = empty();
    bundle.external_initializations =
        vec![by_value(Sender::NewMemberCommit, external_init())];
    assert_eq!(
        lenient(bundle),
        Err(ProposalFilterError::InvalidProposalTypeForSender {
            proposal_type: ProposalType::ExternalInit,
            sender: Sender::Member(0),
            by_ref: false,
        })
    );
}

#[test]
fn extensions_are_changed_once() {
    let mut bundle = empty();
    bundle.group_context_extensions = vec![
        by_ref(MEMBER, ExtensionList(vec![extension(1)])),
        by_ref(MEMBER, ExtensionList(vec![extension(2)])),
    ];
    let kept = filter_out_extra_group_context_extensions::<_, String>(
        &IgnoreInvalidByRefProposal,
        copies(&bundle),
    )
    .unwrap();
    assert_eq!(
        kept.group_context_extensions,
        vec![by_ref(MEMBER, ExtensionList(vec![extension(1)]))]
    );
    assert_eq!(
        filter_out_extra_group_context_extensions::<_, String>(&FailInvalidProposal, bundle),
        Err(ProposalFilterError::MoreThanOneGroupContextExtensionsProposal)
    );
}

#[test]
fn external_senders_of_new_extensions_are_verified() {
    let mut bundle = empty();
    bundle.group_context_extensions =
        vec![by_ref(MEMBER, ExtensionList(vec![default_extension(1)]))];
    let refused = |external_senders: Result<Option<Result<(), String>>, String>| {
        let mut asked = services();
        asked.external_senders = external_senders;
        run(&applier(), &FailInvalidProposal, Sender::Member(0), copies(&bundle), &mut asked)
    };
    assert_eq!(
        refused(Ok(Some(Err("who".to_string())))),
        Err(ProposalFilterError::IdentityProviderError("who".to_string()))
    );
    assert_eq!(
        refused(Err("garbled".to_string())),
        Err(ProposalFilterError::ExtensionError("garbled".to_string()))
    );
    assert_eq!(refused(Ok(Some(Ok(())))).map(|s| s.proposals), Ok(copies(&bundle)));
}

#[test]
fn required_capabilities_that_cannot_be_decoded() {
    let mut bundle = empty();
    bundle.group_context_extensions =
        vec![by_ref(MEMBER, ExtensionList(vec![default_extension(1)]))];
    let mut asked = services();
    asked.required_capabilities = Err("garbled".to_string());
    let r = run(
        &applier(),
        &FailInvalidProposal,
        Sender::Member(0),
        copies(&bundle),
        &mut asked,
    );
    assert_eq!(r, Err(ProposalFilterError::ExtensionError("garbled".to_string())));
    asked.asked.clear();
    let r = run(
        &applier(),
        &IgnoreInvalidByRefProposal,
        Sender::Member(0),
        bundle,
        &mut asked,
    );
    assert_eq!(r.map(|s| s.proposals), Ok(empty()));
    assert_eq!(asked.asked, vec!["external senders in 1", "capabilities in 1", "edit"]);
}

#[test]
fn new_extensions_are_supported_by_all_who_stay() {
    let mut group = applier();
    group.original_tree = TreeKemPublic {
        leaves: vec![
            Some(leaf_with("m0", &[5], &[])),
            Some(leaf_with("m1", &[5], &[])),
            Some(leaf_with("m2", &[], &[])),
        ],
    };
    let mut bundle = empty();
    bundle.group_context_extensions =
        vec![by_ref(MEMBER, ExtensionList(vec![default_extension(1), extension(5)]))];
    let r = run(
        &group,
        &FailInvalidProposal,
        Sender::Member(0),
        copies(&bundle),
        &mut services(),
    );
    assert_eq!(
        r,
        Err(ProposalFilterError::UnsupportedGroupExtension(ExtensionType(5)))
    );
    bundle.removals = vec![by_value(MEMBER, remove(2))];
    let mut asked = services();
    let r = run(&group, &FailInvalidProposal, Sender::Member(0), copies(&bundle), &mut asked);
    assert_eq!(r.map(|s| s.proposals), Ok(bundle));
    assert_eq!(asked.asked, vec!["external senders in 2", "capabilities in 2", "trial"]);
}

#[test]
fn unsupported_extensions_by_reference_are_dropped() {
    let mut bundle = empty();
    bundle.group_context_extensions = vec![by_ref(MEMBER, ExtensionList(vec![extension(5)]))];
    bundle.removals = vec![by_value(MEMBER, remove(2))];
    let mut asked = services();
    let state = run(
        &applier(),
        &IgnoreInvalidByRefProposal,
        Sender::Member(0),
        copies(&bundle),
        &mut asked,
    )
    .unwrap();
    assert_eq!(state.proposals.group_context_extensions, vec![]);
    assert_eq!(names(&state.tree), vec!["m0", "m1", "", "m3", ""]);
    assert_eq!(asked.asked, vec!["external senders in 1", "capabilities in 1", "trial"]);

    let mut group = applier();
    group.original_required_capabilities = Some(no_capabilities());
    asked.asked.clear();
    let state = run(
        &group,
        &IgnoreInvalidByRefProposal,
        Sender::Member(0),
        bundle,
        &mut asked,
    )
    .unwrap();
    assert_eq!(state.proposals.group_context_extensions, vec![]);
    assert_eq!(names(&state.tree), vec!["m0", "m1", "", "m3", ""]);
    assert_eq!(
        asked.asked,
        vec!["external senders in 1", "capabilities in 1", "trial", "edit"]
    );
}

#[test]
fn members_have_newly_required_capabilities() {
    let mut bundle = empty();
    bundle.group_context_extensions =
        vec![by_ref(MEMBER, ExtensionList(vec![default_extension(1)]))];
    let mut asked = services();
    asked.required_capabilities = Ok(Some(no_capabilities()));
    let r = run(
        &applier(),
        &FailInvalidProposal,
        Sender::Member(0),
        copies(&bundle),
        &mut asked,
    );
    assert_eq!(r.map(|s| s.proposals), Ok(copies(&bundle)));
    assert_eq!(
        asked.asked,
        vec!["external senders in 1", "capabilities in 1", "trial", "checks"]
    );
    asked.incapable = vec!["m1", "m3"];
    let r = run(&applier(), &FailInvalidProposal, Sender::Member(0), bundle, &mut asked);
    assert_eq!(
        r,
        Err(ProposalFilterError::LeafNodeValidationError("bad m1".to_string()))
    );
}

#[test]
fn leaves_support_the_extensions_in_use() {
    let list = ExtensionList(vec![default_extension(1), extension(5), extension(6)]);
    assert_eq!(
        leaf_supports_extensions::<String>(&leaf_with("a", &[6, 5], &[]), &list),
        Ok(())
    );
    assert_eq!(
        leaf_supports_extensions::<String>(&leaf("a"), &list),
        Err(ProposalFilterError::UnsupportedGroupExtension(ExtensionType(5)))
    );
    assert_eq!(
        leaf_supports_extensions::<String>(&leaf_with("a", &[5], &[]), &list),
        Err(ProposalFilterError::UnsupportedGroupExtension(ExtensionType(6)))
    );
    let mut group = applier();
    group.original_group_extensions = ExtensionList(vec![extension(5)]);
    let mut bundle = empty();
    bundle.additions = vec![by_value(MEMBER, add("new"))];
    let r = run(&group, &FailInvalidProposal, Sender::Member(0), bundle, &mut services());
    assert_eq!(
        r,
        Err(ProposalFilterError::UnsupportedGroupExtension(ExtensionType(5)))
    );
    let mut bundle = empty();
    bundle.additions = vec![by_value(MEMBER, add_of(leaf_with("new", &[5], &[])))];
    let r = run(&group, &FailInvalidProposal, Sender::Member(0), bundle, &mut services());
    assert!(r.is_ok());
}

#[test]
fn invalid_leaves_and_packages() {
    let mut bundle = empty();
    bundle.additions = vec![by_ref(MEMBER, add("bad")), by_ref(MEMBER, add("good"))];
    bundle.updates = vec![
        by_ref(Sender::Member(1), update("worse")),
        by_ref(Sender::Member(2), update("fine")),
    ];
    let mut asked = services();
    asked.invalid_leaves = vec!["worse"];
    asked.invalid_packages = vec!["bad"];
    let state = run(
        &applier(),
        &IgnoreInvalidByRefProposal,
        Sender::Member(0),
        copies(&bundle),
        &mut asked,
    )
    .unwrap();
    assert_eq!(state.proposals.additions, vec![by_ref(MEMBER, add("good"))]);
    assert_eq!(state.proposals.updates, vec![by_ref(Sender::Member(2), update("fine"))]);
    assert_eq!(names(&state.tree), vec!["m0", "m1", "fine", "m3", "good"]);
    let r = run(
        &applier(),
        &FailInvalidProposal,
        Sender::Member(0),
        copies(&bundle),
        &mut asked,
    );
    assert_eq!(
        r,
        Err(ProposalFilterError::LeafNodeValidationError("bad worse".to_string()))
    );
    bundle.updates = vec![];
    let r = run(&applier(), &FailInvalidProposal, Sender::Member(0), bundle, &mut asked);
    assert_eq!(
        r,
        Err(ProposalFilterError::KeyPackageValidationError("bad bad".to_string()))
    );
}

#[test]
fn impossible_changes_are_dropped_or_refused() {
    let mut bundle = empty();
    bundle.removals = vec![by_ref(MEMBER, remove(4)), by_ref(MEMBER, remove(3))];
    bundle.additions = vec![by_ref(MEMBER, add("m1")), by_ref(MEMBER, add("new"))];
    let state = lenient(copies(&bundle)).unwrap();
    assert_eq!(state.proposals.removals, vec![by_ref(MEMBER, remove(3))]);
    assert_eq!(state.proposals.additions, vec![by_ref(MEMBER, add("new"))]);
    assert_eq!(state.removed_leaves, vec![(LeafIndex(3), leaf("m3"))]);
    assert_eq!(state.added_indexes, vec![LeafIndex(3)]);
    assert_eq!(
        strict(bundle),
        Err(ProposalFilterError::RatchetTreeError(RatchetTreeError::LeafNotFound(LeafIndex(4))))
    );
}

#[test]
fn edits_that_fail_make_the_commit_fail() {
    let mut asked = services();
    asked.edit_fails = true;
    let r = run(
        &applier(),
        &IgnoreInvalidByRefProposal,
        Sender::Member(0),
        empty(),
        &mut asked,
    );
    assert_eq!(
        r,
        Err(ProposalFilterError::RatchetTreeError(RatchetTreeError::Edit("edit".to_string())))
    );
}

#[test]
fn custom_proposals_are_supported_by_all() {
    let mut group = applier();
    group.original_tree = TreeKemPublic {
        leaves: vec![Some(leaf_with("m0", &[], &[8, 9])), Some(leaf_with("m1", &[], &[9]))],
    };
    let mut bundle = empty();
    bundle.custom_proposals = vec![by_ref(MEMBER, custom(8)), by_ref(MEMBER, custom(9))];
    let r = run(
        &group,
        &FailInvalidProposal,
        Sender::Member(0),
        copies(&bundle),
        &mut services(),
    );
    assert_eq!(
        r,
        Err(ProposalFilterError::UnsupportedCustomProposal(ProposalType::Custom(8)))
    );
    let r = run(
        &group,
        &IgnoreInvalidByRefProposal,
        Sender::Member(0),
        bundle,
        &mut services(),
    );
    assert_eq!(
        r.map(|s| s.proposals.custom_proposals),
        Ok(vec![by_ref(MEMBER, custom(9))])
    );
}

fn join_bundle() -> ProposalBundle {
    let mut bundle = empty();
    bundle.external_initializations =
        vec![by_value(Sender::NewMemberCommit, external_init())];
    bundle
}

#[test]
fn newcomers_join() {
    let mut bundle = join_bundle();
    bundle.removals = vec![by_value(Sender::NewMemberCommit, remove(2))];
    bundle.psks = vec![by_value(Sender::NewMemberCommit, psk("p", NONCE_LEN))];
    let mut asked = services();
    let state = run(
        &applier(),
        &FailInvalidProposal,
        Sender::NewMemberCommit,
        copies(&bundle),
        &mut asked,
    )
    .unwrap();
    assert_eq!(
        asked.asked,
        vec!["is newcomer the successor of m2", "psk p", "edit", "external leaf"]
    );
    assert_eq!(names(&state.tree), vec!["m0", "m1", "newcomer", "m3", ""]);
    assert_eq!(state.external_leaf_index, Some(LeafIndex(2)));
    assert_eq!(state.removed_leaves, vec![(LeafIndex(2), leaf("m2"))]);
    assert_eq!(state.proposals, bundle);
}

#[test]
fn newcomers_need_a_leaf() {
    let mut group = applier();
    group.external_leaf = None;
    let r = run(
        &group,
        &FailInvalidProposal,
        Sender::NewMemberCommit,
        join_bundle(),
        &mut services(),
    );
    assert_eq!(r, Err(ProposalFilterError::ExternalCommitMustHaveNewLeaf));
}

#[test]
fn newcomers_initialize_once() {
    assert_eq!(
        joining(empty()),
        Err(ProposalFilterError::ExternalCommitMustHaveExactlyOneExternalInit)
    );
    let mut bundle = join_bundle();
    bundle.external_initializations.push(by_value(Sender::NewMemberCommit, external_init()));
    assert_eq!(
        joining(bundle),
        Err(ProposalFilterError::ExternalCommitMustHaveExactlyOneExternalInit)
    );
}

#[test]
fn newcomers_remove_nobody_but_themselves() {
    let mut bundle = join_bundle();
    bundle.removals = vec![by_value(Sender::NewMemberCommit, remove(2))];
    let answered = |successor: Result<bool, String>| {
        let mut asked = services();
        asked.successor = successor;
        run(
            &applier(),
            &IgnoreInvalidByRefProposal,
            Sender::NewMemberCommit,
            copies(&bundle),
            &mut asked,
        )
        .map(|s| names(&s.tree))
    };
    assert_eq!(
        answered(Ok(false)),
        Err(ProposalFilterError::ExternalCommitRemovesOtherIdentity)
    );
    assert_eq!(
        answered(Err("who".to_string())),
        Err(ProposalFilterError::RatchetTreeError(RatchetTreeError::CredentialValidationError(
            "who".to_string()
        )))
    );
    let mut twice = copies(&bundle);
    twice.removals.push(by_value(Sender::NewMemberCommit, remove(3)));
    assert_eq!(
        joining(twice),
        Err(ProposalFilterError::ExternalCommitWithMoreThanOneRemove)
    );
    let mut nobody = join_bundle();
    nobody.removals = vec![by_value(Sender::NewMemberCommit, remove(4))];
    assert_eq!(
        joining(nobody),
        Err(ProposalFilterError::RatchetTreeError(RatchetTreeError::LeafNotFound(LeafIndex(4))))
    );
}

#[test]
fn newcomers_are_restricted() {
    let mut bundle = join_bundle();
    bundle.additions = vec![by_value(Sender::NewMemberCommit, add("friend"))];
    assert_eq!(
        joining(bundle),
        Err(ProposalFilterError::InvalidProposalTypeInExternalCommit(ProposalType::Add))
    );
    let mut bundle = join_bundle();
    bundle.custom_proposals = vec![by_value(Sender::NewMemberCommit, custom(8))];
    assert_eq!(
        joining(bundle),
        Err(ProposalFilterError::InvalidProposalTypeInExternalCommit(ProposalType::Custom(8)))
    );
    let mut bundle = join_bundle();
    bundle.psks = vec![by_ref(MEMBER, psk("p", NONCE_LEN))];
    assert_eq!(
        joining(bundle),
        Err(ProposalFilterError::OnlyMembersCanCommitProposalsByRef)
    );
    let mut bundle = join_bundle();
    bundle.psks = vec![by_value(Sender::NewMemberCommit, psk("p", 0))];
    assert_eq!(
        joining(bundle),
        Err(ProposalFilterError::InvalidPskNonceLength { expected: NONCE_LEN, found: 0 })
    );
}

#[test]
fn newcomers_leaf_that_cannot_be_added() {
    let group = applier();
    let step = group
        .apply_proposals(&FailInvalidProposal, &Sender::NewMemberCommit, join_bundle())
        .unwrap();
    let step = match step {
        Step::TreeEdit(s) => {
            let edits = s.accumulator(&FailInvalidProposal).finish();
            s.resume(&group, &FailInvalidProposal, Ok((tree(), edits))).unwrap()
        }
        other => panic!("unexpected {other:?}"),
    };
    match step {
        Step::ExternalLeaf(s) => {
            let failed = Err(RatchetTreeError::Edit("full".to_string()));
            assert_eq!(
                s.resume(&group, &FailInvalidProposal, failed).map(|_| ()),
                Err(ProposalFilterError::RatchetTreeError(RatchetTreeError::Edit(
                    "full".to_string()
                )))
            );
        }
        other => panic!("unexpected {other:?}"),
    }
}

#[test]
fn types_of_a_bundle() {
    let mut bundle = empty();
    bundle.custom_proposals = vec![by_ref(MEMBER, custom(8)), by_ref(MEMBER, custom(8))];
    bundle.removals = vec![by_ref(MEMBER, remove(1)), by_ref(MEMBER, remove(2))];
    bundle.additions = vec![by_ref(MEMBER, add("new"))];
    assert_eq!(
        bundle.proposal_types(),
        vec![
            ProposalType::Add,
            ProposalType::Remove,
            ProposalType::Custom(8),
            ProposalType::Custom(8),
        ]
    );
    assert_eq!(
        bundle.custom_proposal_types(),
        vec![ProposalType::Custom(8), ProposalType::Custom(8)]
    );
    assert!(bundle.group_context_extensions_proposal().is_none());
}

#[test]
fn lenient_commits_keep_what_is_by_value() {
    let mut bundle = empty();
    bundle.additions = vec![
        by_value(Sender::Member(0), add("mine")),
        by_ref(MEMBER, add("m2")),
    ];
    bundle.removals = vec![
        by_value(Sender::Member(0), remove(3)),
        by_ref(MEMBER, remove(0)),
        by_ref(Sender::Member(9), remove(1)),
    ];
    let state = lenient(bundle).unwrap();
    assert_eq!(state.proposals.additions, vec![by_value(Sender::Member(0), add("mine"))]);
    assert_eq!(state.proposals.removals, vec![by_value(Sender::Member(0), remove(3))]);
}

#[test]
fn what_a_committer_keeps_is_accepted() {
    let mut bundle = empty();
    bundle.additions = vec![
        by_ref(MEMBER, add("m1")),
        by_ref(MEMBER, add("new")),
        by_ref(Sender::NewMemberCommit, add("stranger")),
    ];
    bundle.updates = vec![
        by_ref(Sender::Member(0), update("self")),
        by_ref(Sender::Member(2), update("first")),
        by_ref(Sender::Member(2), update("second")),
    ];
    bundle.removals = vec![
        by_ref(MEMBER, remove(0)),
        by_ref(MEMBER, remove(3)),
        by_ref(MEMBER, remove(3)),
        by_ref(MEMBER, remove(4)),
    ];
    bundle.psks = vec![
        by_ref(MEMBER, psk("p", NONCE_LEN)),
        by_ref(MEMBER, psk("p", NONCE_LEN)),
        by_ref(MEMBER, psk("q", 0)),
    ];
    bundle.reinitializations = vec![by_ref(MEMBER, reinit(3))];
    bundle.group_context_extensions = vec![
        by_ref(MEMBER, ExtensionList(vec![extension(5)])),
        by_ref(MEMBER, ExtensionList(vec![default_extension(1)])),
    ];
    bundle.custom_proposals = vec![by_ref(MEMBER, custom(8))];
    assert!(strict(copies(&bundle)).is_err());
    let kept = lenient(bundle).unwrap();
    assert_eq!(names(&kept.tree), vec!["m0", "m1", "second", "new", ""]);
    assert_eq!(kept.proposals.additions, vec![by_ref(MEMBER, add("new"))]);
    assert_eq!(kept.proposals.updates, vec![by_ref(Sender::Member(2), update("second"))]);
    assert_eq!(kept.proposals.removals, vec![by_ref(MEMBER, remove(3))]);
    assert_eq!(kept.proposals.psks, vec![by_ref(MEMBER, psk("p", NONCE_LEN))]);
    assert_eq!(kept.proposals.reinitializations, vec![]);
    assert_eq!(kept.proposals.group_context_extensions, vec![]);
    assert_eq!(kept.proposals.custom_proposals, vec![]);
    assert_eq!(strict(copies(&kept.proposals)), Ok(kept));
}

#[test]
fn every_external_key_is_asked_about() {
    let mut bundle = empty();
    bundle.psks = vec![
        by_ref(MEMBER, resumption(ResumptionPSKUsage::Branch, 1)),
        by_ref(MEMBER, psk("short", NONCE_LEN - 1)),
        by_ref(MEMBER, resumption(ResumptionPSKUsage::Application, 1)),
        by_ref(MEMBER, psk("good", NONCE_LEN)),
        by_ref(MEMBER, psk("good", NONCE_LEN)),
    ];
    let mut asked = services();
    let state = run(
        &applier(),
        &IgnoreInvalidByRefProposal,
        Sender::Member(0),
        copies(&bundle),
        &mut asked,
    )
    .unwrap();
    assert_eq!(asked.asked, vec!["psk short", "psk good", "psk good", "edit"]);
    assert_eq!(
        state.proposals.psks,
        vec![
            by_ref(MEMBER, resumption(ResumptionPSKUsage::Application, 1)),
            by_ref(MEMBER, psk("good", NONCE_LEN)),
        ]
    );
    let mut asked = services();
    bundle.psks.remove(0);
    let r = run(&applier(), &FailInvalidProposal, Sender::Member(0), bundle, &mut asked);
    assert_eq!(
        r,
        Err(ProposalFilterError::InvalidPskNonceLength {
            expected: NONCE_LEN,
            found: NONCE_LEN - 1,
        })
    );
    assert_eq!(asked.asked, vec!["psk short"]);
}

#[test]
fn unsupported_leaves_are_asked_about() {
    let mut group = applier();
    group.original_group_extensions = ExtensionList(vec![extension(5)]);
    let mut bundle = empty();
    bundle.additions = vec![by_ref(MEMBER, add("new"))];
    bundle.updates = vec![by_ref(Sender::Member(2), update("u2"))];
    let mut asked = services();
    let state = run(
        &group,
        &IgnoreInvalidByRefProposal,
        Sender::Member(0),
        bundle,
        &mut asked,
    )
    .unwrap();
    assert_eq!(asked.asked, vec!["leaf u2 at 2", "package new", "edit"]);
    assert_eq!(state.proposals, empty());
}

#[test]
fn newcomers_are_judged_alike() {
    let mut bundle = join_bundle();
    bundle.removals = vec![by_value(Sender::NewMemberCommit, remove(2))];
    bundle.psks = vec![by_value(Sender::NewMemberCommit, psk("p", NONCE_LEN))];
    let judged = |strict: bool, bundle: ProposalBundle| {
        let mut asked = services();
        let sender = Sender::NewMemberCommit;
        if strict {
            run(&applier(), &FailInvalidProposal, sender, bundle, &mut asked)
        } else {
            run(&applier(), &IgnoreInvalidByRefProposal, sender, bundle, &mut asked)
        }
    };
    assert_eq!(judged(true, copies(&bundle)), judged(false, copies(&bundle)));
    bundle.psks.push(by_ref(Sender::NewMemberCommit, psk("p", 0)));
    assert_eq!(judged(true, copies(&bundle)), judged(false, bundle));
}

#[test]
fn ignored_extensions_do_not_count() {
    let mut without = empty();
    without.additions = vec![by_value(Sender::Member(0), add_of(leaf_with("new", &[6], &[])))];
    without.removals = vec![by_value(Sender::Member(0), remove(3))];
    let mut with = copies(&without);
    with.group_context_extensions = vec![by_ref(MEMBER, ExtensionList(vec![extension(5)]))];
    for own in [vec![], vec![extension(6)]] {
        let mut group = applier();
        group.original_group_extensions = ExtensionList(own);
        let strategy = IgnoreInvalidByRefProposal;
        let sender = Sender::Member(0);
        assert_eq!(
            run(&group, &strategy, sender, copies(&with), &mut services()),
            run(&group, &strategy, sender, copies(&without), &mut services())
        );
    }
}

#[test]
fn edits_collect_what_is_ignored() {
    let mut bundle = empty();
    bundle.removals = vec![by_ref(MEMBER, remove(4)), by_value(MEMBER, remove(5))];
    let group = applier();
    let strategy = IgnoreInvalidByRefProposal;
    match group.apply_proposals(&strategy, &Sender::Member(0), bundle).unwrap() {
        Step::TreeEdit(s) => {
            let mut accumulator = s.accumulator(&strategy);
            let missing = |i: u32| RatchetTreeError::<String>::LeafNotFound(LeafIndex(i));
            assert_eq!(accumulator.on_remove(0, Err(missing(4))), Ok(()));
            assert_eq!(accumulator.on_remove(1, Err(missing(5))), Err(missing(5)));
            let edits = accumulator.finish();
            assert_eq!(edits.invalid_removals.into_iter().collect::<Vec<_>>(), vec![0, 1]);
        }
        other => panic!("unexpected {other:?}"),
    }
}

#[test]
fn rules_of_joining_bind_whoever_joins() {
    let mut bundle = join_bundle();
    bundle.external_initializations.push(by_value(Sender::NewMemberCommit, external_init()));
    let judged = |sender: Sender| {
        run(&applier(), &FailInvalidProposal, sender, copies(&bundle), &mut services())
    };
    assert_eq!(
        judged(Sender::NewMemberCommit),
        Err(ProposalFilterError::ExternalCommitMustHaveExactlyOneExternalInit)
    );
    assert_eq!(
        judged(Sender::Member(0)),
        Err(ProposalFilterError::InvalidProposalTypeForSender {
            proposal_type: ProposalType::ExternalInit,
            sender: Sender::Member(0),
            by_ref: false,
        })
    );
    assert_eq!(judged(Sender::External(0)), Err(ProposalFilterError::ExternalSenderCannotCommit));
}

#[test]
fn members_are_asked_about_in_order() {
    let group = applier();
    let mut bundle = empty();
    bundle.removals = vec![by_value(Sender::Member(0), remove(1))];
    bundle.group_context_extensions = vec![by_value(Sender::Member(0), ExtensionList(vec![]))];
    let checks_of = |answers: fn(&[Arc<LeafNode>]) -> Vec<Result<(), String>>| {
        let strategy = FailInvalidProposal;
        let mut step =
            group.apply_proposals(&strategy, &Sender::Member(0), copies(&bundle)).unwrap();
        loop {
            step = match step {
                Step::ExternalSenders(s) => s.resume(&group, &strategy, Ok(None)).unwrap(),
                Step::RequiredCapabilities(s) => {
                    s.resume(&group, &strategy, Ok(Some(no_capabilities()))).unwrap()
                }
                Step::TreeEdit(s) => {
                    assert_eq!(s.tree(&group), &tree());
                    let edit = services().edit(s.tree(&group), &s, &strategy);
                    s.resume(&group, &strategy, edit).unwrap()
                }
                Step::LeafChecks(s) => {
                    let leaves = s.leaves();
                    let asked: Vec<String> = leaves.iter().map(|l| name_of(l)).collect();
                    assert_eq!(asked, vec!["m0", "m2", "m3"]);
                    match s.resume(&group, &strategy, answers(&leaves)) {
                        Ok(step) => step,
                        Err(e) => return Err(e),
                    }
                }
                Step::Done(state) => return Ok(state.proposals),
                other => panic!("unexpected {other:?}"),
            }
        }
    };
    assert_eq!(checks_of(|leaves| leaves.iter().map(|_| Ok(())).collect()), Ok(copies(&bundle)));
    let refused = Err(ProposalFilterError::LeafNodeValidationError("m2".to_string()));
    assert_eq!(checks_of(|_| vec![Ok(()), Err("m2".to_string())]), refused);
    assert_eq!(
        checks_of(|_| vec![Ok(()), Err("m2".to_string()), Err("m3".to_string())]),
        refused
    );
}

#[test]
fn leaves_are_judged_for_the_group() {
    let group = applier();
    let strategy = FailInvalidProposal;
    let mut bundle = empty();
    bundle.updates = vec![by_ref(Sender::Member(2), update("u2"))];
    bundle.additions = vec![by_value(Sender::Member(0), add("new"))];
    match group.apply_proposals(&strategy, &Sender::Member(0), bundle).unwrap() {
        Step::UpdateLeaf(s) => {
            assert_eq!(s.group_id(&group), b"group");
            match s.resume(&group, &strategy, Ok(())).unwrap() {
                Step::KeyPackage(s) => assert_eq!(s.protocol_version(&group), VERSION),
                other => panic!("unexpected {other:?}"),
            }
        }
        other => panic!("unexpected {other:?}"),
    }
}

#[test]
fn non_empty_leaves_are_the_members() {
    let mut tree = tree();
    tree.leaves[0] = None;
    let names: Vec<String> = tree.non_empty_leaves().iter().map(|l| name_of(l)).collect();
    assert_eq!(names, vec!["m1", "m2", "m3"]);
    assert_eq!(TreeKemPublic { leaves: vec![None] }.non_empty_leaves(), vec![]);
}

#[test]
fn claimed_types_do_not_make_strategies_differ() {
    let mut bundle = join_bundle();
    bundle.custom_proposals = vec![by_value(
        Sender::NewMemberCommit,
        CustomProposal { proposal_type: ProposalType::Add, data: vec![] },
    )];
    let refused = Err(ProposalFilterError::InvalidProposalTypeInExternalCommit(ProposalType::Add));
    let sender = Sender::NewMemberCommit;
    let r = run(&applier(), &FailInvalidProposal, sender, copies(&bundle), &mut services());
    assert_eq!(r, refused);
    let r = run(&applier(), &IgnoreInvalidByRefProposal, sender, bundle, &mut services());
    assert_eq!(r, refused);
}

#[test]
fn equal_proposals_keep_their_places() {
    let mut group = applier();
    for l in group.original_tree.leaves.iter_mut() {
        *l = l.as_ref().map(|_| leaf_with("m", &[], &[7]));
    }
    let mut bundle = empty();
    bundle.custom_proposals = vec![
        by_value(Sender::Member(0), custom(7)),
        by_ref(MEMBER, custom(8)),
        by_value(Sender::Member(0), custom(7)),
    ];
    let state = run(
        &group,
        &IgnoreInvalidByRefProposal,
        Sender::Member(0),
        bundle,
        &mut services(),
    )
    .unwrap();
    assert_eq!(
        state.proposals.custom_proposals,
        vec![by_value(Sender::Member(0), custom(7)), by_value(Sender::Member(0), custom(7))]
    );
}

#[test]
fn leaves_follow_the_proposals() {
    let mut bundle = empty();
    bundle.removals = vec![by_ref(MEMBER, remove(4)), by_value(Sender::Member(0), remove(3))];
    bundle.additions = vec![
        by_ref(MEMBER, add("m2")),
        by_value(Sender::Member(0), add("x")),
        by_value(Sender::Member(0), add("y")),
    ];
    let state = lenient(bundle).unwrap();
    assert_eq!(state.proposals.additions.len(), 2);
    assert_eq!(state.added_indexes, vec![LeafIndex(3), LeafIndex(4)]);
    assert_eq!(state.proposals.removals, vec![by_value(Sender::Member(0), remove(3))]);
    assert_eq!(state.removed_leaves, vec![(LeafIndex(3), leaf("m3"))]);
}
