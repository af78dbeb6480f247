//! What a commit leads to, as a function of the group, of its proposals and of the
//! answers of the services that are asked along the way.

use vstd::prelude::*;

use std::sync::Arc;

use crate::extension::{
    Extension, ExtensionList, ExtensionType, ExternalSendersExt, RequiredCapabilitiesExt,
};
use crate::group::proposal::{
    AddProposal, BorrowedProposal, ExternalInit, JustPreSharedKeyID, KeyPackage,
    PreSharedKeyProposal, ProposalInfo, ProtocolVersion, ReInitProposal, RemoveProposal,
    UpdateProposal,
};
use crate::group::proposal_filter::bundle::{without_group_context_extensions, BundleView};
use crate::group::proposal_filter::error::ProposalFilterError;
use crate::group::proposal_filter::external_commit::{
    none_by_ref, one_external_init, only_allowed_types, self_removal, successor_verdict,
};
use crate::group::proposal_filter::filtering::{
    and_then, extension_support, extra_extensions_verdicts, lone_reinit_verdicts,
    no_external_init_verdicts, only_reinit, proposers_filtered, reinit_version_verdicts,
    self_removal_verdicts, self_update_verdicts, supported_by, update_leaf, usable_senders,
};
use crate::group::proposal_filter::leaf_conflicts::leaf_conflicts_filtered;
use crate::group::proposal_filter::psk::psk_verdicts;
use crate::group::proposal_filter::screening::{screened, screened_from, Verdict};
use crate::group::proposal_filter::state::{after_edit, custom_filtered, EditsView, StateView};
use crate::group::proposal_filter::strategy::{borrowed_info, FailInvalidProposal, FilterStrategy};
use crate::group::sender::Sender;
use crate::identity::SigningIdentity;
use crate::tree_kem::{
    all_support_extension, members, LeafIndex, LeafNode, RatchetTreeError, TreeKemPublic,
};

verus! {

/// The group that proposals are applied to. `E` is the error of the services that
/// are asked along the way.
#[derive(Debug)]
pub struct ProposalApplier<E> {
    pub original_tree: TreeKemPublic,
    pub protocol_version: ProtocolVersion,
    pub group_id: Vec<u8>,
    /// The length of the nonce of a pre-shared key.
    pub kdf_extract_size: usize,
    pub original_group_extensions: ExtensionList,
    /// What decoding the external senders among those extensions gave.
    pub external_senders: Result<Option<ExternalSendersExt>, E>,
    pub original_required_capabilities: Option<RequiredCapabilitiesExt>,
    /// The leaf of whoever joins by the commit, if somebody does.
    pub external_leaf: Option<Arc<LeafNode>>,
}

/// Who commits.
#[derive(Debug, PartialEq)]
pub enum Committer {
    /// The member at this leaf.
    Member(LeafIndex),
    /// Somebody who joins by this very commit, with this leaf.
    NewMember(Arc<LeafNode>),
}

impl Clone for Committer {
    fn clone(&self) -> (committer: Self)
        ensures
            committer == *self,
    {
        match self {
            Committer::Member(i) => Committer::Member(*i),
            Committer::NewMember(leaf) => Committer::NewMember(leaf.clone()),
        }
    }
}

/// The strategy that governs a commit: for a member the given one; whoever joins is
/// granted nothing that is not valid.
pub enum Governing<'s, F> {
    Given(&'s F),
    Fail,
}

impl<'s, F: FilterStrategy> FilterStrategy for Governing<'s, F> {
    open spec fn ignores(&self, proposal: ProposalInfo<BorrowedProposal<'_>>) -> bool {
        match self {
            Governing::Given(strategy) => strategy.ignores(proposal),
            Governing::Fail => FailInvalidProposal.ignores(proposal),
        }
    }

    fn ignore(&self, proposal: &ProposalInfo<BorrowedProposal<'_>>) -> (b: bool) {
        match self {
            Governing::Given(strategy) => strategy.ignore(proposal),
            Governing::Fail => FailInvalidProposal.ignore(proposal),
        }
    }
}

/// The strategy that governs the committer's commit.
pub open spec fn governing<'s, F: FilterStrategy>(
    strategy: &'s F,
    committer: Committer,
) -> Governing<'s, F> {
    match committer {
        Committer::Member(_) => Governing::Given(strategy),
        Committer::NewMember(_) => Governing::Fail,
    }
}

/// The leaves of a tree.
pub type Leaves = Seq<Option<Arc<LeafNode>>>;

/// What is answered while the changes to the tree are checked and made: to each question,
/// whatever it may be.
pub ghost struct TreeReplies<E> {
    /// Whether the leaf of the update with this number is valid, at this position.
    pub update_leaves: spec_fn(int, LeafIndex, Arc<LeafNode>) -> Result<(), E>,
    /// Whether the key package of the addition with this number, of those that are left,
    /// is valid.
    pub key_packages: spec_fn(int, KeyPackage) -> Result<(), E>,
    /// The tree after these updates, removals and additions, and what happened to each.
    pub edit: spec_fn(
        Seq<Arc<ProposalInfo<UpdateProposal>>>,
        Seq<Arc<ProposalInfo<RemoveProposal>>>,
        Seq<Arc<ProposalInfo<AddProposal>>>,
    ) -> Result<(Leaves, EditsView), RatchetTreeError<E>>,
}

/// Everything that is answered along the way: to each question, whatever it may be. What
/// is not asked in a given commit does not matter.
pub ghost struct Replies<E> {
    /// Whether the second identity succeeds the first.
    pub successor: spec_fn(SigningIdentity, SigningIdentity) -> Result<bool, E>,
    /// Whether the external name of the pre-shared key with this number is known.
    pub psk_ids: spec_fn(int, Vec<u8>) -> Result<(), E>,
    /// Of the change of extensions with this number: the external senders could not be
    /// decoded, there are none, or whether the identity provider accepts them.
    pub external_senders: spec_fn(int, ExtensionList) -> Result<Option<Result<(), E>>, E>,
    /// The capabilities that new extensions require.
    pub required_capabilities: spec_fn(ExtensionList) -> Result<Option<RequiredCapabilitiesExt>, E>,
    /// While the changes are tried without the group's extensions.
    pub trial: TreeReplies<E>,
    /// Whether the member with this number has these capabilities.
    pub leaf_checks: spec_fn(int, Arc<LeafNode>, RequiredCapabilitiesExt) -> Result<(), E>,
    /// While the changes are made under the group's extensions.
    pub original: TreeReplies<E>,
    /// This tree with this leaf, and where the leaf went.
    pub external_leaf: spec_fn(Leaves, Arc<LeafNode>) -> Result<
        (Leaves, Seq<LeafIndex>),
        RatchetTreeError<E>,
    >,
}

// ---------------------------------------------------------------------------
// What is asked about the proposals of a bundle
// ---------------------------------------------------------------------------

/// What is answered about each pre-shared key; about a secret of another epoch nothing is
/// asked.
pub open spec fn psk_answers<E>(
    replies: Replies<E>,
    items: Seq<Arc<ProposalInfo<PreSharedKeyProposal>>>,
) -> Seq<Result<(), E>> {
    Seq::new(
        items.len(),
        |i: int|
            match items[i].proposal.psk.key_id {
                JustPreSharedKeyID::External(id) => (replies.psk_ids)(i, id),
                JustPreSharedKeyID::Resumption(_) => Ok(()),
            },
    )
}

/// What is answered about the external senders of each change of extensions.
pub open spec fn external_senders_answers<E>(
    replies: Replies<E>,
    items: Seq<Arc<ProposalInfo<ExtensionList>>>,
) -> Seq<Result<Option<Result<(), E>>, E>> {
    Seq::new(items.len(), |i: int| (replies.external_senders)(i, items[i].proposal))
}

/// What is answered about the leaf of each update.
pub open spec fn update_leaf_answers<E>(
    replies: TreeReplies<E>,
    items: Seq<Arc<ProposalInfo<UpdateProposal>>>,
) -> Seq<Result<(), E>> {
    Seq::new(
        items.len(),
        |i: int|
            (replies.update_leaves)(
                i,
                LeafIndex(items[i].sender->Member_0),
                items[i].proposal.leaf_node,
            ),
    )
}

/// What is answered about the key package of each addition.
pub open spec fn key_package_answers<E>(
    replies: TreeReplies<E>,
    items: Seq<Arc<ProposalInfo<AddProposal>>>,
) -> Seq<Result<(), E>> {
    Seq::new(items.len(), |i: int| (replies.key_packages)(i, items[i].proposal.key_package))
}

/// The leaves that updates replace, and by what.
pub open spec fn leaf_updates(updates: Seq<Arc<ProposalInfo<UpdateProposal>>>) -> Seq<
    (LeafIndex, Arc<LeafNode>),
> {
    updates.map_values(
        |p: Arc<ProposalInfo<UpdateProposal>>|
            (LeafIndex(p.sender->Member_0), p.proposal.leaf_node),
    )
}

/// The leaves to remove.
pub open spec fn leaf_removals(removals: Seq<Arc<ProposalInfo<RemoveProposal>>>) -> Seq<LeafIndex> {
    removals.map_values(|p: Arc<ProposalInfo<RemoveProposal>>| p.proposal.to_remove)
}

/// The leaves to add.
pub open spec fn leaf_additions(additions: Seq<Arc<ProposalInfo<AddProposal>>>) -> Seq<
    Arc<LeafNode>,
> {
    additions.map_values(|p: Arc<ProposalInfo<AddProposal>>| p.proposal.key_package.leaf_node)
}

/// What the edit of the tree by these proposals leads to.
pub open spec fn edit_answer<E>(replies: TreeReplies<E>, bundle: BundleView) -> Result<
    (Leaves, EditsView),
    RatchetTreeError<E>,
> {
    (replies.edit)(bundle.updates, bundle.removals, bundle.additions)
}

/// What is answered about each member of a tree, if capabilities are required anew.
pub open spec fn leaf_check_answers<E>(
    replies: Replies<E>,
    tree: Leaves,
    capabilities: Option<RequiredCapabilitiesExt>,
) -> Seq<Result<(), E>> {
    match capabilities {
        Some(required) => Seq::new(
            members(tree).len(),
            |i: int| (replies.leaf_checks)(i, members(tree)[i], required),
        ),
        None => seq![],
    }
}

/// Some check failed.
pub open spec fn any_failed<E>(checks: Seq<Result<(), E>>) -> bool {
    exists|i: int| 0 <= i < checks.len() && #[trigger] checks[i] is Err
}

/// There is an answer about each member of the tree, or one that makes the others needless.
pub open spec fn checks_suffice<E>(checks: Seq<Result<(), E>>, tree: Leaves) -> bool {
    checks.len() == members(tree).len() || any_failed(checks)
}

/// `checks` are all the answers, or the first of them up to one that failed or further.
pub open spec fn checks_are_of<E>(
    checks: Seq<Result<(), E>>,
    answers: Seq<Result<(), E>>,
) -> bool {
    &&& checks.is_prefix_of(answers)
    &&& checks.len() == answers.len() || any_failed(checks)
}

// ---------------------------------------------------------------------------
// What the answers mean for single proposals
// ---------------------------------------------------------------------------

/// What is wrong with the external senders that a change of extensions names.
pub open spec fn external_senders_verdict<E>(reply: Result<Option<Result<(), E>>, E>) -> Result<
    (),
    ProposalFilterError<E>,
> {
    match reply {
        Ok(None) => Ok(()),
        Ok(Some(Ok(_))) => Ok(()),
        Ok(Some(Err(e))) => Err(ProposalFilterError::IdentityProviderError(e)),
        Err(e) => Err(ProposalFilterError::ExtensionError(e)),
    }
}

/// What is wrong with each change of the group context's extensions.
pub open spec fn external_senders_verdicts<E>(
    items: Seq<Arc<ProposalInfo<ExtensionList>>>,
    replies: Seq<Result<Option<Result<(), E>>, E>>,
) -> Seq<Verdict<E>> {
    Seq::new(items.len(), |i: int| Verdict::Judged(external_senders_verdict(replies[i])))
}

/// What is wrong with the leaf of an update: the validator's answer comes first,
/// then the extensions in use that it does not support.
pub open spec fn update_node_verdict<E>(
    info: ProposalInfo<UpdateProposal>,
    extensions: Seq<Extension>,
    reply: Result<(), E>,
) -> Verdict<E> {
    match update_leaf::<E>(info) {
        Err(e) => Verdict::Fatal(e),
        Ok(_) => Verdict::Judged(
            match reply {
                Err(e) => Err(ProposalFilterError::LeafNodeValidationError(e)),
                Ok(_) => extension_support(extensions, supported_by(*info.proposal.leaf_node)),
            },
        ),
    }
}

/// What is wrong with the leaf of each update.
pub open spec fn update_node_verdicts<E>(
    items: Seq<Arc<ProposalInfo<UpdateProposal>>>,
    extensions: Seq<Extension>,
    replies: Seq<Result<(), E>>,
) -> Seq<Verdict<E>> {
    Seq::new(items.len(), |i: int| update_node_verdict(*items[i], extensions, replies[i]))
}

/// What is wrong with a key package: the validator's answer comes first, then the
/// extensions in use that its leaf does not support.
pub open spec fn key_package_verdict<E>(
    info: ProposalInfo<AddProposal>,
    extensions: Seq<Extension>,
    reply: Result<(), E>,
) -> Result<(), ProposalFilterError<E>> {
    match reply {
        Err(e) => Err(ProposalFilterError::KeyPackageValidationError(e)),
        Ok(_) => extension_support(extensions, supported_by(*info.proposal.key_package.leaf_node)),
    }
}

/// What is wrong with each key package.
pub open spec fn key_package_verdicts<E>(
    items: Seq<Arc<ProposalInfo<AddProposal>>>,
    extensions: Seq<Extension>,
    replies: Seq<Result<(), E>>,
) -> Seq<Verdict<E>> {
    Seq::new(
        items.len(),
        |i: int| Verdict::Judged(key_package_verdict(*items[i], extensions, replies[i])),
    )
}

/// An update needs a leaf to replace.
pub open spec fn update_sender_verdicts<E>(items: Seq<Arc<ProposalInfo<UpdateProposal>>>) -> Seq<
    Verdict<E>,
> {
    Seq::new(
        items.len(),
        |i: int|
            Verdict::Judged(
                match update_leaf::<E>(*items[i]) {
                    Ok(_) => Ok(()),
                    Err(e) => Err(e),
                },
            ),
    )
}

// ---------------------------------------------------------------------------
// The changes to the tree
// ---------------------------------------------------------------------------

/// The tree is edited by the proposals that are left.
pub open spec fn edited<F: FilterStrategy, E>(
    strategy: F,
    bundle: BundleView,
    replies: TreeReplies<E>,
) -> Result<StateView, ProposalFilterError<E>> {
    match screened::<F, UpdateProposal, E>(
        strategy,
        bundle,
        update_sender_verdicts(bundle.updates),
    ) {
        Err(e) => Err(e),
        Ok(b) => edit_applied(b, edit_answer(replies, b)),
    }
}

/// What the edit of the tree leads to.
pub open spec fn edit_applied<E>(
    bundle: BundleView,
    edit: Result<(Leaves, EditsView), RatchetTreeError<E>>,
) -> Result<StateView, ProposalFilterError<E>> {
    match edit {
        Err(e) => Err(ProposalFilterError::RatchetTreeError(e)),
        Ok((tree, edits)) => Ok(after_edit(bundle, tree, edits)),
    }
}

/// Key packages are screened, from the one after `flags` on, and the tree is edited.
pub open spec fn key_packages_then_edit<F: FilterStrategy, E>(
    strategy: F,
    bundle: BundleView,
    extensions: Seq<Extension>,
    replies: TreeReplies<E>,
    flags: Seq<bool>,
) -> Result<StateView, ProposalFilterError<E>> {
    and_then(
        screened_from::<F, AddProposal, E>(
            strategy,
            bundle,
            key_package_verdicts(
                bundle.additions,
                extensions,
                key_package_answers(replies, bundle.additions),
            ),
            flags,
        ),
        |b: BundleView| edited::<F, E>(strategy, b, replies),
    )
}

/// Updates are screened, from the one after `flags` on, then key packages, and the
/// tree is edited.
pub open spec fn updates_then_edit<F: FilterStrategy, E>(
    strategy: F,
    bundle: BundleView,
    extensions: Seq<Extension>,
    replies: TreeReplies<E>,
    flags: Seq<bool>,
) -> Result<StateView, ProposalFilterError<E>> {
    and_then(
        screened_from::<F, UpdateProposal, E>(
            strategy,
            bundle,
            update_node_verdicts(
                bundle.updates,
                extensions,
                update_leaf_answers(replies, bundle.updates),
            ),
            flags,
        ),
        |b: BundleView| key_packages_then_edit::<F, E>(strategy, b, extensions, replies, seq![]),
    )
}

/// The changes to the tree while these extensions are in use.
pub open spec fn tree_changed<F: FilterStrategy, E>(
    strategy: F,
    bundle: BundleView,
    extensions: Seq<Extension>,
    replies: TreeReplies<E>,
) -> Result<StateView, ProposalFilterError<E>> {
    updates_then_edit::<F, E>(strategy, bundle, extensions, replies, seq![])
}

// ---------------------------------------------------------------------------
// New extensions of the group context
// ---------------------------------------------------------------------------

/// The first check from position `from` on that failed.
pub open spec fn first_failure<E>(checks: Seq<Result<(), E>>, from: int) -> Option<E>
    decreases checks.len() - from,
{
    if from < 0 || from >= checks.len() {
        None
    } else {
        match checks[from] {
            Err(e) => Some(e),
            Ok(_) => first_failure(checks, from + 1),
        }
    }
}

/// No check failed exactly if each succeeded.
pub proof fn no_failure_is_success_of_all<E>(checks: Seq<Result<(), E>>, from: int)
    requires
        0 <= from <= checks.len(),
    ensures
        first_failure(checks, from) is None <==> forall|i: int|
            from <= i < checks.len() ==> #[trigger] checks[i] is Ok,
    decreases checks.len() - from,
{
    if from < checks.len() {
        no_failure_is_success_of_all(checks, from + 1);
    }
}

/// The first failure is the same whether or not anything is asked after one.
pub proof fn first_failure_is_enough<E>(
    checks: Seq<Result<(), E>>,
    answers: Seq<Result<(), E>>,
    from: int,
)
    requires
        checks_are_of(checks, answers),
        0 <= from <= checks.len(),
        forall|i: int| 0 <= i < from ==> #[trigger] checks[i] is Ok,
    ensures
        first_failure(checks, from) == first_failure(answers, from),
    decreases checks.len() - from,
{
    if from < checks.len() {
        assert(checks[from] == answers[from]);
        if checks[from] is Ok {
            first_failure_is_enough(checks, answers, from + 1);
        }
    }
}

/// Every member has the capabilities that are required anew, if any are.
pub open spec fn capabilities_supported<E>(
    capabilities: Option<RequiredCapabilitiesExt>,
    checks: Seq<Result<(), E>>,
) -> Result<(), ProposalFilterError<E>> {
    if capabilities is None {
        Ok(())
    } else {
        match first_failure(checks, 0) {
            None => Ok(()),
            Some(e) => Err(ProposalFilterError::LeafNodeValidationError(e)),
        }
    }
}

/// What every member of a tree supports.
pub open spec fn supported_by_all(tree: Seq<Option<Arc<LeafNode>>>) -> spec_fn(
    ExtensionType,
) -> bool {
    |t: ExtensionType| all_support_extension(tree, t)
}

/// The members of the tree support the new extensions and the capabilities that
/// they require; if neither holds, the capabilities are what is complained of.
pub open spec fn group_extensions_supported<E>(
    extensions: Seq<Extension>,
    capabilities: Option<RequiredCapabilitiesExt>,
    tree: Seq<Option<Arc<LeafNode>>>,
    checks: Seq<Result<(), E>>,
) -> Result<(), ProposalFilterError<E>> {
    match capabilities_supported(capabilities, checks) {
        Err(e) => Err(e),
        Ok(_) => extension_support(extensions, supported_by_all(tree)),
    }
}

/// What a trial of new extensions leads to. `saved` are the proposals before it,
/// `state` is the state after it. Where the members do not support the new
/// extensions and the strategy ignores them, the trial stands without them if the
/// group has neither extensions nor required capabilities; if it has, the changes
/// are made anew under those.
pub open spec fn trial_judged<F: FilterStrategy, E>(
    applier: ProposalApplier<E>,
    strategy: F,
    saved: BundleView,
    state: StateView,
    supported: Result<(), ProposalFilterError<E>>,
    replies: TreeReplies<E>,
) -> Result<StateView, ProposalFilterError<E>> {
    match supported {
        Ok(_) => Ok(state),
        Err(e) => if !strategy.ignores(borrowed_info(&*saved.group_context_extensions[0])) {
            Err(e)
        } else if applier.original_required_capabilities is None
            && applier.original_group_extensions@.len() == 0 {
            Ok(
                StateView {
                    proposals: without_group_context_extensions(state.proposals),
                    ..state
                },
            )
        } else {
            tree_changed::<F, E>(
                strategy,
                without_group_context_extensions(saved),
                applier.original_group_extensions@,
                replies,
            )
        },
    }
}

/// A trial of new extensions and what comes of it.
pub open spec fn trial_concluded<F: FilterStrategy, E>(
    applier: ProposalApplier<E>,
    strategy: F,
    saved: BundleView,
    capabilities: Option<RequiredCapabilitiesExt>,
    state: StateView,
    replies: Replies<E>,
) -> Result<StateView, ProposalFilterError<E>> {
    trial_judged::<F, E>(
        applier,
        strategy,
        saved,
        state,
        group_extensions_supported(
            saved.group_context_extensions[0].proposal@,
            capabilities,
            state.tree,
            leaf_check_answers(replies, state.tree, capabilities),
        ),
        replies.original,
    )
}

/// The changes that the proposals ask for. New extensions are tried first, without
/// the group's own; what cannot be decoded and is ignored does not count.
pub open spec fn changed<F: FilterStrategy, E>(
    applier: ProposalApplier<E>,
    strategy: F,
    bundle: BundleView,
    replies: Replies<E>,
) -> Result<StateView, ProposalFilterError<E>> {
    let original = tree_changed::<F, E>(
        strategy,
        without_group_context_extensions(bundle),
        applier.original_group_extensions@,
        replies.original,
    );
    if bundle.group_context_extensions.len() == 0 {
        original
    } else {
        match (replies.required_capabilities)(bundle.group_context_extensions[0].proposal) {
            Err(e) => if strategy.ignores(borrowed_info(&*bundle.group_context_extensions[0])) {
                original
            } else {
                Err(ProposalFilterError::ExtensionError(e))
            },
            Ok(capabilities) => and_then(
                tree_changed::<F, E>(strategy, bundle, seq![], replies.trial),
                |state: StateView|
                    trial_concluded::<F, E>(
                        applier,
                        strategy,
                        bundle,
                        capabilities,
                        state,
                        replies,
                    ),
            ),
        }
    }
}

// ---------------------------------------------------------------------------
// The whole commit
// ---------------------------------------------------------------------------

/// What is left to do once the changes are made: a newcomer's leaf is added, and
/// custom proposals are screened.
pub open spec fn concluded<F: FilterStrategy, E>(
    strategy: F,
    committer: Committer,
    state: StateView,
    replies: Replies<E>,
) -> Result<StateView, ProposalFilterError<E>> {
    match committer {
        Committer::Member(_) => custom_filtered::<F, E>(strategy, state),
        Committer::NewMember(leaf) => external_leaf_added::<F, E>(strategy, leaf, state, replies),
    }
}

/// The state once a newcomer's leaf is added.
pub open spec fn with_external_leaf<E>(
    state: StateView,
    reply: Result<(Leaves, Seq<LeafIndex>), RatchetTreeError<E>>,
) -> Result<StateView, ProposalFilterError<E>> {
    match reply {
        Err(e) => Err(ProposalFilterError::RatchetTreeError(e)),
        Ok((tree, indexes)) => Ok(
            StateView {
                tree,
                external_leaf_index: if indexes.len() > 0 {
                    Some(indexes[0])
                } else {
                    None
                },
                ..state
            },
        ),
    }
}

/// A newcomer's leaf is added, and custom proposals are screened.
pub open spec fn external_leaf_added<F: FilterStrategy, E>(
    strategy: F,
    leaf: Arc<LeafNode>,
    state: StateView,
    replies: Replies<E>,
) -> Result<StateView, ProposalFilterError<E>> {
    match with_external_leaf(state, (replies.external_leaf)(state.tree, leaf)) {
        Err(e) => Err(e),
        Ok(s) => custom_filtered::<F, E>(strategy, s),
    }
}

/// The changes are made, and what is left to do after them.
pub open spec fn changed_and_concluded<F: FilterStrategy, E>(
    applier: ProposalApplier<E>,
    strategy: F,
    committer: Committer,
    bundle: BundleView,
    replies: Replies<E>,
) -> Result<StateView, ProposalFilterError<E>> {
    and_then(
        changed::<Governing<'_, F>, E>(applier, governing(&strategy, committer), bundle, replies),
        |state: StateView| concluded::<F, E>(strategy, committer, state, replies),
    )
}

/// The filters of a member's commit that come after the external senders of new
/// extensions were looked at.
pub open spec fn member_filtered_late<F: FilterStrategy, E>(
    applier: ProposalApplier<E>,
    strategy: F,
    commit_sender: LeafIndex,
    bundle: BundleView,
) -> Result<BundleView, ProposalFilterError<E>> {
    let r = screened::<F, ExtensionList, E>(
        strategy,
        bundle,
        extra_extensions_verdicts(bundle.group_context_extensions),
    );
    let r = and_then(
        r,
        |b: BundleView|
            screened::<F, ReInitProposal, E>(
                strategy,
                b,
                reinit_version_verdicts(applier.protocol_version, b.reinitializations),
            ),
    );
    let r = and_then(
        r,
        |b: BundleView|
            screened::<F, ReInitProposal, E>(
                strategy,
                b,
                lone_reinit_verdicts(only_reinit(b), b.reinitializations),
            ),
    );
    and_then(
        r,
        |b: BundleView|
            screened::<F, ExternalInit, E>(
                strategy,
                b,
                no_external_init_verdicts(commit_sender, b.external_initializations),
            ),
    )
}

/// The external senders of new extensions are looked at, from the change after
/// `flags` on, and what follows in a member's commit.
pub open spec fn from_external_senders<F: FilterStrategy, E>(
    applier: ProposalApplier<E>,
    strategy: F,
    commit_sender: LeafIndex,
    bundle: BundleView,
    flags: Seq<bool>,
    replies: Replies<E>,
) -> Result<StateView, ProposalFilterError<E>> {
    let r = screened_from::<F, ExtensionList, E>(
        strategy,
        bundle,
        external_senders_verdicts(
            bundle.group_context_extensions,
            external_senders_answers(replies, bundle.group_context_extensions),
        ),
        flags,
    );
    let r = and_then(
        r,
        |b: BundleView| member_filtered_late::<F, E>(applier, strategy, commit_sender, b),
    );
    and_then(
        r,
        |b: BundleView|
            changed_and_concluded::<F, E>(
                applier,
                strategy,
                Committer::Member(commit_sender),
                b,
                replies,
            ),
    )
}

/// What follows the screening of pre-shared keys.
pub open spec fn after_psks<F: FilterStrategy, E>(
    applier: ProposalApplier<E>,
    strategy: F,
    committer: Committer,
    bundle: BundleView,
    replies: Replies<E>,
) -> Result<StateView, ProposalFilterError<E>> {
    match committer {
        Committer::Member(i) => from_external_senders::<F, E>(
            applier,
            strategy,
            i,
            bundle,
            seq![],
            replies,
        ),
        Committer::NewMember(_) => changed_and_concluded::<F, E>(
            applier,
            strategy,
            committer,
            bundle,
            replies,
        ),
    }
}

/// Pre-shared keys are screened, from the one after `flags` on, and what follows.
pub open spec fn from_psks<F: FilterStrategy, E>(
    applier: ProposalApplier<E>,
    strategy: F,
    committer: Committer,
    bundle: BundleView,
    flags: Seq<bool>,
    replies: Replies<E>,
) -> Result<StateView, ProposalFilterError<E>> {
    and_then(
        screened_from::<Governing<'_, F>, PreSharedKeyProposal, E>(
            governing(&strategy, committer),
            bundle,
            psk_verdicts(
                bundle.psks,
                applier.kdf_extract_size,
                psk_answers(replies, bundle.psks),
            ),
            flags,
        ),
        |b: BundleView| after_psks::<F, E>(applier, strategy, committer, b, replies),
    )
}

/// The filters of a member's commit that come first.
pub open spec fn member_filtered_early<F: FilterStrategy, E>(
    applier: ProposalApplier<E>,
    strategy: F,
    commit_sender: LeafIndex,
    bundle: BundleView,
) -> Result<BundleView, ProposalFilterError<E>> {
    let r = proposers_filtered::<F, E>(
        strategy,
        applier.original_tree@,
        usable_senders(applier.external_senders),
        bundle,
    );
    let r = and_then(
        r,
        |b: BundleView|
            screened::<F, UpdateProposal, E>(
                strategy,
                b,
                self_update_verdicts(commit_sender, b.updates),
            ),
    );
    let r = and_then(
        r,
        |b: BundleView|
            screened::<F, RemoveProposal, E>(
                strategy,
                b,
                self_removal_verdicts(commit_sender, b.removals),
            ),
    );
    and_then(r, |b: BundleView| leaf_conflicts_filtered::<F, E>(strategy, b))
}

/// A member's commit.
pub open spec fn member_applied<F: FilterStrategy, E>(
    applier: ProposalApplier<E>,
    strategy: F,
    commit_sender: LeafIndex,
    bundle: BundleView,
    replies: Replies<E>,
) -> Result<StateView, ProposalFilterError<E>> {
    and_then(
        member_filtered_early::<F, E>(applier, strategy, commit_sender, bundle),
        |b: BundleView|
            from_psks::<F, E>(
                applier,
                strategy,
                Committer::Member(commit_sender),
                b,
                seq![],
                replies,
            ),
    )
}

/// The rules of a commit by which somebody joins that need no answer, apart from the
/// ones on the removal of an earlier self.
pub open spec fn new_member_filtered<E>(
    applier: ProposalApplier<E>,
    bundle: BundleView,
) -> Result<BundleView, ProposalFilterError<E>> {
    let r = and_then(only_allowed_types::<E>(bundle), |u: ()| none_by_ref::<E>(bundle));
    and_then(
        r,
        |u: ()|
            proposers_filtered::<FailInvalidProposal, E>(
                FailInvalidProposal,
                applier.original_tree@,
                usable_senders(applier.external_senders),
                bundle,
            ),
    )
}

/// A commit by which somebody joins, once the removal of an earlier self is settled.
pub open spec fn after_self_removal<F: FilterStrategy, E>(
    applier: ProposalApplier<E>,
    strategy: F,
    external_leaf: Arc<LeafNode>,
    bundle: BundleView,
    replies: Replies<E>,
) -> Result<StateView, ProposalFilterError<E>> {
    and_then(
        new_member_filtered::<E>(applier, bundle),
        |b: BundleView|
            from_psks::<F, E>(
                applier,
                strategy,
                Committer::NewMember(external_leaf),
                b,
                seq![],
                replies,
            ),
    )
}

/// The identity provider's answer about the removal of an earlier self, and what
/// follows.
pub open spec fn successor_verdict_then<F: FilterStrategy, E>(
    applier: ProposalApplier<E>,
    strategy: F,
    existing: Arc<LeafNode>,
    external_leaf: Arc<LeafNode>,
    bundle: BundleView,
    replies: Replies<E>,
) -> Result<StateView, ProposalFilterError<E>> {
    and_then(
        successor_verdict(
            (replies.successor)(existing.signing_identity, external_leaf.signing_identity),
        ),
        |u: ()| after_self_removal::<F, E>(applier, strategy, external_leaf, bundle, replies),
    )
}

/// A commit by which somebody joins, with this leaf.
pub open spec fn joined<F: FilterStrategy, E>(
    applier: ProposalApplier<E>,
    strategy: F,
    external_leaf: Arc<LeafNode>,
    bundle: BundleView,
    replies: Replies<E>,
) -> Result<StateView, ProposalFilterError<E>> {
    let r = and_then(
        one_external_init::<E>(bundle),
        |u: ()| self_removal::<E>(bundle, applier.original_tree@),
    );
    and_then(
        r,
        |existing: Option<Arc<LeafNode>>|
            match existing {
                None => after_self_removal::<F, E>(
                    applier,
                    strategy,
                    external_leaf,
                    bundle,
                    replies,
                ),
                Some(leaf) => successor_verdict_then::<F, E>(
                    applier,
                    strategy,
                    leaf,
                    external_leaf,
                    bundle,
                    replies,
                ),
            },
    )
}

/// A commit by which somebody joins.
pub open spec fn new_member_applied<F: FilterStrategy, E>(
    applier: ProposalApplier<E>,
    strategy: F,
    bundle: BundleView,
    replies: Replies<E>,
) -> Result<StateView, ProposalFilterError<E>> {
    match applier.external_leaf {
        None => Err(ProposalFilterError::ExternalCommitMustHaveNewLeaf),
        Some(leaf) => joined::<F, E>(applier, strategy, leaf, bundle, replies),
    }
}

/// What a commit leads to, given everything that is answered along the way.
pub open spec fn applied<F: FilterStrategy, E>(
    applier: ProposalApplier<E>,
    strategy: F,
    commit_sender: Sender,
    bundle: BundleView,
    replies: Replies<E>,
) -> Result<StateView, ProposalFilterError<E>> {
    match commit_sender {
        Sender::Member(i) => member_applied::<F, E>(
            applier,
            strategy,
            LeafIndex(i),
            bundle,
            replies,
        ),
        Sender::NewMemberCommit => new_member_applied::<F, E>(
            applier,
            strategy,
            bundle,
            replies,
        ),
        Sender::External(_) | Sender::NewMemberProposal => Err(
            ProposalFilterError::ExternalSenderCannotCommit,
        ),
    }
}

} // verus!
