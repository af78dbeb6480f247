//! Errors that say who may commit, or what a commit by which somebody joins may hold.

use vstd::prelude::*;

use std::sync::Arc;

use crate::extension::{Extension, ExtensionList, ExternalSendersExt};
use crate::group::proposal::{
    AddProposal, CustomProposal, ExternalInit, PreSharedKeyProposal, ProposalInfo, ReInitProposal,
    RemoveProposal, UpdateProposal,
};
use crate::group::proposal_filter::bundle::{
    without_group_context_extensions, BundleView, Bundled, Proposable,
};
use crate::group::proposal_filter::error::ProposalFilterError;
use crate::group::proposal_filter::filtering::{
    custom_verdicts, extra_extensions_verdicts, lone_reinit_verdicts, no_external_init_verdicts,
    only_reinit, proposer_verdicts, proposers_filtered, proposers_screened,
    reinit_version_verdicts, self_removal_verdicts, self_update_verdicts, usable_senders,
};
use crate::group::proposal_filter::leaf_conflicts::{
    leaf_conflicts_filtered, removal_verdicts, update_verdicts,
};
use crate::group::proposal_filter::outcome::{
    after_psks, applied, changed, changed_and_concluded, concluded, external_senders_answers,
    external_senders_verdicts, from_psks, governing, key_package_answers, key_package_verdicts,
    member_filtered_early, member_filtered_late, psk_answers, tree_changed, update_leaf_answers,
    update_node_verdicts, update_sender_verdicts, with_external_leaf, Committer, Governing,
    ProposalApplier, Replies, TreeReplies,
};
use crate::group::proposal_filter::psk::psk_verdicts;
use crate::group::proposal_filter::screening::{decision, screened, screened_flags, Verdict};
use crate::group::proposal_filter::state::{custom_filtered, StateView};
use crate::group::proposal_filter::strategy::{FailInvalidProposal, FilterStrategy};
use crate::group::sender::Sender;
use crate::tree_kem::{LeafIndex, LeafNode};

verus! {

/// The error says what a commit by which somebody joins may hold.
pub open spec fn of_external_commits<E>(e: ProposalFilterError<E>) -> bool {
    ||| e is ExternalCommitMustHaveNewLeaf
    ||| e is ExternalCommitMustHaveExactlyOneExternalInit
    ||| e is ExternalCommitWithMoreThanOneRemove
    ||| e is ExternalCommitRemovesOtherIdentity
    ||| e is InvalidProposalTypeInExternalCommit
    ||| e is OnlyMembersCanCommitProposalsByRef
}

/// The result is no error that says who may commit, or what a commit by which somebody
/// joins may hold.
pub open spec fn spares_committer<T, E>(r: Result<T, ProposalFilterError<E>>) -> bool {
    r matches Err(e) ==> !(e is ExternalSenderCannotCommit) && !of_external_commits(e)
}

/// What is found about a proposal is no such error.
pub open spec fn verdict_spares_committer<E>(verdict: Verdict<E>) -> bool {
    match verdict {
        Verdict::Judged(r) => spares_committer(r),
        Verdict::Fatal(e) => spares_committer(Err::<(), ProposalFilterError<E>>(e)),
    }
}

proof fn lemma_flags<F: FilterStrategy, P: Bundled, E>(
    strategy: F,
    items: Seq<Arc<ProposalInfo<P>>>,
    verdicts: Seq<Verdict<E>>,
    flags: Seq<bool>,
)
    requires
        forall|i: int|
            0 <= i < items.len() ==> verdict_spares_committer(#[trigger] verdicts[i]),
    ensures
        spares_committer(screened_flags(strategy, items, verdicts, flags)),
    decreases items.len() - flags.len(),
{
    if flags.len() < items.len() {
        assert(verdict_spares_committer(verdicts[flags.len() as int]));
        match decision(strategy, items, verdicts, flags.len() as int) {
            Ok(keep) => lemma_flags(strategy, items, verdicts, flags.push(keep)),
            Err(_) => {},
        }
    }
}

/// Screening fails with nothing that was not found about a proposal.
proof fn lemma_screened<F: FilterStrategy, P: Bundled, E>(
    strategy: F,
    bundle: BundleView,
    verdicts: Seq<Verdict<E>>,
)
    requires
        forall|i: int|
            0 <= i < P::list(bundle).len() ==> verdict_spares_committer(#[trigger] verdicts[i]),
    ensures
        spares_committer(screened::<F, P, E>(strategy, bundle, verdicts)),
{
    lemma_flags::<F, P, E>(strategy, P::list(bundle), verdicts, seq![]);
}

proof fn lemma_proposers_of<F: FilterStrategy, P: Proposable, E>(
    strategy: F,
    tree: Seq<Option<Arc<LeafNode>>>,
    senders: Option<ExternalSendersExt>,
    bundle: BundleView,
)
    ensures
        spares_committer(proposers_screened::<F, P, E>(strategy, tree, senders, bundle)),
{
    lemma_screened::<F, P, E>(
        strategy,
        bundle,
        proposer_verdicts::<P, E>(tree, senders, P::list(bundle)),
    );
}

proof fn lemma_proposers<F: FilterStrategy, E>(
    strategy: F,
    tree: Seq<Option<Arc<LeafNode>>>,
    senders: Option<ExternalSendersExt>,
    bundle: BundleView,
)
    ensures
        spares_committer(proposers_filtered::<F, E>(strategy, tree, senders, bundle)),
{
    assert forall|b: BundleView|
        spares_committer(
            #[trigger] proposers_screened::<F, AddProposal, E>(strategy, tree, senders, b),
        ) by {
        lemma_proposers_of::<F, AddProposal, E>(strategy, tree, senders, b);
    }
    assert forall|b: BundleView|
        spares_committer(
            #[trigger] proposers_screened::<F, UpdateProposal, E>(strategy, tree, senders, b),
        ) by {
        lemma_proposers_of::<F, UpdateProposal, E>(strategy, tree, senders, b);
    }
    assert forall|b: BundleView|
        spares_committer(
            #[trigger] proposers_screened::<F, RemoveProposal, E>(strategy, tree, senders, b),
        ) by {
        lemma_proposers_of::<F, RemoveProposal, E>(strategy, tree, senders, b);
    }
    assert forall|b: BundleView|
        spares_committer(
            #[trigger] proposers_screened::<F, PreSharedKeyProposal, E>(
                strategy,
                tree,
                senders,
                b,
            ),
        ) by {
        lemma_proposers_of::<F, PreSharedKeyProposal, E>(strategy, tree, senders, b);
    }
    assert forall|b: BundleView|
        spares_committer(
            #[trigger] proposers_screened::<F, ReInitProposal, E>(strategy, tree, senders, b),
        ) by {
        lemma_proposers_of::<F, ReInitProposal, E>(strategy, tree, senders, b);
    }
    assert forall|b: BundleView|
        spares_committer(
            #[trigger] proposers_screened::<F, ExternalInit, E>(strategy, tree, senders, b),
        ) by {
        lemma_proposers_of::<F, ExternalInit, E>(strategy, tree, senders, b);
    }
    assert forall|b: BundleView|
        spares_committer(
            #[trigger] proposers_screened::<F, ExtensionList, E>(strategy, tree, senders, b),
        ) by {
        lemma_proposers_of::<F, ExtensionList, E>(strategy, tree, senders, b);
    }
}

proof fn lemma_early<F: FilterStrategy, E>(
    applier: ProposalApplier<E>,
    strategy: F,
    i: LeafIndex,
    bundle: BundleView,
)
    ensures
        spares_committer(member_filtered_early::<F, E>(applier, strategy, i, bundle)),
{
    let senders = usable_senders(applier.external_senders);
    lemma_proposers::<F, E>(strategy, applier.original_tree@, senders, bundle);
    if let Ok(b1) = proposers_filtered::<F, E>(
        strategy,
        applier.original_tree@,
        senders,
        bundle,
    ) {
        let updates = self_update_verdicts::<E>(i, b1.updates);
        lemma_screened::<F, UpdateProposal, E>(strategy, b1, updates);
        if let Ok(b2) = screened::<F, UpdateProposal, E>(strategy, b1, updates) {
            let removals = self_removal_verdicts::<E>(i, b2.removals);
            lemma_screened::<F, RemoveProposal, E>(strategy, b2, removals);
            if let Ok(b3) = screened::<F, RemoveProposal, E>(strategy, b2, removals) {
                let removals = removal_verdicts::<E>(b3.removals);
                lemma_screened::<F, RemoveProposal, E>(strategy, b3, removals);
                if let Ok(b4) = screened::<F, RemoveProposal, E>(strategy, b3, removals) {
                    lemma_screened::<F, UpdateProposal, E>(
                        strategy,
                        b4,
                        update_verdicts(b3.removals, b3.updates),
                    );
                }
                assert(spares_committer(leaf_conflicts_filtered::<F, E>(strategy, b3)));
            }
        }
    }
}

proof fn lemma_late<F: FilterStrategy, E>(
    applier: ProposalApplier<E>,
    strategy: F,
    i: LeafIndex,
    bundle: BundleView,
)
    ensures
        spares_committer(member_filtered_late::<F, E>(applier, strategy, i, bundle)),
{
    let extra = extra_extensions_verdicts::<E>(bundle.group_context_extensions);
    lemma_screened::<F, ExtensionList, E>(strategy, bundle, extra);
    if let Ok(b1) = screened::<F, ExtensionList, E>(strategy, bundle, extra) {
        let versions = reinit_version_verdicts::<E>(
            applier.protocol_version,
            b1.reinitializations,
        );
        lemma_screened::<F, ReInitProposal, E>(strategy, b1, versions);
        if let Ok(b2) = screened::<F, ReInitProposal, E>(strategy, b1, versions) {
            let lone = lone_reinit_verdicts::<E>(only_reinit(b2), b2.reinitializations);
            lemma_screened::<F, ReInitProposal, E>(strategy, b2, lone);
            if let Ok(b3) = screened::<F, ReInitProposal, E>(strategy, b2, lone) {
                lemma_screened::<F, ExternalInit, E>(
                    strategy,
                    b3,
                    no_external_init_verdicts::<E>(i, b3.external_initializations),
                );
            }
        }
    }
}

proof fn lemma_tree_changed<F: FilterStrategy, E>(
    strategy: F,
    bundle: BundleView,
    extensions: Seq<Extension>,
    replies: TreeReplies<E>,
)
    ensures
        spares_committer(tree_changed::<F, E>(strategy, bundle, extensions, replies)),
{
    let updates = update_node_verdicts(
        bundle.updates,
        extensions,
        update_leaf_answers(replies, bundle.updates),
    );
    lemma_screened::<F, UpdateProposal, E>(strategy, bundle, updates);
    if let Ok(b1) = screened::<F, UpdateProposal, E>(strategy, bundle, updates) {
        let packages = key_package_verdicts(
            b1.additions,
            extensions,
            key_package_answers(replies, b1.additions),
        );
        lemma_screened::<F, AddProposal, E>(strategy, b1, packages);
        if let Ok(b2) = screened::<F, AddProposal, E>(strategy, b1, packages) {
            lemma_screened::<F, UpdateProposal, E>(
                strategy,
                b2,
                update_sender_verdicts::<E>(b2.updates),
            );
        }
    }
}

proof fn lemma_changed<F: FilterStrategy, E>(
    applier: ProposalApplier<E>,
    strategy: F,
    bundle: BundleView,
    replies: Replies<E>,
)
    ensures
        spares_committer(changed::<F, E>(applier, strategy, bundle, replies)),
{
    lemma_tree_changed::<F, E>(strategy, bundle, seq![], replies.trial);
    lemma_tree_changed::<F, E>(
        strategy,
        without_group_context_extensions(bundle),
        applier.original_group_extensions@,
        replies.original,
    );
}

proof fn lemma_custom<F: FilterStrategy, E>(strategy: F, state: StateView)
    ensures
        spares_committer(custom_filtered::<F, E>(strategy, state)),
{
    lemma_screened::<F, CustomProposal, E>(
        strategy,
        state.proposals,
        custom_verdicts(state.tree, state.proposals.custom_proposals),
    );
}

proof fn lemma_concluded<F: FilterStrategy, E>(
    applier: ProposalApplier<E>,
    strategy: F,
    committer: Committer,
    bundle: BundleView,
    replies: Replies<E>,
)
    ensures
        spares_committer(
            changed_and_concluded::<F, E>(applier, strategy, committer, bundle, replies),
        ),
{
    let g = governing(&strategy, committer);
    lemma_changed::<Governing<'_, F>, E>(applier, g, bundle, replies);
    if let Ok(state) = changed::<Governing<'_, F>, E>(applier, g, bundle, replies) {
        match committer {
            Committer::Member(_) => lemma_custom::<F, E>(strategy, state),
            Committer::NewMember(leaf) => {
                let added = (replies.external_leaf)(state.tree, leaf);
                if let Ok(s) = with_external_leaf(state, added) {
                    lemma_custom::<F, E>(strategy, s);
                }
            },
        }
        assert(spares_committer(concluded::<F, E>(strategy, committer, state, replies)));
    }
}

proof fn lemma_from_psks<F: FilterStrategy, E>(
    applier: ProposalApplier<E>,
    strategy: F,
    committer: Committer,
    bundle: BundleView,
    replies: Replies<E>,
)
    ensures
        spares_committer(
            from_psks::<F, E>(applier, strategy, committer, bundle, seq![], replies),
        ),
{
    let g = governing(&strategy, committer);
    let psks = psk_verdicts(
        bundle.psks,
        applier.kdf_extract_size,
        psk_answers(replies, bundle.psks),
    );
    lemma_screened::<Governing<'_, F>, PreSharedKeyProposal, E>(g, bundle, psks);
    if let Ok(b1) = screened::<Governing<'_, F>, PreSharedKeyProposal, E>(g, bundle, psks) {
        match committer {
            Committer::NewMember(_) => {
                lemma_concluded::<F, E>(applier, strategy, committer, b1, replies);
            },
            Committer::Member(i) => {
                let senders = external_senders_verdicts(
                    b1.group_context_extensions,
                    external_senders_answers(replies, b1.group_context_extensions),
                );
                lemma_screened::<F, ExtensionList, E>(strategy, b1, senders);
                if let Ok(b2) = screened::<F, ExtensionList, E>(strategy, b1, senders) {
                    lemma_late::<F, E>(applier, strategy, i, b2);
                    if let Ok(b3) = member_filtered_late::<F, E>(applier, strategy, i, b2) {
                        lemma_concluded::<F, E>(applier, strategy, committer, b3, replies);
                    }
                }
            },
        }
        assert(spares_committer(after_psks::<F, E>(applier, strategy, committer, b1, replies)));
    }
}

/// A commit is refused because of who sends it exactly if neither a member nor somebody who
/// joins does, and the rules of commits by which somebody joins are held against no other.
pub proof fn errors_fit_the_committer<F: FilterStrategy, E>(
    applier: ProposalApplier<E>,
    strategy: F,
    sender: Sender,
    bundle: BundleView,
    replies: Replies<E>,
)
    ensures
        applied::<F, E>(applier, strategy, sender, bundle, replies) == Err::<
            StateView,
            ProposalFilterError<E>,
        >(ProposalFilterError::ExternalSenderCannotCommit) <==> sender is External
            || sender is NewMemberProposal,
        applied::<F, E>(applier, strategy, sender, bundle, replies) matches Err(e)
            ==> of_external_commits(e) ==> sender is NewMemberCommit,
{
    match sender {
        Sender::Member(index) => {
            let i = LeafIndex(index);
            lemma_early::<F, E>(applier, strategy, i, bundle);
            if let Ok(b) = member_filtered_early::<F, E>(applier, strategy, i, bundle) {
                lemma_from_psks::<F, E>(applier, strategy, Committer::Member(i), b, replies);
            }
        },
        Sender::NewMemberCommit => {
            let senders = usable_senders(applier.external_senders);
            lemma_proposers::<FailInvalidProposal, E>(
                FailInvalidProposal,
                applier.original_tree@,
                senders,
                bundle,
            );
            if let Ok(b) = proposers_filtered::<FailInvalidProposal, E>(
                FailInvalidProposal,
                applier.original_tree@,
                senders,
                bundle,
            ) {
                if let Some(leaf) = applier.external_leaf {
                    lemma_from_psks::<F, E>(
                        applier,
                        strategy,
                        Committer::NewMember(leaf),
                        b,
                        replies,
                    );
                }
            }
        },
        Sender::External(_) | Sender::NewMemberProposal => {},
    }
}

} // verus!
