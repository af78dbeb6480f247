//! Commits by which somebody joins are judged strictly, whatever the strategy.

use vstd::prelude::*;

use std::sync::Arc;

use crate::extension::Extension;
use crate::group::proposal::{
    AddProposal, BorrowedProposal, CustomProposal, PreSharedKeyProposal, ProposalInfo,
    UpdateProposal,
};
use crate::group::proposal_filter::acceptance_laws::valid_proposals_stay;
use crate::group::proposal_filter::bundle::{
    without_group_context_extensions, BundleView, Bundled,
};
use crate::group::proposal_filter::commit_laws::{
    changes_leave_supported_part, lemma_only_allowed, lemma_proposers_stay,
};
use crate::group::proposal_filter::external_commit::allowed_in_external_commit;
use crate::group::proposal_filter::filtering::{custom_verdicts, usable_senders};
use crate::group::proposal_filter::laws::part_is_no_longer;
use crate::group::proposal_filter::outcome::{
    after_self_removal, applied, changed, external_leaf_added, governing, key_package_answers,
    key_package_verdicts, new_member_filtered, psk_answers, tree_changed, update_leaf_answers,
    update_node_verdicts, update_sender_verdicts, with_external_leaf, Committer, Governing,
    ProposalApplier, Replies, TreeReplies,
};
use crate::group::proposal_filter::psk::psk_verdicts;
use crate::group::proposal_filter::screening::{decision, screened, screened_flags, Verdict};
use crate::group::proposal_filter::state::StateView;
use crate::group::proposal_filter::strategy::{borrowed_info, FailInvalidProposal, FilterStrategy};
use crate::group::sender::Sender;
use crate::tree_kem::LeafNode;

verus! {

/// Both strategies ignore the same proposals.
pub open spec fn ignore_the_same<F: FilterStrategy, G: FilterStrategy>(f: F, g: G) -> bool {
    forall|p: ProposalInfo<BorrowedProposal<'_>>|
        #![trigger f.ignores(p)]
        #![trigger g.ignores(p)]
        f.ignores(p) == g.ignores(p)
}

proof fn lemma_same_flags<F: FilterStrategy, G: FilterStrategy, P: Bundled, E>(
    f: F,
    g: G,
    items: Seq<Arc<ProposalInfo<P>>>,
    verdicts: Seq<Verdict<E>>,
    flags: Seq<bool>,
)
    requires
        ignore_the_same(f, g),
    ensures
        screened_flags::<F, P, E>(f, items, verdicts, flags) == screened_flags::<G, P, E>(
            g,
            items,
            verdicts,
            flags,
        ),
    decreases items.len() - flags.len(),
{
    if flags.len() < items.len() {
        let i = flags.len() as int;
        assert(f.ignores(borrowed_info(&*items[i])) == g.ignores(borrowed_info(&*items[i])));
        assert(decision::<F, P, E>(f, items, verdicts, i) == decision::<G, P, E>(
            g,
            items,
            verdicts,
            i,
        ));
        if let Ok(keep) = decision::<F, P, E>(f, items, verdicts, i) {
            lemma_same_flags::<F, G, P, E>(f, g, items, verdicts, flags.push(keep));
        }
    }
}

/// Screening depends on a strategy only by what it ignores.
pub proof fn screening_depends_on_what_is_ignored<
    F: FilterStrategy,
    G: FilterStrategy,
    P: Bundled,
    E,
>(f: F, g: G, bundle: BundleView, verdicts: Seq<Verdict<E>>)
    requires
        ignore_the_same(f, g),
    ensures
        screened::<F, P, E>(f, bundle, verdicts) == screened::<G, P, E>(g, bundle, verdicts),
{
    lemma_same_flags::<F, G, P, E>(f, g, P::list(bundle), verdicts, seq![]);
}

proof fn lemma_same_tree<F: FilterStrategy, G: FilterStrategy, E>(
    f: F,
    g: G,
    bundle: BundleView,
    extensions: Seq<Extension>,
    replies: TreeReplies<E>,
)
    requires
        ignore_the_same(f, g),
    ensures
        tree_changed::<F, E>(f, bundle, extensions, replies) == tree_changed::<G, E>(
            g,
            bundle,
            extensions,
            replies,
        ),
{
    let updates = update_node_verdicts(
        bundle.updates,
        extensions,
        update_leaf_answers(replies, bundle.updates),
    );
    screening_depends_on_what_is_ignored::<F, G, UpdateProposal, E>(f, g, bundle, updates);
    if let Ok(b1) = screened::<F, UpdateProposal, E>(f, bundle, updates) {
        let packages = key_package_verdicts(
            b1.additions,
            extensions,
            key_package_answers(replies, b1.additions),
        );
        screening_depends_on_what_is_ignored::<F, G, AddProposal, E>(f, g, b1, packages);
        if let Ok(b2) = screened::<F, AddProposal, E>(f, b1, packages) {
            screening_depends_on_what_is_ignored::<F, G, UpdateProposal, E>(
                f,
                g,
                b2,
                update_sender_verdicts::<E>(b2.updates),
            );
        }
    }
}

/// The changes that proposals ask for depend on a strategy only by what it ignores.
pub proof fn changes_depend_on_what_is_ignored<F: FilterStrategy, G: FilterStrategy, E>(
    applier: ProposalApplier<E>,
    f: F,
    g: G,
    bundle: BundleView,
    replies: Replies<E>,
)
    requires
        ignore_the_same(f, g),
    ensures
        changed::<F, E>(applier, f, bundle, replies) == changed::<G, E>(
            applier,
            g,
            bundle,
            replies,
        ),
{
    let cleared = without_group_context_extensions(bundle);
    let extensions = applier.original_group_extensions@;
    lemma_same_tree::<F, G, E>(f, g, cleared, extensions, replies.original);
    lemma_same_tree::<F, G, E>(f, g, bundle, seq![], replies.trial);
    if bundle.group_context_extensions.len() > 0 {
        let p = borrowed_info(&*bundle.group_context_extensions[0]);
        assert(f.ignores(p) == g.ignores(p));
    }
}

/// No custom proposal claims a type that a commit may hold by which somebody joins.
pub open spec fn claims_no_allowed_type(bundle: BundleView) -> bool {
    forall|i: int|
        0 <= i < bundle.custom_proposals.len() ==> !allowed_in_external_commit(
            (#[trigger] bundle.custom_proposals[i]).proposal.proposal_type,
        )
}

proof fn lemma_same_after_self_removal<F: FilterStrategy, G: FilterStrategy, E>(
    applier: ProposalApplier<E>,
    f: F,
    g: G,
    leaf: Arc<LeafNode>,
    bundle: BundleView,
    replies: Replies<E>,
)
    requires
        claims_no_allowed_type(bundle),
    ensures
        after_self_removal::<F, E>(applier, f, leaf, bundle, replies) == after_self_removal::<G, E>(
            applier,
            g,
            leaf,
            bundle,
            replies,
        ),
{
    let strict_f = governing(&f, Committer::NewMember(leaf));
    let strict_g = governing(&g, Committer::NewMember(leaf));
    assert(ignore_the_same(strict_f, strict_g));
    if let Ok(b) = new_member_filtered::<E>(applier, bundle) {
        lemma_only_allowed::<E>(bundle);
        lemma_proposers_stay::<FailInvalidProposal, E>(
            FailInvalidProposal,
            applier.original_tree@,
            usable_senders(applier.external_senders),
            bundle,
        );
        assert(b == bundle);
        if bundle.custom_proposals.len() > 0 {
            assert(allowed_in_external_commit(bundle.custom_proposals[0].proposal.proposal_type));
        }
        let psks = psk_verdicts(b.psks, applier.kdf_extract_size, psk_answers(replies, b.psks));
        screening_depends_on_what_is_ignored::<
            Governing<'_, F>,
            Governing<'_, G>,
            PreSharedKeyProposal,
            E,
        >(strict_f, strict_g, b, psks);
        if let Ok(b1) = screened::<Governing<'_, F>, PreSharedKeyProposal, E>(strict_f, b, psks) {
            changes_depend_on_what_is_ignored::<Governing<'_, F>, Governing<'_, G>, E>(
                applier,
                strict_f,
                strict_g,
                b1,
                replies,
            );
            changes_leave_supported_part::<Governing<'_, F>, E>(applier, strict_f, b1, replies);
            if let Ok(state) = changed::<Governing<'_, F>, E>(applier, strict_f, b1, replies) {
                part_is_no_longer(state.proposals.custom_proposals, b1.custom_proposals);
                lemma_same_leaf_added::<F, G, E>(f, g, leaf, state, replies);
            }
        }
    }
}

proof fn lemma_same_leaf_added<F: FilterStrategy, G: FilterStrategy, E>(
    f: F,
    g: G,
    leaf: Arc<LeafNode>,
    state: StateView,
    replies: Replies<E>,
)
    requires
        state.proposals.custom_proposals.len() == 0,
    ensures
        external_leaf_added::<F, E>(f, leaf, state, replies) == external_leaf_added::<G, E>(
            g,
            leaf,
            state,
            replies,
        ),
{
    if let Ok(s) = with_external_leaf(state, (replies.external_leaf)(state.tree, leaf)) {
        let verdicts = custom_verdicts::<E>(s.tree, s.proposals.custom_proposals);
        valid_proposals_stay::<F, CustomProposal, E>(f, s.proposals, verdicts);
        valid_proposals_stay::<G, CustomProposal, E>(g, s.proposals, verdicts);
    }
}

/// A commit by which somebody joins leads to the same under any two strategies, if no custom
/// proposal claims a type that such a commit may hold.
pub proof fn newcomers_are_judged_alike<F: FilterStrategy, G: FilterStrategy, E>(
    applier: ProposalApplier<E>,
    f: F,
    g: G,
    bundle: BundleView,
    replies: Replies<E>,
)
    requires
        claims_no_allowed_type(bundle),
    ensures
        applied::<F, E>(applier, f, Sender::NewMemberCommit, bundle, replies) == applied::<G, E>(
            applier,
            g,
            Sender::NewMemberCommit,
            bundle,
            replies,
        ),
{
    if let Some(leaf) = applier.external_leaf {
        lemma_same_after_self_removal::<F, G, E>(applier, f, g, leaf, bundle, replies);
    }
}

} // verus!
