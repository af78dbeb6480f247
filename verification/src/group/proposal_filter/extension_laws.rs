//! A change of extensions that is ignored does not count.

use vstd::prelude::*;

use crate::extension::Extension;
use crate::group::proposal::{AddProposal, UpdateProposal};
use crate::group::proposal_filter::bundle::{without_group_context_extensions, BundleView};
use crate::group::proposal_filter::error::ProposalFilterError;
use crate::group::proposal_filter::outcome::{
    changed, edit_answer, group_extensions_supported, key_package_answers, key_package_verdicts,
    leaf_check_answers, tree_changed, trial_judged, update_leaf_answers, update_node_verdicts,
    update_sender_verdicts, ProposalApplier, Replies, TreeReplies,
};
use crate::group::proposal_filter::screening::screened;
use crate::group::proposal_filter::state::{after_edit, StateView};
use crate::group::proposal_filter::strategy::{borrowed_info, FilterStrategy};

verus! {

/// The state without any change of the group context's extensions among its proposals.
pub open spec fn state_without_extensions(state: StateView) -> StateView {
    StateView { proposals: without_group_context_extensions(state.proposals), ..state }
}

/// Changes to the tree do not depend on changes of extensions that come with them.
pub proof fn extensions_do_not_change_the_tree<F: FilterStrategy, E>(
    strategy: F,
    bundle: BundleView,
    extensions: Seq<Extension>,
    replies: TreeReplies<E>,
)
    ensures
        tree_changed::<F, E>(
            strategy,
            without_group_context_extensions(bundle),
            extensions,
            replies,
        ) == match tree_changed::<F, E>(strategy, bundle, extensions, replies) {
            Ok(state) => Ok(state_without_extensions(state)),
            Err(e) => Err(e),
        },
{
    let cleared = without_group_context_extensions(bundle);
    let updates = update_node_verdicts(
        bundle.updates,
        extensions,
        update_leaf_answers(replies, bundle.updates),
    );
    match screened::<F, UpdateProposal, E>(strategy, bundle, updates) {
        Err(e) => {},
        Ok(b1) => {
            let c1 = without_group_context_extensions(b1);
            assert(screened::<F, UpdateProposal, E>(strategy, cleared, updates) == Ok::<
                BundleView,
                ProposalFilterError<E>,
            >(c1));
            let packages = key_package_verdicts(
                b1.additions,
                extensions,
                key_package_answers(replies, b1.additions),
            );
            match screened::<F, AddProposal, E>(strategy, b1, packages) {
                Err(e) => {},
                Ok(b2) => {
                    let c2 = without_group_context_extensions(b2);
                    assert(screened::<F, AddProposal, E>(strategy, c1, packages) == Ok::<
                        BundleView,
                        ProposalFilterError<E>,
                    >(c2));
                    let senders = update_sender_verdicts::<E>(b2.updates);
                    match screened::<F, UpdateProposal, E>(strategy, b2, senders) {
                        Err(e) => {},
                        Ok(b3) => {
                            let c3 = without_group_context_extensions(b3);
                            assert(screened::<F, UpdateProposal, E>(strategy, c2, senders)
                                == Ok::<BundleView, ProposalFilterError<E>>(c3));
                            assert(edit_answer(replies, c3) == edit_answer(replies, b3));
                            if let Ok((tree, edits)) = edit_answer(replies, b3) {
                                assert(after_edit(c3, tree, edits) == state_without_extensions(
                                    after_edit(b3, tree, edits),
                                ));
                            }
                        },
                    }
                },
            }
        },
    }
}

/// A trial that led to `state` is judged: if the members do not support the new extensions
/// and the strategy ignores the change, the outcome is that of the changes without it, under
/// the group's own extensions and capabilities. In a group that has neither, the trial was
/// made under the same conditions, and stands in for them, if it is answered alike.
pub proof fn unsupported_trials_do_not_count<F: FilterStrategy, E>(
    applier: ProposalApplier<E>,
    strategy: F,
    saved: BundleView,
    state: StateView,
    e: ProposalFilterError<E>,
    trial: TreeReplies<E>,
    original: TreeReplies<E>,
)
    requires
        strategy.ignores(borrowed_info(&*saved.group_context_extensions[0])),
        tree_changed::<F, E>(strategy, saved, seq![], trial) == Ok::<
            StateView,
            ProposalFilterError<E>,
        >(state),
        applier.original_required_capabilities is None
            && applier.original_group_extensions@.len() == 0 ==> trial == original,
    ensures
        trial_judged::<F, E>(applier, strategy, saved, state, Err(e), original) == tree_changed::<
            F,
            E,
        >(
            strategy,
            without_group_context_extensions(saved),
            applier.original_group_extensions@,
            original,
        ),
{
    if applier.original_required_capabilities is None && applier.original_group_extensions@.len()
        == 0 {
        assert(applier.original_group_extensions@ =~= seq![]);
        extensions_do_not_change_the_tree::<F, E>(strategy, saved, seq![], trial);
    }
}

/// A trial of new extensions went well, but the members that are left do not support them,
/// or do not have the capabilities that they require.
pub open spec fn trial_unsupported<F: FilterStrategy, E>(
    strategy: F,
    bundle: BundleView,
    replies: Replies<E>,
) -> bool {
    let list = bundle.group_context_extensions[0].proposal;
    &&& (replies.required_capabilities)(list) matches Ok(capabilities)
    &&& tree_changed::<F, E>(strategy, bundle, seq![], replies.trial) matches Ok(state)
    &&& group_extensions_supported(
        list@,
        capabilities,
        state.tree,
        leaf_check_answers(replies, state.tree, capabilities),
    ) is Err
}

/// If a change of extensions is not supported and the strategy ignores it, the outcome of the
/// proposals is that of the others, under the group's own extensions and capabilities. In a
/// group that has neither, this takes a trial that is answered as the changes themselves are.
pub proof fn unsupported_extensions_do_not_count<F: FilterStrategy, E>(
    applier: ProposalApplier<E>,
    strategy: F,
    bundle: BundleView,
    replies: Replies<E>,
)
    requires
        bundle.group_context_extensions.len() > 0,
        strategy.ignores(borrowed_info(&*bundle.group_context_extensions[0])),
        trial_unsupported(strategy, bundle, replies),
        applier.original_required_capabilities is None
            && applier.original_group_extensions@.len() == 0 ==> replies.trial == replies.original,
    ensures
        changed::<F, E>(applier, strategy, bundle, replies) == tree_changed::<F, E>(
            strategy,
            without_group_context_extensions(bundle),
            applier.original_group_extensions@,
            replies.original,
        ),
        changed::<F, E>(applier, strategy, bundle, replies) == changed::<F, E>(
            applier,
            strategy,
            without_group_context_extensions(bundle),
            replies,
        ),
{
    let cleared = without_group_context_extensions(bundle);
    assert(without_group_context_extensions(cleared) == cleared);
    let list = bundle.group_context_extensions[0].proposal;
    let capabilities = (replies.required_capabilities)(list)->Ok_0;
    let state = tree_changed::<F, E>(strategy, bundle, seq![], replies.trial)->Ok_0;
    let supported = group_extensions_supported(
        list@,
        capabilities,
        state.tree,
        leaf_check_answers(replies, state.tree, capabilities),
    );
    unsupported_trials_do_not_count::<F, E>(
        applier,
        strategy,
        bundle,
        state,
        supported->Err_0,
        replies.trial,
        replies.original,
    );
}

/// If the capabilities that new extensions require cannot be decoded and the strategy
/// ignores the change, the outcome is that of the changes without it.
pub proof fn undecodable_extensions_do_not_count<F: FilterStrategy, E>(
    applier: ProposalApplier<E>,
    strategy: F,
    bundle: BundleView,
    replies: Replies<E>,
)
    requires
        bundle.group_context_extensions.len() > 0,
        strategy.ignores(borrowed_info(&*bundle.group_context_extensions[0])),
        (replies.required_capabilities)(bundle.group_context_extensions[0].proposal) is Err,
    ensures
        changed::<F, E>(applier, strategy, bundle, replies) == changed::<F, E>(
            applier,
            strategy,
            without_group_context_extensions(bundle),
            replies,
        ),
{
    let cleared = without_group_context_extensions(bundle);
    assert(without_group_context_extensions(cleared) == cleared);
}

} // verus!
