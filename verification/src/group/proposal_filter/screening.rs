//! Going through the proposals of one kind and dropping those that are not valid.

use vstd::prelude::*;

use std::sync::Arc;

use crate::group::proposal::{BorrowedProposal, ProposalInfo};
use crate::group::proposal_filter::bundle::{
    is_part_of, picks, BundleView, Bundled, ProposalBundle,
};
use crate::group::proposal_filter::error::ProposalFilterError;
use crate::group::proposal_filter::strategy::{
    borrowed_info, strategy_applied, FilterStrategy, IgnoreInvalidByRefProposal,
};

verus! {

/// What a check finds about one proposal.
pub ghost enum Verdict<E> {
    /// It is valid, or the strategy decides what its fault leads to.
    Judged(Result<(), ProposalFilterError<E>>),
    /// It makes the commit fail, whatever the strategy.
    Fatal(ProposalFilterError<E>),
}

/// Whether a proposal is kept, or that the commit fails.
pub open spec fn decided<F: FilterStrategy, P: Bundled, E>(
    strategy: F,
    info: ProposalInfo<P>,
    verdict: Verdict<E>,
) -> Result<bool, ProposalFilterError<E>> {
    match verdict {
        Verdict::Judged(r) => strategy_applied(strategy, info, r),
        Verdict::Fatal(e) => Err(e),
    }
}

/// Whether proposal `i` is kept, or that the commit fails.
pub open spec fn decision<F: FilterStrategy, P: Bundled, E>(
    strategy: F,
    items: Seq<Arc<ProposalInfo<P>>>,
    verdicts: Seq<Verdict<E>>,
    i: int,
) -> Result<bool, ProposalFilterError<E>> {
    decided(strategy, *items[i], verdicts[i])
}

/// Which of the proposals are kept: `flags` says it of the first of them, and the
/// others are decided one after the other. The first that makes the commit fail
/// decides with which error it does.
pub open spec fn screened_flags<F: FilterStrategy, P: Bundled, E>(
    strategy: F,
    items: Seq<Arc<ProposalInfo<P>>>,
    verdicts: Seq<Verdict<E>>,
    flags: Seq<bool>,
) -> Result<Seq<bool>, ProposalFilterError<E>>
    decreases items.len() - flags.len(),
{
    if flags.len() >= items.len() {
        Ok(flags)
    } else {
        match decision(strategy, items, verdicts, flags.len() as int) {
            Err(e) => Err(e),
            Ok(keep) => screened_flags(strategy, items, verdicts, flags.push(keep)),
        }
    }
}

/// Those of the first `n` items whose flag is set, in order.
pub open spec fn selected_of<T>(items: Seq<T>, flags: Seq<bool>, n: int) -> Seq<T>
    decreases n,
{
    if n <= 0 {
        seq![]
    } else if flags[n - 1] {
        selected_of(items, flags, n - 1).push(items[n - 1])
    } else {
        selected_of(items, flags, n - 1)
    }
}

/// The items whose flag is set, in order.
pub open spec fn selected<T>(items: Seq<T>, flags: Seq<bool>) -> Seq<T> {
    selected_of(items, flags, items.len() as int)
}

/// The bundle without the proposals of one kind that are dropped, where `flags`
/// says of the first of them which are kept; or why the commit fails.
pub open spec fn screened_from<F: FilterStrategy, P: Bundled, E>(
    strategy: F,
    bundle: BundleView,
    verdicts: Seq<Verdict<E>>,
    flags: Seq<bool>,
) -> Result<BundleView, ProposalFilterError<E>> {
    match screened_flags::<F, P, E>(strategy, P::list(bundle), verdicts, flags) {
        Err(e) => Err(e),
        Ok(all) => Ok(P::with_list(bundle, selected(P::list(bundle), all))),
    }
}

/// The bundle without the proposals of one kind that are dropped; or why the
/// commit fails.
pub open spec fn screened<F: FilterStrategy, P: Bundled, E>(
    strategy: F,
    bundle: BundleView,
    verdicts: Seq<Verdict<E>>,
) -> Result<BundleView, ProposalFilterError<E>> {
    screened_from::<F, P, E>(strategy, bundle, verdicts, seq![])
}

/// The result stands for this bundle, or for this error.
pub open spec fn yields<E>(
    r: Result<ProposalBundle, ProposalFilterError<E>>,
    expected: Result<BundleView, ProposalFilterError<E>>,
) -> bool {
    match expected {
        Ok(bundle) => r matches Ok(b) && b@ == bundle,
        Err(e) => r == Err::<ProposalBundle, ProposalFilterError<E>>(e),
    }
}

/// Keeps the proposals of one kind whose flag is set.
pub fn retain_flagged<P: Bundled>(proposals: &mut ProposalBundle, flags: &Vec<bool>)
    requires
        flags@.len() == P::list(old(proposals)@).len(),
    ensures
        final(proposals)@ == P::with_list(
            old(proposals)@,
            selected(P::list(old(proposals)@), flags@),
        ),
{
    let mut kept: Vec<Arc<ProposalInfo<P>>> = Vec::new();
    let items = P::by_type(proposals);
    let n: usize = items.len();
    for i in 0..n
        invariant
            n == items.len(),
            n == flags.len(),
            kept@ == selected_of(items@, flags@, i as int),
    {
        if flags[i] {
            kept.push(items[i].clone());
        }
    }
    P::set_list(proposals, kept);
}

// ---------------------------------------------------------------------------
// Laws of screening
// ---------------------------------------------------------------------------

/// The positions among the first `n` whose flag is set, in order.
pub open spec fn flagged_positions(flags: Seq<bool>, n: int) -> Seq<int>
    decreases n,
{
    if n <= 0 {
        seq![]
    } else if flags[n - 1] {
        flagged_positions(flags, n - 1).push(n - 1)
    } else {
        flagged_positions(flags, n - 1)
    }
}

/// What is selected are exactly the items whose flag is set, in their order.
pub proof fn selection_keeps_order<T>(items: Seq<T>, flags: Seq<bool>, n: int)
    requires
        0 <= n <= items.len(),
    ensures
        picks(selected_of(items, flags, n), items, flagged_positions(flags, n)),
        forall|k: int|
            0 <= k < flagged_positions(flags, n).len() ==> 0 <= #[trigger] flagged_positions(
                flags,
                n,
            )[k] < n && flags[flagged_positions(flags, n)[k]],
        forall|i: int|
            0 <= i < n && flags[i] ==> #[trigger] flagged_positions(flags, n).contains(i),
    decreases n,
{
    if n > 0 {
        selection_keeps_order(items, flags, n - 1);
        let before = flagged_positions(flags, n - 1);
        let after = flagged_positions(flags, n);
        if flags[n - 1] {
            assert(after[after.len() - 1] == n - 1);
            assert forall|i: int| 0 <= i < n && flags[i] implies #[trigger] after.contains(i) by {
                if i < n - 1 {
                    assert(before.contains(i));
                    let k = choose|k: int| 0 <= k < before.len() && before[k] == i;
                    assert(after[k] == i);
                }
            }
        } else {
            assert forall|i: int| 0 <= i < n && flags[i] implies #[trigger] after.contains(i) by {
                assert(before.contains(i));
            }
        }
    }
}

/// Where all flags are set, everything is selected.
pub proof fn all_flagged_selects_all<T>(items: Seq<T>, flags: Seq<bool>, n: int)
    requires
        0 <= n <= items.len(),
        forall|i: int| 0 <= i < n ==> flags[i],
    ensures
        selected_of(items, flags, n) == items.take(n),
    decreases n,
{
    if n > 0 {
        all_flagged_selects_all(items, flags, n - 1);
        assert(items.take(n - 1).push(items[n - 1]) =~= items.take(n));
    } else {
        assert(items.take(0) =~= Seq::<T>::empty());
    }
}

/// Screening decides about one proposal after the other. It fails exactly if the
/// commit fails at one of them, with the error of the first; if not, each is kept or
/// dropped as it was decided.
pub proof fn screening_decides_each<F: FilterStrategy, P: Bundled, E>(
    strategy: F,
    items: Seq<Arc<ProposalInfo<P>>>,
    verdicts: Seq<Verdict<E>>,
    flags: Seq<bool>,
)
    requires
        flags.len() <= items.len(),
    ensures
        match screened_flags(strategy, items, verdicts, flags) {
            Ok(all) => {
                &&& all.len() == items.len()
                &&& forall|i: int| 0 <= i < flags.len() ==> all[i] == flags[i]
                &&& forall|i: int|
                    flags.len() <= i < items.len() ==> #[trigger] decision(
                        strategy,
                        items,
                        verdicts,
                        i,
                    ) == Ok::<bool, ProposalFilterError<E>>(all[i])
            },
            Err(e) => exists|i: int|
                {
                    &&& flags.len() <= i < items.len()
                    &&& #[trigger] decision(strategy, items, verdicts, i) == Err::<
                        bool,
                        ProposalFilterError<E>,
                    >(e)
                    &&& forall|j: int|
                        flags.len() <= j < i ==> #[trigger] decision(
                            strategy,
                            items,
                            verdicts,
                            j,
                        ) is Ok
                },
        },
    decreases items.len() - flags.len(),
{
    if flags.len() < items.len() {
        let n = flags.len() as int;
        let first = decision(strategy, items, verdicts, n);
        match first {
            Err(e) => {},
            Ok(keep) => {
                let next = flags.push(keep);
                screening_decides_each(strategy, items, verdicts, next);
                match screened_flags(strategy, items, verdicts, next) {
                    Ok(all) => {
                        assert(all[n] == next[n]);
                        assert forall|i: int| 0 <= i < flags.len() implies all[i] == flags[i] by {
                            assert(all[i] == next[i]);
                        }
                    },
                    Err(e) => {
                        let i = choose|i: int|
                            {
                                &&& next.len() <= i < items.len()
                                &&& #[trigger] decision(strategy, items, verdicts, i) == Err::<
                                    bool,
                                    ProposalFilterError<E>,
                                >(e)
                                &&& forall|j: int|
                                    next.len() <= j < i ==> #[trigger] decision(
                                        strategy,
                                        items,
                                        verdicts,
                                        j,
                                    ) is Ok
                            };
                        assert(decision(strategy, items, verdicts, i) == Err::<
                            bool,
                            ProposalFilterError<E>,
                        >(e));
                    },
                }
            },
        }
    }
}

/// The check found nothing wrong.
pub open spec fn nothing_wrong<E>(verdict: Verdict<E>) -> bool {
    verdict matches Verdict::Judged(r) && r is Ok
}

/// What screening keeps is part of what there was, and nothing is wrong with it.
pub proof fn screening_keeps_valid<F: FilterStrategy, P: Bundled, E>(
    strategy: F,
    bundle: BundleView,
    verdicts: Seq<Verdict<E>>,
) -> (positions: Seq<int>)
    ensures
        screened::<F, P, E>(strategy, bundle, verdicts) matches Ok(b) ==> {
            &&& is_part_of(b, bundle)
            &&& b == P::with_list(bundle, P::list(b))
            &&& picks(P::list(b), P::list(bundle), positions)
            &&& forall|k: int|
                0 <= k < positions.len() ==> nothing_wrong(verdicts[#[trigger] positions[k]])
        },
{
    let items = P::list(bundle);
    screening_decides_each::<F, P, E>(strategy, items, verdicts, seq![]);
    match screened_flags::<F, P, E>(strategy, items, verdicts, seq![]) {
        Ok(all) => {
            let n = items.len() as int;
            let positions = flagged_positions(all, n);
            let kept = selected(items, all);
            selection_keeps_order(items, all, n);
            P::list_laws(bundle, kept);
            assert forall|k: int| 0 <= k < positions.len() implies nothing_wrong(
                verdicts[#[trigger] positions[k]],
            ) by {
                let i = positions[k];
                assert(all[i]);
                assert(decision(strategy, items, verdicts, i) == Ok::<
                    bool,
                    ProposalFilterError<E>,
                >(all[i]));
            }
            positions
        },
        Err(_) => seq![],
    }
}

/// Under [`FailInvalidProposal`] nothing is dropped: a commit fails or is taken as it is.
pub proof fn failing_strategy_drops_nothing<F: FilterStrategy, P: Bundled, E>(
    strategy: F,
    bundle: BundleView,
    verdicts: Seq<Verdict<E>>,
)
    requires
        forall|p: ProposalInfo<BorrowedProposal<'_>>| !(#[trigger] strategy.ignores(p)),
    ensures
        screened::<F, P, E>(strategy, bundle, verdicts) matches Ok(b) ==> b == bundle,
{
    let items = P::list(bundle);
    screening_decides_each::<F, P, E>(strategy, items, verdicts, seq![]);
    match screened_flags::<F, P, E>(strategy, items, verdicts, seq![]) {
        Ok(all) => {
            assert forall|i: int| 0 <= i < items.len() implies all[i] by {
                assert(decision(strategy, items, verdicts, i) == Ok::<
                    bool,
                    ProposalFilterError<E>,
                >(all[i]));
                assert(!strategy.ignores(borrowed_info(&*items[i])));
            }
            all_flagged_selects_all(items, all, items.len() as int);
            assert(items.take(items.len() as int) =~= items);
            P::list_laws(bundle, items);
        },
        Err(_) => {},
    }
}

/// Under [`IgnoreInvalidByRefProposal`] proposals by reference alone do not make a
/// commit fail, unless one does so whatever the strategy.
pub proof fn by_ref_proposals_do_not_fail<P: Bundled, E>(
    bundle: BundleView,
    verdicts: Seq<Verdict<E>>,
)
    requires
        forall|i: int|
            0 <= i < P::list(bundle).len() ==> (#[trigger] P::list(bundle)[i]).proposal_ref is Some
                && verdicts[i] is Judged,
    ensures
        screened::<IgnoreInvalidByRefProposal, P, E>(
            IgnoreInvalidByRefProposal,
            bundle,
            verdicts,
        ) is Ok,
{
    screening_decides_each::<IgnoreInvalidByRefProposal, P, E>(
        IgnoreInvalidByRefProposal,
        P::list(bundle),
        verdicts,
        seq![],
    );
}

} // verus!
