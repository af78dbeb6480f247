//! Rules for pre-shared keys.

use vstd::prelude::*;

use std::sync::Arc;

use crate::bytes::same_bytes;
use crate::group::proposal::{
    JustPreSharedKeyID, PreSharedKeyID, PreSharedKeyProposal, ProposalInfo, ResumptionPSKUsage,
};
use crate::group::proposal_filter::error::ProposalFilterError;
use crate::group::proposal_filter::screening::{screened_flags, Verdict};
use crate::group::proposal_filter::strategy::{apply_strategy, strategy_applied, FilterStrategy};

verus! {

/// What names a pre-shared key, without its nonce.
pub ghost enum PskNameView {
    External(Seq<u8>),
    Resumption { usage: ResumptionPSKUsage, group_id: Seq<u8>, epoch: u64 },
}

impl View for JustPreSharedKeyID {
    type V = PskNameView;

    open spec fn view(&self) -> PskNameView {
        match self {
            JustPreSharedKeyID::External(id) => PskNameView::External(id@),
            JustPreSharedKeyID::Resumption(psk) => PskNameView::Resumption {
                usage: psk.usage,
                group_id: psk.psk_group_id@,
                epoch: psk.psk_epoch,
            },
        }
    }
}

impl View for PreSharedKeyID {
    type V = (PskNameView, Seq<u8>);

    open spec fn view(&self) -> (PskNameView, Seq<u8>) {
        (self.key_id@, self.psk_nonce@)
    }
}

impl PreSharedKeyID {
    /// Whether both name the same key, with the same nonce.
    pub fn is_same(&self, other: &PreSharedKeyID) -> (same: bool)
        ensures
            same == (self@ == other@),
    {
        let same_key = match (&self.key_id, &other.key_id) {
            (JustPreSharedKeyID::External(a), JustPreSharedKeyID::External(b)) => same_bytes(a, b),
            (JustPreSharedKeyID::Resumption(a), JustPreSharedKeyID::Resumption(b)) => a.usage
                == b.usage && a.psk_epoch == b.psk_epoch && same_bytes(
                &a.psk_group_id,
                &b.psk_group_id,
            ),
            _ => false,
        };
        same_key && same_bytes(&self.psk_nonce, &other.psk_nonce)
    }
}

/// A key from outside may always be used, a secret of another epoch only for the
/// application.
pub open spec fn usable_in_proposal(key_id: JustPreSharedKeyID) -> bool {
    match key_id {
        JustPreSharedKeyID::External(_) => true,
        JustPreSharedKeyID::Resumption(psk) => psk.usage is Application,
    }
}

/// One of the first `n` proposals names the same key, with the same nonce.
pub open spec fn named_among(
    psks: Seq<Arc<ProposalInfo<PreSharedKeyProposal>>>,
    n: int,
    psk: PreSharedKeyID,
) -> bool {
    exists|j: int| 0 <= j < n && (#[trigger] psks[j]).proposal.psk@ == psk@
}

/// What is wrong with pre-shared key `i`, where `external_id` is what the validator
/// says of its name. The kind of key counts first, then the length of its nonce,
/// then whether it was named before, then the validator.
pub open spec fn psk_verdict<E>(
    psks: Seq<Arc<ProposalInfo<PreSharedKeyProposal>>>,
    i: int,
    kdf_extract_size: usize,
    external_id: Result<(), E>,
) -> Result<(), ProposalFilterError<E>> {
    let psk = psks[i].proposal.psk;
    if !usable_in_proposal(psk.key_id) {
        Err(ProposalFilterError::InvalidTypeOrUsageInPreSharedKeyProposal)
    } else if psk.psk_nonce@.len() != kdf_extract_size {
        Err(
            ProposalFilterError::InvalidPskNonceLength {
                expected: kdf_extract_size,
                found: psk.psk_nonce@.len() as usize,
            },
        )
    } else if named_among(psks, i, psk) {
        Err(ProposalFilterError::DuplicatePskIds)
    } else {
        match psk.key_id {
            JustPreSharedKeyID::Resumption(_) => Ok(()),
            JustPreSharedKeyID::External(_) => match external_id {
                Ok(_) => Ok(()),
                Err(e) => Err(ProposalFilterError::PskIdValidationError(e)),
            },
        }
    }
}

/// What is wrong with each of the pre-shared keys, where `external_ids` is what the
/// validator says of their names.
pub open spec fn psk_verdicts<E>(
    psks: Seq<Arc<ProposalInfo<PreSharedKeyProposal>>>,
    kdf_extract_size: usize,
    external_ids: Seq<Result<(), E>>,
) -> Seq<Verdict<E>> {
    Seq::new(
        psks.len(),
        |i: int| Verdict::Judged(psk_verdict(psks, i, kdf_extract_size, external_ids[i])),
    )
}

/// What is wrong with pre-shared key `i`, where `external_id` is what the validator
/// says of its name; nothing is asked of the validator about a secret of another
/// epoch, and `external_id` is not looked at.
pub fn check_psk<E>(
    psks: &Vec<Arc<ProposalInfo<PreSharedKeyProposal>>>,
    i: usize,
    kdf_extract_size: usize,
    external_id: Result<(), E>,
) -> (r: Result<(), ProposalFilterError<E>>)
    requires
        i < psks@.len(),
    ensures
        r == psk_verdict(psks@, i as int, kdf_extract_size, external_id),
{
    let psk = &psks[i].proposal.psk;
    let valid = match &psk.key_id {
        JustPreSharedKeyID::External(_) => true,
        JustPreSharedKeyID::Resumption(resumption) => resumption.usage
            == ResumptionPSKUsage::Application,
    };
    let nonce_length = psk.psk_nonce.len();

    let mut is_new_id: bool = true;
    for j in 0..i
        invariant
            i < psks@.len(),
            psk == psks@[i as int].proposal.psk,
            is_new_id == !named_among(psks@, j as int, *psk),
    {
        let same = psks[j].proposal.psk.is_same(psk);
        assert(named_among(psks@, j + 1, *psk) == (named_among(psks@, j as int, *psk) || same)) by {
            if named_among(psks@, j + 1, *psk) && !same {
                let k = choose|k: int|
                    0 <= k < j + 1 && (#[trigger] psks@[k]).proposal.psk@ == psk@;
                assert(psks@[k].proposal.psk@ == psk@);
            }
            if same {
                assert(psks@[j as int].proposal.psk@ == psk@);
            }
        }
        is_new_id = is_new_id && !same;
    }

    if !valid {
        Err(ProposalFilterError::InvalidTypeOrUsageInPreSharedKeyProposal)
    } else if nonce_length != kdf_extract_size {
        Err(
            ProposalFilterError::InvalidPskNonceLength {
                expected: kdf_extract_size,
                found: nonce_length,
            },
        )
    } else if !is_new_id {
        Err(ProposalFilterError::DuplicatePskIds)
    } else {
        match &psk.key_id {
            JustPreSharedKeyID::Resumption(_) => Ok(()),
            JustPreSharedKeyID::External(_) => match external_id {
                Ok(_) => Ok(()),
                Err(e) => Err(ProposalFilterError::PskIdValidationError(e)),
            },
        }
    }
}

/// Which of the pre-shared keys are kept: `flags` says it of the first of them, and
/// the others are decided one after the other; or why the commit fails.
pub open spec fn psk_flags<F: FilterStrategy, E>(
    strategy: F,
    psks: Seq<Arc<ProposalInfo<PreSharedKeyProposal>>>,
    kdf_extract_size: usize,
    external_ids: Seq<Result<(), E>>,
    flags: Seq<bool>,
) -> Result<Seq<bool>, ProposalFilterError<E>> {
    screened_flags::<F, PreSharedKeyProposal, E>(
        strategy,
        psks,
        psk_verdicts(psks, kdf_extract_size, external_ids),
        flags,
    )
}

/// Where the screening of pre-shared keys comes to without asking.
pub ghost enum PskRun<E> {
    /// The validator has to be asked about the name of the next key; of those before it,
    /// this says which are kept.
    Asks(Seq<bool>),
    /// All keys are decided.
    Done(Seq<bool>),
    /// The commit fails.
    Fails(ProposalFilterError<E>),
}

/// What becomes of key `i` under a strategy, where `external_id` is what the validator says
/// of its name.
pub open spec fn psk_decision<F: FilterStrategy, E>(
    strategy: F,
    psks: Seq<Arc<ProposalInfo<PreSharedKeyProposal>>>,
    i: int,
    kdf_extract_size: usize,
    external_id: Result<(), E>,
) -> Result<bool, ProposalFilterError<E>> {
    strategy_applied(strategy, *psks[i], psk_verdict(psks, i, kdf_extract_size, external_id))
}

/// Key `i` comes from outside.
pub open spec fn is_external(psks: Seq<Arc<ProposalInfo<PreSharedKeyProposal>>>, i: int) -> bool {
    psks[i].proposal.psk.key_id is External
}

/// Screens the keys after `flags`, one after the other. The validator has to be asked about
/// the name of every external key, even where something else is wrong with it.
pub open spec fn psk_run<F: FilterStrategy, E>(
    strategy: F,
    psks: Seq<Arc<ProposalInfo<PreSharedKeyProposal>>>,
    kdf_extract_size: usize,
    flags: Seq<bool>,
) -> PskRun<E>
    decreases psks.len() - flags.len(),
{
    let i = flags.len() as int;
    if flags.len() >= psks.len() {
        PskRun::Done(flags)
    } else if is_external(psks, i) {
        PskRun::Asks(flags)
    } else {
        match psk_decision::<F, E>(strategy, psks, i, kdf_extract_size, Ok(())) {
            Err(e) => PskRun::Fails(e),
            Ok(keep) => psk_run::<F, E>(strategy, psks, kdf_extract_size, flags.push(keep)),
        }
    }
}

/// The keys from `from` on, and before `to`, are secrets of other epochs.
pub open spec fn none_external(
    psks: Seq<Arc<ProposalInfo<PreSharedKeyProposal>>>,
    from: int,
    to: int,
) -> bool {
    forall|i: int|
        from <= i < to ==> (#[trigger] psks[i]).proposal.psk.key_id is Resumption
}

/// The commit fails with this error at key `n`, a secret of another epoch, and no external
/// key from `from` on comes before it.
pub open spec fn fails_at<F: FilterStrategy, E>(
    strategy: F,
    psks: Seq<Arc<ProposalInfo<PreSharedKeyProposal>>>,
    kdf_extract_size: usize,
    from: int,
    n: int,
    e: ProposalFilterError<E>,
) -> bool {
    &&& from <= n < psks.len()
    &&& none_external(psks, from, n + 1)
    &&& psk_decision::<F, E>(strategy, psks, n, kdf_extract_size, Ok(())) == Err::<bool, _>(e)
}

/// No external key is passed over: screening without asking comes to the first external key
/// after `flags`, or to the end if there is none, or it fails at a key before that.
pub open spec fn passes_over_none<F: FilterStrategy, E>(
    strategy: F,
    psks: Seq<Arc<ProposalInfo<PreSharedKeyProposal>>>,
    kdf_extract_size: usize,
    flags: Seq<bool>,
    run: PskRun<E>,
) -> bool {
    let from = flags.len() as int;
    match run {
        PskRun::Asks(kept) => {
            &&& from <= kept.len() < psks.len()
            &&& kept.take(from) == flags
            &&& none_external(psks, from, kept.len() as int)
            &&& is_external(psks, kept.len() as int)
        },
        PskRun::Done(kept) => {
            &&& kept.len() == psks.len()
            &&& kept.take(from) == flags
            &&& none_external(psks, from, psks.len() as int)
        },
        PskRun::Fails(e) => exists|n: int| #[trigger]
            fails_at::<F, E>(strategy, psks, kdf_extract_size, from, n, e),
    }
}

/// The validator is asked about every external key, once and in order: no external key is
/// passed over between one question and the next.
pub proof fn every_external_psk_is_asked_about<F: FilterStrategy, E>(
    strategy: F,
    psks: Seq<Arc<ProposalInfo<PreSharedKeyProposal>>>,
    kdf_extract_size: usize,
    flags: Seq<bool>,
)
    requires
        flags.len() <= psks.len(),
    ensures
        passes_over_none::<F, E>(
            strategy,
            psks,
            kdf_extract_size,
            flags,
            psk_run::<F, E>(strategy, psks, kdf_extract_size, flags),
        ),
    decreases psks.len() - flags.len(),
{
    let i = flags.len() as int;
    if flags.len() >= psks.len() || is_external(psks, i) {
        assert(flags.take(i) =~= flags);
    } else {
        match psk_decision::<F, E>(strategy, psks, i, kdf_extract_size, Ok(())) {
            Err(e) => {
                assert(fails_at::<F, E>(strategy, psks, kdf_extract_size, i, i, e));
            },
            Ok(keep) => {
                let next = flags.push(keep);
                every_external_psk_is_asked_about::<F, E>(strategy, psks, kdf_extract_size, next);
                match psk_run::<F, E>(strategy, psks, kdf_extract_size, next) {
                    PskRun::Fails(e) => {
                        let n = choose|n: int| #[trigger]
                            fails_at::<F, E>(strategy, psks, kdf_extract_size, i + 1, n, e);
                        assert(fails_at::<F, E>(strategy, psks, kdf_extract_size, i, n, e));
                    },
                    PskRun::Asks(kept) | PskRun::Done(kept) => {
                        assert(kept.take(i) =~= kept.take(i + 1).take(i));
                        assert(next.take(i) =~= flags);
                    },
                }
            },
        }
    }
}

/// Screens the pre-shared keys, from the one after `flags` on, up to the first whose
/// name the validator has to be asked about.
pub fn screen_psks<F: FilterStrategy, E>(
    strategy: &F,
    psks: &Vec<Arc<ProposalInfo<PreSharedKeyProposal>>>,
    kdf_extract_size: usize,
    flags: Vec<bool>,
) -> (r: Result<Vec<bool>, ProposalFilterError<E>>)
    requires
        flags@.len() <= psks@.len(),
    ensures
        match psk_run::<F, E>(*strategy, psks@, kdf_extract_size, flags@) {
            PskRun::Asks(kept) => r matches Ok(k) && k@ == kept && kept.len() < psks@.len(),
            PskRun::Done(kept) => r matches Ok(k) && k@ == kept && kept.len() == psks@.len(),
            PskRun::Fails(e) => r == Err::<Vec<bool>, _>(e),
        },
        r matches Ok(kept) ==> {
            &&& flags@.len() <= kept@.len() <= psks@.len()
            &&& kept@.len() < psks@.len()
                ==> psks@[kept@.len() as int].proposal.psk.key_id is External
            &&& none_external(psks@, flags@.len() as int, kept@.len() as int)
            &&& forall|ids: Seq<Result<(), E>>| #[trigger]
                psk_flags::<F, E>(*strategy, psks@, kdf_extract_size, ids, flags@) == psk_flags::<
                    F,
                    E,
                >(*strategy, psks@, kdf_extract_size, ids, kept@)
        },
        r matches Err(e) ==> exists|n: int| #[trigger]
            fails_at::<F, E>(*strategy, psks@, kdf_extract_size, flags@.len() as int, n, e),
        r matches Err(e) ==> forall|ids: Seq<Result<(), E>>| #[trigger]
            psk_flags::<F, E>(*strategy, psks@, kdf_extract_size, ids, flags@) == Err::<
                Seq<bool>,
                ProposalFilterError<E>,
            >(e),
{
    let mut kept = flags;
    let n: usize = psks.len();
    proof {
        every_external_psk_is_asked_about::<F, E>(*strategy, psks@, kdf_extract_size, flags@);
    }
    while kept.len() < n
        invariant
            n == psks@.len(),
            flags@.len() <= kept@.len() <= n,
            psk_run::<F, E>(*strategy, psks@, kdf_extract_size, kept@) == psk_run::<F, E>(
                *strategy,
                psks@,
                kdf_extract_size,
                flags@,
            ),
            passes_over_none::<F, E>(
                *strategy,
                psks@,
                kdf_extract_size,
                flags@,
                psk_run::<F, E>(*strategy, psks@, kdf_extract_size, flags@),
            ),
            forall|ids: Seq<Result<(), E>>| #[trigger]
                psk_flags::<F, E>(*strategy, psks@, kdf_extract_size, ids, flags@) == psk_flags::<
                    F,
                    E,
                >(*strategy, psks@, kdf_extract_size, ids, kept@),
        decreases n - kept.len(),
    {
        let i: usize = kept.len();
        let p = &psks[i];
        match &p.proposal.psk.key_id {
            JustPreSharedKeyID::External(_) => {
                return Ok(kept);
            },
            JustPreSharedKeyID::Resumption(_) => {
                let res = check_psk::<E>(psks, i, kdf_extract_size, Ok(()));
                match apply_strategy(strategy, &**p, res) {
                    Ok(keep) => kept.push(keep),
                    Err(e) => return Err(e),
                }
            },
        }
    }
    Ok(kept)
}

} // verus!
