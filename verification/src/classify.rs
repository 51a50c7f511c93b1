use vstd::prelude::*;

use crate::config::LAMPORTS_PER_SOL;
use crate::types::{ClassificationFlags, ClassifiedHolder, ClassifyError, LookupOutcome, TokenHolder};

verus! {

/// The creation-time proxy of a wallet: the block time of its oldest known
/// signature. `block_times` is ordered newest first, so the oldest entry is
/// the last one. An empty history or a missing block time is an error.
pub open spec fn spec_wallet_creation_time(block_times: Seq<Option<i64>>) -> Result<
    i64,
    ClassifyError,
> {
    if block_times.len() == 0 {
        Err(ClassifyError::NoHistory)
    } else {
        match block_times.last() {
            Some(t) => Ok(t),
            None => Err(ClassifyError::NoBlockTime),
        }
    }
}

/// A wallet is fresh when its age, `now - creation_time` in seconds, is at
/// most `max_age_hours` hours.
pub open spec fn spec_is_fresh(creation_time: i64, now: i64, max_age_hours: u64) -> bool {
    now - creation_time <= max_age_hours * 3600
}

/// The freshness verdict derived from a signature history: the age test on
/// the oldest block time, or the error that stopped it.
pub open spec fn spec_freshness(
    block_times: Seq<Option<i64>>,
    now: i64,
    max_age_hours: u64,
) -> Result<bool, ClassifyError> {
    match spec_wallet_creation_time(block_times) {
        Ok(t) => Ok(spec_is_fresh(t, now, max_age_hours)),
        Err(e) => Err(e),
    }
}

/// The freshness flag after the degrade step: any failure, of the transport
/// (`None`) or of the history itself, counts as not fresh.
pub open spec fn spec_fresh_flag(o: LookupOutcome, now: i64, max_age_hours: u64) -> bool {
    match o.block_times {
        None => false,
        Some(v) => match spec_freshness(v@, now, max_age_hours) {
            Ok(b) => b,
            Err(_) => false,
        },
    }
}

/// The whale test on a known native balance.
pub open spec fn spec_is_whale(lamports: u64, minimum_sol: u64) -> bool {
    lamports as nat >= minimum_sol as nat * LAMPORTS_PER_SOL as nat
}

/// The whale flag after the degrade step: a failed balance lookup counts as
/// not a whale.
pub open spec fn spec_whale_flag(o: LookupOutcome, minimum_sol: u64) -> bool {
    match o.lamports {
        None => false,
        Some(l) => spec_is_whale(l, minimum_sol),
    }
}

/// The timestamp the wallet is taken to have been created at: the block time
/// of the oldest signature in its history (`block_times` newest first).
pub fn get_wallet_creation_time(block_times: &Vec<Option<i64>>) -> (r: Result<i64, ClassifyError>)
    ensures
        r == spec_wallet_creation_time(block_times@),
{
    if block_times.len() == 0 {
        Err(ClassifyError::NoHistory)
    } else {
        match block_times[block_times.len() - 1] {
            Some(t) => Ok(t),
            None => Err(ClassifyError::NoBlockTime),
        }
    }
}

/// Whether the wallet's first known transaction is at most `max_age_hours`
/// hours before `now`. The age proxy undercounts the true wallet age
/// whenever the history source truncates, so very active old wallets can
/// test fresh.
pub fn is_new_wallet(block_times: &Vec<Option<i64>>, now: i64, max_age_hours: u64) -> (r: Result<
    bool,
    ClassifyError,
>)
    ensures
        r == spec_freshness(block_times@, now, max_age_hours),
{
    match get_wallet_creation_time(block_times) {
        Ok(t) => {
            let age: i128 = (now as i128) - (t as i128);
            let bound: i128 = (max_age_hours as i128) * 3600;
            Ok(age <= bound)
        },
        Err(e) => Err(e),
    }
}

/// Whether a native balance of `lamports` reaches `minimum_sol` whole SOL.
pub fn is_whale(lamports: u64, minimum_sol: u64) -> (r: bool)
    ensures
        r == spec_is_whale(lamports, minimum_sol),
{
    proof {
        assert((minimum_sol as u128) * (LAMPORTS_PER_SOL as u128) <= u128::MAX)
            by (nonlinear_arith)
            requires
                (minimum_sol as u128) < 0x10000000000000000,
                (LAMPORTS_PER_SOL as u128) < 0x10000000000000000,
        ;
    }
    (lamports as u128) >= (minimum_sol as u128) * (LAMPORTS_PER_SOL as u128)
}

/// Both checks for one holder, with either failure absorbed as `false`.
pub fn classify_holder(outcome: &LookupOutcome, now: i64, max_age_hours: u64, minimum_sol: u64) -> (r:
    ClassificationFlags)
    ensures
        r.is_fresh_wallet == spec_fresh_flag(*outcome, now, max_age_hours),
        r.is_whale == spec_whale_flag(*outcome, minimum_sol),
{
    let is_fresh_wallet = match &outcome.block_times {
        None => false,
        Some(v) => match is_new_wallet(v, now, max_age_hours) {
            Ok(b) => b,
            Err(_) => false,
        },
    };
    let is_whale_flag = match outcome.lamports {
        None => false,
        Some(l) => is_whale(l, minimum_sol),
    };
    ClassificationFlags { is_fresh_wallet, is_whale: is_whale_flag }
}

/// The classified pairing of every holder with the flags its lookup
/// outcomes yield, as one value.
pub open spec fn spec_classified(
    holders: Seq<TokenHolder>,
    lookups: Seq<LookupOutcome>,
    now: i64,
    max_age_hours: u64,
    minimum_sol: u64,
) -> Seq<ClassifiedHolder> {
    holders.map(
        |i: int, h: TokenHolder|
            ClassifiedHolder {
                holder: h,
                flags: ClassificationFlags {
                    is_fresh_wallet: spec_fresh_flag(lookups[i], now, max_age_hours),
                    is_whale: spec_whale_flag(lookups[i], minimum_sol),
                },
            },
    )
}

/// Classifies every filtered holder against its two lookup outcomes and
/// pairs it with the result. The output keeps the input order: entry `i`
/// holds exactly `holders[i]`, whatever order the lookups completed in, and
/// a holder whose lookups failed still appears, flagged neither fresh nor
/// whale.
pub fn classify_all(
    holders: Vec<TokenHolder>,
    lookups: Vec<LookupOutcome>,
    now: i64,
    max_age_hours: u64,
    minimum_sol: u64,
) -> (r: Vec<ClassifiedHolder>)
    requires
        lookups@.len() == holders@.len(),
    ensures
        r@.len() == holders@.len(),
        forall|i: int|
            0 <= i < r@.len() ==> {
                &&& (#[trigger] r@[i]).holder == holders@[i]
                &&& r@[i].flags.is_fresh_wallet == spec_fresh_flag(lookups@[i], now, max_age_hours)
                &&& r@[i].flags.is_whale == spec_whale_flag(lookups@[i], minimum_sol)
            },
        r@ == spec_classified(holders@, lookups@, now, max_age_hours, minimum_sol),
{
    let ghost orig_holders = holders@;
    let ghost orig_lookups = lookups@;
    let mut rest = holders;
    let mut pending = lookups;
    let mut out: Vec<ClassifiedHolder> = Vec::new();
    let ghost mut i: int = 0;
    while rest.len() > 0
        invariant
            0 <= i <= orig_holders.len(),
            orig_lookups.len() == orig_holders.len(),
            rest@ == orig_holders.skip(i),
            pending@ == orig_lookups.skip(i),
            out@.len() == i,
            forall|j: int|
                0 <= j < i ==> {
                    &&& (#[trigger] out@[j]).holder == orig_holders[j]
                    &&& out@[j].flags.is_fresh_wallet == spec_fresh_flag(
                        orig_lookups[j],
                        now,
                        max_age_hours,
                    )
                    &&& out@[j].flags.is_whale == spec_whale_flag(orig_lookups[j], minimum_sol)
                },
        decreases rest@.len(),
    {
        let h = rest.remove(0);
        let o = pending.remove(0);
        proof {
            assert(h == orig_holders[i]);
            assert(o == orig_lookups[i]);
            assert(rest@ =~= orig_holders.skip(i + 1));
            assert(pending@ =~= orig_lookups.skip(i + 1));
        }
        let flags = classify_holder(&o, now, max_age_hours, minimum_sol);
        out.push(ClassifiedHolder { holder: h, flags });
        proof {
            i = i + 1;
        }
    }
    proof {
        assert(out@ =~= spec_classified(orig_holders, orig_lookups, now, max_age_hours,
            minimum_sol));
    }
    out
}

} // verus!
