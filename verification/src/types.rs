use vstd::prelude::*;

verus! {

/// One address currently holding a balance of the inspected token.
///
/// `balance` is the smallest-unit amount as read from the ledger; the
/// displayed amount is `balance / 10^decimals`, which contracts state
/// exactly over the integers instead of through floating point.
#[derive(Clone, Debug)]
pub struct TokenHolder {
    pub owner: String,
    pub balance: u64,
    pub decimals: u8,
    pub holding_duration: Option<i64>,
}

impl TokenHolder {
    pub fn new(owner: String, balance: u64, decimals: u8) -> (r: TokenHolder)
        ensures
            r.owner == owner,
            r.balance == balance,
            r.decimals == decimals,
            r.holding_duration is None,
    {
        TokenHolder { owner, balance, decimals, holding_duration: None }
    }
}

/// Per-holder classification result, produced once per report generation.
/// Either flag is `false` when its underlying lookup failed.
#[derive(Clone, Copy, PartialEq, Eq, Structural, Debug)]
pub struct ClassificationFlags {
    pub is_fresh_wallet: bool,
    pub is_whale: bool,
}

/// A holder paired with its classification flags.
#[derive(Clone, Debug)]
pub struct ClassifiedHolder {
    pub holder: TokenHolder,
    pub flags: ClassificationFlags,
}

/// Fatal errors of the fetch stage; everything downstream degrades instead.
#[derive(Clone, Copy, PartialEq, Eq, Structural, Debug)]
pub enum FetchError {
    InvalidMintAddress,
    UpstreamUnavailable,
}

/// Errors of a single freshness lookup; the classification driver absorbs
/// them as a `false` flag instead of propagating them.
#[derive(Clone, Copy, PartialEq, Eq, Structural, Debug)]
pub enum ClassifyError {
    NoHistory,
    NoBlockTime,
}

/// What the two per-holder network lookups came back with.
/// `block_times` holds the block time of each signature of the wallet,
/// newest first, or `None` when the whole lookup failed; `lamports` holds
/// the wallet's native balance, or `None` when that lookup failed.
pub struct LookupOutcome {
    pub block_times: Option<Vec<Option<i64>>>,
    pub lamports: Option<u64>,
}

} // verus!
