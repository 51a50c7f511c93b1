use vstd::prelude::*;

verus! {

/// Default minimum displayed balance a holder needs to enter the report.
pub const MINIMUM_UI_AMOUNT: u64 = 2_000_000;

/// Default age bound, in hours, under which a wallet counts as freshly
/// created ("bundle" wallet).
pub const MAX_WALLET_AGE_HOURS: u64 = 48;

/// Default native balance, in whole SOL, from which a wallet counts as a
/// whale.
pub const MINIMUM_SOL_FOR_WHALE: u64 = 40;

/// Smallest native units per whole SOL.
pub const LAMPORTS_PER_SOL: u64 = 1_000_000_000;

} // verus!
