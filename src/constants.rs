use vstd::prelude::*;

verus! {

/// How many items one ledger record can hold.
pub const NFT_STAKE_MAX_COUNT: usize = 10;

/// How many items the whole pool is sized for.
pub const NFT_TOTAL_COUNT: usize = 5000;

/// Length of a staking day, in seconds.
pub const DAY: i64 = 60 * 1;

/// Lock period of the seven-day passive tier, in seconds.
pub const LIMIT_PERIOD_7: i64 = DAY * 7;

/// Lock period of the thirty-day passive tier, in seconds.
pub const LIMIT_PERIOD_30: i64 = DAY * 30;

} // verus!
