//! Protocol-wide constants.
use vstd::prelude::*;

verus! {

/// The whole in basis points: a fee of 10_000 bps is 100%.
pub const ONE_IN_BASIS_POINTS: u16 = 10_000;

/// Seconds after `resolve_ts` during which a fresh oracle sample may
/// still settle the market before it falls back to `Undecided`.
pub const RESOLVE_TS_WINDOW: i64 = 15 * 60;

/// Price of one share before the imbalance multiplier, in the trading
/// token's smallest denomination (one whole token at 6 decimals).
pub const BASE_SHARE_PRICE: u32 = 1_000_000;

/// An oracle sample older than this many seconds cannot settle a market.
pub const MAX_PRICE_AGE: i64 = 60;

} // verus!
