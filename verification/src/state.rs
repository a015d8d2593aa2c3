//! The persisted entities: configuration, markets and positions.
//!
//! Account identities (authorities, mints, price feeds) are opaque to
//! the market's logic, which only ever compares them for equality, so
//! they are carried as plain `u64` identifiers; the host environment
//! maps its own key type onto them.
use vstd::prelude::*;
use vstd::string::StringSliceAdditionalSpecFns;

verus! {

/// Global singleton: the protocol fee rate and the accepted trading
/// token. Effectively immutable after `initialize_config`.
#[derive(Clone, Copy, Debug, PartialEq, Eq, Structural)]
pub struct Config {
    /// The only principal permitted to create and settle markets.
    pub authority: u64,
    /// Fee rate in basis points of the trade notional, at most 10_000.
    pub fee_bps: u16,
    /// Identifier of the single accepted trading token.
    pub mint: u64,
    /// Storage-derivation byte kept for the host's addressing scheme.
    pub bump: u8,
}

/// Lifecycle state of a market: `Initialized` until settled, then one
/// of the three terminal states, absorbing once reached.
#[derive(Clone, Copy, Debug, PartialEq, Eq, Structural)]
pub enum MarketState {
    /// Open for trading until `resolve_ts`.
    Initialized,
    /// Settled: the oracle price stayed below the target.
    Passed,
    /// Settled: the oracle price reached the target.
    Failed,
    /// Settled outside the grace window; no claim path exists.
    Undecided,
}

/// One binary-outcome market bound to an oracle feed, a resolution
/// deadline and a target price.
#[derive(Clone, Debug, PartialEq, Eq)]
pub struct Market {
    /// Resolution deadline, seconds since epoch.
    pub resolve_ts: i64,
    /// Pool total of outstanding pass shares.
    pub pass_shares: u64,
    /// Pool total of outstanding fail shares.
    pub fail_shares: u64,
    /// Lifecycle state.
    pub state: MarketState,
    /// Identifier of the oracle price feed this market settles on.
    pub price_update_v2: u64,
    /// Settlement threshold, in the oracle's whole price units.
    pub target_price: u128,
    /// Storage-derivation byte kept for the host's addressing scheme.
    pub bump: u8,
    /// Display title, immutable.
    pub title: String,
}

/// Per-user share balances in one market. Created empty, mutated by
/// trades, consumed by a successful claim.
#[derive(Clone, Copy, Debug, PartialEq, Eq, Structural)]
pub struct Position {
    /// The user the balances belong to.
    pub authority: u64,
    /// The market the balances count toward.
    pub market: u64,
    /// Pass shares held, never negative.
    pub pass_shares: u64,
    /// Fail shares held, never negative.
    pub fail_shares: u64,
    /// Storage-derivation byte kept for the host's addressing scheme.
    pub bump: u8,
}

/// Bytes of the host's record header in front of a stored market.
pub const MARKET_HEADER_LEN: usize = 8;

impl Market {
    /// Storage footprint of a market with the given title: the header,
    /// the fixed-width fields, and a length-prefixed title.
    pub fn space(title: &str) -> (r: usize)
        requires
            title.spec_bytes().len() + 78 <= usize::MAX,
        ensures
            r == 78 + title.spec_bytes().len(),
    {
        MARKET_HEADER_LEN + 8 + 8 + 8 + 1 + 32 + 8 + 1 + 4 + title.len()
    }
}

} // verus!
