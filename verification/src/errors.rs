//! The error taxonomy of the market's operations.
use vstd::prelude::*;

verus! {

/// Every way an operation of this crate can refuse to act.
///
/// Validation errors are caller-correctable; state errors mean the
/// operation was invoked in the wrong lifecycle state; `Overflow`
/// is an arithmetic failure, fatal to the whole operation rather
/// than clamped, so that fund conservation is never broken.
#[derive(Clone, Copy, Debug, PartialEq, Eq, Structural)]
pub enum PredictionError {
    /// Fee bps must be between 0 and 10000.
    InvalidFeeBps,
    /// Authority does not match the one in config.
    InvalidConfigAuthority,
    /// Authority does not match the one in position.
    InvalidPositionAuthority,
    /// Market does not match the one in position.
    InvalidMarket,
    /// Price feed does not match the one in market.
    InvalidPriceUpdateV2,
    /// Mint does not match the one on config.
    InvalidTradingMint,
    /// Mint does not match the one on market.
    InvalidPredictionMint,
    /// Trade shares must be at least one.
    InvalidTradeShares,
    /// Selling more shares than available in position.
    InsufficientSharesToSell,
    /// Market can now only be settled, no longer traded.
    MarketResolved,
    /// Market has not crossed the resolve timestamp.
    MarketCannotResolve,
    /// Market is already settled.
    MarketAlreadySettled,
    /// Market state must be passed or failed.
    MarketNotSettled,
    /// Position has no winning shares in market.
    NoClaimableWinnings,
    /// A share count or token amount does not fit its integer type.
    Overflow,
}

} // verus!
