//! Core of a binary-outcome prediction market.
//!
//! Participants buy or sell "pass"/"fail" shares on whether an
//! oracle-observed price will meet a target by a resolution time.
//! Trades are priced on a linear bonding curve over the pool imbalance,
//! settlement consumes an oracle sample inside a grace window, and
//! winners redeem a pro-rata portion of the pooled funds.
//!
//! All monetary computation is fixed-point integer arithmetic in the
//! same scaled domain as `spl_math`'s `PreciseNumber`; the wide
//! multiplications and divisions are delegated to that crate.
//! Account custody, signatures and the oracle client are collaborators
//! outside this crate: callers hand in plain values (share counts,
//! timestamps, an oracle sample) and receive the transfer amounts and
//! state transitions back.

pub mod claim;
pub mod conservation;
pub mod constants;
pub mod errors;
pub mod fixed;
pub mod lifecycle;
pub mod pricing;
pub mod settle;
pub mod state;
pub mod trade;
