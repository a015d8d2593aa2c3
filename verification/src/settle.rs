//! Settlement: the market's resolution state machine.
//!
//! `Initialized` moves to exactly one of the terminal states. Inside
//! the grace window after `resolve_ts` a fresh oracle sample decides
//! between `Passed` and `Failed`; the sample's price is normalized by
//! its decimal exponent into whole units and held against the target.
//! The market passes precisely when the normalized price has *not*
//! reached the target — the comparison is part of the contract the
//! positions were priced against and is reproduced exactly. Once the
//! window has elapsed the outcome is forced to `Undecided`, a
//! deterministic fallback against a stale oracle.
use vstd::prelude::*;
use vstd::arithmetic::div_mod::lemma_div_is_ordered_by_denominator;
use crate::constants::MAX_PRICE_AGE;
use crate::constants::RESOLVE_TS_WINDOW;
use crate::errors::PredictionError;
use crate::fixed::FIXED_HALF;
use crate::fixed::FIXED_ONE;
use crate::fixed::div_fp;
use crate::fixed::lemma_div_multiple_plus_small;
use crate::fixed::spec_div_fp;
use crate::fixed::to_fp;
use crate::fixed::to_units;
use crate::state::Market;
use crate::state::MarketState;

verus! {

/// Ten to the power `e`, one for any exponent at or below zero.
pub open spec fn spec_pow10(e: int) -> int
    decreases e,
{
    if e <= 0 {
        1
    } else {
        10 * spec_pow10(e - 1)
    }
}

/// Powers of ten are at least one.
pub proof fn lemma_pow10_pos(e: int)
    ensures
        spec_pow10(e) >= 1,
    decreases e,
{
    if e > 0 {
        lemma_pow10_pos(e - 1);
    }
}

/// Powers of ten grow with the exponent.
pub proof fn lemma_pow10_mono(a: int, b: int)
    requires
        a <= b,
    ensures
        spec_pow10(a) <= spec_pow10(b),
    decreases b - a,
{
    if a < b {
        lemma_pow10_mono(a, b - 1);
        lemma_pow10_pos(b - 1);
    }
}

/// The largest power of ten a `u64` holds.
pub proof fn lemma_pow10_19()
    ensures
        spec_pow10(19) == 10_000_000_000_000_000_000,
{
    reveal_with_fuel(spec_pow10, 21);
}

/// Ten to the power `e`, for exponents up to 19 so the result fits.
pub fn pow10_u64(e: u32) -> (r: u64)
    requires
        e <= 19,
    ensures
        r as int == spec_pow10(e as int),
{
    proof {
        lemma_pow10_19();
    }
    let mut r: u64 = 1;
    let mut i: u32 = 0;
    while i < e
        invariant
            i <= e,
            e <= 19,
            r as int == spec_pow10(i as int),
            spec_pow10(19) == 10_000_000_000_000_000_000,
        decreases e - i,
    {
        proof {
            lemma_pow10_mono(i as int + 1, 19);
            lemma_pow10_pos(i as int);
        }
        r = r * 10;
        i = i + 1;
    }
    r
}

/// The oracle price in whole units: multiplied out for a non-negative
/// exponent, or divided in the fixed-point domain, with its rounding,
/// for a negative one.
pub open spec fn spec_normalized_price(price: int, exponent: int) -> int {
    if exponent >= 0 {
        price * spec_pow10(exponent)
    } else {
        let scaled = spec_div_fp(
            price * FIXED_ONE as int,
            spec_pow10(-exponent) * FIXED_ONE as int,
        );
        (scaled + FIXED_HALF as int) / (FIXED_ONE as int)
    }
}

/// The terminal state an oracle sample dictates: `Passed` exactly when
/// the normalized price stays below the target.
pub open spec fn spec_outcome(price: int, exponent: int, target: int) -> MarketState {
    if spec_normalized_price(price, exponent) < target {
        MarketState::Passed
    } else {
        MarketState::Failed
    }
}

/// Settles a market from an oracle sample taken at `now`.
///
/// Requires of the caller what the oracle client and the clock
/// guarantee: when the market is due inside the grace window, the
/// sample is non-negative, at most `MAX_PRICE_AGE` seconds old, and
/// its exponent is within the range whose power of ten fits a `u64`.
///
/// The outcome is a function of the sample, the target and the
/// timestamps alone: identical inputs always settle identically.
pub fn settle_market(
    market: &mut Market,
    now: i64,
    price: i64,
    exponent: i32,
    publish_time: i64,
) -> (r: Result<(), PredictionError>)
    requires
        old(market).state == MarketState::Initialized && old(market).resolve_ts <= now
            ==> now - old(market).resolve_ts <= i64::MAX,
        old(market).state == MarketState::Initialized && old(market).resolve_ts <= now && now
            - old(market).resolve_ts <= RESOLVE_TS_WINDOW ==> {
            &&& price >= 0
            &&& -19 <= exponent <= 19
            &&& now - MAX_PRICE_AGE <= publish_time
        },
    ensures
        old(market).state != MarketState::Initialized ==> r == Err::<(), PredictionError>(
            PredictionError::MarketAlreadySettled,
        ) && *final(market) == *old(market),
        old(market).state == MarketState::Initialized && now < old(market).resolve_ts ==> r
            == Err::<(), PredictionError>(PredictionError::MarketCannotResolve) && *final(market)
            == *old(market),
        old(market).state == MarketState::Initialized && old(market).resolve_ts <= now && now
            - old(market).resolve_ts <= RESOLVE_TS_WINDOW ==> r is Ok && *final(market) == (Market {
            state: spec_outcome(price as int, exponent as int, old(market).target_price as int),
            ..*old(market)
        }),
        old(market).state == MarketState::Initialized && old(market).resolve_ts <= now && now
            - old(market).resolve_ts > RESOLVE_TS_WINDOW ==> r is Ok && *final(market) == (Market {
            state: MarketState::Undecided,
            ..*old(market)
        }),
{
    if !(market.state == MarketState::Initialized) {
        return Err(PredictionError::MarketAlreadySettled);
    }
    if now < market.resolve_ts {
        return Err(PredictionError::MarketCannotResolve);
    }
    if now - market.resolve_ts <= RESOLVE_TS_WINDOW {
        let p = price as u64;
        let normalized: u128;
        if exponent >= 0 {
            let d = pow10_u64(exponent as u32);
            proof {
                let pi = p as int;
                let di = d as int;
                assert(pi * di < 340282366920938463463374607431768211455) by (nonlinear_arith)
                    requires
                        0 <= pi <= 0xffff_ffff_ffff_ffff,
                        0 <= di <= 0xffff_ffff_ffff_ffff,
                ;
            }
            normalized = (p as u128) * (d as u128);
        } else {
            let d = pow10_u64((0 - exponent) as u32);
            proof {
                lemma_pow10_pos(0 - exponent);
                let pi = p as int;
                let di = d as int;
                let one = FIXED_ONE as int;
                assert(pi * one * one == (pi * one) * one) by (nonlinear_arith);
                lemma_div_multiple_plus_small(pi * one, FIXED_HALF as int);
                lemma_div_is_ordered_by_denominator(
                    pi * one * one + FIXED_HALF as int,
                    one,
                    di * one,
                );
                assert(one <= di * one) by (nonlinear_arith)
                    requires
                        di >= 1,
                        one > 0,
                ;
            }
            let scaled = div_fp(to_fp(p), to_fp(d));
            normalized = to_units(scaled);
        }
        let outcome = if normalized < market.target_price {
            MarketState::Passed
        } else {
            MarketState::Failed
        };
        market.state = outcome;
        Ok(())
    } else {
        market.state = MarketState::Undecided;
        Ok(())
    }
}

} // verus!
