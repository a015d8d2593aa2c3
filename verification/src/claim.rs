//! Claims: pro-rata payout of the pooled funds to a winning position.
//!
//! A successful claim consumes the `Position` value, so a position
//! can pay out at most once; on an error the untouched position is
//! handed back, mirroring an aborted transaction.
use vstd::prelude::*;
use vstd::arithmetic::div_mod::lemma_div_is_ordered;
use vstd::arithmetic::div_mod::lemma_div_multiples_vanish;
use vstd::arithmetic::div_mod::lemma_div_pos_is_pos;
use vstd::arithmetic::div_mod::lemma_fundamental_div_mod_converse;
use crate::errors::PredictionError;
use crate::fixed::FIXED_HALF;
use crate::fixed::FIXED_ONE;
use crate::fixed::div_fp;
use crate::fixed::floor_fp;
use crate::fixed::lemma_div_multiple_plus_small;
use crate::fixed::mul_fp;
use crate::fixed::spec_div_fp;
use crate::fixed::to_fp;
use crate::fixed::to_units;
use crate::pricing::lemma_pass_ratio_bounds;
use crate::state::Market;
use crate::state::MarketState;
use crate::state::Position;

verus! {

/// The position's balance on the market's winning side.
pub open spec fn spec_winning_pos_shares(m: Market, p: Position) -> int {
    if m.state == MarketState::Passed {
        p.pass_shares as int
    } else {
        p.fail_shares as int
    }
}

/// The pool total on the market's winning side.
pub open spec fn spec_winning_mkt_shares(m: Market) -> int {
    if m.state == MarketState::Passed {
        m.pass_shares as int
    } else {
        m.fail_shares as int
    }
}

/// The pro-rata payout in whole token units: the position's share of
/// the winning pool, in fixed point with its rounding, times the
/// current pool balance, floored.
pub open spec fn spec_payout(pos_shares: int, mkt_shares: int, balance: int) -> int {
    let pct = spec_div_fp(pos_shares * FIXED_ONE as int, mkt_shares * FIXED_ONE as int);
    pct * balance / (FIXED_ONE as int)
}

/// A position's fixed-point share of a pool that contains it is at
/// most one whole unit.
pub proof fn lemma_pool_share_le_one(pos: int, mkt: int)
    requires
        1 <= pos <= mkt,
    ensures
        0 <= spec_div_fp(pos * FIXED_ONE as int, mkt * FIXED_ONE as int) <= FIXED_ONE as int,
{
    let one = FIXED_ONE as int;
    let half = FIXED_HALF as int;
    if pos < mkt {
        lemma_pass_ratio_bounds(pos, mkt);
    } else {
        let d = mkt * one;
        assert(d >= one) by (nonlinear_arith)
            requires
                mkt >= 1,
                one > 0,
                d == mkt * one,
        ;
        assert(pos * one * one + half == one * d + half) by (nonlinear_arith)
            requires
                pos == mkt,
                d == mkt * one,
        ;
        lemma_fundamental_div_mod_converse(pos * one * one + half, d, one, half);
    }
}

/// Pays a settled market's pool out to one position, pro rata.
///
/// Fails with `MarketNotSettled` unless the state is `Passed` or
/// `Failed`, and with `NoClaimableWinnings` exactly when the position
/// holds nothing on the winning side; a failed claim returns the
/// position unchanged. On success the payout never exceeds the pool
/// balance, and the position is consumed.
///
/// The conservation invariant (pool totals bound every position's
/// balances) is required; it also guarantees the winning pool is
/// non-empty whenever the position's winning balance is.
pub fn claim_winnings(market: &Market, position: Position, pool_balance: u64) -> (r: Result<
    u64,
    (PredictionError, Position),
>)
    requires
        market.pass_shares >= position.pass_shares,
        market.fail_shares >= position.fail_shares,
    ensures
        !(market.state == MarketState::Passed || market.state == MarketState::Failed) ==> r
            == Err::<u64, _>((PredictionError::MarketNotSettled, position)),
        (market.state == MarketState::Passed || market.state == MarketState::Failed)
            && spec_winning_pos_shares(*market, position) == 0 ==> r == Err::<u64, _>(
            (PredictionError::NoClaimableWinnings, position),
        ),
        (market.state == MarketState::Passed || market.state == MarketState::Failed)
            && spec_winning_pos_shares(*market, position) > 0 ==> (r matches Ok(a) ==> {
            &&& a as int == spec_payout(
                spec_winning_pos_shares(*market, position),
                spec_winning_mkt_shares(*market),
                pool_balance as int,
            )
            &&& a <= pool_balance
        }) && r is Ok,
{
    if !(market.state == MarketState::Passed || market.state == MarketState::Failed) {
        return Err((PredictionError::MarketNotSettled, position));
    }
    let pos_sh: u64;
    let mkt_sh: u64;
    if market.state == MarketState::Passed {
        pos_sh = position.pass_shares;
        mkt_sh = market.pass_shares;
    } else {
        pos_sh = position.fail_shares;
        mkt_sh = market.fail_shares;
    }
    if pos_sh == 0 {
        return Err((PredictionError::NoClaimableWinnings, position));
    }
    let ghost one = FIXED_ONE as int;
    proof {
        lemma_pool_share_le_one(pos_sh as int, mkt_sh as int);
    }
    let pct = div_fp(to_fp(pos_sh), to_fp(mkt_sh));
    proof {
        let pc = pct as int;
        let bal = pool_balance as int;
        assert(pc * (bal * one) == (pc * bal) * one) by (nonlinear_arith);
        assert(0 <= pc * bal && pc * bal <= one * bal) by (nonlinear_arith)
            requires
                0 <= pc <= one,
                bal >= 0,
        ;
        lemma_div_multiple_plus_small(pc * bal, FIXED_HALF as int);
    }
    let raw = mul_fp(pct, to_fp(pool_balance));
    let fl = floor_fp(raw);
    proof {
        lemma_div_pos_is_pos(raw as int, one);
        lemma_div_multiple_plus_small(raw as int / one, FIXED_HALF as int);
        lemma_div_multiples_vanish(pool_balance as int, one);
        lemma_div_is_ordered(raw as int, one * pool_balance as int, one);
    }
    let amount = to_units(fl);
    Ok(amount as u64)
}

} // verus!
