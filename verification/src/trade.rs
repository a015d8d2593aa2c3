//! Trading: share accounting for one position and its market, and the
//! two transfer amounts the custody collaborator must move.
//!
//! A trade is all-or-nothing: on any error the market and the position
//! are left exactly as they were.
use vstd::prelude::*;
use crate::constants::ONE_IN_BASIS_POINTS;
use crate::errors::PredictionError;
use crate::pricing::calculate_price;
use crate::pricing::spec_fee;
use crate::pricing::spec_price;
use crate::pricing::spec_price_fits;
use crate::state::Market;
use crate::state::Position;

verus! {

/// The traded side's balance of a position.
pub open spec fn spec_pos_side(p: Position, is_pass: bool) -> int {
    if is_pass {
        p.pass_shares as int
    } else {
        p.fail_shares as int
    }
}

/// The traded side's pool total of a market.
pub open spec fn spec_mkt_side(m: Market, is_pass: bool) -> int {
    if is_pass {
        m.pass_shares as int
    } else {
        m.fail_shares as int
    }
}

/// The market's pass pool after the trade's share accounting.
pub open spec fn spec_new_pass(m: Market, shares: int, is_pass: bool, is_buy: bool) -> int {
    if is_pass {
        if is_buy {
            m.pass_shares + shares
        } else {
            m.pass_shares - shares
        }
    } else {
        m.pass_shares as int
    }
}

/// The market's fail pool after the trade's share accounting.
pub open spec fn spec_new_fail(m: Market, shares: int, is_pass: bool, is_buy: bool) -> int {
    if is_pass {
        m.fail_shares as int
    } else {
        if is_buy {
            m.fail_shares + shares
        } else {
            m.fail_shares - shares
        }
    }
}

/// The successful trade transition: the traded side of both the
/// position and the market moves by `shares` in the same direction,
/// and every other field is untouched.
pub open spec fn spec_trade_applied(
    m0: Market,
    p0: Position,
    m1: Market,
    p1: Position,
    shares: int,
    is_pass: bool,
    is_buy: bool,
) -> bool {
    &&& m1.pass_shares as int == spec_new_pass(m0, shares, is_pass, is_buy)
    &&& m1.fail_shares as int == spec_new_fail(m0, shares, is_pass, is_buy)
    &&& m1.resolve_ts == m0.resolve_ts
    &&& m1.state == m0.state
    &&& m1.price_update_v2 == m0.price_update_v2
    &&& m1.target_price == m0.target_price
    &&& m1.bump == m0.bump
    &&& m1.title == m0.title
    &&& p1.pass_shares as int == (if is_pass {
        if is_buy {
            p0.pass_shares + shares
        } else {
            p0.pass_shares - shares
        }
    } else {
        p0.pass_shares as int
    })
    &&& p1.fail_shares as int == (if is_pass {
        p0.fail_shares as int
    } else {
        if is_buy {
            p0.fail_shares + shares
        } else {
            p0.fail_shares - shares
        }
    })
    &&& p1.authority == p0.authority
    &&& p1.market == p0.market
    &&& p1.bump == p0.bump
}

/// Which error, if any, a trade must fail with, checked in the order
/// the operation checks them.
pub open spec fn spec_trade_error(
    m0: Market,
    p0: Position,
    shares: u64,
    is_pass: bool,
    is_buy: bool,
    now: i64,
    fee_bps: u16,
) -> Option<PredictionError> {
    if shares == 0 {
        Some(PredictionError::InvalidTradeShares)
    } else if now >= m0.resolve_ts {
        Some(PredictionError::MarketResolved)
    } else if !is_buy && spec_pos_side(p0, is_pass) < shares {
        Some(PredictionError::InsufficientSharesToSell)
    } else if is_buy && (spec_pos_side(p0, is_pass) + shares > u64::MAX || spec_mkt_side(
        m0,
        is_pass,
    ) + shares > u64::MAX) {
        Some(PredictionError::Overflow)
    } else if !spec_price_fits(
        shares as int,
        spec_new_pass(m0, shares as int, is_pass, is_buy),
        spec_new_fail(m0, shares as int, is_pass, is_buy),
        is_pass,
        fee_bps as int,
    ) {
        Some(PredictionError::Overflow)
    } else {
        None
    }
}

/// Trades `shares` on one side of a market for one position: adds them
/// to both on a buy, removes them from both on a sell, and prices the
/// trade against the updated pools. Returns `(fee, price)`, the two
/// token amounts the custody collaborator must transfer.
///
/// The pool invariant `market side >= position side` is required, as
/// the pool total counts every open position's balance; it guarantees
/// the market-level subtraction of a sell can never fail once the
/// position-level one has succeeded.
pub fn trade_shares(
    market: &mut Market,
    position: &mut Position,
    shares: u64,
    is_pass: bool,
    is_buy: bool,
    now: i64,
    fee_bps: u16,
) -> (r: Result<(u64, u64), PredictionError>)
    requires
        fee_bps <= ONE_IN_BASIS_POINTS,
        old(market).pass_shares >= old(position).pass_shares,
        old(market).fail_shares >= old(position).fail_shares,
    ensures
        r is Err <==> spec_trade_error(
            *old(market),
            *old(position),
            shares,
            is_pass,
            is_buy,
            now,
            fee_bps,
        ) is Some,
        r matches Err(e) ==> {
            &&& Some(e) == spec_trade_error(
                *old(market),
                *old(position),
                shares,
                is_pass,
                is_buy,
                now,
                fee_bps,
            )
            &&& *final(market) == *old(market)
            &&& *final(position) == *old(position)
        },
        r matches Ok(fp) ==> {
            let np = spec_new_pass(*old(market), shares as int, is_pass, is_buy);
            let nf = spec_new_fail(*old(market), shares as int, is_pass, is_buy);
            &&& spec_trade_applied(
                *old(market),
                *old(position),
                *final(market),
                *final(position),
                shares as int,
                is_pass,
                is_buy,
            )
            &&& fp.0 as int == spec_fee(shares as int, np, nf, is_pass, fee_bps as int)
            &&& fp.1 as int == spec_price(shares as int, np, nf, is_pass, fee_bps as int)
        },
{
    if shares == 0 {
        return Err(PredictionError::InvalidTradeShares);
    }
    if now >= market.resolve_ts {
        return Err(PredictionError::MarketResolved);
    }
    let pos_side = if is_pass {
        position.pass_shares
    } else {
        position.fail_shares
    };
    let mkt_side = if is_pass {
        market.pass_shares
    } else {
        market.fail_shares
    };
    let new_pos_side: u64;
    let new_mkt_side: u64;
    if is_buy {
        new_pos_side = match pos_side.checked_add(shares) {
            Some(v) => v,
            None => {
                return Err(PredictionError::Overflow);
            },
        };
        new_mkt_side = match mkt_side.checked_add(shares) {
            Some(v) => v,
            None => {
                return Err(PredictionError::Overflow);
            },
        };
    } else {
        new_pos_side = match pos_side.checked_sub(shares) {
            Some(v) => v,
            None => {
                return Err(PredictionError::InsufficientSharesToSell);
            },
        };
        new_mkt_side = mkt_side - shares;
    }
    let new_pass = if is_pass {
        new_mkt_side
    } else {
        market.pass_shares
    };
    let new_fail = if is_pass {
        market.fail_shares
    } else {
        new_mkt_side
    };
    let amounts = match calculate_price(shares, new_pass, new_fail, is_pass, fee_bps) {
        Ok(t) => t,
        Err(e) => {
            return Err(e);
        },
    };
    market.pass_shares = new_pass;
    market.fail_shares = new_fail;
    if is_pass {
        position.pass_shares = new_pos_side;
    } else {
        position.fail_shares = new_pos_side;
    }
    Ok(amounts)
}

} // verus!
