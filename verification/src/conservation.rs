//! Conservation of shares: a market's pool totals always equal the
//! sums of its open positions' balances.
use vstd::prelude::*;
use crate::state::Market;
use crate::state::Position;
use crate::trade::spec_trade_applied;

verus! {

/// Total pass shares held across a sequence of positions.
pub open spec fn sum_pass(ps: Seq<Position>) -> int
    decreases ps.len(),
{
    if ps.len() == 0 {
        0
    } else {
        sum_pass(ps.drop_last()) + ps.last().pass_shares
    }
}

/// Total fail shares held across a sequence of positions.
pub open spec fn sum_fail(ps: Seq<Position>) -> int
    decreases ps.len(),
{
    if ps.len() == 0 {
        0
    } else {
        sum_fail(ps.drop_last()) + ps.last().fail_shares
    }
}

/// Global conservation: each pool total of the market equals the sum
/// of the corresponding side over its open positions.
pub open spec fn spec_conserved(m: Market, ps: Seq<Position>) -> bool {
    &&& m.pass_shares == sum_pass(ps)
    &&& m.fail_shares == sum_fail(ps)
}

/// A sum of unsigned balances is never negative.
pub proof fn lemma_sum_pass_nonneg(ps: Seq<Position>)
    ensures
        sum_pass(ps) >= 0,
    decreases ps.len(),
{
    if ps.len() != 0 {
        lemma_sum_pass_nonneg(ps.drop_last());
    }
}

/// A sum of unsigned balances is never negative.
pub proof fn lemma_sum_fail_nonneg(ps: Seq<Position>)
    ensures
        sum_fail(ps) >= 0,
    decreases ps.len(),
{
    if ps.len() != 0 {
        lemma_sum_fail_nonneg(ps.drop_last());
    }
}

/// Replacing one position changes the sum by exactly the difference
/// of that position's balance.
pub proof fn lemma_sum_pass_update(ps: Seq<Position>, i: int, p: Position)
    requires
        0 <= i < ps.len(),
    ensures
        sum_pass(ps.update(i, p)) == sum_pass(ps) - ps[i].pass_shares + p.pass_shares,
    decreases ps.len(),
{
    let q = ps.update(i, p);
    if i == ps.len() - 1 {
        assert(q.drop_last() =~= ps.drop_last());
        assert(q.last() == p);
    } else {
        assert(q.drop_last() =~= ps.drop_last().update(i, p));
        assert(q.last() == ps.last());
        lemma_sum_pass_update(ps.drop_last(), i, p);
    }
}

/// Replacing one position changes the sum by exactly the difference
/// of that position's balance.
pub proof fn lemma_sum_fail_update(ps: Seq<Position>, i: int, p: Position)
    requires
        0 <= i < ps.len(),
    ensures
        sum_fail(ps.update(i, p)) == sum_fail(ps) - ps[i].fail_shares + p.fail_shares,
    decreases ps.len(),
{
    let q = ps.update(i, p);
    if i == ps.len() - 1 {
        assert(q.drop_last() =~= ps.drop_last());
        assert(q.last() == p);
    } else {
        assert(q.drop_last() =~= ps.drop_last().update(i, p));
        assert(q.last() == ps.last());
        lemma_sum_fail_update(ps.drop_last(), i, p);
    }
}

/// The whole is at least any single part: a pool total covering the
/// positions bounds each position's balance.
pub proof fn lemma_sum_pass_element_bound(ps: Seq<Position>, i: int)
    requires
        0 <= i < ps.len(),
    ensures
        sum_pass(ps) >= ps[i].pass_shares,
    decreases ps.len(),
{
    if i == ps.len() - 1 {
        lemma_sum_pass_nonneg(ps.drop_last());
    } else {
        lemma_sum_pass_element_bound(ps.drop_last(), i);
        assert(ps.drop_last()[i] == ps[i]);
    }
}

/// The whole is at least any single part: a pool total covering the
/// positions bounds each position's balance.
pub proof fn lemma_sum_fail_element_bound(ps: Seq<Position>, i: int)
    requires
        0 <= i < ps.len(),
    ensures
        sum_fail(ps) >= ps[i].fail_shares,
    decreases ps.len(),
{
    if i == ps.len() - 1 {
        lemma_sum_fail_nonneg(ps.drop_last());
    } else {
        lemma_sum_fail_element_bound(ps.drop_last(), i);
        assert(ps.drop_last()[i] == ps[i]);
    }
}

/// A conserved market's pool totals bound every open position's
/// balances: exactly the precondition `trade_shares` asks for.
pub proof fn lemma_conserved_bounds_position(m: Market, ps: Seq<Position>, i: int)
    requires
        spec_conserved(m, ps),
        0 <= i < ps.len(),
    ensures
        m.pass_shares >= ps[i].pass_shares,
        m.fail_shares >= ps[i].fail_shares,
{
    lemma_sum_pass_element_bound(ps, i);
    lemma_sum_fail_element_bound(ps, i);
}

/// Conservation holds at every observation point: a successful trade
/// against any one open position keeps both pool totals equal to the
/// sums over the updated positions.
pub proof fn lemma_trade_preserves_conservation(
    m0: Market,
    p0: Position,
    m1: Market,
    p1: Position,
    ps: Seq<Position>,
    i: int,
    shares: u64,
    is_pass: bool,
    is_buy: bool,
)
    requires
        0 <= i < ps.len(),
        ps[i] == p0,
        spec_trade_applied(m0, p0, m1, p1, shares as int, is_pass, is_buy),
        spec_conserved(m0, ps),
    ensures
        spec_conserved(m1, ps.update(i, p1)),
{
    lemma_sum_pass_update(ps, i, p1);
    lemma_sum_fail_update(ps, i, p1);
}

} // verus!
