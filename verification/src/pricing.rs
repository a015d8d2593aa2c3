//! The share-pricing engine.
//!
//! A trade of `shares` is priced against the pool totals as they stand
//! *after* the trade's share accounting. The base notional is
//! `BASE_SHARE_PRICE * shares`; when both pools are non-empty it is
//! multiplied by twice the traded side's share of the pool, so the
//! price scales linearly from 0x to 2x of base as that side's share of
//! the pool moves from 0% to 100%. The fee is the notional times
//! `fee_bps / 10_000`; fee and price are both floored to whole token
//! units, a conservative bias that keeps the pool solvent.
use vstd::prelude::*;
use vstd::arithmetic::div_mod::lemma_div_is_ordered;
use vstd::arithmetic::div_mod::lemma_div_is_ordered_by_denominator;
use vstd::arithmetic::div_mod::lemma_div_multiples_vanish;
use vstd::arithmetic::div_mod::lemma_div_pos_is_pos;
use vstd::arithmetic::div_mod::lemma_fundamental_div_mod;
use vstd::arithmetic::div_mod::lemma_fundamental_div_mod_converse;
use crate::constants::BASE_SHARE_PRICE;
use crate::constants::ONE_IN_BASIS_POINTS;
use crate::errors::PredictionError;
use crate::fixed::FIXED_HALF;
use crate::fixed::FIXED_ONE;
use crate::fixed::div_fp;
use crate::fixed::floor_fp;
use crate::fixed::lemma_div_cross_monotone;
use crate::fixed::lemma_div_multiple_plus_small;
use crate::fixed::mul_fp;
use crate::fixed::spec_div_fp;
use crate::fixed::spec_mul_fp;
use crate::fixed::to_fp;
use crate::fixed::to_units;

verus! {

/// Scaled share of the pool held by the pass side, out of `total`
/// shares outstanding.
pub open spec fn spec_pass_ratio(pass: int, total: int) -> int {
    spec_div_fp(pass * FIXED_ONE as int, total * FIXED_ONE as int)
}

/// Scaled share of the pool held by the traded side: the pass ratio
/// itself, or its complement for the fail side.
pub open spec fn spec_ratio(pass: int, fail: int, is_pass: bool) -> int {
    if is_pass {
        spec_pass_ratio(pass, pass + fail)
    } else {
        FIXED_ONE as int - spec_pass_ratio(pass, pass + fail)
    }
}

/// Scaled price multiplier: twice the traded side's pool share when
/// the market has two-sided liquidity, otherwise exactly one (the fair
/// bootstrap price while a pool is still empty).
pub open spec fn spec_multiplier(pass: int, fail: int, is_pass: bool) -> int {
    if pass != 0 && fail != 0 {
        2 * spec_ratio(pass, fail, is_pass)
    } else {
        FIXED_ONE as int
    }
}

/// Scaled notional of the trade, priced against the updated pools.
pub open spec fn spec_notional(shares: int, pass: int, fail: int, is_pass: bool) -> int {
    BASE_SHARE_PRICE as int * shares * spec_multiplier(pass, fail, is_pass)
}

/// Protocol fee in whole token units: the notional times
/// `fee_bps / 10_000`, floored.
pub open spec fn spec_fee(shares: int, pass: int, fail: int, is_pass: bool, fee_bps: int) -> int {
    spec_mul_fp(spec_notional(shares, pass, fail, is_pass), fee_bps * 100_000_000)
        / (FIXED_ONE as int)
}

/// Tokens moved for the shares themselves, in whole units: the floored
/// notional minus the fee.
pub open spec fn spec_price(shares: int, pass: int, fail: int, is_pass: bool, fee_bps: int) -> int {
    spec_notional(shares, pass, fail, is_pass) / (FIXED_ONE as int)
        - spec_fee(shares, pass, fail, is_pass, fee_bps)
}

/// Whether every value of the pricing computation fits its integer
/// type, so the trade can be priced at all.
pub open spec fn spec_price_fits(
    shares: int,
    pass: int,
    fail: int,
    is_pass: bool,
    fee_bps: int,
) -> bool {
    &&& BASE_SHARE_PRICE as int * shares <= u64::MAX
    &&& (pass != 0 && fail != 0 ==> pass + fail <= u64::MAX)
    &&& spec_fee(shares, pass, fail, is_pass, fee_bps) <= u64::MAX
    &&& spec_price(shares, pass, fail, is_pass, fee_bps) <= u64::MAX
}

/// The pass ratio of a two-sided pool is below one whole unit and
/// never negative.
pub proof fn lemma_pass_ratio_bounds(pass: int, total: int)
    requires
        0 <= pass < total,
    ensures
        0 <= spec_pass_ratio(pass, total) < FIXED_ONE as int,
{
    let one = FIXED_ONE as int;
    let num = pass * one * one + FIXED_HALF as int;
    let d = total * one;
    assert(d > 0) by (nonlinear_arith)
        requires
            total > 0,
            one > 0,
            d == total * one,
    ;
    assert(d * one - 1 - (d - 1) == (one - 1) * d) by (nonlinear_arith);
    lemma_fundamental_div_mod_converse(d * one - 1, d, one - 1, d - 1);
    assert(num <= d * one - 1) by (nonlinear_arith)
        requires
            pass <= total - 1,
            one == 1_000_000_000_000,
            FIXED_HALF as int == 500_000_000_000,
            num == pass * one * one + FIXED_HALF as int,
            d == total * one,
    ;
    lemma_div_is_ordered(num, d * one - 1, d);
    lemma_div_pos_is_pos(num, d);
}

/// The multiplier stays on the curve: between zero and twice the base
/// price.
pub proof fn lemma_multiplier_bounds(pass: int, fail: int, is_pass: bool)
    requires
        0 <= pass,
        0 <= fail,
    ensures
        0 <= spec_multiplier(pass, fail, is_pass) <= 2 * FIXED_ONE as int,
{
    if pass != 0 && fail != 0 {
        lemma_pass_ratio_bounds(pass, pass + fail);
    }
}

/// The fee bound: for every trade the fee and the price are both
/// non-negative, their sum is exactly the floored notional, and in
/// the scaled domain that sum never exceeds the notional itself.
pub proof fn lemma_fee_bound(shares: u64, pass: u64, fail: u64, is_pass: bool, fee_bps: u16)
    requires
        fee_bps <= ONE_IN_BASIS_POINTS,
    ensures
        0 <= spec_fee(shares as int, pass as int, fail as int, is_pass, fee_bps as int),
        0 <= spec_price(shares as int, pass as int, fail as int, is_pass, fee_bps as int),
        spec_fee(shares as int, pass as int, fail as int, is_pass, fee_bps as int) + spec_price(
            shares as int,
            pass as int,
            fail as int,
            is_pass,
            fee_bps as int,
        ) == spec_notional(shares as int, pass as int, fail as int, is_pass) / (FIXED_ONE as int),
        (spec_fee(shares as int, pass as int, fail as int, is_pass, fee_bps as int) + spec_price(
            shares as int,
            pass as int,
            fail as int,
            is_pass,
            fee_bps as int,
        )) * (FIXED_ONE as int) <= spec_notional(shares as int, pass as int, fail as int, is_pass),
{
    let one = FIXED_ONE as int;
    let half = FIXED_HALF as int;
    let sh = shares as int;
    let pa = pass as int;
    let fa = fail as int;
    let m = spec_multiplier(pa, fa, is_pass);
    let n = spec_notional(sh, pa, fa, is_pass);
    let fm = fee_bps as int * 100_000_000;
    lemma_multiplier_bounds(pa, fa, is_pass);
    assert(0 <= BASE_SHARE_PRICE as int * sh * m) by (nonlinear_arith)
        requires
            sh >= 0,
            m >= 0,
    ;
    let x = n * fm + half;
    assert(0 <= n * fm) by (nonlinear_arith)
        requires
            n >= 0,
            fm >= 0,
    ;
    lemma_div_pos_is_pos(x, one);
    lemma_div_pos_is_pos(x / one, one);
    // The fee multiplier is at most one whole unit, so the raw fee
    // stays at or below the notional and the floored fee at or below
    // the floored notional.
    assert(x < (n + 1) * one) by (nonlinear_arith)
        requires
            x == n * fm + half,
            0 <= fm <= one,
            half < one,
            n >= 0,
            one > 0,
    ;
    assert((n + 1) * one - 1 - (one - 1) == n * one) by (nonlinear_arith);
    lemma_fundamental_div_mod_converse((n + 1) * one - 1, one, n, one - 1);
    lemma_div_is_ordered(x, (n + 1) * one - 1, one);
    lemma_div_is_ordered(x / one, n, one);
    lemma_fundamental_div_mod(n, one);
}

/// The round trip: buying shares and then immediately selling them
/// back on the same side, with no trade in between, never returns
/// more tokens than the buy cost. The buy is priced on pools holding
/// the bought shares, the sell on the pools as they stood before, and
/// the multiplier only falls with the traded side's pool share.
///
/// The one family of starting pools left out: a buy into an empty
/// traded side against a larger opposite pool, where the sell empties
/// the traded side again and is priced at base instead of the
/// discounted curve.
pub proof fn lemma_sell_after_buy_returns_no_more(
    pass0: u64,
    fail0: u64,
    shares: u64,
    is_pass: bool,
    fee_bps: u16,
)
    requires
        shares > 0,
        fee_bps <= ONE_IN_BASIS_POINTS,
        is_pass ==> !(pass0 == 0 && shares < fail0),
        !is_pass ==> !(fail0 == 0 && shares < pass0),
    ensures
        ({
            let sh = shares as int;
            let bp: int = if is_pass {
                pass0 + shares
            } else {
                pass0 as int
            };
            let bf: int = if is_pass {
                fail0 as int
            } else {
                fail0 + shares
            };
            spec_price(sh, pass0 as int, fail0 as int, is_pass, fee_bps as int) <= spec_price(
                sh,
                bp,
                bf,
                is_pass,
                fee_bps as int,
            ) + spec_fee(sh, bp, bf, is_pass, fee_bps as int)
        }),
{
    let one = FIXED_ONE as int;
    let half = FIXED_HALF as int;
    let sh = shares as int;
    let p0 = pass0 as int;
    let f0 = fail0 as int;
    let bp: int = if is_pass {
        p0 + sh
    } else {
        p0
    };
    let bf: int = if is_pass {
        f0
    } else {
        f0 + sh
    };
    let ms = spec_multiplier(p0, f0, is_pass);
    let mb = spec_multiplier(bp, bf, is_pass);
    lemma_multiplier_bounds(p0, f0, is_pass);

    if is_pass {
        if f0 == 0 {
            assert(ms == mb);
        } else if p0 > 0 {
            let u = one * one;
            let ns_num = p0 * one * one + half;
            let ns_den = (p0 + f0) * one;
            let nb_num = (p0 + sh) * one * one + half;
            let nb_den = (p0 + sh + f0) * one;
            let t = nb_num * (p0 + f0) - ns_num * (p0 + sh + f0);
            assert(nb_num == (p0 + sh) * u + half && ns_num == p0 * u + half) by (nonlinear_arith)
                requires
                    u == one * one,
                    nb_num == (p0 + sh) * one * one + half,
                    ns_num == p0 * one * one + half,
            ;
            assert(t == sh * (u * f0 - half)) by (nonlinear_arith)
                requires
                    t == nb_num * (p0 + f0) - ns_num * (p0 + sh + f0),
                    nb_num == (p0 + sh) * u + half,
                    ns_num == p0 * u + half,
            ;
            assert(t >= 0) by (nonlinear_arith)
                requires
                    t == sh * (u * f0 - half),
                    sh >= 0,
                    f0 >= 1,
                    u == one * one,
                    one == 1_000_000_000_000,
                    half == 500_000_000_000,
            ;
            assert(nb_num * ns_den - ns_num * nb_den == t * one) by (nonlinear_arith)
                requires
                    ns_den == (p0 + f0) * one,
                    nb_den == (p0 + sh + f0) * one,
                    t == nb_num * (p0 + f0) - ns_num * (p0 + sh + f0),
            ;
            assert(t * one >= 0) by (nonlinear_arith)
                requires
                    t >= 0,
                    one > 0,
            ;
            assert(ns_den > 0 && nb_den > 0 && ns_num >= 0 && nb_num >= 0) by (nonlinear_arith)
                requires
                    p0 >= 1,
                    f0 >= 1,
                    sh >= 1,
                    one > 0,
                    half > 0,
                    ns_den == (p0 + f0) * one,
                    nb_den == (p0 + sh + f0) * one,
                    nb_num == (p0 + sh) * one * one + half,
                    ns_num == p0 * one * one + half,
            ;
            lemma_div_cross_monotone(nb_num, nb_den, ns_num, ns_den);
        } else {
            // An empty pass pool: the sell is priced at base, and the
            // buy, covering at least the whole fail pool, at or above
            // base.
            let num = sh * one * one + half;
            let den = (sh + f0) * one;
            assert(num - half * den == half * one * (sh - f0) + half) by (nonlinear_arith)
                requires
                    num == sh * one * one + half,
                    den == (sh + f0) * one,
                    one == 1_000_000_000_000,
                    half == 500_000_000_000,
            ;
            assert(num >= den * half && den > 0) by (nonlinear_arith)
                requires
                    num - half * den == half * one * (sh - f0) + half,
                    sh >= f0,
                    f0 >= 1,
                    one > 0,
                    half > 0,
                    den == (sh + f0) * one,
            ;
            lemma_div_multiples_vanish(half, den);
            lemma_div_is_ordered(den * half, num, den);
        }
    } else {
        if p0 == 0 {
            assert(ms == mb);
        } else if f0 > 0 {
            let num = p0 * one * one + half;
            let den_s = (p0 + f0) * one;
            let den_b = (p0 + f0 + sh) * one;
            assert(1 <= den_s && den_s <= den_b && 0 <= num) by (nonlinear_arith)
                requires
                    p0 >= 1,
                    f0 >= 1,
                    sh >= 1,
                    one > 0,
                    half > 0,
                    num == p0 * one * one + half,
                    den_s == (p0 + f0) * one,
                    den_b == (p0 + f0 + sh) * one,
            ;
            lemma_div_is_ordered_by_denominator(num, den_s, den_b);
            lemma_pass_ratio_bounds(p0, p0 + f0 + sh);
        } else {
            // An empty fail pool: the sell is priced at base; the buy
            // leaves the pass side with at most half the pool, so its
            // multiplier is at or above base.
            let num = p0 * one * one + half;
            let den = (p0 + sh) * one;
            assert(half * den - num == half * one * (sh - p0) - half) by (nonlinear_arith)
                requires
                    num == p0 * one * one + half,
                    den == (p0 + sh) * one,
                    one == 1_000_000_000_000,
                    half == 500_000_000_000,
            ;
            assert(num <= half * den + (den - 1) && den > 0 && den - 1 >= half) by (
            nonlinear_arith)
                requires
                    half * den - num == half * one * (sh - p0) - half,
                    sh >= p0,
                    p0 >= 1,
                    one == 1_000_000_000_000,
                    half == 500_000_000_000,
                    den == (p0 + sh) * one,
            ;
            assert((half + 1) * den - 1 - (den - 1) == half * den) by (nonlinear_arith);
            lemma_fundamental_div_mod_converse((half + 1) * den - 1, den, half, den - 1);
            lemma_div_is_ordered(num, (half + 1) * den - 1, den);
            lemma_div_pos_is_pos(num, den);
        }
    }
    assert(ms <= mb);

    let ns = spec_notional(sh, p0, f0, is_pass);
    let nb = spec_notional(sh, bp, bf, is_pass);
    assert(ns <= nb) by (nonlinear_arith)
        requires
            ns == BASE_SHARE_PRICE as int * sh * ms,
            nb == BASE_SHARE_PRICE as int * sh * mb,
            ms <= mb,
            sh >= 0,
    ;
    assert(0 <= BASE_SHARE_PRICE as int * sh * ms) by (nonlinear_arith)
        requires
            sh >= 0,
            ms >= 0,
    ;
    lemma_div_is_ordered(ns, nb, one);
    lemma_fee_bound(shares, pass0, fail0, is_pass, fee_bps);
}

/// Pricing a trade: given the trade size, the *updated* pool totals
/// and the fee rate, returns the fee and the price, both in whole
/// token units, or `Overflow` when a value does not fit.
///
/// Together fee and price never exceed the notional: their sum is
/// exactly the floored notional, so the engine never pays out more
/// value than it collects.
pub fn calculate_price(
    shares: u64,
    pass_shares: u64,
    fail_shares: u64,
    is_pass: bool,
    fee_bps: u16,
) -> (r: Result<(u64, u64), PredictionError>)
    requires
        fee_bps <= ONE_IN_BASIS_POINTS,
    ensures
        r is Ok <==> spec_price_fits(
            shares as int,
            pass_shares as int,
            fail_shares as int,
            is_pass,
            fee_bps as int,
        ),
        r matches Ok(fp) ==> {
            &&& fp.0 as int == spec_fee(
                shares as int,
                pass_shares as int,
                fail_shares as int,
                is_pass,
                fee_bps as int,
            )
            &&& fp.1 as int == spec_price(
                shares as int,
                pass_shares as int,
                fail_shares as int,
                is_pass,
                fee_bps as int,
            )
            &&& fp.0 as int + fp.1 as int == spec_notional(
                shares as int,
                pass_shares as int,
                fail_shares as int,
                is_pass,
            ) / (FIXED_ONE as int)
        },
        r is Err ==> r == Err::<(u64, u64), PredictionError>(PredictionError::Overflow),
{
    let ghost sh = shares as int;
    let ghost pa = pass_shares as int;
    let ghost fa = fail_shares as int;
    let ghost one = FIXED_ONE as int;

    let base = match (BASE_SHARE_PRICE as u64).checked_mul(shares) {
        Some(b) => b,
        None => {
            return Err(PredictionError::Overflow);
        },
    };
    let total_fp: u128 = to_fp(base);

    let mult: u128;
    if pass_shares != 0 && fail_shares != 0 {
        let total_shares = match pass_shares.checked_add(fail_shares) {
            Some(t) => t,
            None => {
                return Err(PredictionError::Overflow);
            },
        };
        proof {
            lemma_pass_ratio_bounds(pa, pa + fa);
        }
        let pass_ratio: u128 = div_fp(to_fp(pass_shares), to_fp(total_shares));
        let ratio: u128 = if is_pass {
            pass_ratio
        } else {
            FIXED_ONE - pass_ratio
        };
        mult = 2 * ratio;
        assert(mult as int == spec_multiplier(pa, fa, is_pass));
    } else {
        mult = FIXED_ONE;
        assert(mult as int == spec_multiplier(pa, fa, is_pass));
    }
    let ghost m = mult as int;
    let ghost notional = spec_notional(sh, pa, fa, is_pass);
    proof {
        assert(notional == base as int * m) by (nonlinear_arith)
            requires
                notional == BASE_SHARE_PRICE as int * sh * m,
                base as int == BASE_SHARE_PRICE as int * sh,
        ;
        assert(0 <= m <= 2 * one);
        assert(base as int * one * m == (base as int * m) * one) by (nonlinear_arith);
        assert(0 <= base as int * m <= u64::MAX * (2 * one)) by (nonlinear_arith)
            requires
                0 <= base as int <= u64::MAX,
                0 <= m <= 2 * one,
        ;
        lemma_div_multiple_plus_small(base as int * m, FIXED_HALF as int);
    }
    let notional_fp: u128 = mul_fp(total_fp, mult);
    assert(notional_fp as int == notional);

    proof {
        let fb = fee_bps as int;
        let fm = fb * 100_000_000;
        assert(fm * (10_000 * one) == fb * one * one) by (nonlinear_arith)
            requires
                fm == fb * 100_000_000,
                one == 1_000_000_000_000,
        ;
        lemma_fundamental_div_mod_converse(
            fb * one * one + FIXED_HALF as int,
            10_000 * one,
            fm,
            FIXED_HALF as int,
        );
    }
    let fee_mult: u128 = div_fp(to_fp(fee_bps as u64), to_fp(ONE_IN_BASIS_POINTS as u64));
    assert(fee_mult as int == fee_bps as int * 100_000_000);

    proof {
        // The fee multiplier is at most one, so the raw fee is at most
        // the notional.
        let nfp = notional_fp as int;
        let fmu = fee_mult as int;
        let half = FIXED_HALF as int;
        let x = nfp * fmu + half;
        assert(x < (nfp + 1) * one) by (nonlinear_arith)
            requires
                x == nfp * fmu + half,
                0 <= fmu <= one,
                half < one,
                nfp >= 0,
                one > 0,
        ;
        assert((nfp + 1) * one - 1 - (one - 1) == nfp * one) by (nonlinear_arith);
        lemma_fundamental_div_mod_converse((nfp + 1) * one - 1, one, nfp, one - 1);
        lemma_div_is_ordered(x, (nfp + 1) * one - 1, one);
        lemma_div_pos_is_pos(x, one);
    }
    let fee_raw: u128 = mul_fp(notional_fp, fee_mult);
    assert(fee_raw as int <= notional_fp as int);

    let fee_fp: u128 = floor_fp(fee_raw);
    let ghost fee_units = fee_raw as int / one;
    proof {
        lemma_div_pos_is_pos(fee_raw as int, one);
        lemma_div_multiple_plus_small(fee_units, FIXED_HALF as int);
    }
    let fee_u: u128 = to_units(fee_fp);
    assert(fee_u as int == spec_fee(sh, pa, fa, is_pass, fee_bps as int));

    proof {
        lemma_fundamental_div_mod(notional_fp as int, one);
        // notional = one * q + rem; subtracting the floored fee keeps
        // the remainder, so the price in units is q - fee_units.
        let q = notional_fp as int / one;
        lemma_div_is_ordered(fee_raw as int, notional_fp as int, one);
        assert(notional_fp as int - fee_units * one == (q - fee_units) * one + notional_fp as int
            % one) by (nonlinear_arith)
            requires
                notional_fp as int == one * q + notional_fp as int % one,
                fee_units * one == one * fee_units,
        ;
        lemma_fundamental_div_mod_converse(
            notional_fp as int - fee_units * one,
            one,
            q - fee_units,
            notional_fp as int % one,
        );
        lemma_div_multiple_plus_small(q - fee_units, FIXED_HALF as int);
    }
    let price_fp: u128 = floor_fp(notional_fp - fee_fp);
    let price_u: u128 = to_units(price_fp);
    assert(price_u as int == notional_fp as int / one - fee_u as int);
    assert(price_u as int == spec_price(sh, pa, fa, is_pass, fee_bps as int));

    if fee_u > u64::MAX as u128 || price_u > u64::MAX as u128 {
        return Err(PredictionError::Overflow);
    }
    Ok((fee_u as u64, price_u as u64))
}

} // verus!

