//! Fixed-point arithmetic in the scaled-integer domain of
//! `spl_math::precise_number::PreciseNumber`.
//!
//! A quantity is carried as its value multiplied by [`FIXED_ONE`]
//! (10^12). Scaling, flooring and the conversion back to whole units
//! stay inside `u128` and are verified here; the product and the
//! quotient of two scaled values need 256-bit intermediates, so they
//! are delegated to `spl_math`, whose exact rounding is stated in the
//! wrappers' contracts.
use vstd::prelude::*;
use vstd::arithmetic::div_mod::lemma_div_is_ordered;
use vstd::arithmetic::div_mod::lemma_div_multiples_vanish;
use vstd::arithmetic::div_mod::lemma_div_pos_is_pos;
use vstd::arithmetic::div_mod::lemma_fundamental_div_mod;
use vstd::arithmetic::div_mod::lemma_fundamental_div_mod_converse;
use spl_math::precise_number::PreciseNumber;
use spl_math::uint::U256;

verus! {

/// The scaled representation of one whole unit: 10^12.
pub const FIXED_ONE: u128 = 1_000_000_000_000;

/// Half a unit: the rounding correction `spl_math` adds before its
/// truncating divisions.
pub const FIXED_HALF: u128 = 500_000_000_000;

/// The scaled product of two scaled values, rounded to the nearest
/// scaled step as `PreciseNumber::checked_mul` rounds it.
pub open spec fn spec_mul_fp(a: int, b: int) -> int {
    (a * b + FIXED_HALF as int) / (FIXED_ONE as int)
}

/// The scaled quotient of two scaled values, with the half-unit
/// correction `PreciseNumber::checked_div` adds to the numerator.
pub open spec fn spec_div_fp(a: int, b: int) -> int {
    (a * FIXED_ONE as int + FIXED_HALF as int) / b
}

/// Relies on `spl_math::precise_number::PreciseNumber::checked_mul`:
/// for scaled operands below 2^128 it returns
/// `(a * b + FIXED_HALF) / FIXED_ONE`, computed over `U256`.
#[verifier::external_body]
pub fn mul_fp(a: u128, b: u128) -> (r: u128)
    requires
        spec_mul_fp(a as int, b as int) <= u128::MAX,
    ensures
        r as int == spec_mul_fp(a as int, b as int),
{
    let x = PreciseNumber { value: U256::from(a) };
    let y = PreciseNumber { value: U256::from(b) };
    x.checked_mul(&y).unwrap().value.as_u128()
}

/// Relies on `spl_math::precise_number::PreciseNumber::checked_div`:
/// for a nonzero divisor and scaled operands below 2^128 it returns
/// `(a * FIXED_ONE + FIXED_HALF) / b`, computed over `U256`.
#[verifier::external_body]
pub fn div_fp(a: u128, b: u128) -> (r: u128)
    requires
        b != 0,
        spec_div_fp(a as int, b as int) <= u128::MAX,
    ensures
        r as int == spec_div_fp(a as int, b as int),
{
    let x = PreciseNumber { value: U256::from(a) };
    let y = PreciseNumber { value: U256::from(b) };
    x.checked_div(&y).unwrap().value.as_u128()
}

/// Scales a whole-unit count into the fixed-point domain.
pub fn to_fp(v: u64) -> (r: u128)
    ensures
        r as int == v as int * FIXED_ONE as int,
{
    (v as u128) * FIXED_ONE
}

/// Drops the fractional part of a scaled value, staying scaled.
pub fn floor_fp(v: u128) -> (r: u128)
    ensures
        r as int == (v as int / FIXED_ONE as int) * FIXED_ONE as int,
        r <= v,
{
    proof {
        lemma_fundamental_div_mod(v as int, FIXED_ONE as int);
    }
    (v / FIXED_ONE) * FIXED_ONE
}

/// Converts a scaled value back to whole units, adding the half-unit
/// correction before the truncating division as `to_imprecise` does.
pub fn to_units(v: u128) -> (r: u128)
    requires
        v + FIXED_HALF <= u128::MAX,
    ensures
        r as int == (v as int + FIXED_HALF as int) / (FIXED_ONE as int),
{
    (v + FIXED_HALF) / FIXED_ONE
}

/// A multiple of `FIXED_ONE` plus less than one unit divides down to
/// exactly that multiple: the rounding corrections vanish on whole
/// numbers.
pub proof fn lemma_div_multiple_plus_small(a: int, h: int)
    requires
        a >= 0,
        0 <= h < FIXED_ONE as int,
    ensures
        (a * FIXED_ONE as int + h) / (FIXED_ONE as int) == a,
{
    lemma_fundamental_div_mod_converse(
        a * FIXED_ONE as int + h,
        FIXED_ONE as int,
        a,
        h,
    );
}

/// Quotients are ordered whenever the cross-multiplied comparison
/// holds: `a/b >= c/d` follows from `a*d >= c*b`.
pub proof fn lemma_div_cross_monotone(a: int, b: int, c: int, d: int)
    requires
        a >= 0,
        c >= 0,
        b > 0,
        d > 0,
        a * d >= c * b,
    ensures
        a / b >= c / d,
{
    let qc = c / d;
    lemma_div_pos_is_pos(c, d);
    lemma_fundamental_div_mod(c, d);
    assert(c >= d * qc);
    assert(a * d >= (d * qc) * b) by (nonlinear_arith)
        requires
            a * d >= c * b,
            c >= d * qc,
            b >= 0,
    ;
    assert(a >= qc * b) by (nonlinear_arith)
        requires
            a * d >= (d * qc) * b,
            d > 0,
    ;
    lemma_div_multiples_vanish(qc, b);
    lemma_div_is_ordered(b * qc, a, b);
}

} // verus!
