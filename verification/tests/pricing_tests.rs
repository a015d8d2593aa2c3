use prediction::errors::PredictionError;
use prediction::pricing::calculate_price;

#[test]
fn first_buy_on_empty_pool_is_base_price_with_fee() {
    // 100 pass shares against an empty fail pool: no multiplier, a 5%
    // fee of the 100_000_000 notional.
    let r = calculate_price(100, 100, 0, true, 500);
    assert_eq!(r, Ok((5_000_000, 95_000_000)));
}

#[test]
fn balanced_pool_buy_pays_the_imbalance_multiplier() {
    // Pools already at 150/50 after the trade: the pass side holds 75%
    // of the pool, so 50 shares cost 1.5x base.
    let r = calculate_price(50, 150, 50, true, 0);
    assert_eq!(r, Ok((0, 75_000_000)));
}

#[test]
fn minority_side_buy_gets_the_discount() {
    // The pass side holds 25% of the pool: half base price.
    let r = calculate_price(50, 50, 150, true, 0);
    assert_eq!(r, Ok((0, 25_000_000)));
}

#[test]
fn fail_side_uses_the_complement_ratio() {
    // Fail side holds 75% of the pool: 1.5x base for fail shares.
    let r = calculate_price(50, 50, 150, false, 0);
    assert_eq!(r, Ok((0, 75_000_000)));
}

#[test]
fn ratio_rounding_truncates_the_half_step() {
    // Pools 1/2: the pass ratio rounds to 333333333333 of 10^12, the
    // multiplier to 666666666666, and one share prices at 666_666.
    let r = calculate_price(1, 1, 2, true, 0);
    assert_eq!(r, Ok((0, 666_666)));
}

#[test]
fn one_basis_point_fee_floors() {
    let r = calculate_price(100, 100, 0, true, 1);
    assert_eq!(r, Ok((10_000, 99_990_000)));
    let r = calculate_price(1, 1, 0, true, 1);
    assert_eq!(r, Ok((100, 999_900)));
}

#[test]
fn full_fee_takes_the_whole_notional() {
    let r = calculate_price(100, 100, 0, true, 10_000);
    assert_eq!(r, Ok((100_000_000, 0)));
}

#[test]
fn fee_plus_price_never_exceeds_notional() {
    for bps in [0u16, 1, 250, 500, 3_333, 9_999, 10_000] {
        for shares in [1u64, 3, 7, 100, 12_345] {
            let (fee, price) = calculate_price(shares, 1_000, 77, true, bps).unwrap();
            assert!(fee + price <= shares * 1_000_000 * 2);
            let flat = calculate_price(shares, shares, 0, true, bps).unwrap();
            assert_eq!(flat.0 + flat.1, shares * 1_000_000);
        }
    }
}

#[test]
fn base_notional_overflow_is_reported() {
    let r = calculate_price(u64::MAX, 1, 0, true, 0);
    assert_eq!(r, Err(PredictionError::Overflow));
}

#[test]
fn pool_total_overflow_is_reported() {
    let r = calculate_price(1, u64::MAX, 1, true, 0);
    assert_eq!(r, Err(PredictionError::Overflow));
}

#[test]
fn price_beyond_u64_is_reported() {
    // The base notional still fits u64, but a multiplier close to 2x
    // pushes the price beyond it.
    let r = calculate_price(18_000_000_000_000, 1_000_000_000, 1, true, 0);
    assert_eq!(r, Err(PredictionError::Overflow));
}
