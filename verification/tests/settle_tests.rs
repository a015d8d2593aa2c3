use prediction::errors::PredictionError;
use prediction::settle::settle_market;
use prediction::state::Market;
use prediction::state::MarketState;

fn due_market(target_price: u128) -> Market {
    Market {
        resolve_ts: 1_000_000,
        pass_shares: 10,
        fail_shares: 10,
        state: MarketState::Initialized,
        price_update_v2: 7,
        target_price,
        bump: 0,
        title: String::from("will it settle"),
    }
}

#[test]
fn passes_when_the_price_stays_below_target() {
    // 6_000_000_000 at exponent -8 is 60 whole units, short of 100.
    let mut market = due_market(100);
    let now = 1_000_100;
    let r = settle_market(&mut market, now, 6_000_000_000, -8, now - 5);
    assert_eq!(r, Ok(()));
    assert_eq!(market.state, MarketState::Passed);
}

#[test]
fn fails_when_the_price_reaches_target() {
    let mut market = due_market(60);
    let now = 1_000_100;
    let r = settle_market(&mut market, now, 6_000_000_000, -8, now - 5);
    assert_eq!(r, Ok(()));
    assert_eq!(market.state, MarketState::Failed);
}

#[test]
fn normalization_rounds_to_the_nearest_unit() {
    // 60.5 at exponent -8 rounds up to 61 whole units.
    let mut market = due_market(61);
    let now = 1_000_100;
    settle_market(&mut market, now, 6_050_000_000, -8, now).unwrap();
    assert_eq!(market.state, MarketState::Failed);

    let mut market = due_market(62);
    settle_market(&mut market, now, 6_050_000_000, -8, now).unwrap();
    assert_eq!(market.state, MarketState::Passed);
}

#[test]
fn non_negative_exponent_multiplies_out() {
    let mut market = due_market(300);
    let now = 1_000_000;
    settle_market(&mut market, now, 3, 2, now).unwrap();
    assert_eq!(market.state, MarketState::Failed);

    let mut market = due_market(301);
    settle_market(&mut market, now, 3, 2, now).unwrap();
    assert_eq!(market.state, MarketState::Passed);

    let mut market = due_market(4);
    settle_market(&mut market, now, 3, 0, now).unwrap();
    assert_eq!(market.state, MarketState::Passed);
}

#[test]
fn normalization_truncates_below_the_half_step() {
    // 60.49999999 at exponent -8 stays at 60 whole units.
    let mut market = due_market(61);
    let now = 1_000_100;
    settle_market(&mut market, now, 6_049_999_999, -8, now).unwrap();
    assert_eq!(market.state, MarketState::Passed);
}

#[test]
fn extreme_exponents_stay_representable() {
    let now = 1_000_000;
    // Exponent 19: a unit price becomes 10^19.
    let mut market = due_market(10_000_000_000_000_000_001);
    settle_market(&mut market, now, 1, 19, now).unwrap();
    assert_eq!(market.state, MarketState::Passed);
    let mut market = due_market(10_000_000_000_000_000_000);
    settle_market(&mut market, now, 1, 19, now).unwrap();
    assert_eq!(market.state, MarketState::Failed);
    // Exponent -19: 9 * 10^18 comes back as 0.9 and the half-step
    // correction rounds it to 1.
    let mut market = due_market(1);
    settle_market(&mut market, now, 9_000_000_000_000_000_000, -19, now).unwrap();
    assert_eq!(market.state, MarketState::Failed);
    let mut market = due_market(2);
    settle_market(&mut market, now, 9_000_000_000_000_000_000, -19, now).unwrap();
    assert_eq!(market.state, MarketState::Passed);
}

#[test]
fn past_the_grace_window_settles_undecided() {
    let mut market = due_market(100);
    // One second beyond the fifteen-minute window: the sample is
    // ignored entirely.
    let now = 1_000_000 + 901;
    let r = settle_market(&mut market, now, 6_000_000_000, -8, now);
    assert_eq!(r, Ok(()));
    assert_eq!(market.state, MarketState::Undecided);
}

#[test]
fn settling_early_is_rejected() {
    let mut market = due_market(100);
    let r = settle_market(&mut market, 999_999, 6_000_000_000, -8, 999_999);
    assert_eq!(r, Err(PredictionError::MarketCannotResolve));
    assert_eq!(market.state, MarketState::Initialized);
}

#[test]
fn settling_twice_is_rejected() {
    let mut market = due_market(100);
    let now = 1_000_100;
    settle_market(&mut market, now, 6_000_000_000, -8, now).unwrap();
    let first = market.state;
    let r = settle_market(&mut market, now + 10, 9_999_000_000_000, -8, now + 10);
    assert_eq!(r, Err(PredictionError::MarketAlreadySettled));
    assert_eq!(market.state, first);
}

#[test]
fn identical_samples_settle_identically() {
    let mut a = due_market(100);
    let mut b = due_market(100);
    let now = 1_000_321;
    settle_market(&mut a, now, 9_999_999_999, -8, now - 60).unwrap();
    settle_market(&mut b, now, 9_999_999_999, -8, now - 60).unwrap();
    assert_eq!(a.state, b.state);
    assert_eq!(a, b);
}
