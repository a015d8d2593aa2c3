use prediction::errors::PredictionError;
use prediction::lifecycle::open_position;
use prediction::state::Market;
use prediction::state::MarketState;
use prediction::trade::trade_shares;

fn fresh_market() -> Market {
    Market {
        resolve_ts: 1_000_000,
        pass_shares: 0,
        fail_shares: 0,
        state: MarketState::Initialized,
        price_update_v2: 7,
        target_price: 100,
        bump: 0,
        title: String::from("will it settle"),
    }
}

#[test]
fn first_buy_matches_the_bootstrap_scenario() {
    let mut market = fresh_market();
    let mut position = open_position(1, 7, 0);
    let r = trade_shares(&mut market, &mut position, 100, true, true, 10, 500);
    assert_eq!(r, Ok((5_000_000, 95_000_000)));
    assert_eq!(market.pass_shares, 100);
    assert_eq!(market.fail_shares, 0);
    assert_eq!(position.pass_shares, 100);
    assert_eq!(position.fail_shares, 0);
}

#[test]
fn buy_prices_against_the_updated_pools() {
    let mut market = fresh_market();
    market.pass_shares = 100;
    market.fail_shares = 50;
    let mut position = open_position(1, 7, 0);
    let r = trade_shares(&mut market, &mut position, 50, true, true, 10, 0);
    assert_eq!(r, Ok((0, 75_000_000)));
    assert_eq!(market.pass_shares, 150);
    assert_eq!(market.fail_shares, 50);
}

#[test]
fn conservation_holds_over_a_trade_sequence() {
    let mut market = fresh_market();
    let mut alice = open_position(1, 7, 0);
    let mut bob = open_position(2, 7, 0);
    trade_shares(&mut market, &mut alice, 100, true, true, 10, 250).unwrap();
    trade_shares(&mut market, &mut bob, 40, false, true, 11, 250).unwrap();
    trade_shares(&mut market, &mut alice, 30, false, true, 12, 250).unwrap();
    trade_shares(&mut market, &mut alice, 25, true, false, 13, 250).unwrap();
    trade_shares(&mut market, &mut bob, 15, false, false, 14, 250).unwrap();
    assert_eq!(market.pass_shares, alice.pass_shares + bob.pass_shares);
    assert_eq!(market.fail_shares, alice.fail_shares + bob.fail_shares);
    assert_eq!(market.pass_shares, 75);
    assert_eq!(market.fail_shares, 55);
}

#[test]
fn sell_after_buy_returns_no_more_than_paid() {
    let mut market = fresh_market();
    market.pass_shares = 60;
    market.fail_shares = 40;
    let mut trader = open_position(1, 7, 0);
    let (buy_fee, buy_price) =
        trade_shares(&mut market, &mut trader, 50, true, true, 10, 300).unwrap();
    let (_, sell_price) = trade_shares(&mut market, &mut trader, 50, true, false, 11, 300).unwrap();
    assert!(sell_price <= buy_price + buy_fee);
    // The pools are back where they started.
    assert_eq!(market.pass_shares, 60);
    assert_eq!(market.fail_shares, 40);
    assert_eq!(trader.pass_shares, 0);
}

#[test]
fn zero_shares_is_rejected() {
    let mut market = fresh_market();
    let mut position = open_position(1, 7, 0);
    let r = trade_shares(&mut market, &mut position, 0, true, true, 10, 0);
    assert_eq!(r, Err(PredictionError::InvalidTradeShares));
    assert_eq!(market, fresh_market());
}

#[test]
fn trading_after_the_deadline_is_rejected() {
    let mut market = fresh_market();
    let mut position = open_position(1, 7, 0);
    let r = trade_shares(&mut market, &mut position, 10, true, true, 1_000_000, 0);
    assert_eq!(r, Err(PredictionError::MarketResolved));
    assert_eq!(market, fresh_market());
    assert_eq!(position, open_position(1, 7, 0));
}

#[test]
fn selling_more_than_held_is_rejected() {
    let mut market = fresh_market();
    let mut position = open_position(1, 7, 0);
    trade_shares(&mut market, &mut position, 10, true, true, 10, 0).unwrap();
    let r = trade_shares(&mut market, &mut position, 11, true, false, 11, 0);
    assert_eq!(r, Err(PredictionError::InsufficientSharesToSell));
    assert_eq!(market.pass_shares, 10);
    assert_eq!(position.pass_shares, 10);
}

#[test]
fn pool_overflow_is_rejected_without_mutation() {
    let mut market = fresh_market();
    market.pass_shares = u64::MAX - 5;
    let mut position = open_position(1, 7, 0);
    let r = trade_shares(&mut market, &mut position, 10, true, true, 10, 0);
    assert_eq!(r, Err(PredictionError::Overflow));
    assert_eq!(market.pass_shares, u64::MAX - 5);
    assert_eq!(position.pass_shares, 0);
}
