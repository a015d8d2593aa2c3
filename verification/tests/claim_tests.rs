use prediction::claim::claim_winnings;
use prediction::errors::PredictionError;
use prediction::state::Market;
use prediction::state::MarketState;
use prediction::state::Position;

fn settled_market(state: MarketState, pass: u64, fail: u64) -> Market {
    Market {
        resolve_ts: 1_000_000,
        pass_shares: pass,
        fail_shares: fail,
        state,
        price_update_v2: 7,
        target_price: 100,
        bump: 0,
        title: String::from("will it settle"),
    }
}

fn position(pass: u64, fail: u64) -> Position {
    Position { authority: 1, market: 7, pass_shares: pass, fail_shares: fail, bump: 0 }
}

#[test]
fn payout_is_pro_rata_and_floored() {
    // A third of 290_000_000 floors to 96_666_666.
    let market = settled_market(MarketState::Passed, 300, 50);
    let r = claim_winnings(&market, position(100, 0), 290_000_000);
    assert_eq!(r, Ok(96_666_666));
}

#[test]
fn sole_holder_takes_the_whole_pool() {
    let market = settled_market(MarketState::Passed, 300, 50);
    let r = claim_winnings(&market, position(300, 0), 290_000_000);
    assert_eq!(r, Ok(290_000_000));
}

#[test]
fn failed_market_pays_the_fail_side() {
    let market = settled_market(MarketState::Failed, 300, 200);
    let r = claim_winnings(&market, position(100, 50), 100_000_000);
    assert_eq!(r, Ok(25_000_000));
}

#[test]
fn losing_side_only_cannot_claim() {
    let market = settled_market(MarketState::Passed, 300, 200);
    let p = position(0, 200);
    let r = claim_winnings(&market, p, 290_000_000);
    assert_eq!(r, Err((PredictionError::NoClaimableWinnings, position(0, 200))));
}

#[test]
fn unsettled_market_cannot_pay() {
    let market = settled_market(MarketState::Initialized, 300, 200);
    let p = position(100, 0);
    let r = claim_winnings(&market, p, 290_000_000);
    assert_eq!(r, Err((PredictionError::MarketNotSettled, position(100, 0))));

    let market = settled_market(MarketState::Undecided, 300, 200);
    let r = claim_winnings(&market, position(100, 0), 290_000_000);
    assert_eq!(r, Err((PredictionError::MarketNotSettled, position(100, 0))));
}

#[test]
fn sequential_claims_drain_the_pool_without_overpaying() {
    // Three equal holders claim one after another against the shrinking
    // balance; the payouts never exceed what is left.
    let market = settled_market(MarketState::Passed, 300, 0);
    let mut balance: u64 = 290_000_000;
    let mut paid: u64 = 0;
    for _ in 0..3 {
        let amount = claim_winnings(&market, position(100, 0), balance).unwrap();
        assert!(amount <= balance);
        balance -= amount;
        paid += amount;
    }
    assert!(paid <= 290_000_000);
}
