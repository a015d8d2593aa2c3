use prediction::errors::PredictionError;
use prediction::lifecycle::create_market;
use prediction::lifecycle::initialize_config;
use prediction::lifecycle::open_position;
use prediction::state::Config;
use prediction::state::Market;
use prediction::state::MarketState;

#[test]
fn config_records_the_caller_and_the_mint() {
    let r = initialize_config(11, 500, 22, 255);
    assert_eq!(r, Ok(Config { authority: 11, fee_bps: 500, mint: 22, bump: 255 }));
}

#[test]
fn full_fee_rate_is_still_accepted() {
    let r = initialize_config(11, 10_000, 22, 0);
    assert_eq!(r, Ok(Config { authority: 11, fee_bps: 10_000, mint: 22, bump: 0 }));
}

#[test]
fn fee_rate_above_the_whole_is_rejected() {
    let r = initialize_config(11, 10_001, 22, 0);
    assert_eq!(r, Err(PredictionError::InvalidFeeBps));
}

#[test]
fn market_starts_empty_and_initialized() {
    let config = Config { authority: 11, fee_bps: 500, mint: 22, bump: 0 };
    let r = create_market(&config, 11, 22, 7, 1_000_000, 100, String::from("t"), 3);
    assert_eq!(
        r,
        Ok(Market {
            resolve_ts: 1_000_000,
            pass_shares: 0,
            fail_shares: 0,
            state: MarketState::Initialized,
            price_update_v2: 7,
            target_price: 100,
            bump: 3,
            title: String::from("t"),
        })
    );
}

#[test]
fn only_the_authority_creates_markets() {
    let config = Config { authority: 11, fee_bps: 500, mint: 22, bump: 0 };
    let r = create_market(&config, 12, 22, 7, 1_000_000, 100, String::from("t"), 3);
    assert_eq!(r, Err(PredictionError::InvalidConfigAuthority));
}

#[test]
fn only_the_configured_mint_trades() {
    let config = Config { authority: 11, fee_bps: 500, mint: 22, bump: 0 };
    let r = create_market(&config, 11, 23, 7, 1_000_000, 100, String::from("t"), 3);
    assert_eq!(r, Err(PredictionError::InvalidTradingMint));
}

#[test]
fn new_positions_are_empty() {
    let p = open_position(5, 9, 1);
    assert_eq!(p.authority, 5);
    assert_eq!(p.market, 9);
    assert_eq!(p.pass_shares, 0);
    assert_eq!(p.fail_shares, 0);
    assert_eq!(p.bump, 1);
}

#[test]
fn market_space_counts_header_fields_and_title() {
    assert_eq!(Market::space("abc"), 81);
    assert_eq!(Market::space(""), 78);
}
