//! Bootstrap and lifecycle: configuration, market creation and
//! position opening.
//!
//! Storage allocation, deterministic addressing and signer checks are
//! the host's business; these operations take the already-checked
//! identities as plain values and state the authorization rules the
//! host must not bypass.
use vstd::prelude::*;
use crate::constants::ONE_IN_BASIS_POINTS;
use crate::errors::PredictionError;
use crate::state::Config;
use crate::state::Market;
use crate::state::MarketState;
use crate::state::Position;

verus! {

/// One-time bootstrap of the protocol configuration. Rejects a fee
/// rate above 100% and otherwise records the caller as the authority
/// together with the accepted trading token.
pub fn initialize_config(authority: u64, fee_bps: u16, mint: u64, bump: u8) -> (r: Result<
    Config,
    PredictionError,
>)
    ensures
        fee_bps > ONE_IN_BASIS_POINTS ==> r == Err::<Config, _>(PredictionError::InvalidFeeBps),
        fee_bps <= ONE_IN_BASIS_POINTS ==> r == Ok::<_, PredictionError>(
            Config { authority, fee_bps, mint, bump },
        ),
{
    if fee_bps > ONE_IN_BASIS_POINTS {
        return Err(PredictionError::InvalidFeeBps);
    }
    Ok(Config { authority, fee_bps, mint, bump })
}

/// Creates a market bound to an oracle feed, a resolution deadline and
/// a target price. Only the configured authority may create markets,
/// and only for the configured trading token; the pools start empty
/// and the state at `Initialized`.
pub fn create_market(
    config: &Config,
    authority: u64,
    trading_mint: u64,
    price_update_v2: u64,
    resolve_ts: i64,
    target_price: u128,
    title: String,
    bump: u8,
) -> (r: Result<Market, PredictionError>)
    ensures
        authority != config.authority ==> r == Err::<Market, _>(
            PredictionError::InvalidConfigAuthority,
        ),
        authority == config.authority && trading_mint != config.mint ==> r == Err::<Market, _>(
            PredictionError::InvalidTradingMint,
        ),
        authority == config.authority && trading_mint == config.mint ==> r == Ok::<
            _,
            PredictionError,
        >(
            Market {
                resolve_ts,
                pass_shares: 0,
                fail_shares: 0,
                state: MarketState::Initialized,
                price_update_v2,
                target_price,
                bump,
                title,
            },
        ),
{
    if authority != config.authority {
        return Err(PredictionError::InvalidConfigAuthority);
    }
    if trading_mint != config.mint {
        return Err(PredictionError::InvalidTradingMint);
    }
    Ok(
        Market {
            resolve_ts,
            pass_shares: 0,
            fail_shares: 0,
            state: MarketState::Initialized,
            price_update_v2,
            target_price,
            bump,
            title,
        },
    )
}

/// Opens an empty position for `authority` in `market`. Keyed by that
/// pair: the host's storage refuses a duplicate, which a caller treats
/// as "already open".
pub fn open_position(authority: u64, market: u64, bump: u8) -> (r: Position)
    ensures
        r == (Position { authority, market, pass_shares: 0, fail_shares: 0, bump }),
{
    Position { authority, market, pass_shares: 0, fail_shares: 0, bump }
}

} // verus!
