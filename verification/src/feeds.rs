//! Normalization of venue-native records into canonical markets.
//!
//! The network and JSON layers outside the library hand over each record's
//! plain values; here they are parsed and scaled into one `Market` shape.
//! One malformed record is reported so the caller can drop it and keep the
//! rest of the batch.

use vstd::prelude::*;

verus! {

use crate::CENT_UNITS;
use crate::fixed::Dec;
use crate::models::{Market, MarketView, Platform};
use crate::persist::RecordError;
use crate::textnum::{spec_parse_dec, parse_dec};

/// Builds a canonical market from one Polymarket record: the yes price is
/// the best ask, the no price the best bid, all four numeric cells decimal
/// strings that must parse exactly. `end_time` is Unix seconds.
pub fn market_from_polymarket(
    id: String,
    question: String,
    best_bid: &str,
    best_ask: &str,
    volume: &str,
    liquidity: &str,
    end_time: u64,
) -> (r: Result<Market, RecordError>)
    ensures
        r.is_ok() <==> spec_parse_dec(best_ask@).is_some() && spec_parse_dec(best_bid@).is_some()
            && spec_parse_dec(volume@).is_some() && spec_parse_dec(liquidity@).is_some(),
        r.is_ok() ==> r.unwrap()@ == (MarketView {
            id: id@,
            question: question@,
            platform: Platform::Polymarket,
            yes_price: spec_parse_dec(best_ask@).unwrap(),
            no_price: spec_parse_dec(best_bid@).unwrap(),
            volume: spec_parse_dec(volume@).unwrap(),
            liquidity: spec_parse_dec(liquidity@).unwrap(),
            end_time: end_time as int,
        }),
{
    let yes_price = match parse_dec(best_ask) {
        Some(v) => v,
        None => {
            return Err(RecordError::Malformed);
        },
    };
    let no_price = match parse_dec(best_bid) {
        Some(v) => v,
        None => {
            return Err(RecordError::Malformed);
        },
    };
    let volume_dec = match parse_dec(volume) {
        Some(v) => v,
        None => {
            return Err(RecordError::Malformed);
        },
    };
    let liquidity_dec = match parse_dec(liquidity) {
        Some(v) => v,
        None => {
            return Err(RecordError::Malformed);
        },
    };
    Ok(
        Market {
            id,
            question,
            platform: Platform::Polymarket,
            yes_price,
            no_price,
            volume: volume_dec,
            liquidity: liquidity_dec,
            end_time,
        },
    )
}

/// Builds a canonical market from one Kalshi record: prices arrive as
/// cents in `[0, 100]`; the yes price is the yes ask, the no price one
/// dollar less the yes bid. `close_time` is Unix seconds.
pub fn market_from_kalshi(
    ticker: String,
    title: String,
    yes_bid_cents: u64,
    yes_ask_cents: u64,
    volume: Dec,
    open_interest: Dec,
    close_time: u64,
) -> (r: Market)
    requires
        yes_bid_cents <= 100,
        yes_ask_cents <= 100,
    ensures
        r@ == (MarketView {
            id: ticker@,
            question: title@,
            platform: Platform::Kalshi,
            yes_price: yes_ask_cents * CENT_UNITS,
            no_price: (100 - yes_bid_cents) * CENT_UNITS,
            volume: volume@,
            liquidity: open_interest@,
            end_time: close_time as int,
        }),
{
    Market {
        id: ticker,
        question: title,
        platform: Platform::Kalshi,
        yes_price: Dec::new(yes_ask_cents * CENT_UNITS),
        no_price: Dec::new((100 - yes_bid_cents) * CENT_UNITS),
        volume,
        liquidity: open_interest,
        end_time: close_time,
    }
}

} // verus!
