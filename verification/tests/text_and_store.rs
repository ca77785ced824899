use polymarket_kalshi_arbitrage_bot::feeds::{market_from_kalshi, market_from_polymarket};
use polymarket_kalshi_arbitrage_bot::fixed::{Dec, Ratio};
use polymarket_kalshi_arbitrage_bot::models::{ArbitrageOpportunity, Platform};
use polymarket_kalshi_arbitrage_bot::persist::{
    decode_opportunity, encode_opportunity, RecordError,
};
use polymarket_kalshi_arbitrage_bot::textnum::{
    fmt_dec, fmt_ratio, fmt_u64, parse_dec, parse_ratio, parse_u64,
};

#[test]
fn platform_identifier_round_trips() {
    assert_eq!(Platform::Polymarket.as_str(), "polymarket");
    assert_eq!(Platform::Kalshi.as_str(), "kalshi");
    assert_eq!(Platform::parse(Platform::Polymarket.as_str()), Platform::Polymarket);
    assert_eq!(Platform::parse(Platform::Kalshi.as_str()), Platform::Kalshi);
    // anything unknown reads as Kalshi
    assert_eq!(Platform::parse("somewhere-else"), Platform::Kalshi);
}

#[test]
fn integers_round_trip_through_text() {
    assert_eq!(fmt_u64(0), "0");
    assert_eq!(fmt_u64(4_501), "4501");
    assert_eq!(parse_u64("4501"), Some(4_501));
    assert_eq!(parse_u64(""), None);
    assert_eq!(parse_u64("45a1"), None);
    assert_eq!(parse_u64("18446744073709551615"), Some(u64::MAX));
    assert_eq!(parse_u64("18446744073709551616"), None);
}

#[test]
fn fixed_point_values_round_trip_through_text() {
    assert_eq!(fmt_dec(Dec::new(4_500)), "0.4500");
    assert_eq!(fmt_dec(Dec::new(1_234_500)), "123.4500");
    assert_eq!(parse_dec(&fmt_dec(Dec::new(4_500))), Some(Dec::new(4_500)));
    assert_eq!(parse_dec("0.45"), Some(Dec::new(4_500)));
    assert_eq!(parse_dec("12.3"), Some(Dec::new(123_000)));
    assert_eq!(parse_dec("123"), Some(Dec::new(1_230_000)));
    assert_eq!(parse_dec("0.12345"), None); // more precision than is kept
    assert_eq!(parse_dec("1..2"), None);
    assert_eq!(parse_dec(".45"), None);
    assert_eq!(parse_dec(""), None);
}

#[test]
fn ratios_round_trip_through_text() {
    let r = Ratio::new(1_000, 4_500);
    assert_eq!(fmt_ratio(&r), "1000/4500");
    assert_eq!(parse_ratio(&fmt_ratio(&r)), Some(r));
    assert_eq!(parse_ratio("3/0"), None); // a zero denominator is malformed
    assert_eq!(parse_ratio("35"), None);
}

#[test]
fn store_row_round_trips() {
    let opp = ArbitrageOpportunity {
        id: Some(42),
        polymarket_market_id: "poly-9".to_string(),
        kalshi_market_id: "KX-9".to_string(),
        buy_platform: Platform::Kalshi,
        sell_platform: Platform::Polymarket,
        buy_price: Dec::new(5_000),
        sell_price: Dec::new(6_000),
        profit_percentage: Ratio::new(1_000, 5_000),
        estimated_profit: Ratio::new(20, 1),
        position_size: Dec::new(1_000_000),
        detected_at: 1_700_000_123,
        executed: true,
    };
    let row = encode_opportunity(&opp);
    assert_eq!(row.buy_platform, "kalshi");
    assert_eq!(row.buy_price, "0.5000");
    assert_eq!(row.detected_at, "1700000123");
    assert_eq!(row.executed, 1);
    let back = decode_opportunity(&row).expect("a written row reads back");
    assert_eq!(back, opp);
}

#[test]
fn malformed_row_is_reported_not_swallowed() {
    let opp = ArbitrageOpportunity {
        id: None,
        polymarket_market_id: "poly-9".to_string(),
        kalshi_market_id: "KX-9".to_string(),
        buy_platform: Platform::Polymarket,
        sell_platform: Platform::Kalshi,
        buy_price: Dec::new(4_500),
        sell_price: Dec::new(5_500),
        profit_percentage: Ratio::new(2, 9),
        estimated_profit: Ratio::new(200, 9),
        position_size: Dec::new(1_000_000),
        detected_at: 1_000,
        executed: false,
    };
    let mut row = encode_opportunity(&opp);
    row.buy_price = "not a price".to_string();
    assert_eq!(decode_opportunity(&row), Err(RecordError::Malformed));
}

#[test]
fn polymarket_record_normalizes_or_is_dropped() {
    let m = market_from_polymarket(
        "poly-3".to_string(),
        "will it rain tomorrow".to_string(),
        "0.42",
        "0.45",
        "10000",
        "5000",
        1_700_000_000,
    )
    .expect("a well-formed record normalizes");
    assert_eq!(m.platform, Platform::Polymarket);
    assert_eq!(m.yes_price, Dec::new(4_500)); // best ask
    assert_eq!(m.no_price, Dec::new(4_200)); // best bid
    assert_eq!(m.volume, Dec::new(100_000_000));

    let bad = market_from_polymarket(
        "poly-4".to_string(),
        "will it rain tomorrow".to_string(),
        "0.42",
        "not-a-number",
        "10000",
        "5000",
        1_700_000_000,
    );
    assert!(bad.is_err()); // one malformed record is dropped, not fatal
}

#[test]
fn kalshi_record_normalizes_cent_prices() {
    let m = market_from_kalshi(
        "KX-3".to_string(),
        "will it rain tomorrow".to_string(),
        40, // yes bid in cents
        55, // yes ask in cents
        Dec::new(100_000_000),
        Dec::new(50_000_000),
        1_700_000_000,
    );
    assert_eq!(m.platform, Platform::Kalshi);
    assert_eq!(m.yes_price, Dec::new(5_500)); // the yes ask
    assert_eq!(m.no_price, Dec::new(6_000)); // one dollar less the yes bid
}
