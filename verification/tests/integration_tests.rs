use polymarket_kalshi_arbitrage_bot::fixed::{Dec, Ratio};
use polymarket_kalshi_arbitrage_bot::models::{Market, Platform};
use polymarket_kalshi_arbitrage_bot::util::{calculate_roi, format_currency, format_percentage};

fn create_test_market(platform: Platform, yes_price: f64) -> Market {
    Market {
        id: "test_market".to_string(),
        question: "Will it rain tomorrow?".to_string(),
        platform,
        yes_price: Dec::new((yes_price * 10000.0).round() as u64),
        no_price: Dec::new(((1.0 - yes_price) * 10000.0).round() as u64),
        volume: Dec::new(10000 * 10000),
        liquidity: Dec::new(5000 * 10000),
        end_time: 1_700_000_000,
    }
}

#[test]
fn test_arbitrage_detection() {
    let poly_market = create_test_market(Platform::Polymarket, 0.45);
    let kalshi_market = create_test_market(Platform::Kalshi, 0.55);

    // There should be an arbitrage opportunity here
    // Buy at 0.45 on Polymarket, sell at 0.55 on Kalshi
    let profit = (0.55 - 0.45) / 0.45;
    assert!(profit > 0.02); // More than 2% profit
    assert!(poly_market.yes_price.units < kalshi_market.yes_price.units);
}

#[test]
fn test_no_arbitrage() {
    let poly_market = create_test_market(Platform::Polymarket, 0.50);
    let kalshi_market = create_test_market(Platform::Kalshi, 0.51);

    // Only 2% profit, might not be worth fees. With exact decimal
    // arithmetic (0.51 - 0.50) / 0.50 is exactly 0.02, not above it.
    let profit = polymarket_kalshi_arbitrage_bot::profit::directional_profit(
        poly_market.yes_price,
        kalshi_market.yes_price,
    );
    assert!(!profit.gt(&Ratio::new(2, 100)));
    assert!(profit.eq_value(&Ratio::new(2, 100)));
}

#[test]
fn test_format_percentage() {
    let value = Dec::new(500); // 0.05
    assert_eq!(format_percentage(value), "5.00%");
}

#[test]
fn test_format_currency() {
    let value = Dec::new(1_234_500); // 123.45
    assert_eq!(format_currency(value), "$123.45");
}

#[test]
fn test_calculate_roi() {
    let profit = Dec::new(500_000); // 50.0
    let investment = Dec::new(10_000_000); // 1000.0
    let roi = calculate_roi(profit, investment);
    assert!(roi.eq_value(&Ratio::new(5, 1)));
}
