use polymarket_kalshi_arbitrage_bot::engine::{ArbitrageEngine, EngineSettings, EngineState};
use polymarket_kalshi_arbitrage_bot::execution::{
    build_leg, apply_completion, ExecutionCompletion, ExecutionRecord, VenueOrder,
    OrderBuildError,
};
use polymarket_kalshi_arbitrage_bot::fixed::{Dec, Ratio};
use polymarket_kalshi_arbitrage_bot::matching::{
    calculate_similarity, markets_match, match_markets,
};
use polymarket_kalshi_arbitrage_bot::models::{
    ArbitrageOpportunity, FetchError, LegError, Market, Platform, TradeSide, TradeStatus,
};
use polymarket_kalshi_arbitrage_bot::profit::{calculate_arbitrage, directional_profit};

fn market(platform: Platform, question: &str, yes_price_units: u64) -> Market {
    Market {
        id: match platform {
            Platform::Polymarket => "poly-1".to_string(),
            Platform::Kalshi => "KX-1".to_string(),
        },
        question: question.to_string(),
        platform,
        yes_price: Dec::new(yes_price_units),
        no_price: Dec::new(10_000 - yes_price_units),
        volume: Dec::new(10_000 * 10_000),
        liquidity: Dec::new(5_000 * 10_000),
        end_time: 1_700_000_000,
    }
}

fn settings(execution_enabled: bool) -> EngineSettings {
    EngineSettings {
        min_profit: Ratio::new(2, 100),
        position_size: Dec::new(1_000_000), // 100.0
        match_threshold: Ratio::new(7, 10),
        execution_enabled,
    }
}

#[test]
fn similarity_symmetric_and_identical_scores_one() {
    let a = calculate_similarity("will it rain tomorrow", "rain tomorrow will it");
    let b = calculate_similarity("rain tomorrow will it", "will it rain tomorrow");
    assert_eq!(a, b);
    assert!(a.eq_value(&Ratio::new(1, 1)));
}

#[test]
fn similarity_disjoint_scores_zero() {
    let s = calculate_similarity("cats are great", "dogs bark loudly");
    assert!(s.eq_value(&Ratio::zero()));
    assert!(s.num == 0 && s.den > 0);
}

#[test]
fn similarity_empty_questions_score_zero_without_error() {
    let s = calculate_similarity("", "");
    assert!(s.eq_value(&Ratio::zero()));
    let t = calculate_similarity("will it rain", "");
    assert!(t.eq_value(&Ratio::zero()));
}

#[test]
fn similarity_ignores_repeated_whitespace() {
    let s = calculate_similarity("  will   it \t rain ", "will it rain");
    assert!(s.eq_value(&Ratio::new(1, 1)));
}

#[test]
fn matching_is_case_insensitive() {
    let m1 = market(Platform::Polymarket, "Will It RAIN Tomorrow?", 4_500);
    let m2 = market(Platform::Kalshi, "will it rain tomorrow?", 5_500);
    assert!(markets_match(&m1, &m2, &Ratio::new(7, 10)));
}

#[test]
fn raising_threshold_never_adds_matches() {
    // 3 of 4 tokens shared: similarity 3/4 sits between the thresholds.
    let poly = vec![
        market(Platform::Polymarket, "will it rain tomorrow", 4_500),
        market(Platform::Polymarket, "cats are great", 4_500),
    ];
    let kalshi = vec![market(Platform::Kalshi, "will it rain", 5_500)];
    let low = match_markets(&poly, &kalshi, &Ratio::new(1, 2));
    let high = match_markets(&poly, &kalshi, &Ratio::new(9, 10));
    assert_eq!(low, vec![(0, 0)]);
    assert_eq!(high, vec![]);
    assert!(high.len() <= low.len());
}

#[test]
fn directional_profit_is_never_negative() {
    let down = directional_profit(Dec::new(5_000), Dec::new(4_000));
    assert!(down.eq_value(&Ratio::zero()));
    let flat = directional_profit(Dec::new(5_000), Dec::new(5_000));
    assert!(flat.eq_value(&Ratio::zero()));
    let up = directional_profit(Dec::new(4_500), Dec::new(5_500));
    assert!(up.eq_value(&Ratio::new(1_000, 4_500)));
}

#[test]
fn equal_prices_yield_no_opportunity() {
    let poly = market(Platform::Polymarket, "will it rain tomorrow", 5_000);
    let kalshi = market(Platform::Kalshi, "will it rain tomorrow", 5_000);
    // both directions are non-positive, so even a zero minimum rejects
    let r = calculate_arbitrage(&poly, &kalshi, &Ratio::zero(), Dec::new(1_000_000), 1_000);
    assert!(r.is_none());
}

#[test]
fn calculator_selects_larger_direction() {
    // the profitable direction buys on Kalshi at 0.50 and sells at 0.60
    let poly = market(Platform::Polymarket, "will it rain tomorrow", 6_000);
    let kalshi = market(Platform::Kalshi, "will it rain tomorrow", 5_000);
    let opp = calculate_arbitrage(&poly, &kalshi, &Ratio::new(2, 100), Dec::new(1_000_000), 1_000)
        .expect("a 20% spread must be detected");
    assert_eq!(opp.buy_platform, Platform::Kalshi);
    assert_eq!(opp.sell_platform, Platform::Polymarket);
    assert_eq!(opp.buy_price, Dec::new(5_000));
    assert_eq!(opp.sell_price, Dec::new(6_000));
    assert!(opp.profit_percentage.eq_value(&Ratio::new(1_000, 5_000)));
}

#[test]
fn detects_opportunity_at_forty_five_fifty_five() {
    let poly = market(Platform::Polymarket, "will it rain tomorrow", 4_500);
    let kalshi = market(Platform::Kalshi, "will it rain tomorrow", 5_500);
    let opp = calculate_arbitrage(&poly, &kalshi, &Ratio::new(2, 100), Dec::new(1_000_000), 1_000)
        .expect("buying at 0.45 and selling at 0.55 clears a 2% minimum");
    // profit is (0.55 - 0.45) / 0.45 = 2/9, about 0.2222
    assert!(opp.profit_percentage.eq_value(&Ratio::new(2, 9)));
    // the lower-priced venue is the buy side
    assert_eq!(opp.buy_platform, Platform::Polymarket);
    assert_eq!(opp.buy_price, Dec::new(4_500));
    assert_eq!(opp.sell_price, Dec::new(5_500));
    assert!(!opp.executed);
}

#[test]
fn boundary_profit_exactly_two_percent_is_rejected() {
    // (0.51 - 0.50) / 0.50 is exactly 0.02
    let p = directional_profit(Dec::new(5_000), Dec::new(5_100));
    assert!(p.eq_value(&Ratio::new(2, 100)));
    let poly = market(Platform::Polymarket, "will it rain tomorrow", 5_000);
    let kalshi = market(Platform::Kalshi, "will it rain tomorrow", 5_100);
    let r = calculate_arbitrage(&poly, &kalshi, &Ratio::new(2, 100), Dec::new(1_000_000), 1_000);
    assert!(r.is_none());
}

#[test]
fn estimated_profit_is_exactly_size_times_fraction() {
    let poly = market(Platform::Polymarket, "will it rain tomorrow", 4_500);
    let kalshi = market(Platform::Kalshi, "will it rain tomorrow", 5_500);
    let opp = calculate_arbitrage(&poly, &kalshi, &Ratio::new(2, 100), Dec::new(1_000_000), 1_000)
        .expect("opportunity");
    // position 100.0 times 2/9 is exactly 200/9
    assert!(opp.estimated_profit.eq_value(&Ratio::new(200, 9)));
    assert_eq!(
        opp.estimated_profit.num,
        opp.position_size.units as u128 * opp.profit_percentage.num
    );
    assert_eq!(
        opp.estimated_profit.den,
        opp.profit_percentage.den * 10_000
    );
}

#[test]
fn disabled_execution_persists_but_never_executes() {
    let engine = ArbitrageEngine::new(settings(false));
    let poly = Ok(vec![market(Platform::Polymarket, "will it rain tomorrow", 4_500)]);
    let kalshi = Ok(vec![market(Platform::Kalshi, "will it rain tomorrow", 5_500)]);
    let plan = engine.check_opportunities(&poly, &kalshi, 1_000);
    assert_eq!(plan.to_persist.len(), 1);
    assert_eq!(plan.to_execute.len(), 0);

    let engine = ArbitrageEngine::new(settings(true));
    let plan = engine.check_opportunities(&poly, &kalshi, 1_000);
    assert_eq!(plan.to_persist.len(), 1);
    assert_eq!(plan.to_execute.len(), 1);
    assert_eq!(plan.to_execute[0], plan.to_persist[0]);
}

#[test]
fn failed_fetch_yields_empty_cycle_and_loop_goes_on() {
    let mut engine = ArbitrageEngine::new(settings(false));
    let poly: Result<Vec<Market>, FetchError> = Err(FetchError::Network);
    let kalshi = Ok(vec![market(Platform::Kalshi, "will it rain tomorrow", 5_500)]);
    assert!(engine.on_tick());
    let plan = engine.check_opportunities(&poly, &kalshi, 1_000);
    assert_eq!(plan.to_persist.len(), 0);
    assert_eq!(plan.to_execute.len(), 0);
    engine.on_cycle_complete();
    assert_eq!(engine.state, EngineState::Idle);
    assert!(engine.on_tick()); // the loop keeps ticking
}

#[test]
fn stop_request_waits_for_cycle_boundary() {
    let mut engine = ArbitrageEngine::new(settings(false));
    assert!(engine.on_tick());
    assert_eq!(engine.state, EngineState::Processing);
    engine.shutdown();
    // the cycle in flight is not interrupted
    assert_eq!(engine.state, EngineState::Processing);
    engine.on_cycle_complete();
    assert_eq!(engine.state, EngineState::Stopped);
    assert!(!engine.on_tick());
}

#[test]
fn stop_request_while_idle_stops_at_next_tick() {
    let mut engine = ArbitrageEngine::new(settings(false));
    engine.shutdown();
    assert_eq!(engine.state, EngineState::Idle);
    assert!(!engine.on_tick());
    assert_eq!(engine.state, EngineState::Stopped);
}

fn opportunity() -> ArbitrageOpportunity {
    ArbitrageOpportunity {
        id: Some(7),
        polymarket_market_id: "poly-1".to_string(),
        kalshi_market_id: "KX-1".to_string(),
        buy_platform: Platform::Polymarket,
        sell_platform: Platform::Kalshi,
        buy_price: Dec::new(4_500),
        sell_price: Dec::new(5_500),
        profit_percentage: Ratio::new(1_000, 4_500),
        estimated_profit: Ratio::new(200, 9),
        position_size: Dec::new(1_000_000),
        detected_at: 1_000,
        executed: false,
    }
}

#[test]
fn buy_leg_goes_to_the_buy_platform() {
    let opp = opportunity();
    match build_leg(&opp, TradeSide::Buy).expect("buy leg builds") {
        VenueOrder::Polymarket(o) => {
            assert_eq!(o.market_id, "poly-1");
            assert_eq!(o.side, TradeSide::Buy);
            assert_eq!(o.price, Dec::new(4_500));
            assert_eq!(o.amount, Dec::new(1_000_000));
        },
        VenueOrder::Kalshi(_) => panic!("buy platform is Polymarket"),
    }
}

#[test]
fn kalshi_leg_uses_cents_and_contract_count() {
    let opp = opportunity();
    match build_leg(&opp, TradeSide::Sell).expect("sell leg builds") {
        VenueOrder::Kalshi(o) => {
            assert_eq!(o.ticker, "KX-1");
            assert!(!o.yes_side); // the sell leg takes the no side
            assert_eq!(o.price_cents, 55);
            assert_eq!(o.count, 100);
        },
        VenueOrder::Polymarket(_) => panic!("sell platform is Kalshi"),
    }
}

#[test]
fn kalshi_leg_rejects_fractional_values() {
    let mut opp = opportunity();
    opp.sell_price = Dec::new(5_555); // 0.5555 is not whole cents
    assert_eq!(
        build_leg(&opp, TradeSide::Sell),
        Err(OrderBuildError::PriceNotWholeCents)
    );
    let mut opp = opportunity();
    opp.position_size = Dec::new(1_005_000); // 100.5 contracts
    assert_eq!(
        build_leg(&opp, TradeSide::Sell),
        Err(OrderBuildError::SizeNotWholeUnits)
    );
}

#[test]
fn buy_failure_stops_before_the_sell_leg() {
    let mut rec = ExecutionRecord::new();
    let verdict = rec.record_buy_outcome(&Err(LegError::Network));
    assert_eq!(verdict, Some(ExecutionCompletion::BuyLegFailed(LegError::Network)));
    assert_eq!(rec.buy, TradeStatus::Failed);
    assert_eq!(rec.sell, TradeStatus::Pending); // never attempted
}

#[test]
fn sell_failure_after_buy_success_surfaces_unreconciled_exposure() {
    let mut rec = ExecutionRecord::new();
    let verdict = rec.record_buy_outcome(&Ok("order-1".to_string()));
    assert_eq!(verdict, None);
    let verdict = rec.record_sell_outcome(&Err(LegError::Rejected));
    assert_eq!(verdict, ExecutionCompletion::UnreconciledExposure(LegError::Rejected));
    assert_eq!(rec.buy, TradeStatus::Executed);
    assert_eq!(rec.sell, TradeStatus::Failed);
    // the opportunity is left unexecuted
    let mut opp = opportunity();
    apply_completion(&mut opp, &verdict);
    assert!(!opp.executed);
}

#[test]
fn both_legs_succeeding_marks_executed() {
    let mut rec = ExecutionRecord::new();
    assert_eq!(rec.record_buy_outcome(&Ok("order-1".to_string())), None);
    let verdict = rec.record_sell_outcome(&Ok("order-2".to_string()));
    assert_eq!(verdict, ExecutionCompletion::Executed);
    let mut opp = opportunity();
    apply_completion(&mut opp, &verdict);
    assert!(opp.executed);
}
