//! The Profit Calculator: directional profit evaluation and opportunity
//! construction.
//!
//! Given one matched pair, both trade directions are evaluated with exact
//! rational arithmetic; the strictly larger one wins (ties prefer buying on
//! Polymarket, the first direction evaluated), and an opportunity is
//! produced only when the selected profit strictly exceeds the configured
//! minimum fraction. Pure and deterministic: no I/O, no rounding.

use vstd::prelude::*;

verus! {

use crate::DEC_SCALE;
use crate::fixed::{Dec, Rat, Ratio, rat_wf, rat_le, rat_lt, rat_eq, rat_mul, rat_zero, dec_rat,
    ratio_wf, ratio_small};
use crate::models::{Market, MarketView, ArbitrageOpportunity, OpportunityView, Platform};

/// Profit fraction of buying at `buy` and selling at `sell`:
/// `max(0, (sell - buy) / buy)`. A non-positive spread yields exactly zero.
pub open spec fn spec_directional_profit(buy: int, sell: int) -> Rat {
    if sell > buy {
        Rat { num: sell - buy, den: buy }
    } else {
        rat_zero()
    }
}

/// Evaluates one trade direction. The degenerate positive spread over a
/// zero buy price is excluded: its profit fraction is unbounded.
pub fn directional_profit(buy: Dec, sell: Dec) -> (r: Ratio)
    requires
        sell@ > buy@ ==> buy@ > 0,
    ensures
        r@ == spec_directional_profit(buy@, sell@),
        ratio_wf(r),
        ratio_small(r),
        rat_wf(r@),
        rat_le(rat_zero(), r@),
{
    if sell.units > buy.units {
        Ratio { num: (sell.units - buy.units) as u128, den: buy.units as u128 }
    } else {
        Ratio::zero()
    }
}

/// The opportunity (if any) produced from one matched pair: both directions
/// evaluated, the larger selected (ties prefer the first direction, buying
/// on Polymarket), accepted only strictly above `min_profit`.
pub open spec fn spec_opportunity(
    p: MarketView,
    k: MarketView,
    min_profit: Rat,
    position_size: int,
    now: int,
) -> Option<OpportunityView> {
    let p1 = spec_directional_profit(p.yes_price, k.yes_price);
    let p2 = spec_directional_profit(k.yes_price, p.yes_price);
    let first = rat_le(p2, p1);
    let sel = if first {
        p1
    } else {
        p2
    };
    if rat_lt(min_profit, sel) {
        Option::Some(
            OpportunityView {
                id: Option::None,
                polymarket_market_id: p.id,
                kalshi_market_id: k.id,
                buy_platform: if first {
                    Platform::Polymarket
                } else {
                    Platform::Kalshi
                },
                sell_platform: if first {
                    Platform::Kalshi
                } else {
                    Platform::Polymarket
                },
                buy_price: if first {
                    p.yes_price
                } else {
                    k.yes_price
                },
                sell_price: if first {
                    k.yes_price
                } else {
                    p.yes_price
                },
                profit_percentage: sel,
                estimated_profit: rat_mul(Rat { num: position_size, den: DEC_SCALE as int }, sel),
                position_size: position_size,
                detected_at: now,
                executed: false,
            },
        )
    } else {
        Option::None
    }
}

/// Evaluates both directions of a matched pair and produces an opportunity
/// when the selected profit strictly exceeds `min_profit`.
pub fn calculate_arbitrage(
    poly_market: &Market,
    kalshi_market: &Market,
    min_profit: &Ratio,
    position_size: Dec,
    now: u64,
) -> (r: Option<ArbitrageOpportunity>)
    requires
        kalshi_market@.yes_price > poly_market@.yes_price ==> poly_market@.yes_price > 0,
        poly_market@.yes_price > kalshi_market@.yes_price ==> kalshi_market@.yes_price > 0,
        ratio_wf(*min_profit),
        ratio_small(*min_profit),
    ensures
        r.is_some() <==> spec_opportunity(
            poly_market@,
            kalshi_market@,
            min_profit@,
            position_size@,
            now as int,
        ).is_some(),
        r.is_some() ==> r.unwrap()@ == spec_opportunity(
            poly_market@,
            kalshi_market@,
            min_profit@,
            position_size@,
            now as int,
        ).unwrap(),
        r.is_some() ==> rat_le(
            spec_directional_profit(poly_market@.yes_price, kalshi_market@.yes_price),
            r.unwrap()@.profit_percentage,
        ) && rat_le(
            spec_directional_profit(kalshi_market@.yes_price, poly_market@.yes_price),
            r.unwrap()@.profit_percentage,
        ),
{
    let p1 = directional_profit(poly_market.yes_price, kalshi_market.yes_price);
    let p2 = directional_profit(kalshi_market.yes_price, poly_market.yes_price);
    let first = p1.ge(&p2);
    let profit = if first {
        p1
    } else {
        p2
    };
    if profit.gt(min_profit) {
        let estimated = profit.scale_dec(position_size);
        Some(
            ArbitrageOpportunity {
                id: None,
                polymarket_market_id: poly_market.id.clone(),
                kalshi_market_id: kalshi_market.id.clone(),
                buy_platform: if first {
                    Platform::Polymarket
                } else {
                    Platform::Kalshi
                },
                sell_platform: if first {
                    Platform::Kalshi
                } else {
                    Platform::Polymarket
                },
                buy_price: if first {
                    poly_market.yes_price
                } else {
                    kalshi_market.yes_price
                },
                sell_price: if first {
                    kalshi_market.yes_price
                } else {
                    poly_market.yes_price
                },
                profit_percentage: profit,
                estimated_profit: estimated,
                position_size,
                detected_at: now,
                executed: false,
            },
        )
    } else {
        None
    }
}

/// Law: a directional profit is never negative.
pub proof fn lemma_directional_profit_nonnegative(buy: int, sell: int)
    requires
        sell > buy ==> buy > 0,
    ensures
        rat_wf(spec_directional_profit(buy, sell)),
        rat_le(rat_zero(), spec_directional_profit(buy, sell)),
{
}

/// Law: when both directions have a non-positive spread (the two prices are
/// equal), the calculator yields no opportunity for any non-negative
/// minimum.
pub proof fn lemma_no_spread_no_opportunity(
    p: MarketView,
    k: MarketView,
    min_profit: Rat,
    position_size: int,
    now: int,
)
    requires
        rat_wf(min_profit),
        k.yes_price <= p.yes_price,
        p.yes_price <= k.yes_price,
    ensures
        spec_opportunity(p, k, min_profit, position_size, now).is_none(),
{
}

/// Law: the selected profit is the numerically larger of the two
/// directional profits, and is one of them.
pub proof fn lemma_selects_larger_direction(
    p: MarketView,
    k: MarketView,
    min_profit: Rat,
    position_size: int,
    now: int,
)
    requires
        spec_opportunity(p, k, min_profit, position_size, now).is_some(),
    ensures
        ({
            let sel = spec_opportunity(p, k, min_profit, position_size, now).unwrap()
                .profit_percentage;
            let p1 = spec_directional_profit(p.yes_price, k.yes_price);
            let p2 = spec_directional_profit(k.yes_price, p.yes_price);
            rat_le(p1, sel) && rat_le(p2, sel) && (sel == p1 || sel == p2)
        }),
{
}

/// Law: when the two directional profits are equal, the first-evaluated
/// direction wins: buy on Polymarket, sell on Kalshi.
pub proof fn lemma_tie_prefers_first_direction(
    p: MarketView,
    k: MarketView,
    min_profit: Rat,
    position_size: int,
    now: int,
)
    requires
        rat_eq(
            spec_directional_profit(p.yes_price, k.yes_price),
            spec_directional_profit(k.yes_price, p.yes_price),
        ),
        spec_opportunity(p, k, min_profit, position_size, now).is_some(),
    ensures
        spec_opportunity(p, k, min_profit, position_size, now).unwrap().buy_platform
            == Platform::Polymarket,
        spec_opportunity(p, k, min_profit, position_size, now).unwrap().sell_platform
            == Platform::Kalshi,
{
}

/// Law: the estimated profit is exactly the position size multiplied by the
/// selected profit fraction; no rounding is involved.
pub proof fn lemma_estimated_profit_exact(
    p: MarketView,
    k: MarketView,
    min_profit: Rat,
    position_size: int,
    now: int,
)
    requires
        spec_opportunity(p, k, min_profit, position_size, now).is_some(),
    ensures
        ({
            let o = spec_opportunity(p, k, min_profit, position_size, now).unwrap();
            o.estimated_profit == rat_mul(dec_rat(o.position_size), o.profit_percentage)
        }),
{
}

} // verus!

