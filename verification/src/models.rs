//! Shared entity types: venues, markets, opportunities, trades.
//!
//! Every quantity is a plain value: prices and sizes are fixed-point
//! decimals, profit fractions are exact rationals, timestamps are Unix
//! seconds. Each type has a ghost view so contracts can speak about it
//! mathematically.

use vstd::prelude::*;

verus! {

use crate::fixed::{Dec, Rat, Ratio};

/// One of the two prediction-market venues the engine monitors.
#[derive(Clone, Copy, PartialEq, Eq, Structural, Debug)]
pub enum Platform {
    Polymarket,
    Kalshi,
}

/// The stable lowercase identifier used when a platform is persisted.
pub open spec fn platform_chars(p: Platform) -> Seq<char> {
    match p {
        Platform::Polymarket => "polymarket"@,
        Platform::Kalshi => "kalshi"@,
    }
}

/// How a persisted platform identifier is read back: anything other than
/// the Polymarket identifier is taken as Kalshi.
pub open spec fn spec_parse_platform(s: Seq<char>) -> Platform {
    if s == "polymarket"@ {
        Platform::Polymarket
    } else {
        Platform::Kalshi
    }
}

impl Platform {
    pub fn as_str(&self) -> (r: &'static str)
        ensures
            r@ == platform_chars(*self),
    {
        match self {
            Platform::Polymarket => "polymarket",
            Platform::Kalshi => "kalshi",
        }
    }

    /// Reads a persisted platform identifier back.
    pub fn parse(s: &str) -> (r: Platform)
        ensures
            r == spec_parse_platform(s@),
    {
        let key: String = s.to_owned();
        let name: String = "polymarket".to_owned();
        if key == name {
            Platform::Polymarket
        } else {
            Platform::Kalshi
        }
    }
}

/// Law: the persistence identifier of a platform reads back as the same
/// platform.
pub proof fn lemma_platform_round_trip(p: Platform)
    ensures
        spec_parse_platform(platform_chars(p)) == p,
{
    reveal_strlit("polymarket");
    reveal_strlit("kalshi");
    assert("polymarket"@.len() == 10);
    assert("kalshi"@.len() == 6);
}

/// The mathematical content of a `Market`.
pub ghost struct MarketView {
    pub id: Seq<char>,
    pub question: Seq<char>,
    pub platform: Platform,
    pub yes_price: int,
    pub no_price: int,
    pub volume: int,
    pub liquidity: int,
    pub end_time: int,
}

/// A canonical market record, as normalized from either venue.
///
/// Prices are fixed-point decimals conceptually in `[0, 1]`; no invariant
/// ties `yes_price + no_price` to one, since the venues quote independently.
/// `end_time` is Unix seconds.
#[derive(Debug, PartialEq)]
pub struct Market {
    pub id: String,
    pub question: String,
    pub platform: Platform,
    pub yes_price: Dec,
    pub no_price: Dec,
    pub volume: Dec,
    pub liquidity: Dec,
    pub end_time: u64,
}

impl View for Market {
    type V = MarketView;

    open spec fn view(&self) -> MarketView {
        MarketView {
            id: self.id@,
            question: self.question@,
            platform: self.platform,
            yes_price: self.yes_price@,
            no_price: self.no_price@,
            volume: self.volume@,
            liquidity: self.liquidity@,
            end_time: self.end_time as int,
        }
    }
}

/// The mathematical content of an `ArbitrageOpportunity`.
pub ghost struct OpportunityView {
    pub id: Option<int>,
    pub polymarket_market_id: Seq<char>,
    pub kalshi_market_id: Seq<char>,
    pub buy_platform: Platform,
    pub sell_platform: Platform,
    pub buy_price: int,
    pub sell_price: int,
    pub profit_percentage: Rat,
    pub estimated_profit: Rat,
    pub position_size: int,
    pub detected_at: int,
    pub executed: bool,
}

/// A detected, threshold-exceeding price discrepancy between matched
/// markets on the two venues.
///
/// Created only by the profit calculator when the selected directional
/// profit strictly exceeds the configured minimum; `executed` starts false
/// and is flipped only when both execution legs succeed.
#[derive(Debug, PartialEq)]
pub struct ArbitrageOpportunity {
    pub id: Option<i64>,
    pub polymarket_market_id: String,
    pub kalshi_market_id: String,
    pub buy_platform: Platform,
    pub sell_platform: Platform,
    pub buy_price: Dec,
    pub sell_price: Dec,
    pub profit_percentage: Ratio,
    pub estimated_profit: Ratio,
    pub position_size: Dec,
    pub detected_at: u64,
    pub executed: bool,
}

impl View for ArbitrageOpportunity {
    type V = OpportunityView;

    open spec fn view(&self) -> OpportunityView {
        OpportunityView {
            id: match self.id {
                Option::Some(v) => Option::Some(v as int),
                Option::None => Option::None,
            },
            polymarket_market_id: self.polymarket_market_id@,
            kalshi_market_id: self.kalshi_market_id@,
            buy_platform: self.buy_platform,
            sell_platform: self.sell_platform,
            buy_price: self.buy_price@,
            sell_price: self.sell_price@,
            profit_percentage: self.profit_percentage@,
            estimated_profit: self.estimated_profit@,
            position_size: self.position_size@,
            detected_at: self.detected_at as int,
            executed: self.executed,
        }
    }
}

impl ArbitrageOpportunity {
    /// An identical copy of this opportunity.
    pub fn duplicate(&self) -> (r: ArbitrageOpportunity)
        ensures
            r@ == self@,
    {
        ArbitrageOpportunity {
            id: self.id,
            polymarket_market_id: self.polymarket_market_id.clone(),
            kalshi_market_id: self.kalshi_market_id.clone(),
            buy_platform: self.buy_platform,
            sell_platform: self.sell_platform,
            buy_price: self.buy_price,
            sell_price: self.sell_price,
            profit_percentage: self.profit_percentage,
            estimated_profit: self.estimated_profit,
            position_size: self.position_size,
            detected_at: self.detected_at,
            executed: self.executed,
        }
    }
}

/// One side of a two-venue arbitrage trade.
#[derive(Clone, Copy, PartialEq, Eq, Structural, Debug)]
pub enum TradeSide {
    Buy,
    Sell,
}

/// Lifecycle of one trade leg.
#[derive(Clone, Copy, PartialEq, Eq, Structural, Debug)]
pub enum TradeStatus {
    Pending,
    Executed,
    Failed,
    Cancelled,
}

/// A record of one placed (or attempted) order leg.
#[derive(Debug, PartialEq)]
pub struct Trade {
    pub id: Option<i64>,
    pub opportunity_id: i64,
    pub platform: Platform,
    pub market_id: String,
    pub side: TradeSide,
    pub price: Dec,
    pub amount: Dec,
    pub status: TradeStatus,
    pub created_at: u64,
    pub executed_at: Option<u64>,
}

/// An open holding on one venue.
#[derive(Debug, PartialEq)]
pub struct Position {
    pub platform: Platform,
    pub market_id: String,
    pub amount: Dec,
    pub entry_price: Dec,
    pub current_value: Dec,
}

/// Why fetching a venue's market list failed.
#[derive(Clone, Copy, PartialEq, Eq, Structural, Debug)]
pub enum FetchError {
    Network,
    Parse,
}

/// Why placing one order leg failed.
#[derive(Clone, Copy, PartialEq, Eq, Structural, Debug)]
pub enum LegError {
    Network,
    Rejected,
}

} // verus!
