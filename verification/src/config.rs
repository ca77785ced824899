//! Configuration consumed by the core, as plain values.
//!
//! Loading (file, environment) happens outside the library; the semantics
//! live here: the minimum profit is a percentage turned into a strict
//! fractional lower bound, the position size a flat notional. The risk
//! parameters are declared but wired into no decision path, exactly as
//! given.

use vstd::prelude::*;

verus! {

use crate::fixed::{Dec, Rat, Ratio, rat_wf, ratio_wf, ratio_small};
use crate::engine::{EngineSettings, settings_wf};
use crate::matching::default_match_threshold;

pub struct PolymarketConfig {
    pub api_key: String,
    pub private_key: String,
    pub wallet_address: String,
    pub base_url: String,
}

pub struct KalshiConfig {
    pub api_key: String,
    pub api_secret: String,
    pub base_url: String,
}

/// The engine's own knobs. The minimum profit is a percentage with four
/// fractional digits (two percent is written 2.0000).
pub struct BotConfig {
    pub min_profit_percentage: Dec,
    pub max_position_size: Dec,
    pub check_interval_seconds: u64,
    pub enable_execution: bool,
}

pub struct DatabaseConfig {
    pub url: String,
}

/// Declared risk limits; no decision path enforces them.
pub struct RiskConfig {
    pub max_daily_loss: Dec,
    pub max_open_positions: usize,
    pub position_size_percentage: Dec,
}

pub struct Config {
    pub polymarket: PolymarketConfig,
    pub kalshi: KalshiConfig,
    pub bot: BotConfig,
    pub database: DatabaseConfig,
    pub risk: RiskConfig,
}

impl BotConfig {
    /// The configured percentage as a fraction: the percentage's units over
    /// one hundred times the fixed-point scale.
    pub fn min_profit_fraction(&self) -> (r: Ratio)
        ensures
            r@ == (Rat { num: self.min_profit_percentage@, den: 1_000_000 }),
            ratio_wf(r),
            ratio_small(r),
            rat_wf(r@),
    {
        Ratio { num: self.min_profit_percentage.units as u128, den: 1_000_000 }
    }
}

/// The engine settings a configuration gives rise to: the percentage as a
/// strict fractional bound, the flat notional, the default match
/// threshold, and the process-level execution gate.
pub fn engine_settings(c: &Config, execution_enabled: bool) -> (s: EngineSettings)
    ensures
        settings_wf(s),
        s.min_profit@ == (Rat { num: c.bot.min_profit_percentage@, den: 1_000_000 }),
        s.position_size == c.bot.max_position_size,
        s.match_threshold@ == (Rat { num: 7, den: 10 }),
        s.execution_enabled == execution_enabled,
{
    EngineSettings {
        min_profit: c.bot.min_profit_fraction(),
        position_size: c.bot.max_position_size,
        match_threshold: default_match_threshold(),
        execution_enabled,
    }
}

} // verus!
