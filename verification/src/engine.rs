//! The Opportunity Engine: the per-cycle decision core and the scheduling
//! state machine.
//!
//! On each tick the surrounding process fetches the two venues' market
//! lists and hands the outcomes here; `check_opportunities` turns them into
//! a cycle plan: the opportunities to persist, and — only when execution is
//! enabled — the ones to forward to the execution orchestrator. A failed
//! fetch contributes an empty market list and never aborts the cycle.
//!
//! The engine itself is a three-state machine (idle, processing, stopped);
//! a stop request is honoured only at cycle boundaries, so a cycle in
//! flight always finishes.

use vstd::prelude::*;

verus! {

use crate::fixed::{Dec, Rat, Ratio, rat_wf, ratio_wf, ratio_small};
use crate::models::{Market, MarketView, ArbitrageOpportunity, OpportunityView, FetchError};
use crate::matching::{spec_matched_pairs, market_views, pairs_view, match_markets};
use crate::profit::{spec_opportunity, calculate_arbitrage};

/// The configuration the engine core decides with.
#[derive(Clone, Copy)]
pub struct EngineSettings {
    /// Strict lower bound a profit fraction must exceed.
    pub min_profit: Ratio,
    /// Flat notional used for every opportunity.
    pub position_size: Dec,
    /// Strict lower bound a question similarity must exceed.
    pub match_threshold: Ratio,
    /// Gates whether detected opportunities are forwarded for execution.
    pub execution_enabled: bool,
}

pub open spec fn settings_wf(s: EngineSettings) -> bool {
    &&& ratio_wf(s.min_profit)
    &&& ratio_small(s.min_profit)
    &&& rat_wf(s.min_profit@)
    &&& ratio_wf(s.match_threshold)
    &&& ratio_small(s.match_threshold)
    &&& rat_wf(s.match_threshold@)
}

/// The market list a fetch outcome contributes to the cycle: a failed
/// venue contributes an empty list.
pub open spec fn fetched_views(r: Result<Vec<Market>, FetchError>) -> Seq<MarketView> {
    match r {
        Result::Ok(v) => market_views(v@),
        Result::Err(_) => Seq::empty(),
    }
}

pub open spec fn opps_view(s: Seq<ArbitrageOpportunity>) -> Seq<OpportunityView> {
    s.map_values(|o: ArbitrageOpportunity| o@)
}

/// The opportunities produced by running the profit calculator over a list
/// of matched index pairs, in order.
pub open spec fn spec_opps_of_pairs(
    pairs: Seq<(int, int)>,
    pv: Seq<MarketView>,
    kv: Seq<MarketView>,
    min_profit: Rat,
    position_size: int,
    now: int,
) -> Seq<OpportunityView>
    decreases pairs.len(),
{
    if pairs.len() == 0 {
        Seq::empty()
    } else {
        let rest = spec_opps_of_pairs(pairs.drop_last(), pv, kv, min_profit, position_size, now);
        let ij = pairs.last();
        match spec_opportunity(pv[ij.0], kv[ij.1], min_profit, position_size, now) {
            Option::Some(o) => rest.push(o),
            Option::None => rest,
        }
    }
}

/// Everything one cycle produces: match both lists, score each matched
/// pair, keep what strictly beats the minimum.
pub open spec fn spec_cycle_opps(
    pv: Seq<MarketView>,
    kv: Seq<MarketView>,
    min_profit: Rat,
    threshold: Rat,
    position_size: int,
    now: int,
) -> Seq<OpportunityView> {
    spec_opps_of_pairs(
        spec_matched_pairs(pv, kv, threshold),
        pv,
        kv,
        min_profit,
        position_size,
        now,
    )
}

/// What a cycle decided: opportunities are always persisted; they are
/// forwarded for execution only when execution is enabled.
pub struct CyclePlan {
    pub to_persist: Vec<ArbitrageOpportunity>,
    pub to_execute: Vec<ArbitrageOpportunity>,
}

/// The engine's scheduling state.
#[derive(Clone, Copy, PartialEq, Eq, Structural, Debug)]
pub enum EngineState {
    /// Waiting for the next tick.
    Idle,
    /// One cycle in flight.
    Processing,
    /// Terminal: reached only on a stop request, between cycles.
    Stopped,
}

/// The engine core: settings plus the scheduling state machine.
pub struct ArbitrageEngine {
    pub settings: EngineSettings,
    pub state: EngineState,
    pub stop_requested: bool,
}

impl ArbitrageEngine {
    /// A fresh engine: idle, no stop requested.
    pub fn new(settings: EngineSettings) -> (r: ArbitrageEngine)
        ensures
            r.settings == settings,
            r.state == EngineState::Idle,
            !r.stop_requested,
    {
        ArbitrageEngine { settings, state: EngineState::Idle, stop_requested: false }
    }

    /// One cycle's decisions, from the two fetch outcomes.
    ///
    /// A venue whose fetch failed contributes an empty market list: the
    /// failure neither hides the other venue's outcome nor aborts the
    /// cycle. Every market is required to carry a positive yes price; on a
    /// zero price a positive spread would make the profit fraction
    /// unbounded.
    pub fn check_opportunities(
        &self,
        poly_result: &Result<Vec<Market>, FetchError>,
        kalshi_result: &Result<Vec<Market>, FetchError>,
        now: u64,
    ) -> (plan: CyclePlan)
        requires
            settings_wf(self.settings),
            forall|x: int| 0 <= x < fetched_views(*poly_result).len() ==> (#[trigger] fetched_views(
                *poly_result,
            )[x]).yes_price > 0,
            forall|x: int| 0 <= x < fetched_views(*kalshi_result).len()
                ==> (#[trigger] fetched_views(*kalshi_result)[x]).yes_price > 0,
        ensures
            opps_view(plan.to_persist@) == spec_cycle_opps(
                fetched_views(*poly_result),
                fetched_views(*kalshi_result),
                self.settings.min_profit@,
                self.settings.match_threshold@,
                self.settings.position_size@,
                now as int,
            ),
            self.settings.execution_enabled ==> opps_view(plan.to_execute@) == opps_view(
                plan.to_persist@,
            ),
            !self.settings.execution_enabled ==> plan.to_execute@.len() == 0,
    {
        broadcast use vstd::seq_lib::lemma_seq_contains_after_push;

        let empty_poly: Vec<Market> = Vec::new();
        let empty_kalshi: Vec<Market> = Vec::new();
        proof {
            assert(market_views(Seq::<Market>::empty()) =~= Seq::<MarketView>::empty());
        }
        let poly_markets: &Vec<Market> = match poly_result {
            Ok(v) => v,
            Err(_) => &empty_poly,
        };
        let kalshi_markets: &Vec<Market> = match kalshi_result {
            Ok(v) => v,
            Err(_) => &empty_kalshi,
        };
        let ghost pv = fetched_views(*poly_result);
        let ghost kv = fetched_views(*kalshi_result);
        proof {
            assert(market_views(poly_markets@) =~= pv);
            assert(market_views(kalshi_markets@) =~= kv);
        }
        let pairs = match_markets(poly_markets, kalshi_markets, &self.settings.match_threshold);
        let ghost pview = pairs_view(pairs@);
        let mut to_persist: Vec<ArbitrageOpportunity> = Vec::new();
        let mut to_execute: Vec<ArbitrageOpportunity> = Vec::new();
        let mut idx: usize = 0;
        proof {
            assert(pview.take(0) =~= Seq::<(int, int)>::empty());
            assert(opps_view(to_persist@) =~= spec_opps_of_pairs(pview.take(0), pv, kv,
                self.settings.min_profit@, self.settings.position_size@, now as int));
        }
        while idx < pairs.len()
            invariant
                idx <= pairs@.len(),
                settings_wf(self.settings),
                pview == pairs_view(pairs@),
                pv == market_views(poly_markets@),
                kv == market_views(kalshi_markets@),
                forall|k: int| 0 <= k < pairs@.len() ==> (#[trigger] pairs@[k]).0
                    < poly_markets@.len() && pairs@[k].1 < kalshi_markets@.len(),
                forall|x: int| 0 <= x < pv.len() ==> (#[trigger] pv[x]).yes_price > 0,
                forall|x: int| 0 <= x < kv.len() ==> (#[trigger] kv[x]).yes_price > 0,
                opps_view(to_persist@) == spec_opps_of_pairs(pview.take(idx as int), pv, kv,
                    self.settings.min_profit@, self.settings.position_size@, now as int),
                self.settings.execution_enabled ==> opps_view(to_execute@) == opps_view(
                    to_persist@,
                ),
                !self.settings.execution_enabled ==> to_execute@.len() == 0,
            decreases pairs@.len() - idx,
        {
            let (i, j) = pairs[idx];
            proof {
                assert(pview.take(idx + 1 as int).drop_last() =~= pview.take(idx as int));
                assert(pview.take(idx + 1 as int).last() == (i as int, j as int));
                assert(pv[i as int] == poly_markets@[i as int]@);
                assert(kv[j as int] == kalshi_markets@[j as int]@);
            }
            let maybe_opp = calculate_arbitrage(
                &poly_markets[i],
                &kalshi_markets[j],
                &self.settings.min_profit,
                self.settings.position_size,
                now,
            );
            let ghost pre = opps_view(to_persist@);
            let ghost pre_exec = opps_view(to_execute@);
            if let Some(opp) = maybe_opp {
                if self.settings.execution_enabled {
                    let copy = opp.duplicate();
                    to_execute.push(copy);
                    proof {
                        assert(opps_view(to_execute@) =~= pre_exec.push(opp@));
                    }
                }
                let ghost ov = opp@;
                to_persist.push(opp);
                proof {
                    assert(opps_view(to_persist@) =~= pre.push(ov));
                }
            }
            proof {
                assert(opps_view(to_persist@) =~= spec_opps_of_pairs(pview.take(idx + 1 as int),
                    pv, kv, self.settings.min_profit@, self.settings.position_size@, now as int));
            }
            idx = idx + 1;
        }
        proof {
            assert(pview.take(pairs@.len() as int) =~= pview);
        }
        CyclePlan { to_persist, to_execute }
    }

    /// A timer tick. Starts a cycle only from idle with no stop pending;
    /// a pending stop is honoured here, between cycles.
    pub fn on_tick(&mut self) -> (start: bool)
        ensures
            final(self).settings == old(self).settings,
            final(self).stop_requested == old(self).stop_requested,
            old(self).state == EngineState::Idle && !old(self).stop_requested ==> final(self).state
                == EngineState::Processing && start,
            old(self).state == EngineState::Idle && old(self).stop_requested ==> final(self).state
                == EngineState::Stopped && !start,
            old(self).state != EngineState::Idle ==> final(self).state == old(self).state
                && !start,
    {
        match self.state {
            EngineState::Idle => {
                if self.stop_requested {
                    self.state = EngineState::Stopped;
                    false
                } else {
                    self.state = EngineState::Processing;
                    true
                }
            },
            _ => false,
        }
    }

    /// The cycle in flight has finished: go idle, or stop if a stop was
    /// requested meanwhile. This is the only transition out of processing,
    /// so a stop request never interrupts a cycle.
    pub fn on_cycle_complete(&mut self)
        requires
            old(self).state == EngineState::Processing,
        ensures
            final(self).settings == old(self).settings,
            final(self).stop_requested == old(self).stop_requested,
            old(self).stop_requested ==> final(self).state == EngineState::Stopped,
            !old(self).stop_requested ==> final(self).state == EngineState::Idle,
    {
        if self.stop_requested {
            self.state = EngineState::Stopped;
        } else {
            self.state = EngineState::Idle;
        }
    }

    /// Requests a stop. The state is untouched: a cycle in flight finishes,
    /// and the request is honoured at the next cycle boundary.
    pub fn shutdown(&mut self)
        ensures
            final(self).settings == old(self).settings,
            final(self).state == old(self).state,
            final(self).stop_requested,
    {
        self.stop_requested = true;
    }
}

/// With no polymarket markets there are no matched pairs.
pub proof fn lemma_no_pairs_empty_poly(kv: Seq<MarketView>, t: Rat)
    ensures
        spec_matched_pairs(Seq::empty(), kv, t).len() == 0,
{
}

/// With no kalshi markets there are no matched pairs.
pub proof fn lemma_no_pairs_empty_kalshi(pv: Seq<MarketView>, t: Rat)
    ensures
        spec_matched_pairs(pv, Seq::empty(), t).len() == 0,
    decreases pv.len(),
{
    if pv.len() > 0 {
        lemma_no_pairs_empty_kalshi(pv.drop_last(), t);
    }
}

/// Law: a failed fetch from one venue leaves the other venue's markets to
/// be matched against an empty set, so the cycle yields zero opportunities
/// — and nothing else: the cycle still completes normally.
pub proof fn lemma_failed_fetch_yields_empty_cycle(
    poly_result: Result<Vec<Market>, FetchError>,
    kalshi_result: Result<Vec<Market>, FetchError>,
    min_profit: Rat,
    threshold: Rat,
    position_size: int,
    now: int,
)
    requires
        poly_result.is_err() || kalshi_result.is_err(),
    ensures
        spec_cycle_opps(
            fetched_views(poly_result),
            fetched_views(kalshi_result),
            min_profit,
            threshold,
            position_size,
            now,
        ).len() == 0,
{
    let pv = fetched_views(poly_result);
    let kv = fetched_views(kalshi_result);
    if poly_result.is_err() {
        assert(pv =~= Seq::<MarketView>::empty());
        lemma_no_pairs_empty_poly(kv, threshold);
        assert(spec_matched_pairs(pv, kv, threshold).len() == 0);
    } else {
        assert(kv =~= Seq::<MarketView>::empty());
        lemma_no_pairs_empty_kalshi(pv, threshold);
    }
}

} // verus!
