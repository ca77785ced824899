//! The Execution Orchestrator's decision core: leg construction and the
//! partial-failure semantics of a two-leg trade.
//!
//! An accepted opportunity becomes two independent orders, each in its
//! venue's native schema (Kalshi wants an integer price in cents and a
//! whole contract count; Polymarket takes the decimal values as they are).
//! There is no atomicity across the legs. The surrounding process places
//! the orders; this module decides what may be placed next and what each
//! outcome means, through an explicit per-leg status record:
//!
//! - if the buy leg fails, the sell leg is never handed out;
//! - if the buy leg succeeds and the sell leg fails, the outcome is the
//!   distinct unreconciled-exposure failure, and the opportunity is left
//!   unexecuted for an operator to reconcile;
//! - only when both legs succeed is the opportunity marked executed.

use vstd::prelude::*;

verus! {

use crate::{DEC_SCALE, CENT_UNITS};
use crate::fixed::Dec;
use crate::models::{ArbitrageOpportunity, OpportunityView, Platform, TradeSide, TradeStatus,
    LegError};

/// An order in Polymarket's native schema: decimal price and amount.
#[derive(Debug, PartialEq)]
pub struct PolymarketOrder {
    pub market_id: String,
    pub side: TradeSide,
    pub price: Dec,
    pub amount: Dec,
}

/// The mathematical content of a `PolymarketOrder`.
pub ghost struct PolymarketOrderView {
    pub market_id: Seq<char>,
    pub side: TradeSide,
    pub price: int,
    pub amount: int,
}

impl View for PolymarketOrder {
    type V = PolymarketOrderView;

    open spec fn view(&self) -> PolymarketOrderView {
        PolymarketOrderView {
            market_id: self.market_id@,
            side: self.side,
            price: self.price@,
            amount: self.amount@,
        }
    }
}

/// An order in Kalshi's native schema: integer price in cents, whole
/// contract count, and the yes side for the buy leg, no for the sell leg.
#[derive(Debug, PartialEq)]
pub struct KalshiOrder {
    pub ticker: String,
    pub yes_side: bool,
    pub price_cents: u64,
    pub count: u64,
}

/// The mathematical content of a `KalshiOrder`.
pub ghost struct KalshiOrderView {
    pub ticker: Seq<char>,
    pub yes_side: bool,
    pub price_cents: int,
    pub count: int,
}

impl View for KalshiOrder {
    type V = KalshiOrderView;

    open spec fn view(&self) -> KalshiOrderView {
        KalshiOrderView {
            ticker: self.ticker@,
            yes_side: self.yes_side,
            price_cents: self.price_cents as int,
            count: self.count as int,
        }
    }
}

/// One leg, addressed to its venue.
#[derive(Debug, PartialEq)]
pub enum VenueOrder {
    Polymarket(PolymarketOrder),
    Kalshi(KalshiOrder),
}

/// The mathematical content of a `VenueOrder`.
pub ghost enum VenueOrderView {
    Polymarket(PolymarketOrderView),
    Kalshi(KalshiOrderView),
}

impl View for VenueOrder {
    type V = VenueOrderView;

    open spec fn view(&self) -> VenueOrderView {
        match self {
            VenueOrder::Polymarket(o) => VenueOrderView::Polymarket(o@),
            VenueOrder::Kalshi(o) => VenueOrderView::Kalshi(o@),
        }
    }
}

/// Why an opportunity's values cannot be written in Kalshi's schema.
#[derive(Clone, Copy, PartialEq, Eq, Structural, Debug)]
pub enum OrderBuildError {
    /// The price is not a whole number of cents.
    PriceNotWholeCents,
    /// The position size is not a whole number of contracts.
    SizeNotWholeUnits,
}

/// The order for one leg of an opportunity. The buy leg trades the buy
/// platform at the buy price; the sell leg the sell platform at the sell
/// price; both move the flat position size. A Kalshi leg exists only when
/// the price is whole cents and the size a whole contract count.
pub open spec fn spec_build_leg(o: OpportunityView, leg: TradeSide) -> Result<
    VenueOrderView,
    OrderBuildError,
> {
    let platform = if leg == TradeSide::Buy {
        o.buy_platform
    } else {
        o.sell_platform
    };
    let price = if leg == TradeSide::Buy {
        o.buy_price
    } else {
        o.sell_price
    };
    match platform {
        Platform::Polymarket => Result::Ok(
            VenueOrderView::Polymarket(
                PolymarketOrderView {
                    market_id: o.polymarket_market_id,
                    side: leg,
                    price: price,
                    amount: o.position_size,
                },
            ),
        ),
        Platform::Kalshi => if price % (CENT_UNITS as int) != 0 {
            Result::Err(OrderBuildError::PriceNotWholeCents)
        } else if o.position_size % (DEC_SCALE as int) != 0 {
            Result::Err(OrderBuildError::SizeNotWholeUnits)
        } else {
            Result::Ok(
                VenueOrderView::Kalshi(
                    KalshiOrderView {
                        ticker: o.kalshi_market_id,
                        yes_side: leg == TradeSide::Buy,
                        price_cents: price / (CENT_UNITS as int),
                        count: o.position_size / (DEC_SCALE as int),
                    },
                ),
            )
        },
    }
}

/// Translates one leg of an opportunity into its venue's native order.
pub fn build_leg(opp: &ArbitrageOpportunity, leg: TradeSide) -> (r: Result<
    VenueOrder,
    OrderBuildError,
>)
    ensures
        r.is_ok() <==> spec_build_leg(opp@, leg).is_ok(),
        r.is_ok() ==> r.unwrap()@ == spec_build_leg(opp@, leg).unwrap(),
        r.is_err() ==> r->Err_0 == spec_build_leg(opp@, leg)->Err_0,
{
    let platform = if leg == TradeSide::Buy {
        opp.buy_platform
    } else {
        opp.sell_platform
    };
    let price = if leg == TradeSide::Buy {
        opp.buy_price
    } else {
        opp.sell_price
    };
    match platform {
        Platform::Polymarket => Ok(
            VenueOrder::Polymarket(
                PolymarketOrder {
                    market_id: opp.polymarket_market_id.clone(),
                    side: leg,
                    price,
                    amount: opp.position_size,
                },
            ),
        ),
        Platform::Kalshi => {
            if price.units % CENT_UNITS != 0 {
                Err(OrderBuildError::PriceNotWholeCents)
            } else if opp.position_size.units % DEC_SCALE != 0 {
                Err(OrderBuildError::SizeNotWholeUnits)
            } else {
                Ok(
                    VenueOrder::Kalshi(
                        KalshiOrder {
                            ticker: opp.kalshi_market_id.clone(),
                            yes_side: leg == TradeSide::Buy,
                            price_cents: price.units / CENT_UNITS,
                            count: opp.position_size.units / DEC_SCALE,
                        },
                    ),
                )
            }
        },
    }
}

/// How one execution attempt ended.
#[derive(Clone, Copy, PartialEq, Eq, Structural, Debug)]
pub enum ExecutionCompletion {
    /// Both legs succeeded.
    Executed,
    /// The buy leg failed; the sell leg was never attempted.
    BuyLegFailed(LegError),
    /// The buy leg succeeded and the sell leg failed: an unmatched
    /// single-leg position is being held and must be reconciled manually.
    UnreconciledExposure(LegError),
}

/// The per-leg status record persisted alongside an execution attempt, so
/// reconciliation tooling can find stuck single-leg positions.
#[derive(Clone, Copy, PartialEq, Eq, Structural, Debug)]
pub struct ExecutionRecord {
    pub buy: TradeStatus,
    pub sell: TradeStatus,
}

/// Forgets an outcome's success payload, keeping only the error.
pub open spec fn spec_outcome<T>(r: Result<T, LegError>) -> Result<(), LegError> {
    match r {
        Result::Ok(_) => Result::Ok(()),
        Result::Err(e) => Result::Err(e),
    }
}

/// The state change and verdict after the buy leg's outcome: on success the
/// sell leg may proceed; on failure the attempt ends and the sell leg is
/// never attempted.
pub open spec fn spec_record_buy(rec: ExecutionRecord, outcome: Result<(), LegError>) -> (
    ExecutionRecord,
    Option<ExecutionCompletion>,
) {
    match outcome {
        Result::Ok(_) => (
            ExecutionRecord { buy: TradeStatus::Executed, sell: rec.sell },
            Option::None,
        ),
        Result::Err(e) => (
            ExecutionRecord { buy: TradeStatus::Failed, sell: rec.sell },
            Option::Some(ExecutionCompletion::BuyLegFailed(e)),
        ),
    }
}

/// The state change and verdict after the sell leg's outcome: success
/// completes the trade; failure is the distinct unreconciled-exposure
/// verdict.
pub open spec fn spec_record_sell(rec: ExecutionRecord, outcome: Result<(), LegError>) -> (
    ExecutionRecord,
    ExecutionCompletion,
) {
    match outcome {
        Result::Ok(_) => (
            ExecutionRecord { buy: rec.buy, sell: TradeStatus::Executed },
            ExecutionCompletion::Executed,
        ),
        Result::Err(e) => (
            ExecutionRecord { buy: rec.buy, sell: TradeStatus::Failed },
            ExecutionCompletion::UnreconciledExposure(e),
        ),
    }
}

impl ExecutionRecord {
    /// A fresh attempt: both legs pending.
    pub fn new() -> (r: ExecutionRecord)
        ensures
            r.buy == TradeStatus::Pending,
            r.sell == TradeStatus::Pending,
    {
        ExecutionRecord { buy: TradeStatus::Pending, sell: TradeStatus::Pending }
    }

    /// Records the buy leg's outcome. Returns `None` when the sell leg may
    /// proceed, and the final verdict when the attempt ends here.
    pub fn record_buy_outcome(&mut self, outcome: &Result<String, LegError>) -> (c: Option<
        ExecutionCompletion,
    >)
        requires
            old(self).buy == TradeStatus::Pending,
        ensures
            *final(self) == spec_record_buy(*old(self), spec_outcome(*outcome)).0,
            c == spec_record_buy(*old(self), spec_outcome(*outcome)).1,
            final(self).sell == old(self).sell,
    {
        match outcome {
            Ok(_) => {
                self.buy = TradeStatus::Executed;
                None
            },
            Err(e) => {
                self.buy = TradeStatus::Failed;
                Some(ExecutionCompletion::BuyLegFailed(*e))
            },
        }
    }

    /// Records the sell leg's outcome; the buy leg must have succeeded.
    pub fn record_sell_outcome(&mut self, outcome: &Result<String, LegError>) -> (c:
        ExecutionCompletion)
        requires
            old(self).buy == TradeStatus::Executed,
            old(self).sell == TradeStatus::Pending,
        ensures
            *final(self) == spec_record_sell(*old(self), spec_outcome(*outcome)).0,
            c == spec_record_sell(*old(self), spec_outcome(*outcome)).1,
            final(self).buy == old(self).buy,
    {
        match outcome {
            Ok(_) => {
                self.sell = TradeStatus::Executed;
                ExecutionCompletion::Executed
            },
            Err(e) => {
                self.sell = TradeStatus::Failed;
                ExecutionCompletion::UnreconciledExposure(*e)
            },
        }
    }
}

/// Applies a completion to the stored opportunity: only a fully executed
/// attempt flips `executed` to true; every other field is untouched.
pub fn apply_completion(opp: &mut ArbitrageOpportunity, c: &ExecutionCompletion)
    ensures
        final(opp)@ == (OpportunityView {
            executed: old(opp)@.executed || *c == ExecutionCompletion::Executed,
            ..old(opp)@
        }),
{
    if let ExecutionCompletion::Executed = c {
        opp.executed = true;
    }
}

/// Law: if the buy leg succeeds and the sell leg then fails, the record
/// shows the stuck single-leg position, the verdict is the distinct
/// unreconciled-exposure failure — not a completed execution — and an
/// opportunity that was not executed before is still not marked executed.
pub proof fn lemma_partial_execution_surfaced(rec: ExecutionRecord, e: LegError, executed: bool)
    requires
        rec.buy == TradeStatus::Pending,
        rec.sell == TradeStatus::Pending,
    ensures
        ({
            let (after_buy, verdict_buy) = spec_record_buy(rec, Result::Ok(()));
            let (after_sell, verdict) = spec_record_sell(after_buy, Result::Err(e));
            &&& verdict_buy is None
            &&& after_sell.buy == TradeStatus::Executed
            &&& after_sell.sell == TradeStatus::Failed
            &&& verdict == ExecutionCompletion::UnreconciledExposure(e)
            &&& verdict != ExecutionCompletion::Executed
            &&& verdict != ExecutionCompletion::BuyLegFailed(e)
            &&& (executed || verdict == ExecutionCompletion::Executed) == executed
        }),
{
}

/// Law: a failed buy leg ends the attempt with the buy-leg verdict, the
/// sell leg still pending — it is never attempted.
pub proof fn lemma_buy_failure_stops_sell(rec: ExecutionRecord, e: LegError)
    requires
        rec.buy == TradeStatus::Pending,
        rec.sell == TradeStatus::Pending,
    ensures
        ({
            let (after_buy, verdict) = spec_record_buy(rec, Result::Err(e));
            &&& after_buy.buy == TradeStatus::Failed
            &&& after_buy.sell == TradeStatus::Pending
            &&& verdict == Option::Some(ExecutionCompletion::BuyLegFailed(e))
        }),
{
}

/// Law: only an attempt whose two legs both succeeded is marked executed.
pub proof fn lemma_executed_needs_both_legs(rec: ExecutionRecord, outcome: Result<(), LegError>)
    requires
        rec.buy == TradeStatus::Executed,
    ensures
        spec_record_sell(rec, outcome).1 == ExecutionCompletion::Executed <==> outcome.is_ok(),
{
}

} // verus!
