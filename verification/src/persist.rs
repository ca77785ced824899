//! The textual row encoding of an opportunity, as the opportunity store
//! keeps it.
//!
//! Every numeric field is written exactly — fixed-point values in decimal,
//! profit fractions as numerator/denominator — and the decoding is proved
//! to read back exactly what was written.

use vstd::prelude::*;

verus! {

use crate::fixed::{Rat, ratio_wf};
use crate::models::{ArbitrageOpportunity, OpportunityView, Platform, platform_chars,
    spec_parse_platform, lemma_platform_round_trip};
use crate::textnum::{dec_chars, ratio_chars, nat_digits, spec_parse_dec, spec_parse_ratio,
    spec_parse_u64, fmt_dec, fmt_ratio, fmt_u64, parse_dec, parse_ratio, parse_u64,
    lemma_dec_text_round_trip, lemma_ratio_text_round_trip, lemma_nat_digits};

/// One row of the opportunity store, all fields as the store keeps them.
#[derive(Debug, PartialEq)]
pub struct OpportunityRow {
    pub id: Option<i64>,
    pub polymarket_market_id: String,
    pub kalshi_market_id: String,
    pub buy_platform: String,
    pub sell_platform: String,
    pub buy_price: String,
    pub sell_price: String,
    pub profit_percentage: String,
    pub estimated_profit: String,
    pub position_size: String,
    pub detected_at: String,
    pub executed: i64,
}

/// The mathematical content of an `OpportunityRow`.
pub ghost struct RowView {
    pub id: Option<int>,
    pub polymarket_market_id: Seq<char>,
    pub kalshi_market_id: Seq<char>,
    pub buy_platform: Seq<char>,
    pub sell_platform: Seq<char>,
    pub buy_price: Seq<char>,
    pub sell_price: Seq<char>,
    pub profit_percentage: Seq<char>,
    pub estimated_profit: Seq<char>,
    pub position_size: Seq<char>,
    pub detected_at: Seq<char>,
    pub executed: int,
}

impl View for OpportunityRow {
    type V = RowView;

    open spec fn view(&self) -> RowView {
        RowView {
            id: match self.id {
                Option::Some(v) => Option::Some(v as int),
                Option::None => Option::None,
            },
            polymarket_market_id: self.polymarket_market_id@,
            kalshi_market_id: self.kalshi_market_id@,
            buy_platform: self.buy_platform@,
            sell_platform: self.sell_platform@,
            buy_price: self.buy_price@,
            sell_price: self.sell_price@,
            profit_percentage: self.profit_percentage@,
            estimated_profit: self.estimated_profit@,
            position_size: self.position_size@,
            detected_at: self.detected_at@,
            executed: self.executed as int,
        }
    }
}

/// How an opportunity is written as a row.
pub open spec fn spec_encode_row(o: OpportunityView) -> RowView {
    RowView {
        id: o.id,
        polymarket_market_id: o.polymarket_market_id,
        kalshi_market_id: o.kalshi_market_id,
        buy_platform: platform_chars(o.buy_platform),
        sell_platform: platform_chars(o.sell_platform),
        buy_price: dec_chars(o.buy_price),
        sell_price: dec_chars(o.sell_price),
        profit_percentage: ratio_chars(o.profit_percentage.num, o.profit_percentage.den),
        estimated_profit: ratio_chars(o.estimated_profit.num, o.estimated_profit.den),
        position_size: dec_chars(o.position_size),
        detected_at: nat_digits(o.detected_at),
        executed: if o.executed {
            1
        } else {
            0
        },
    }
}

/// Writes an opportunity as a store row.
pub fn encode_opportunity(o: &ArbitrageOpportunity) -> (r: OpportunityRow)
    ensures
        r@ == spec_encode_row(o@),
{
    OpportunityRow {
        id: o.id,
        polymarket_market_id: o.polymarket_market_id.clone(),
        kalshi_market_id: o.kalshi_market_id.clone(),
        buy_platform: o.buy_platform.as_str().to_owned(),
        sell_platform: o.sell_platform.as_str().to_owned(),
        buy_price: fmt_dec(o.buy_price),
        sell_price: fmt_dec(o.sell_price),
        profit_percentage: fmt_ratio(&o.profit_percentage),
        estimated_profit: fmt_ratio(&o.estimated_profit),
        position_size: fmt_dec(o.position_size),
        detected_at: fmt_u64(o.detected_at),
        executed: if o.executed {
            1
        } else {
            0
        },
    }
}

/// A record that cannot be read back: it is dropped, never allowed to fail
/// a whole batch.
#[derive(Clone, Copy, PartialEq, Eq, Structural, Debug)]
pub enum RecordError {
    Malformed,
}

/// How a row is read back. A platform cell reads as Kalshi unless it is
/// the Polymarket identifier; every numeric cell must parse exactly.
pub open spec fn spec_decode_row(r: RowView) -> Option<OpportunityView> {
    let bp = spec_parse_dec(r.buy_price);
    let sp = spec_parse_dec(r.sell_price);
    let pp = spec_parse_ratio(r.profit_percentage);
    let ep = spec_parse_ratio(r.estimated_profit);
    let ps = spec_parse_dec(r.position_size);
    let da = spec_parse_u64(r.detected_at);
    if bp.is_some() && sp.is_some() && pp.is_some() && ep.is_some() && ps.is_some()
        && da.is_some() {
        Option::Some(
            OpportunityView {
                id: r.id,
                polymarket_market_id: r.polymarket_market_id,
                kalshi_market_id: r.kalshi_market_id,
                buy_platform: spec_parse_platform(r.buy_platform),
                sell_platform: spec_parse_platform(r.sell_platform),
                buy_price: bp.unwrap(),
                sell_price: sp.unwrap(),
                profit_percentage: Rat { num: pp.unwrap().0, den: pp.unwrap().1 },
                estimated_profit: Rat { num: ep.unwrap().0, den: ep.unwrap().1 },
                position_size: ps.unwrap(),
                detected_at: da.unwrap(),
                executed: r.executed == 1,
            },
        )
    } else {
        Option::None
    }
}

/// Reads a store row back into an opportunity; a malformed row is reported
/// so the caller can drop it and keep the rest of the batch.
pub fn decode_opportunity(row: &OpportunityRow) -> (r: Result<ArbitrageOpportunity, RecordError>)
    ensures
        r.is_ok() <==> spec_decode_row(row@).is_some(),
        r.is_ok() ==> r.unwrap()@ == spec_decode_row(row@).unwrap(),
{
    let buy_price = match parse_dec(row.buy_price.as_str()) {
        Some(v) => v,
        None => {
            return Err(RecordError::Malformed);
        },
    };
    let sell_price = match parse_dec(row.sell_price.as_str()) {
        Some(v) => v,
        None => {
            return Err(RecordError::Malformed);
        },
    };
    let profit_percentage = match parse_ratio(row.profit_percentage.as_str()) {
        Some(v) => v,
        None => {
            return Err(RecordError::Malformed);
        },
    };
    let estimated_profit = match parse_ratio(row.estimated_profit.as_str()) {
        Some(v) => v,
        None => {
            return Err(RecordError::Malformed);
        },
    };
    let position_size = match parse_dec(row.position_size.as_str()) {
        Some(v) => v,
        None => {
            return Err(RecordError::Malformed);
        },
    };
    let detected_at = match parse_u64(row.detected_at.as_str()) {
        Some(v) => v,
        None => {
            return Err(RecordError::Malformed);
        },
    };
    Ok(
        ArbitrageOpportunity {
            id: row.id,
            polymarket_market_id: row.polymarket_market_id.clone(),
            kalshi_market_id: row.kalshi_market_id.clone(),
            buy_platform: Platform::parse(row.buy_platform.as_str()),
            sell_platform: Platform::parse(row.sell_platform.as_str()),
            buy_price,
            sell_price,
            profit_percentage,
            estimated_profit,
            position_size,
            detected_at,
            executed: row.executed == 1,
        },
    )
}

/// Law: a row written from an opportunity reads back as the same
/// opportunity.
pub proof fn lemma_row_round_trip(o: ArbitrageOpportunity)
    requires
        ratio_wf(o.profit_percentage),
        ratio_wf(o.estimated_profit),
    ensures
        spec_decode_row(spec_encode_row(o@)) == Option::Some(o@),
{
    lemma_dec_text_round_trip(o.buy_price.units);
    lemma_dec_text_round_trip(o.sell_price.units);
    lemma_dec_text_round_trip(o.position_size.units);
    lemma_ratio_text_round_trip(o.profit_percentage);
    lemma_ratio_text_round_trip(o.estimated_profit);
    lemma_nat_digits(o.detected_at as int);
    lemma_platform_round_trip(o.buy_platform);
    lemma_platform_round_trip(o.sell_platform);
}

} // verus!
