//! Core engine of a two-venue prediction-market arbitrage monitor.
//!
//! The library holds everything with decision logic: exact fixed-point and
//! rational arithmetic, cross-venue market matching by token similarity,
//! directional profit evaluation, the per-cycle opportunity planner with its
//! stop-request state machine, the two-leg order-execution flow with its
//! partial-failure semantics, and the textual row encoding used by the
//! opportunity store.
//!
//! Network access, persistence, configuration files and the command line are
//! collaborators outside this crate; they exchange plain values with it.

pub mod fixed;
pub mod persist;
pub mod feeds;
pub mod config;
pub mod util;
pub mod models;
pub mod textnum;
pub mod matching;
pub mod profit;
pub mod engine;
pub mod execution;

use vstd::prelude::*;

verus! {

/// The crate-wide fixed-point scale: values carry four decimal places.
pub const DEC_SCALE: u64 = 10_000;

/// The units of one fixed-point cent: a hundredth of a whole unit.
pub const CENT_UNITS: u64 = 100;

} // verus!
