//! Verified core of the strategy executor: rate limits, risk guards, order bookkeeping,
//! validation scorecards, live-mode gates, the Strategy Spec checks and the backtest engine.
use vstd::prelude::*;

pub mod backtest;
pub mod clock;
pub mod decimal;
pub mod digest;
pub mod engine;
pub mod indicators;
pub mod json;
pub mod kpis;
pub mod laws;
pub mod live;
pub mod market;
pub mod orders;
pub mod outcome_laws;
pub mod positions;
pub mod reconcile;
pub mod reconnect_window;
pub mod report;
pub mod risk;
pub mod rules;
pub mod runner;
pub mod session;
pub mod signals;
pub mod simulate;
pub mod snapshot;
pub mod strategy_spec;
pub mod text;
pub mod throttle;
pub mod validation;

verus! {

} // verus!
