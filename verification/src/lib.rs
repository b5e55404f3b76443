//! A walk-forward backtesting engine for bid/ask tick data.
//!
//! The engine aggregates a tick stream into multi-timeframe candle charts,
//! books trades against a simulated account with a hard drawdown limit,
//! explores a bounded parameter space with a randomized-search optimizer,
//! and steps an in-sample/out-of-sample window across the stream.
//!
//! Prices are fixed-point integers: one unit is 10^-5 of the quote currency,
//! so one pip (10^-4) is ten units.  Profits are kept in millipips (10^-3 of
//! a pip), which keeps every account computation exact, including the
//! fixed divide-by-100 adjustment for quote currencies quoted to 3 decimals.

pub mod algorithm;
pub mod chart;
pub mod config;
pub mod driver;
pub mod errors;
pub mod indicators;
pub mod optimizer;
pub mod range_bound_variable;
pub mod parser_utils;
pub mod parsers;
pub mod ratio;
pub mod simulation;
pub mod strategy;
pub mod tick;
pub mod trade;
pub mod util;
