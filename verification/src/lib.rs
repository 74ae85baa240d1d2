//! The integer core of a weight-driven backtest.
//!
//! A strategy states, bar by bar, the weight it wants to hold in each
//! symbol. Rounded to a fixed number of digits, a weight is a whole number
//! of lots, and everything that follows from the lots alone is worked out
//! here and proved:
//!
//! - [`trade_position`]: the state machine that turns a series of lot
//!   targets into unit trade actions;
//! - [`matcher`]: the first-in-first-out pairing of opens with closes;
//! - [`processor`]: the two run over the bars of one symbol;
//! - [`calendar`] and [`daily`]: the calendar day of a timestamp, the
//!   grouping of bars by day, and the turnover in lots per bar and per day;
//! - [`stats`]: the counts and whole-number totals behind the trade
//!   statistics;
//! - [`utils`]: the checks on the input table;
//! - [`config`], [`errors`], [`types`]: settings, errors and plain data.
//!
//! Prices and weights pass through as bit patterns; whatever is computed
//! in floating point is left to the caller.

pub mod calendar;
pub mod config;
pub mod daily;
pub mod errors;
pub mod matcher;
pub mod processor;
pub mod stats;
pub mod trade_position;
pub mod types;
pub mod utils;
