//! Order-routing and risk-enforcement core of the AlgoTrader execution engine.
//!
//! The modules hold the decisions of the engine as verified functions over plain
//! values: which risk rule stops a signal, when the end-of-day flatten and the
//! swing scans fire, how positions are keyed and reconciled, how symbol lists are
//! normalised. Prices, quantities and percentages are floating-point numbers in
//! the service; they stay in the service binary, which hands the outcomes of its
//! comparisons to these functions.

pub mod alpaca;
pub mod calendar;
pub mod config;
pub mod models;
pub mod positions;
pub mod risk;
pub mod symbols;
pub mod text;
pub mod throttle;
