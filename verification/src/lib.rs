//! Verified core of an automated trader for temperature-bracket
//! prediction markets.
//!
//! The library holds the deterministic heart of the system: the data
//! model, the ledger and statistics rules, the risk gate, the
//! ensemble-probability arithmetic, the rules-based decision engine and
//! the cycle orchestration state machine.  Everything here is pure
//! computation over plain values; the surrounding process (HTTP,
//! clocks, files, logging) drives it from outside and is not part of
//! the verified core.
//!
//! Fixed-point conventions, used throughout:
//! - temperatures are in tenths of a degree Fahrenheit (`724` = 72.4 °F);
//! - prices are in cents (1..=99 for quotable contracts);
//! - probabilities are in basis points (`10000` = certainty);
//! - confidence-adjusted and net edges are in tenths of a basis point,
//!   so that the 1.0 / 0.8 / 0.5 confidence multipliers stay exact;
//! - timestamps are in minutes since the epoch.

pub mod types;
pub mod probability;
pub mod stats;
pub mod ledger;
pub mod risk;
pub mod fmt;
pub mod decision;
pub mod engine;
pub mod weather;
pub mod parse;
pub mod safety;
