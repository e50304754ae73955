//! Verified core of a market-data trading pipeline: a windowed market-data
//! aggregator (minute candles, per-price volume footprints, rolling
//! statistics), a position-risk state machine with a performance ledger, an
//! order-flow decision strategy, and a replay driver that runs the same
//! aggregate/decide/risk sequence over historical or live data.
//!
//! All prices, volumes and traded values are fixed-point integers; ratios and
//! fractions are expressed in parts per million (see [`SCALE`]).

use vstd::prelude::*;

pub mod aggregator;
pub mod auth;
pub mod candle;
pub mod feed;
pub mod footprint;
pub mod orderbook;
pub mod patterns;
pub mod position;
pub mod replay;
pub mod signal;
pub mod sma;
pub mod strategy;
pub mod ticker;
pub mod trade;
pub mod trend;

verus! {

/// Fixed-point scale: ratios, fractions and fees are in parts per million.
pub const SCALE: u64 = 1_000_000;

} // verus!
