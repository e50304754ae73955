//! Ticker snapshots: the highest-frequency price observation of the feed.

use vstd::prelude::*;

verus! {

/// Marker for ticker-shaped feed payloads.
pub trait TickerTrait {

}

/// Direction of the day-over-day price change.
#[derive(Clone, Copy, Debug, PartialEq, Eq, Structural)]
pub enum Change {
    Rise,
    Even,
    Fall,
    Unknown,
}

/// Which side of the book the latest trade hit.
#[derive(Clone, Copy, Debug, PartialEq, Eq, Structural)]
pub enum AskBid {
    Ask,
    Bid,
    Unknown,
}

/// Listing state of the instrument.
#[derive(Clone, Copy, Debug, PartialEq, Eq, Structural)]
pub enum MarketState {
    Preview,
    Active,
    Delisted,
    Unknown,
}

/// Warning level attached to the instrument by the exchange.
#[derive(Clone, Copy, Debug, PartialEq, Eq, Structural)]
pub enum MarketWarning {
    NoWarning,
    Caution,
    Unknown,
}

/// Whether a feed message is a snapshot or a realtime update.
#[derive(Clone, Copy, Debug, PartialEq, Eq, Structural)]
pub enum StreamType {
    Snapshot,
    Realtime,
    Unknown,
}

/// One ticker observation: the latest traded price and when it happened.
#[derive(Clone, Copy, Debug, PartialEq, Eq, Structural)]
pub struct Ticker {
    /// Latest traded price, in fixed-point price units.
    pub trade_price: u64,
    /// Millisecond timestamp of the latest trade.
    pub trade_timestamp: u64,
}

} // verus!
