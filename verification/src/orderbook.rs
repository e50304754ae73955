//! Order-book snapshots. The aggregator keeps the latest snapshot as-is: the
//! book is passed through to strategies, not aggregated further.

use vstd::prelude::*;

verus! {

/// Marker for order-book-shaped feed payloads.
pub trait OrderbookTrait {

}

/// One price level of the book: best ask/bid price and resting size.
#[derive(Clone, Copy, Debug, PartialEq, Eq, Structural)]
pub struct OrderbookUnit {
    /// Ask price of the level, in fixed-point price units.
    pub ask_price: u64,
    /// Bid price of the level, in fixed-point price units.
    pub bid_price: u64,
    /// Resting ask size of the level, in fixed-point volume units.
    pub ask_size: u64,
    /// Resting bid size of the level, in fixed-point volume units.
    pub bid_size: u64,
}

/// A full order-book snapshot.
#[derive(Clone, Debug)]
pub struct Orderbook {
    /// Total resting ask size over all levels.
    pub total_ask_size: u64,
    /// Total resting bid size over all levels.
    pub total_bid_size: u64,
    /// The book's levels, best first.
    pub orderbook_units: Vec<OrderbookUnit>,
    /// Millisecond timestamp of the snapshot.
    pub timestamp: u64,
}

} // verus!
