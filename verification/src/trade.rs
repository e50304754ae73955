//! Individual trades and their attribution to aggregation minutes.
//!
//! A trade is retained only transiently: the aggregator keeps it until the
//! minute it belongs to has been folded into a footprint and a trailing
//! horizon has passed. The `minute` field is the trade's minute discriminator
//! (minutes since the UTC epoch), the same keying that candles use.

use vstd::prelude::*;

verus! {

/// Marker for trade-shaped feed payloads.
pub trait TradeTrait {

}

/// Direction of the day-over-day price change reported with a trade.
#[derive(Clone, Copy, Debug, PartialEq, Eq, Structural)]
pub enum Change {
    Rise,
    Even,
    Fall,
    Unknown,
}

/// Which side of the book the aggressor of a trade hit.
#[derive(Clone, Copy, Debug, PartialEq, Eq, Structural)]
pub enum AskBid {
    Ask,
    Bid,
    Unknown,
}

/// Whether a feed message is a snapshot or a realtime update.
#[derive(Clone, Copy, Debug, PartialEq, Eq, Structural)]
pub enum StreamType {
    Snapshot,
    Realtime,
    Unknown,
}

/// One executed trade: price, volume, aggressor side and the minute it
/// belongs to.
#[derive(Clone, Copy, Debug, PartialEq, Eq, Structural)]
pub struct Trade {
    /// Execution price, in fixed-point price units.
    pub trade_price: u64,
    /// Executed volume, in fixed-point volume units.
    pub trade_volume: u64,
    /// Aggressor side of the trade.
    pub ask_bid: AskBid,
    /// Minute discriminator of the execution time (minutes since the UTC
    /// epoch).
    pub minute: u64,
}

/// The trades of `trades` whose minute discriminator is exactly `minute`,
/// in their arrival order.
pub open spec fn filter_by_minute(trades: Seq<Trade>, minute: u64) -> Seq<Trade> {
    trades.filter(|t: Trade| t.minute == minute)
}

/// Keeps exactly the trades executed during the given minute, in order.
pub fn filter_trades_by_same_minute(trades: &Vec<Trade>, minute: u64) -> (r: Vec<Trade>)
    ensures
        r@ == filter_by_minute(trades@, minute),
{
    let mut r: Vec<Trade> = Vec::new();
    let n = trades.len();
    let mut i: usize = 0;
    proof {
        assert(trades@.subrange(0, 0) =~= Seq::<Trade>::empty());
        assert(filter_by_minute(Seq::<Trade>::empty(), minute) =~= Seq::<Trade>::empty());
    }
    while i < n
        invariant
            i <= n,
            n == trades@.len(),
            r@ == filter_by_minute(trades@.subrange(0, i as int), minute),
        decreases n - i,
    {
        proof {
            assert(trades@.subrange(0, i as int).push(trades@[i as int]) =~= trades@.subrange(
                0,
                i as int + 1,
            ));
            trades@.subrange(0, i as int).lemma_filter_push(
                trades@[i as int],
                |t: Trade| t.minute == minute,
            );
        }
        let t = trades[i];
        if t.minute == minute {
            r.push(t);
        }
        i = i + 1;
    }
    proof {
        assert(trades@.subrange(0, n as int) =~= trades@);
    }
    r
}

/// Whether the trade was executed before the given minute began.
pub fn is_trade_time_previous_minute(trade: &Trade, minute: u64) -> (r: bool)
    ensures
        r == (trade.minute < minute),
{
    trade.minute < minute
}

} // verus!
