//! The per-instrument market aggregator.
//!
//! [`MarketState`] consumes multiplexed feed events and produces the
//! decision-ready state: a bounded history of finalized candles, the
//! in-progress ("mutation") candle, a bounded history of per-minute volume
//! footprints, the transiently retained trades, the latest ticker and book,
//! and rolling summary statistics recomputed once per finalized minute.
//!
//! The boundary detection in [`MarketState::on_candle_tick`] is the core
//! correctness property: a tick for the same minute only refreshes the
//! mutation candle, while a tick for a new minute finalizes the previous
//! one exactly once — it is appended to history, the trades of its minute
//! are folded into one new footprint, old trades are evicted, and the
//! rolling statistics are recomputed. [`lemma_mutation_exactly_once`] states
//! this for whole tick sequences.

use vstd::prelude::*;
use crate::candle::Candle;
use crate::footprint::{
    Footprint,
    FootprintLevel,
    FootprintTrade,
    FOOTPRINT_VOLUME_LIMIT,
    fp_build,
    footprint,
    total_vol,
};
use crate::orderbook::{Orderbook, OrderbookUnit};
use crate::ticker::Ticker;
use crate::trade::{Trade, filter_by_minute};

verus! {

/// How many finalized candles the history keeps.
pub const CANDLE_HISTORY_CAP: usize = 200;

/// How many finalized footprints the history keeps.
pub const FOOTPRINT_HISTORY_CAP: usize = 200;

/// How many minutes behind the forming minute a trade is retained.
pub const TRADE_RETENTION_MINUTES: u64 = 3;

/// How many candles the rolling average volume looks back over.
pub const VOLUME_WINDOW: usize = 10;

/// How many candles the rolling average range looks back over.
pub const RANGE_WINDOW: usize = 20;

/// The aggregator state for one instrument.
pub struct MarketState {
    /// Finalized candles, oldest first, at most [`CANDLE_HISTORY_CAP`].
    pub history_candles: Vec<Candle>,
    /// The forming candle of the current minute, once one was seen.
    pub current_mutation_candle: Option<Candle>,
    /// Finalized footprints, oldest first, at most [`FOOTPRINT_HISTORY_CAP`].
    pub footprints: Vec<Footprint>,
    /// Trades retained for footprint construction, in arrival order.
    pub trades: Vec<Trade>,
    /// The latest ticker observation.
    pub current_ticker: Option<Ticker>,
    /// The latest order-book snapshot, passed through unaggregated.
    pub current_orderbook: Option<Orderbook>,
    /// Mean volume of the last [`VOLUME_WINDOW`] finalized candles.
    pub candle_10_avg_volume: u64,
    /// Mean price range of the last [`RANGE_WINDOW`] finalized candles.
    pub candle_20_avg_candle_range: u64,
}

/// The spec-level image of an order-book snapshot.
#[verifier::ext_equal]
pub struct OrderbookModel {
    /// Total resting ask size.
    pub total_ask_size: u64,
    /// Total resting bid size.
    pub total_bid_size: u64,
    /// The book's levels.
    pub orderbook_units: Seq<OrderbookUnit>,
    /// Millisecond timestamp of the snapshot.
    pub timestamp: u64,
}

/// The spec-level image of the aggregator: every container by its contents.
#[verifier::ext_equal]
pub struct MarketModel {
    /// Finalized candles, oldest first.
    pub history_candles: Seq<Candle>,
    /// The forming candle, once one was seen.
    pub current_mutation_candle: Option<Candle>,
    /// Finalized footprints by their level sequences, oldest first.
    pub footprints: Seq<Seq<FootprintLevel>>,
    /// Retained trades in arrival order.
    pub trades: Seq<Trade>,
    /// The latest ticker observation.
    pub current_ticker: Option<Ticker>,
    /// The latest order-book snapshot.
    pub current_orderbook: Option<OrderbookModel>,
    /// Mean volume of the last [`VOLUME_WINDOW`] finalized candles.
    pub candle_10_avg_volume: u64,
    /// Mean price range of the last [`RANGE_WINDOW`] finalized candles.
    pub candle_20_avg_candle_range: u64,
}

impl View for Orderbook {
    type V = OrderbookModel;

    open spec fn view(&self) -> OrderbookModel {
        OrderbookModel {
            total_ask_size: self.total_ask_size,
            total_bid_size: self.total_bid_size,
            orderbook_units: self.orderbook_units@,
            timestamp: self.timestamp,
        }
    }
}

impl View for MarketState {
    type V = MarketModel;

    open spec fn view(&self) -> MarketModel {
        MarketModel {
            history_candles: self.history_candles@,
            current_mutation_candle: self.current_mutation_candle,
            footprints: self.footprints@.map_values(|f: Footprint| f.levels@),
            trades: self.trades@,
            current_ticker: self.current_ticker,
            current_orderbook: match self.current_orderbook {
                Some(ob) => Some(ob@),
                None => None,
            },
            candle_10_avg_volume: self.candle_10_avg_volume,
            candle_20_avg_candle_range: self.candle_20_avg_candle_range,
        }
    }
}

/// Sum of the volumes of a candle sequence.
pub open spec fn sum_candle_volumes(s: Seq<Candle>) -> int
    decreases s.len(),
{
    if s.len() == 0 {
        0
    } else {
        s.first().candle_acc_trade_volume + sum_candle_volumes(s.drop_first())
    }
}

/// Sum of the price ranges of a candle sequence.
pub open spec fn sum_candle_ranges(s: Seq<Candle>) -> int
    decreases s.len(),
{
    if s.len() == 0 {
        0
    } else {
        s.first().spec_range() + sum_candle_ranges(s.drop_first())
    }
}

/// The last `w` elements of a sequence (all of it when shorter).
pub open spec fn last_window<A>(s: Seq<A>, w: int) -> Seq<A> {
    if s.len() <= w {
        s
    } else {
        s.subrange(s.len() - w, s.len() as int)
    }
}

/// Mean volume over the last [`VOLUME_WINDOW`] candles, zero on an empty
/// history (the division-by-zero fallback).
pub open spec fn avg_volume_spec(h: Seq<Candle>) -> int {
    let t = last_window(h, VOLUME_WINDOW as int);
    if t.len() == 0 {
        0
    } else {
        sum_candle_volumes(t) / t.len() as int
    }
}

/// Mean price range over the last [`RANGE_WINDOW`] candles, zero on an empty
/// history (the division-by-zero fallback).
pub open spec fn avg_range_spec(h: Seq<Candle>) -> int {
    let t = last_window(h, RANGE_WINDOW as int);
    if t.len() == 0 {
        0
    } else {
        sum_candle_ranges(t) / t.len() as int
    }
}

/// Sum of the volumes of a trade sequence.
pub open spec fn trades_total_vol(ts: Seq<Trade>) -> int
    decreases ts.len(),
{
    if ts.len() == 0 {
        0
    } else {
        ts.first().trade_volume + trades_total_vol(ts.drop_first())
    }
}

/// A trade reduced to what a footprint reads from it.
pub open spec fn footprint_trade_of(t: Trade) -> FootprintTrade {
    FootprintTrade { ask_bid: t.ask_bid, price: t.trade_price, volume: t.trade_volume }
}

/// The trades of one minute, reduced for footprint construction.
pub open spec fn minute_footprint_trades(ts: Seq<Trade>, minute: u64) -> Seq<FootprintTrade> {
    filter_by_minute(ts, minute).map_values(|t: Trade| footprint_trade_of(t))
}

/// Append to a bounded sequence, evicting the oldest element when the cap
/// would be exceeded.
pub open spec fn push_evict<A>(s: Seq<A>, x: A, cap: int) -> Seq<A> {
    let s2 = s.push(x);
    if s2.len() > cap {
        s2.drop_first()
    } else {
        s2
    }
}

/// The trades still retained once the forming minute is `minute`: those at
/// most [`TRADE_RETENTION_MINUTES`] minutes behind it.
pub open spec fn retained_trades(ts: Seq<Trade>, minute: u64) -> Seq<Trade> {
    ts.filter(|t: Trade| t.minute + TRADE_RETENTION_MINUTES >= minute)
}

/// The aggregator after one candle tick.
///
/// The first tick only installs the mutation candle. A tick for the same
/// minute refreshes it in place and touches nothing else. A tick for a new
/// minute finalizes the previous mutation candle: history gains it (bounded),
/// the rolling statistics are recomputed, the trades of the closed minute
/// become one new footprint (bounded), old trades are evicted, and the
/// incoming candle becomes the new mutation candle.
pub open spec fn spec_on_candle_tick(m: MarketModel, c: Candle) -> MarketModel {
    match m.current_mutation_candle {
        None => MarketModel { current_mutation_candle: Some(c), ..m },
        Some(prev) => {
            if prev.minute == c.minute {
                MarketModel { current_mutation_candle: Some(c), ..m }
            } else {
                let h = push_evict(m.history_candles, prev, CANDLE_HISTORY_CAP as int);
                let fp = fp_build(minute_footprint_trades(m.trades, prev.minute));
                MarketModel {
                    history_candles: h,
                    current_mutation_candle: Some(c),
                    footprints: push_evict(m.footprints, fp, FOOTPRINT_HISTORY_CAP as int),
                    trades: retained_trades(m.trades, c.minute),
                    current_ticker: m.current_ticker,
                    current_orderbook: m.current_orderbook,
                    candle_10_avg_volume: avg_volume_spec(h) as u64,
                    candle_20_avg_candle_range: avg_range_spec(h) as u64,
                }
            }
        },
    }
}

/// The aggregator after one trade event: the trade is retained, unless the
/// retention buffer's volume limit would be exceeded, in which case it is
/// dropped.
pub open spec fn spec_on_trade(m: MarketModel, t: Trade) -> MarketModel {
    if trades_total_vol(m.trades) + t.trade_volume <= FOOTPRINT_VOLUME_LIMIT {
        MarketModel { trades: m.trades.push(t), ..m }
    } else {
        m
    }
}

impl MarketState {
    /// Well-formedness: bounded histories of well-formed candles and
    /// footprints, a bounded trade buffer, and rolling statistics that match
    /// the history.
    pub open spec fn wf(self) -> bool {
        &&& self.history_candles@.len() <= CANDLE_HISTORY_CAP
        &&& forall|i: int|
            0 <= i < self.history_candles@.len() ==> (#[trigger] self.history_candles@[i]).wf()
        &&& match self.current_mutation_candle {
            Some(c) => c.wf(),
            None => true,
        }
        &&& self.footprints@.len() <= FOOTPRINT_HISTORY_CAP
        &&& forall|i: int| 0 <= i < self.footprints@.len() ==> (#[trigger] self.footprints@[i]).wf()
        &&& trades_total_vol(self.trades@) <= FOOTPRINT_VOLUME_LIMIT
        &&& self.candle_10_avg_volume == avg_volume_spec(self.history_candles@)
        &&& self.candle_20_avg_candle_range == avg_range_spec(self.history_candles@)
    }

    /// A fresh aggregator: no history, no forming candle, nothing retained.
    pub fn new() -> (r: MarketState)
        ensures
            r.wf(),
            r@.history_candles.len() == 0,
            r@.current_mutation_candle is None,
            r@.footprints.len() == 0,
            r@.trades.len() == 0,
            r@.current_ticker is None,
            r@.current_orderbook is None,
    {
        proof {
            assert(last_window(Seq::<Candle>::empty(), VOLUME_WINDOW as int) =~= Seq::<
                Candle,
            >::empty());
            assert(last_window(Seq::<Candle>::empty(), RANGE_WINDOW as int) =~= Seq::<
                Candle,
            >::empty());
        }
        MarketState {
            history_candles: Vec::new(),
            current_mutation_candle: None,
            footprints: Vec::new(),
            trades: Vec::new(),
            current_ticker: None,
            current_orderbook: None,
            candle_10_avg_volume: 0,
            candle_20_avg_candle_range: 0,
        }
    }

    /// Retains one trade for footprint construction (dropped only if the
    /// buffer's volume limit would be exceeded).
    pub fn on_trade(&mut self, trade: &Trade)
        requires
            old(self).wf(),
        ensures
            final(self).wf(),
            final(self)@ == spec_on_trade(old(self)@, *trade),
    {
        let total = trade_volume_sum(&self.trades);
        proof {
            lemma_trades_total_nonneg(self.trades@);
        }
        if total + trade.trade_volume as u128 <= FOOTPRINT_VOLUME_LIMIT as u128 {
            proof {
                lemma_trades_total_push(self.trades@, *trade);
            }
            self.trades.push(*trade);
        }
    }

    /// Records the latest ticker observation.
    pub fn on_ticker(&mut self, ticker: &Ticker)
        requires
            old(self).wf(),
        ensures
            final(self).wf(),
            final(self)@ == (MarketModel { current_ticker: Some(*ticker), ..old(self)@ }),
    {
        self.current_ticker = Some(*ticker);
    }

    /// Records the latest order-book snapshot (pass-through, not aggregated).
    pub fn on_orderbook(&mut self, orderbook: Orderbook)
        requires
            old(self).wf(),
        ensures
            final(self).wf(),
            final(self)@ == (MarketModel { current_orderbook: Some(orderbook@), ..old(self)@ }),
    {
        self.current_orderbook = Some(orderbook);
    }

    /// Consumes one minute-candle tick; see [`spec_on_candle_tick`] for the
    /// exact boundary behaviour.
    pub fn on_candle_tick(&mut self, candle: &Candle)
        requires
            old(self).wf(),
            candle.wf(),
        ensures
            final(self).wf(),
            final(self)@ == spec_on_candle_tick(old(self)@, *candle),
    {
        let boundary = match &self.current_mutation_candle {
            None => {
                self.current_mutation_candle = Some(*candle);
                return ;
            },
            Some(prev) => prev.minute != candle.minute,
        };
        if !boundary {
            self.current_mutation_candle = Some(*candle);
            return ;
        }
        let prev = self.current_mutation_candle.unwrap();
        // 1. the previous mutation candle becomes history (bounded)
        self.history_candles.push(prev);
        if self.history_candles.len() > CANDLE_HISTORY_CAP {
            self.history_candles.remove(0);
            proof {
                assert(old(self).history_candles@.push(prev).remove(0) =~= old(
                    self,
                ).history_candles@.push(prev).drop_first());
            }
        }
        // 2. rolling statistics over the new history
        self.candle_10_avg_volume = average_volume(&self.history_candles);
        self.candle_20_avg_candle_range = average_range(&self.history_candles);
        // 3. the closed minute's trades become one footprint (bounded)
        let minute_trades = collect_minute_trades(&self.trades, prev.minute);
        let fp = footprint(&minute_trades);
        self.footprints.push(fp);
        if self.footprints.len() > FOOTPRINT_HISTORY_CAP {
            self.footprints.remove(0);
        }
        // 4. trades older than the retention horizon are evicted
        self.prune_old_trades(candle.minute);
        // 5. the incoming candle becomes the new mutation candle
        self.current_mutation_candle = Some(*candle);
        proof {
            let m = old(self)@;
            assert(self@.footprints =~= push_evict(
                m.footprints,
                fp_build(minute_footprint_trades(m.trades, prev.minute)),
                FOOTPRINT_HISTORY_CAP as int,
            ));
            assert(self@ =~~= spec_on_candle_tick(m, *candle));
        }
    }

    /// Evicts every retained trade more than [`TRADE_RETENTION_MINUTES`]
    /// minutes behind the given forming minute.
    pub fn prune_old_trades(&mut self, minute: u64)
        requires
            old(self).wf(),
        ensures
            final(self).wf(),
            final(self)@ == (MarketModel {
                trades: retained_trades(old(self)@.trades, minute),
                ..old(self)@
            }),
    {
        let ghost all = self.trades@;
        let mut kept: Vec<Trade> = Vec::new();
        let n = self.trades.len();
        let mut i: usize = 0;
        proof {
            assert(all.subrange(0, 0) =~= Seq::<Trade>::empty());
            assert(retained_trades(Seq::<Trade>::empty(), minute) =~= Seq::<Trade>::empty());
            lemma_trades_total_nonneg(all);
        }
        while i < n
            invariant
                i <= n,
                n == all.len(),
                all == old(self).trades@,
                self.trades@ == all,
                kept@ == retained_trades(all.subrange(0, i as int), minute),
                trades_total_vol(kept@) <= trades_total_vol(all.subrange(0, i as int)),
            decreases n - i,
        {
            proof {
                assert(all.subrange(0, i as int).push(all[i as int]) =~= all.subrange(
                    0,
                    i as int + 1,
                ));
                all.subrange(0, i as int).lemma_filter_push(
                    all[i as int],
                    |t: Trade| t.minute + TRADE_RETENTION_MINUTES >= minute,
                );
                lemma_trades_total_push(all.subrange(0, i as int), all[i as int]);
                lemma_trades_total_push(kept@, all[i as int]);
            }
            let t = self.trades[i];
            if t.minute as u128 + TRADE_RETENTION_MINUTES as u128 >= minute as u128 {
                kept.push(t);
            }
            i = i + 1;
        }
        proof {
            assert(all.subrange(0, n as int) =~= all);
            lemma_trades_prefix_total(all, n as int);
        }
        self.trades = kept;
    }

    /// Trims the finalized history to its newest `max_candles` entries,
    /// oldest out first, and recomputes the rolling statistics.
    pub fn prune_old_candles(&mut self, max_candles: usize)
        requires
            old(self).wf(),
        ensures
            final(self).wf(),
            final(self)@ == (MarketModel {
                history_candles: (if old(self)@.history_candles.len() > max_candles {
                    old(self)@.history_candles.subrange(
                        old(self)@.history_candles.len() - max_candles,
                        old(self)@.history_candles.len() as int,
                    )
                } else {
                    old(self)@.history_candles
                }),
                candle_10_avg_volume: avg_volume_spec(final(self)@.history_candles) as u64,
                candle_20_avg_candle_range: avg_range_spec(final(self)@.history_candles) as u64,
                ..old(self)@
            }),
    {
        let ghost all = self.history_candles@;
        let n = self.history_candles.len();
        if n > max_candles {
            let excess = n - max_candles;
            let mut i: usize = 0;
            proof {
                assert(all.subrange(0, n as int) =~= all);
            }
            while i < excess
                invariant
                    i <= excess,
                    excess == n - max_candles,
                    n == all.len(),
                    all == old(self).history_candles@,
                    self.history_candles@ == all.subrange(i as int, n as int),
                    self.current_mutation_candle == old(self).current_mutation_candle,
                    self.footprints@ == old(self).footprints@,
                    self.trades@ == old(self).trades@,
                    self.current_ticker == old(self).current_ticker,
                    self.current_orderbook == old(self).current_orderbook,
                    forall|j: int| 0 <= j < all.len() ==> (#[trigger] all[j]).wf(),
                decreases excess - i,
            {
                proof {
                    assert(all.subrange(i as int, n as int).remove(0) =~= all.subrange(
                        i as int + 1,
                        n as int,
                    ));
                }
                self.history_candles.remove(0);
                i = i + 1;
            }
        }
        self.candle_10_avg_volume = average_volume(&self.history_candles);
        self.candle_20_avg_candle_range = average_range(&self.history_candles);
        proof {
            assert(self@ =~~= (MarketModel {
                history_candles: (if old(self)@.history_candles.len() > max_candles {
                    old(self)@.history_candles.subrange(
                        old(self)@.history_candles.len() - max_candles,
                        old(self)@.history_candles.len() as int,
                    )
                } else {
                    old(self)@.history_candles
                }),
                candle_10_avg_volume: self@.candle_10_avg_volume,
                candle_20_avg_candle_range: self@.candle_20_avg_candle_range,
                ..old(self)@
            }));
        }
    }

    /// Seeds one already-finalized candle into history (bounded) and
    /// recomputes the rolling statistics, for pre-fetched history.
    pub fn push_history(&mut self, candle: &Candle)
        requires
            old(self).wf(),
            candle.wf(),
        ensures
            final(self).wf(),
            final(self)@ == (MarketModel {
                history_candles: push_evict(
                    old(self)@.history_candles,
                    *candle,
                    CANDLE_HISTORY_CAP as int,
                ),
                candle_10_avg_volume: avg_volume_spec(
                    push_evict(old(self)@.history_candles, *candle, CANDLE_HISTORY_CAP as int),
                ) as u64,
                candle_20_avg_candle_range: avg_range_spec(
                    push_evict(old(self)@.history_candles, *candle, CANDLE_HISTORY_CAP as int),
                ) as u64,
                ..old(self)@
            }),
    {
        self.history_candles.push(*candle);
        if self.history_candles.len() > CANDLE_HISTORY_CAP {
            self.history_candles.remove(0);
            proof {
                assert(old(self).history_candles@.push(*candle).remove(0) =~= old(
                    self,
                ).history_candles@.push(*candle).drop_first());
            }
        }
        self.candle_10_avg_volume = average_volume(&self.history_candles);
        self.candle_20_avg_candle_range = average_range(&self.history_candles);
    }
}

proof fn lemma_trades_total_push(ts: Seq<Trade>, t: Trade)
    ensures
        trades_total_vol(ts.push(t)) == trades_total_vol(ts) + t.trade_volume,
    decreases ts.len(),
{
    if ts.len() == 0 {
        assert(ts.push(t).drop_first() =~= Seq::<Trade>::empty());
        assert(ts.push(t).first() == t);
        assert(trades_total_vol(ts.push(t).drop_first()) == 0);
        assert(trades_total_vol(ts) == 0);
    } else {
        assert(ts.push(t).drop_first() =~= ts.drop_first().push(t));
        assert(ts.push(t).first() == ts.first());
        lemma_trades_total_push(ts.drop_first(), t);
        assert(trades_total_vol(ts.push(t)) == ts.first().trade_volume + trades_total_vol(
            ts.drop_first().push(t),
        ));
        assert(trades_total_vol(ts) == ts.first().trade_volume + trades_total_vol(
            ts.drop_first(),
        ));
    }
}

proof fn lemma_trades_total_nonneg(ts: Seq<Trade>)
    ensures
        0 <= trades_total_vol(ts),
    decreases ts.len(),
{
    if ts.len() > 0 {
        lemma_trades_total_nonneg(ts.drop_first());
        assert(trades_total_vol(ts) == ts.first().trade_volume + trades_total_vol(
            ts.drop_first(),
        ));
    } else {
        assert(trades_total_vol(ts) == 0);
    }
}

proof fn lemma_trades_prefix_total(ts: Seq<Trade>, i: int)
    requires
        0 <= i <= ts.len(),
    ensures
        trades_total_vol(ts.subrange(0, i)) <= trades_total_vol(ts),
    decreases ts.len() - i,
{
    if i == ts.len() {
        assert(ts.subrange(0, i) =~= ts);
    } else {
        lemma_trades_prefix_total(ts, i + 1);
        assert(ts.subrange(0, i + 1) =~= ts.subrange(0, i).push(ts[i]));
        lemma_trades_total_push(ts.subrange(0, i), ts[i]);
    }
}

/// The footprint-shaped volume total of a reduced trade sequence equals the
/// volume total of the trades it came from.
proof fn lemma_converted_total(ts: Seq<Trade>)
    ensures
        total_vol(ts.map_values(|t: Trade| footprint_trade_of(t))) == trades_total_vol(ts),
    decreases ts.len(),
{
    let mapped = ts.map_values(|t: Trade| footprint_trade_of(t));
    if ts.len() == 0 {
        assert(mapped =~= Seq::<FootprintTrade>::empty());
        assert(total_vol(mapped) == 0);
        assert(trades_total_vol(ts) == 0);
    } else {
        assert(mapped.drop_first() =~= ts.drop_first().map_values(
            |t: Trade| footprint_trade_of(t),
        ));
        assert(mapped.first() == footprint_trade_of(ts.first()));
        lemma_converted_total(ts.drop_first());
        assert(total_vol(mapped) == mapped.first().volume + total_vol(mapped.drop_first()));
        assert(trades_total_vol(ts) == ts.first().trade_volume + trades_total_vol(
            ts.drop_first(),
        ));
    }
}

/// The volume total of a filtered trade sequence never exceeds the total of
/// the whole sequence.
proof fn lemma_filtered_total(ts: Seq<Trade>, pred: spec_fn(Trade) -> bool)
    ensures
        trades_total_vol(ts.filter(pred)) <= trades_total_vol(ts),
    decreases ts.len(),
{
    if ts.len() > 0 {
        let pre = ts.drop_last();
        lemma_filtered_total(pre, pred);
        assert(ts =~= pre.push(ts.last()));
        pre.lemma_filter_push(ts.last(), pred);
        lemma_trades_total_push(pre, ts.last());
        if pred(ts.last()) {
            lemma_trades_total_push(pre.filter(pred), ts.last());
        }
    } else {
        assert(trades_total_vol(ts.filter(pred)) == trades_total_vol(ts));
    }
}

/// Sum of the volumes of a trade buffer, for the retention-limit check.
fn trade_volume_sum(trades: &Vec<Trade>) -> (r: u128)
    ensures
        r == trades_total_vol(trades@),
{
    let mut sum: u128 = 0;
    let n = trades.len();
    let mut i: usize = 0;
    proof {
        assert(trades@.subrange(0, 0) =~= Seq::<Trade>::empty());
    }
    while i < n
        invariant
            i <= n,
            n == trades@.len(),
            sum == trades_total_vol(trades@.subrange(0, i as int)),
            sum <= i * (u64::MAX as int),
        decreases n - i,
    {
        proof {
            assert(trades@.subrange(0, i as int).push(trades@[i as int]) =~= trades@.subrange(
                0,
                i as int + 1,
            ));
            lemma_trades_total_push(trades@.subrange(0, i as int), trades@[i as int]);
        }
        sum = sum + trades[i].trade_volume as u128;
        i = i + 1;
    }
    proof {
        assert(trades@.subrange(0, n as int) =~= trades@);
    }
    sum
}

/// The trades of the given minute, reduced for footprint construction.
fn collect_minute_trades(trades: &Vec<Trade>, minute: u64) -> (r: Vec<FootprintTrade>)
    requires
        trades_total_vol(trades@) <= FOOTPRINT_VOLUME_LIMIT,
    ensures
        r@ == minute_footprint_trades(trades@, minute),
        total_vol(r@) <= FOOTPRINT_VOLUME_LIMIT,
{
    let mut r: Vec<FootprintTrade> = Vec::new();
    let n = trades.len();
    let mut i: usize = 0;
    proof {
        assert(trades@.subrange(0, 0) =~= Seq::<Trade>::empty());
        assert(minute_footprint_trades(Seq::<Trade>::empty(), minute) =~= Seq::<
            FootprintTrade,
        >::empty());
    }
    while i < n
        invariant
            i <= n,
            n == trades@.len(),
            r@ == minute_footprint_trades(trades@.subrange(0, i as int), minute),
        decreases n - i,
    {
        proof {
            let pre = trades@.subrange(0, i as int);
            let x = trades@[i as int];
            assert(pre.push(x) =~= trades@.subrange(0, i as int + 1));
            pre.lemma_filter_push(x, |t: Trade| t.minute == minute);
            if x.minute == minute {
                assert(filter_by_minute(pre, minute).push(x).map_values(
                    |t: Trade| footprint_trade_of(t),
                ) =~= minute_footprint_trades(pre, minute).push(footprint_trade_of(x)));
            }
        }
        let t = trades[i];
        if t.minute == minute {
            r.push(
                FootprintTrade { ask_bid: t.ask_bid, price: t.trade_price, volume: t.trade_volume },
            );
        }
        i = i + 1;
    }
    proof {
        assert(trades@.subrange(0, n as int) =~= trades@);
        lemma_filtered_total(trades@, |t: Trade| t.minute == minute);
        lemma_converted_total(filter_by_minute(trades@, minute));
        lemma_trades_total_nonneg(trades@);
    }
    r
}

/// Mean volume over the last [`VOLUME_WINDOW`] candles of the history.
fn average_volume(history: &Vec<Candle>) -> (r: u64)
    ensures
        r == avg_volume_spec(history@),
{
    let n = history.len();
    let start = if n > VOLUME_WINDOW {
        n - VOLUME_WINDOW
    } else {
        0
    };
    let count = n - start;
    if count == 0 {
        proof {
            assert(last_window(history@, VOLUME_WINDOW as int) =~= Seq::<Candle>::empty());
        }
        return 0;
    }
    let ghost window = last_window(history@, VOLUME_WINDOW as int);
    proof {
        assert(window =~= history@.subrange(start as int, n as int));
    }
    let mut sum: u128 = 0;
    let mut i: usize = start;
    proof {
        assert(window.subrange(0, 0) =~= Seq::<Candle>::empty());
    }
    while i < n
        invariant
            start <= i <= n,
            n == history@.len(),
            window == last_window(history@, VOLUME_WINDOW as int),
            window =~= history@.subrange(start as int, n as int),
            sum == sum_candle_volumes(window.subrange(0, i - start)),
            sum <= (i - start) * (u64::MAX as int),
        decreases n - i,
    {
        proof {
            let k = i - start;
            assert(window.subrange(0, k as int).push(window[k as int]) =~= window.subrange(
                0,
                k as int + 1,
            ));
            lemma_candle_vol_push(window.subrange(0, k as int), window[k as int]);
            assert(window[k as int] == history@[i as int]);
        }
        sum = sum + history[i].candle_acc_trade_volume as u128;
        i = i + 1;
    }
    proof {
        assert(window.subrange(0, (n - start) as int) =~= window);
        lemma_avg_fits(sum as int, count as int);
    }
    (sum / count as u128) as u64
}

/// Mean price range over the last [`RANGE_WINDOW`] candles of the history.
fn average_range(history: &Vec<Candle>) -> (r: u64)
    requires
        forall|i: int| 0 <= i < history@.len() ==> (#[trigger] history@[i]).wf(),
    ensures
        r == avg_range_spec(history@),
{
    let n = history.len();
    let start = if n > RANGE_WINDOW {
        n - RANGE_WINDOW
    } else {
        0
    };
    let count = n - start;
    if count == 0 {
        proof {
            assert(last_window(history@, RANGE_WINDOW as int) =~= Seq::<Candle>::empty());
        }
        return 0;
    }
    let ghost window = last_window(history@, RANGE_WINDOW as int);
    proof {
        assert(window =~= history@.subrange(start as int, n as int));
    }
    let mut sum: u128 = 0;
    let mut i: usize = start;
    proof {
        assert(window.subrange(0, 0) =~= Seq::<Candle>::empty());
    }
    while i < n
        invariant
            start <= i <= n,
            n == history@.len(),
            forall|j: int| 0 <= j < history@.len() ==> (#[trigger] history@[j]).wf(),
            window == last_window(history@, RANGE_WINDOW as int),
            window =~= history@.subrange(start as int, n as int),
            sum == sum_candle_ranges(window.subrange(0, i - start)),
            sum <= (i - start) * (u64::MAX as int),
        decreases n - i,
    {
        proof {
            let k = i - start;
            assert(window.subrange(0, k as int).push(window[k as int]) =~= window.subrange(
                0,
                k as int + 1,
            ));
            lemma_candle_range_push(window.subrange(0, k as int), window[k as int]);
            assert(window[k as int] == history@[i as int]);
        }
        let c = history[i];
        sum = sum + (c.high_price - c.low_price) as u128;
        i = i + 1;
    }
    proof {
        assert(window.subrange(0, (n - start) as int) =~= window);
        lemma_avg_fits(sum as int, count as int);
    }
    (sum / count as u128) as u64
}

proof fn lemma_candle_vol_push(s: Seq<Candle>, c: Candle)
    ensures
        sum_candle_volumes(s.push(c)) == sum_candle_volumes(s) + c.candle_acc_trade_volume,
    decreases s.len(),
{
    if s.len() == 0 {
        assert(s.push(c).drop_first() =~= Seq::<Candle>::empty());
        assert(s.push(c).first() == c);
        assert(sum_candle_volumes(s.push(c).drop_first()) == 0);
        assert(sum_candle_volumes(s) == 0);
    } else {
        assert(s.push(c).drop_first() =~= s.drop_first().push(c));
        assert(s.push(c).first() == s.first());
        lemma_candle_vol_push(s.drop_first(), c);
        assert(sum_candle_volumes(s.push(c)) == s.first().candle_acc_trade_volume
            + sum_candle_volumes(s.drop_first().push(c)));
        assert(sum_candle_volumes(s) == s.first().candle_acc_trade_volume + sum_candle_volumes(
            s.drop_first(),
        ));
    }
}

proof fn lemma_candle_range_push(s: Seq<Candle>, c: Candle)
    ensures
        sum_candle_ranges(s.push(c)) == sum_candle_ranges(s) + c.spec_range(),
    decreases s.len(),
{
    if s.len() == 0 {
        assert(s.push(c).drop_first() =~= Seq::<Candle>::empty());
        assert(s.push(c).first() == c);
        assert(sum_candle_ranges(s.push(c).drop_first()) == 0);
        assert(sum_candle_ranges(s) == 0);
    } else {
        assert(s.push(c).drop_first() =~= s.drop_first().push(c));
        assert(s.push(c).first() == s.first());
        lemma_candle_range_push(s.drop_first(), c);
        assert(sum_candle_ranges(s.push(c)) == s.first().spec_range() + sum_candle_ranges(
            s.drop_first().push(c),
        ));
        assert(sum_candle_ranges(s) == s.first().spec_range() + sum_candle_ranges(
            s.drop_first(),
        ));
    }
}

/// The mean of a bounded sum fits back into 64 bits.
proof fn lemma_avg_fits(sum: int, count: int)
    requires
        0 < count,
        0 <= sum <= count * (u64::MAX as int),
    ensures
        0 <= sum / count <= u64::MAX,
{
    assert(0 <= sum / count <= u64::MAX) by (nonlinear_arith)
        requires
            0 < count,
            0 <= sum <= count * (u64::MAX as int),
    ;
}

/// One candle tick per minute: ticks within one minute only refresh the
/// mutation candle; each boundary appends the previous mutation candle to
/// history exactly once.
///
/// Starting from a forming candle `p` and feeding any tick sequence `cs`
/// (with enough room in history), the finalized history gains exactly one
/// candle per closed minute run — the last tick observed for that minute —
/// and the mutation candle ends as the last tick of the final run.
/// The same law from a fresh aggregator: feeding any tick sequence into an
/// aggregator that has no forming candle yet, the finalized history gains
/// exactly one candle per closed minute run — the last tick observed for
/// that minute — and the mutation candle ends as the last tick of the final
/// run. N ticks spanning K minute runs leave K candles in the aggregator,
/// K - 1 of them finalized, not N.
pub proof fn lemma_mutation_exactly_once_from_start(m: MarketModel, cs: Seq<Candle>)
    requires
        m.current_mutation_candle is None,
        cs.len() > 0,
        m.history_candles.len() + runs(cs).len() - 1 <= CANDLE_HISTORY_CAP,
    ensures
        spec_ticks(m, cs).history_candles == m.history_candles + runs(cs).drop_last(),
        spec_ticks(m, cs).current_mutation_candle == Some(runs(cs).last()),
    decreases cs.len(),
{
    let c0 = cs.first();
    let m1 = spec_on_candle_tick(m, c0);
    assert(m1.current_mutation_candle == Some(c0));
    assert(m1.history_candles == m.history_candles);
    if cs.len() == 1 {
        assert(runs(cs) =~= seq![c0]);
        assert(m.history_candles + runs(cs).drop_last() =~= m.history_candles);
        assert(spec_ticks(m, cs) == m1) by {
            assert(spec_ticks(m1, cs.drop_first()) == m1);
        }
    } else {
        let rest = cs.drop_first();
        assert(seq![c0] + rest =~= cs);
        lemma_mutation_exactly_once(m1, c0, rest);
        assert(spec_ticks(m, cs) == spec_ticks(m1, rest));
    }
}

pub proof fn lemma_mutation_exactly_once(m: MarketModel, p: Candle, cs: Seq<Candle>)
    requires
        m.current_mutation_candle == Some(p),
        cs.len() > 0,
        m.history_candles.len() + runs(seq![p] + cs).len() - 1 <= CANDLE_HISTORY_CAP,
    ensures
        spec_ticks(m, cs).history_candles == m.history_candles + runs(seq![p] + cs).drop_last(),
        spec_ticks(m, cs).current_mutation_candle == Some(runs(seq![p] + cs).last()),
    decreases cs.len(),
{
    let stream = seq![p] + cs;
    lemma_runs_len(stream);
    let c0 = cs.first();
    let m1 = spec_on_candle_tick(m, c0);
    assert(stream.first() == p);
    assert(stream.drop_first() =~= cs);
    assert(stream[1] == cs[0]);
    if cs.len() == 1 {
        reveal_with_fuel(runs, 3);
        if p.minute == c0.minute {
            assert(runs(stream) =~= runs(cs));
            assert(runs(cs) =~= seq![c0]);
            assert(m1.history_candles == m.history_candles);
            assert(m.history_candles + runs(stream).drop_last() =~= m.history_candles);
        } else {
            assert(runs(stream) =~= seq![p] + runs(cs));
            assert(runs(cs) =~= seq![c0]);
            assert(runs(stream) =~= seq![p, c0]);
            assert(m1.history_candles == push_evict(
                m.history_candles,
                p,
                CANDLE_HISTORY_CAP as int,
            ));
            assert(m.history_candles.push(p).len() <= CANDLE_HISTORY_CAP);
            assert(m1.history_candles == m.history_candles.push(p));
            assert(m.history_candles + runs(stream).drop_last() =~= m.history_candles.push(p));
        }
        assert(spec_ticks(m, cs) == m1) by {
            assert(spec_ticks(m1, cs.drop_first()) == m1);
        }
    } else {
        let rest = cs.drop_first();
        assert(seq![c0] + rest =~= cs);
        if p.minute == c0.minute {
            assert(runs(stream) == runs(seq![c0] + rest)) by {
                lemma_runs_merge(stream);
            }
            assert(m1.history_candles == m.history_candles);
            assert(m1.current_mutation_candle == Some(c0));
            lemma_mutation_exactly_once(m1, c0, rest);
            assert(seq![c0] + rest =~= cs);
            assert(spec_ticks(m, cs) == spec_ticks(m1, rest));
        } else {
            assert(runs(stream) == seq![p] + runs(seq![c0] + rest)) by {
                lemma_runs_split(stream);
            }
            lemma_runs_len(seq![c0] + rest);
            assert(m1.history_candles == push_evict(
                m.history_candles,
                p,
                CANDLE_HISTORY_CAP as int,
            ));
            assert(m.history_candles.push(p).len() <= CANDLE_HISTORY_CAP);
            assert(m1.history_candles == m.history_candles.push(p));
            assert(m1.current_mutation_candle == Some(c0));
            lemma_mutation_exactly_once(m1, c0, rest);
            assert(spec_ticks(m, cs) == spec_ticks(m1, rest));
            assert(spec_ticks(m1, rest).history_candles == m1.history_candles + runs(
                seq![c0] + rest,
            ).drop_last());
            assert(m.history_candles.push(p) + runs(seq![c0] + rest).drop_last()
                =~= m.history_candles + (seq![p] + runs(seq![c0] + rest)).drop_last());
            assert(runs(stream).last() == runs(seq![c0] + rest).last()) by {
                assert(runs(seq![c0] + rest).len() > 0);
                assert((seq![p] + runs(seq![c0] + rest)).last() == runs(seq![c0] + rest).last());
            }
        }
    }
}

/// The aggregator after a whole sequence of candle ticks.
pub open spec fn spec_ticks(m: MarketModel, cs: Seq<Candle>) -> MarketModel
    decreases cs.len(),
{
    if cs.len() == 0 {
        m
    } else {
        spec_ticks(spec_on_candle_tick(m, cs.first()), cs.drop_first())
    }
}

/// One candle per minute run: consecutive ticks of the same minute collapse
/// to the last tick of the run.
pub open spec fn runs(cs: Seq<Candle>) -> Seq<Candle>
    decreases cs.len(),
{
    if cs.len() <= 1 {
        cs
    } else if cs[0].minute == cs[1].minute {
        runs(cs.drop_first())
    } else {
        seq![cs[0]] + runs(cs.drop_first())
    }
}

proof fn lemma_runs_len(cs: Seq<Candle>)
    ensures
        cs.len() == 0 ==> runs(cs).len() == 0,
        cs.len() > 0 ==> 1 <= runs(cs).len() <= cs.len(),
        cs.len() > 0 ==> runs(cs).last() == cs.last(),
    decreases cs.len(),
{
    if cs.len() > 1 {
        lemma_runs_len(cs.drop_first());
        assert(cs.drop_first().last() == cs.last());
        if cs[0].minute != cs[1].minute {
            assert((seq![cs[0]] + runs(cs.drop_first())).last() == runs(cs.drop_first()).last());
        }
    }
}

/// When the first two ticks share a minute, the first tick drops out of the
/// run sequence.
proof fn lemma_runs_merge(cs: Seq<Candle>)
    requires
        cs.len() >= 2,
        cs[0].minute == cs[1].minute,
    ensures
        runs(cs) == runs(cs.drop_first()),
{
}

/// When the first two ticks differ in minute, the first tick heads the run
/// sequence.
proof fn lemma_runs_split(cs: Seq<Candle>)
    requires
        cs.len() >= 2,
        cs[0].minute != cs[1].minute,
    ensures
        runs(cs) == seq![cs[0]] + runs(cs.drop_first()),
{
}

} // verus!
