//! The replay driver: one control loop over historical or live data.
//!
//! Both entry points run the same sequence per observation — aggregate,
//! re-evaluate the open position against the price, invoke the strategy,
//! apply the returned signal. [`simulate`] iterates a finite candle array
//! and ends flat through a synthetic end-of-test sell;
//! [`LiveSession::handle_event`] consumes one multiplexed feed event and is
//! driven from the outside until cancellation.
//!
//! Determinism is a contract here: [`simulate`] pins its outcome to the pure
//! fold [`spec_simulate`] of its inputs, so two runs over the same candles
//! and parameters agree exactly ([`lemma_deterministic_replay`]).

use vstd::prelude::*;
use crate::aggregator::{MarketModel, MarketState, spec_on_candle_tick, spec_on_trade};
use crate::candle::Candle;
use crate::orderbook::Orderbook;
use crate::position::{BacktesterState, PositionState, spec_apply_decision, spec_check_close};
use crate::signal::{Decision, Signal, SignalReason, decision_of};
use crate::strategy::{
    Of1Indicator,
    Of1Params,
    Of1State,
    absorption_price_spec,
    calculate_of1_indicator_every_1mcandle,
    of1,
    of1_spec,
};
use crate::ticker::Ticker;
use crate::trade::Trade;

verus! {

/// Configuration of a simulation run.
#[derive(Clone, Copy, Debug, PartialEq, Eq, Structural)]
pub struct SimulationConfig {
    /// Whether per-tick diagnostics should be printed by the caller.
    pub enable_log: bool,
}

impl SimulationConfig {
    /// The default configuration: diagnostics on.
    pub fn new() -> (r: SimulationConfig)
        ensures
            r.enable_log,
    {
        SimulationConfig { enable_log: true }
    }
}

/// The strategy dispatch: one tagged variant per decision shape, sharing the
/// contract `(market, position) -> signal`.
#[derive(Clone, Copy, Debug, PartialEq, Eq, Structural)]
pub enum StrategyKind {
    /// The reference order-flow strategy: absorption plus momentum breakout.
    OrderFlow {
        /// Tuning parameters.
        params: Of1Params,
        /// Session and indicator state.
        state: Of1State,
    },
    /// A baseline strategy: enter on the first bullish forming candle with
    /// fixed thresholds; useful for end-to-end scenarios.
    FixedTarget {
        /// Trailing-stop price of the entry.
        initial_trailing_stop: u64,
        /// Take-profit price of the entry.
        take_profit: u64,
        /// Share of free capital to commit, in parts per million.
        asset_ppm: u64,
    },
}

impl StrategyKind {
    /// Well-formedness of the strategy's own parameters and state.
    pub open spec fn wf(self) -> bool {
        match self {
            StrategyKind::OrderFlow { params, state } => params.wf() && state.wf(),
            StrategyKind::FixedTarget { .. } => true,
        }
    }
}

/// The strategy's indicator refresh plus decision, as one pure function of
/// the market state and the position.
pub open spec fn strategy_decide_spec(k: StrategyKind, m: MarketModel, pos: PositionState) -> (
    StrategyKind,
    Decision,
) {
    match k {
        StrategyKind::OrderFlow { params, state } => {
            let st1 = if m.footprints.len() == 0 {
                state
            } else {
                Of1State {
                    indicator: Of1Indicator {
                        absorption_price: absorption_price_spec(
                            m.footprints.last(),
                            m.candle_10_avg_volume,
                            params,
                        ),
                    },
                    ..state
                }
            };
            let sd = of1_spec(st1, m, params, pos);
            (StrategyKind::OrderFlow { params, state: sd.0 }, sd.1)
        },
        StrategyKind::FixedTarget { initial_trailing_stop, take_profit, asset_ppm } => {
            let fires = pos is Flat && match m.current_mutation_candle {
                Some(mc) => mc.spec_is_bullish(),
                None => false,
            };
            if fires {
                (k, Decision::Enter { initial_trailing_stop, take_profit, asset_ppm })
            } else {
                (k, Decision::Stay)
            }
        },
    }
}

impl StrategyKind {
    /// Refreshes the strategy's indicator and decides on a signal. The
    /// position is only read, never changed here.
    pub fn decide(&mut self, market: &MarketState, position: &mut PositionState) -> (r: Signal)
        requires
            old(self).wf(),
            market.wf(),
        ensures
            final(self).wf(),
            *final(position) == *old(position),
            *final(self) == strategy_decide_spec(*old(self), market@, *old(position)).0,
            decision_of(r) == strategy_decide_spec(*old(self), market@, *old(position)).1,
    {
        match self {
            StrategyKind::OrderFlow { params, state } => {
                let p = *params;
                calculate_of1_indicator_every_1mcandle(state, market, &p);
                of1(state, market, &p, position)
            },
            StrategyKind::FixedTarget { initial_trailing_stop, take_profit, asset_ppm } => {
                let flat = match position {
                    PositionState::Flat => true,
                    PositionState::InPosition { .. } => false,
                };
                let bullish = match &market.current_mutation_candle {
                    Some(mc) => mc.opening_price < mc.trade_price,
                    None => false,
                };
                if flat && bullish {
                    Signal::Buy {
                        reason: first_bullish_reason(),
                        initial_trailing_stop: *initial_trailing_stop,
                        take_profit: *take_profit,
                        asset_ppm: *asset_ppm,
                    }
                } else {
                    Signal::Hold
                }
            },
        }
    }
}

/// Builds the reason text of a baseline entry.
fn first_bullish_reason() -> (r: String)
    ensures
        r@ == "First bullish candle"@,
{
    "First bullish candle".to_owned()
}

/// Builds the reason text of the synthetic end-of-test sell.
fn end_of_test_reason() -> (r: String)
    ensures
        r@ == "End of test"@,
{
    "End of test".to_owned()
}

/// One historical observation: aggregate the candle, take its close as the
/// price observation, re-evaluate the open position, invoke the strategy,
/// apply the returned signal.
pub open spec fn spec_step(
    m: MarketModel,
    bt: BacktesterState,
    k: StrategyKind,
    c: Candle,
) -> (MarketModel, BacktesterState, StrategyKind) {
    let m1 = spec_on_candle_tick(m, c);
    let m2 = MarketModel {
        current_ticker: Some(Ticker { trade_price: c.trade_price, trade_timestamp: c.minute }),
        ..m1
    };
    let bt1 = spec_check_close(bt, c.trade_price);
    let kd = strategy_decide_spec(k, m2, bt1.position);
    let bt2 = spec_apply_decision(bt1, kd.1, c.trade_price);
    (m2, bt2, kd.0)
}

/// The fold of [`spec_step`] over a candle sequence.
pub open spec fn spec_steps(
    m: MarketModel,
    bt: BacktesterState,
    k: StrategyKind,
    cs: Seq<Candle>,
) -> (MarketModel, BacktesterState, StrategyKind)
    decreases cs.len(),
{
    if cs.len() == 0 {
        (m, bt, k)
    } else {
        let s = spec_step(m, bt, k, cs.first());
        spec_steps(s.0, s.1, s.2, cs.drop_first())
    }
}

/// The empty market model a historical run starts from.
pub open spec fn fresh_market() -> MarketModel {
    MarketModel {
        history_candles: Seq::empty(),
        current_mutation_candle: None,
        footprints: Seq::empty(),
        trades: Seq::empty(),
        current_ticker: None,
        current_orderbook: None,
        candle_10_avg_volume: 0,
        candle_20_avg_candle_range: 0,
    }
}

/// The outcome of a historical run: the fold over all candles, then the
/// synthetic end-of-test sell at the last close, so every backtest ends
/// flat.
pub open spec fn spec_simulate(cs: Seq<Candle>, bt: BacktesterState, k: StrategyKind) -> (
    BacktesterState,
    StrategyKind,
)
    recommends
        cs.len() > 0,
{
    let s = spec_steps(fresh_market(), bt, k, cs);
    (spec_apply_decision(s.1, Decision::Exit, cs.last().trade_price), s.2)
}

/// Replays a time-ordered candle array through the aggregate → re-evaluate
/// → decide → apply sequence, then forces a final sell at the last close.
/// The outcome is exactly [`spec_simulate`] of the inputs.
pub fn simulate(candles: &Vec<Candle>, backtester: &mut BacktesterState, strategy: &mut StrategyKind)
    requires
        candles@.len() > 0,
        forall|i: int| 0 <= i < candles@.len() ==> (#[trigger] candles@[i]).wf(),
        old(backtester).wf(),
        old(strategy).wf(),
    ensures
        final(backtester).wf(),
        final(strategy).wf(),
        *final(backtester) == spec_simulate(candles@, *old(backtester), *old(strategy)).0,
        *final(strategy) == spec_simulate(candles@, *old(backtester), *old(strategy)).1,
{
    let mut market = MarketState::new();
    proof {
        assert(market@ =~~= fresh_market());
    }
    let n = candles.len();
    let mut i: usize = 0;
    proof {
        assert(candles@.subrange(0, 0) =~= Seq::<Candle>::empty());
    }
    while i < n
        invariant
            i <= n,
            n == candles@.len(),
            forall|j: int| 0 <= j < candles@.len() ==> (#[trigger] candles@[j]).wf(),
            market.wf(),
            backtester.wf(),
            strategy.wf(),
            (market@, *backtester, *strategy) == spec_steps(
                fresh_market(),
                *old(backtester),
                *old(strategy),
                candles@.subrange(0, i as int),
            ),
        decreases n - i,
    {
        proof {
            lemma_spec_steps_push(
                fresh_market(),
                *old(backtester),
                *old(strategy),
                candles@.subrange(0, i as int),
                candles@[i as int],
            );
            assert(candles@.subrange(0, i as int).push(candles@[i as int]) =~= candles@.subrange(
                0,
                i as int + 1,
            ));
        }
        let candle = candles[i];
        market.on_candle_tick(&candle);
        let tick = Ticker { trade_price: candle.trade_price, trade_timestamp: candle.minute };
        market.on_ticker(&tick);
        let current_price = candle.trade_price;
        backtester.check_and_close_position(current_price);
        let signal = strategy.decide(&market, backtester.get_position());
        backtester.handle_signal(&signal, current_price);
        i = i + 1;
    }
    proof {
        assert(candles@.subrange(0, n as int) =~= candles@);
    }
    let last_price = candles[n - 1].trade_price;
    let end_signal = Signal::Sell(SignalReason { reason: end_of_test_reason() });
    backtester.handle_signal(&end_signal, last_price);
}

/// Appending a candle to a run extends the fold by one step.
proof fn lemma_spec_steps_push(
    m: MarketModel,
    bt: BacktesterState,
    k: StrategyKind,
    cs: Seq<Candle>,
    c: Candle,
)
    ensures
        spec_steps(m, bt, k, cs.push(c)) == (
        {
            let s = spec_steps(m, bt, k, cs);
            spec_step(s.0, s.1, s.2, c)
        }),
    decreases cs.len(),
{
    if cs.len() == 0 {
        assert(cs.push(c).drop_first() =~= Seq::<Candle>::empty());
        assert(cs.push(c).first() == c);
        let s0 = spec_step(m, bt, k, c);
        assert(spec_steps(s0.0, s0.1, s0.2, cs.push(c).drop_first()) == s0);
        assert(spec_steps(m, bt, k, cs) == (m, bt, k));
    } else {
        assert(cs.push(c).drop_first() =~= cs.drop_first().push(c));
        assert(cs.push(c).first() == cs.first());
        let s0 = spec_step(m, bt, k, cs.first());
        lemma_spec_steps_push(s0.0, s0.1, s0.2, cs.drop_first(), c);
    }
}

/// Deterministic replay: the historical driver is a pure function of its
/// inputs. The same candle array, starting ledger and strategy parameters
/// give the same decisions at every step and so the same final ledger and
/// strategy state.
pub proof fn lemma_deterministic_replay(
    cs1: Seq<Candle>,
    cs2: Seq<Candle>,
    b1: BacktesterState,
    b2: BacktesterState,
    k1: StrategyKind,
    k2: StrategyKind,
)
    requires
        cs1 == cs2,
        b1 == b2,
        k1 == k2,
    ensures
        spec_simulate(cs1, b1, k1) == spec_simulate(cs2, b2, k2),
{
}

/// One decoded feed event, routed to a live session.
#[derive(Clone, Debug)]
pub enum FeedEvent {
    /// An executed trade.
    TradeEvent(Trade),
    /// An order-book snapshot.
    OrderbookEvent(Orderbook),
    /// A ticker observation.
    TickerEvent(Ticker),
    /// A minute-candle tick.
    CandleEvent(Candle),
}

impl FeedEvent {
    /// A candle event must carry a well-formed candle.
    pub open spec fn wf(self) -> bool {
        match self {
            FeedEvent::CandleEvent(c) => c.wf(),
            _ => true,
        }
    }
}

/// One live trading session: the aggregator, the strategy and the position
/// manager of one instrument, driven event by event.
pub struct LiveSession {
    /// The per-instrument aggregator.
    pub market: MarketState,
    /// The decision strategy.
    pub strategy: StrategyKind,
    /// The position manager and ledger.
    pub backtester: BacktesterState,
}

/// The session after one feed event. Trades, books and candles only feed
/// the aggregator; a ticker additionally re-evaluates the position and runs
/// the strategy, since ticks are the highest-frequency price observation.
pub open spec fn spec_handle_event(
    m: MarketModel,
    bt: BacktesterState,
    k: StrategyKind,
    ev: FeedEvent,
) -> (MarketModel, BacktesterState, StrategyKind) {
    match ev {
        FeedEvent::TradeEvent(t) => (spec_on_trade(m, t), bt, k),
        FeedEvent::OrderbookEvent(ob) => (
            MarketModel { current_orderbook: Some(ob@), ..m },
            bt,
            k,
        ),
        FeedEvent::CandleEvent(c) => (spec_on_candle_tick(m, c), bt, k),
        FeedEvent::TickerEvent(t) => {
            let m1 = MarketModel { current_ticker: Some(t), ..m };
            let bt1 = spec_check_close(bt, t.trade_price);
            let kd = strategy_decide_spec(k, m1, bt1.position);
            let bt2 = spec_apply_decision(bt1, kd.1, t.trade_price);
            (m1, bt2, kd.0)
        },
    }
}

impl LiveSession {
    /// Session well-formedness: every component well-formed.
    pub open spec fn wf(self) -> bool {
        self.market.wf() && self.backtester.wf() && self.strategy.wf()
    }

    /// A fresh session around the given manager and strategy.
    pub fn new(backtester: BacktesterState, strategy: StrategyKind) -> (r: LiveSession)
        requires
            backtester.wf(),
            strategy.wf(),
        ensures
            r.wf(),
            r.market@ == fresh_market(),
            r.backtester == backtester,
            r.strategy == strategy,
    {
        let market = MarketState::new();
        proof {
            assert(market@ =~~= fresh_market());
        }
        LiveSession { market, strategy, backtester }
    }

    /// Consumes one decoded feed event; see [`spec_handle_event`].
    pub fn handle_event(&mut self, event: FeedEvent)
        requires
            old(self).wf(),
            event.wf(),
        ensures
            final(self).wf(),
            (final(self).market@, final(self).backtester, final(self).strategy)
                == spec_handle_event(
                old(self).market@,
                old(self).backtester,
                old(self).strategy,
                event,
            ),
    {
        match event {
            FeedEvent::TradeEvent(t) => {
                self.market.on_trade(&t);
            },
            FeedEvent::OrderbookEvent(ob) => {
                self.market.on_orderbook(ob);
            },
            FeedEvent::CandleEvent(c) => {
                self.market.on_candle_tick(&c);
            },
            FeedEvent::TickerEvent(t) => {
                self.market.on_ticker(&t);
                self.backtester.check_and_close_position(t.trade_price);
                let signal = self.strategy.decide(&self.market, self.backtester.get_position());
                self.backtester.handle_signal(&signal, t.trade_price);
            },
        }
    }
}

} // verus!
