use ctb::aggregator::MarketState;
use ctb::candle::Candle;
use ctb::position::{BacktestParams, BacktesterState, PositionState, INITIAL_ASSET};
use ctb::replay::{simulate, FeedEvent, LiveSession, SimulationConfig, StrategyKind};
use ctb::signal::Signal;
use ctb::strategy::{calculate_of1_indicator_every_1mcandle, of1, Of1Params, Of1State};
use ctb::ticker::Ticker;
use ctb::trade::{AskBid, Trade};
use ctb::SCALE;

fn candle(minute: u64, open: u64, high: u64, low: u64, close: u64) -> Candle {
    Candle {
        minute,
        opening_price: open,
        high_price: high,
        low_price: low,
        trade_price: close,
        candle_acc_trade_price: 1000,
        candle_acc_trade_volume: 10,
    }
}

fn manager() -> BacktesterState {
    BacktesterState::new(BacktestParams::new("KRW-BTC".to_string(), 500, false, "test".to_string()))
}

#[test]
fn test_end_to_end_scenario() {
    // candles (100,105,95,102), (102,110,100,108), (108,109,95,96): entry on
    // the first bullish candle at its close, no exit at the second candle,
    // forced exit at the synthetic end-of-test sell at the final close
    let candles = vec![
        candle(0, 100, 105, 95, 102),
        candle(1, 102, 110, 100, 108),
        candle(2, 108, 109, 95, 96),
    ];
    let mut bt = manager();
    let mut strategy = StrategyKind::FixedTarget {
        initial_trailing_stop: 95,
        take_profit: 115,
        asset_ppm: SCALE,
    };
    simulate(&candles, &mut bt, &mut strategy);

    assert_eq!(bt.position, PositionState::Flat);
    assert_eq!(bt.win_count, 0);
    assert_eq!(bt.loss_count, 1);
    // realized pnl: 96/102 - 1 - 2 * 0.05%, floored in parts per million
    assert_eq!(bt.total_pnl_ppm, -59_824);
    assert_eq!(bt.current_asset, 940_176);
}

#[test]
fn test_deterministic_replay() {
    let candles = vec![
        candle(0, 100, 105, 95, 102),
        candle(1, 102, 110, 100, 108),
        candle(2, 108, 109, 95, 96),
        candle(3, 96, 99, 90, 91),
    ];
    let mut bt1 = manager();
    let mut bt2 = manager();
    let mut s1 = StrategyKind::OrderFlow { params: Of1Params::new(), state: Of1State::new() };
    let mut s2 = s1;
    simulate(&candles, &mut bt1, &mut s1);
    simulate(&candles, &mut bt2, &mut s2);
    assert_eq!(bt1.position, bt2.position);
    assert_eq!(bt1.win_count, bt2.win_count);
    assert_eq!(bt1.loss_count, bt2.loss_count);
    assert_eq!(bt1.total_pnl_ppm, bt2.total_pnl_ppm);
    assert_eq!(bt1.current_asset, bt2.current_asset);
    assert_eq!(s1, s2);
}

#[test]
fn test_simulation_config() {
    let config = SimulationConfig::new();
    assert!(config.enable_log);
}

/// Builds a market whose newest footprint absorbs at price 50: one heavy
/// level at 50 and an ask-heavy level at 60, with a session low of 40.
fn absorption_market() -> MarketState {
    let mut market = MarketState::new();
    market.on_candle_tick(&Candle {
        minute: 0,
        opening_price: 50,
        high_price: 52,
        low_price: 40,
        trade_price: 48,
        candle_acc_trade_price: 5000,
        candle_acc_trade_volume: 100,
    });
    market.on_trade(&Trade { trade_price: 50, trade_volume: 200, ask_bid: AskBid::Bid, minute: 0 });
    market.on_trade(&Trade { trade_price: 60, trade_volume: 150, ask_bid: AskBid::Ask, minute: 0 });
    market.on_trade(&Trade { trade_price: 60, trade_volume: 10, ask_bid: AskBid::Bid, minute: 0 });
    // bearish forming candle, so the momentum breakout stays quiet
    market.on_candle_tick(&Candle {
        minute: 1,
        opening_price: 50,
        high_price: 51,
        low_price: 47,
        trade_price: 48,
        candle_acc_trade_price: 500,
        candle_acc_trade_volume: 10,
    });
    market
}

#[test]
fn test_absorption_session_abandonment() {
    let mut market = absorption_market();
    let params = Of1Params::new();
    let mut state = Of1State::new();
    let mut position = PositionState::Flat;

    // first tick: the indicator finds the absorption price and a session
    // opens around it
    market.on_ticker(&Ticker { trade_price: 52, trade_timestamp: 0 });
    calculate_of1_indicator_every_1mcandle(&mut state, &market, &params);
    assert_eq!(state.indicator.absorption_price, Some(50));
    let signal = of1(&mut state, &market, &params, &mut position);
    assert_eq!(signal, Signal::Hold);
    assert_eq!(state.absorb_price, Some(50));
    assert_eq!(state.absorb_candle_low_price, Some(40));

    // a tick below the absorption price abandons the session; no entry
    market.on_ticker(&Ticker { trade_price: 49, trade_timestamp: 0 });
    let signal = of1(&mut state, &market, &params, &mut position);
    assert_eq!(signal, Signal::Hold);
    assert_eq!(state.absorb_price, None);
    assert_eq!(state.absorb_candle_low_price, None);
}

#[test]
fn test_absorption_breakout_entry() {
    let mut market = absorption_market();
    let params = Of1Params::new();
    let mut state = Of1State::new();
    let mut position = PositionState::Flat;

    market.on_ticker(&Ticker { trade_price: 52, trade_timestamp: 0 });
    calculate_of1_indicator_every_1mcandle(&mut state, &market, &params);
    let signal = of1(&mut state, &market, &params, &mut position);
    assert_eq!(signal, Signal::Hold);

    // price above the absorption price, and the levels above carry a
    // strongly positive delta: entry with the stop at the session low
    market.on_ticker(&Ticker { trade_price: 55, trade_timestamp: 0 });
    let signal = of1(&mut state, &market, &params, &mut position);
    match signal {
        Signal::Buy { initial_trailing_stop, take_profit, asset_ppm, .. } => {
            assert_eq!(initial_trailing_stop, 40);
            // 55 + (55 - 40) * 1.5 = 77 (floored)
            assert_eq!(take_profit, 77);
            assert_eq!(asset_ppm, SCALE);
        },
        other => panic!("expected an entry, got {:?}", other),
    }
    // one signal per session: the session is closed after the entry
    assert_eq!(state.absorb_price, None);
}

#[test]
fn test_momentum_breakout_entry() {
    let mut market = MarketState::new();
    // two quiet finalized minutes set the rolling averages
    market.on_candle_tick(&candle(0, 100, 102, 98, 101));
    market.on_candle_tick(&candle(1, 101, 103, 99, 102));
    // the forming candle is bullish with volume and range far above average
    market.on_candle_tick(&Candle {
        minute: 2,
        opening_price: 100,
        high_price: 130,
        low_price: 97,
        trade_price: 128,
        candle_acc_trade_price: 10000,
        candle_acc_trade_volume: 100,
    });
    market.on_ticker(&Ticker { trade_price: 128, trade_timestamp: 0 });

    let params = Of1Params::new();
    let mut state = Of1State::new();
    let mut position = PositionState::Flat;
    calculate_of1_indicator_every_1mcandle(&mut state, &market, &params);
    let signal = of1(&mut state, &market, &params, &mut position);
    match signal {
        Signal::Buy { initial_trailing_stop, take_profit, .. } => {
            assert_eq!(initial_trailing_stop, 97);
            // 128 + (128 - 97) * 1.5 = 174 (floored)
            assert_eq!(take_profit, 174);
        },
        other => panic!("expected a momentum entry, got {:?}", other),
    }
}

#[test]
fn test_live_session_pipeline() {
    let bt = manager();
    let strategy = StrategyKind::FixedTarget {
        initial_trailing_stop: 95,
        take_profit: 115,
        asset_ppm: SCALE,
    };
    let mut session = LiveSession::new(bt, strategy);

    // trades and candle ticks alone feed the aggregator and do not trade
    session.handle_event(FeedEvent::TradeEvent(Trade {
        trade_price: 100,
        trade_volume: 3,
        ask_bid: AskBid::Bid,
        minute: 0,
    }));
    assert_eq!(session.market.trades.len(), 1);
    session.handle_event(FeedEvent::CandleEvent(candle(0, 100, 105, 95, 102)));
    assert_eq!(session.backtester.position, PositionState::Flat);

    // the ticker triggers re-evaluation and the strategy: entry at 102
    session.handle_event(FeedEvent::TickerEvent(Ticker { trade_price: 102, trade_timestamp: 0 }));
    assert!(matches!(session.backtester.position, PositionState::InPosition { .. }));

    // a later ticker at the take-profit level closes the position
    session.handle_event(FeedEvent::TickerEvent(Ticker { trade_price: 116, trade_timestamp: 1 }));
    assert_eq!(session.backtester.position, PositionState::Flat);
    assert_eq!(session.backtester.win_count, 1);
    assert_eq!(
        session.backtester.current_asset as i64,
        INITIAL_ASSET as i64 + session.backtester.total_pnl_ppm
    );
}
