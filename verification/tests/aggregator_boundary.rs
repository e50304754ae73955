use ctb::aggregator::MarketState;
use ctb::candle::Candle;
use ctb::ticker::Ticker;
use ctb::trade::{AskBid, Trade};

fn candle(minute: u64, close: u64, volume: u64) -> Candle {
    Candle {
        minute,
        opening_price: close,
        high_price: close + 2,
        low_price: close - 2,
        trade_price: close,
        candle_acc_trade_price: close * volume,
        candle_acc_trade_volume: volume,
    }
}

fn trade(minute: u64, price: u64, volume: u64, side: AskBid) -> Trade {
    Trade { trade_price: price, trade_volume: volume, ask_bid: side, minute }
}

#[test]
fn test_mutation_candle_exactly_once() {
    let mut market = MarketState::new();

    // five ticks spanning three distinct minutes
    let ticks = vec![
        candle(0, 100, 10),
        candle(0, 101, 12),  // refresh of minute 0
        candle(1, 102, 20),
        candle(1, 103, 25),  // refresh of minute 1
        candle(2, 104, 30),
    ];
    for t in &ticks {
        market.on_candle_tick(t);
    }

    // exactly one history entry per closed minute, the last tick of each
    assert_eq!(market.history_candles.len(), 2);
    assert_eq!(market.history_candles[0], ticks[1]);
    assert_eq!(market.history_candles[1], ticks[3]);
    // the forming minute is the last tick seen
    assert_eq!(market.current_mutation_candle, Some(ticks[4]));
    // one footprint per closed minute
    assert_eq!(market.footprints.len(), 2);
}

#[test]
fn test_rolling_statistics() {
    let mut market = MarketState::new();
    market.on_candle_tick(&candle(0, 100, 10));
    market.on_candle_tick(&candle(1, 100, 20));
    market.on_candle_tick(&candle(2, 100, 60));
    // minutes 0 and 1 are finalized with volumes 10 and 20; every candle has
    // range 4
    assert_eq!(market.candle_10_avg_volume, 15);
    assert_eq!(market.candle_20_avg_candle_range, 4);
}

#[test]
fn test_trades_fold_into_one_footprint() {
    let mut market = MarketState::new();
    market.on_candle_tick(&candle(0, 100, 10));
    market.on_trade(&trade(0, 99, 5, AskBid::Bid));
    market.on_trade(&trade(0, 99, 3, AskBid::Ask));
    market.on_trade(&trade(0, 101, 2, AskBid::Ask));
    // a stale trade from an earlier minute is not attributed to minute 0
    market.on_trade(&trade(1, 300, 50, AskBid::Bid));

    market.on_candle_tick(&candle(1, 102, 20));

    assert_eq!(market.footprints.len(), 1);
    let fp = &market.footprints[0];
    let prices: Vec<u64> = fp.levels.iter().map(|l| l.price).collect();
    assert_eq!(prices, vec![99, 101]);
    assert_eq!(fp.levels[0].value.bid_volume, 5);
    assert_eq!(fp.levels[0].value.ask_volume, 3);
    assert_eq!(fp.levels[1].value.ask_volume, 2);
    // conservation: the minute's footprint holds exactly the minute's volume
    let total: u64 = fp.levels.iter().map(|l| l.value.ask_volume + l.value.bid_volume).sum();
    assert_eq!(total, 10);
}

#[test]
fn test_trade_retention_horizon() {
    let mut market = MarketState::new();
    market.on_candle_tick(&candle(0, 100, 10));
    market.on_trade(&trade(0, 100, 1, AskBid::Bid));
    market.on_trade(&trade(1, 100, 1, AskBid::Bid));
    // jumping to minute 5 evicts everything more than three minutes back
    market.on_candle_tick(&candle(5, 100, 10));
    assert_eq!(market.trades.len(), 0);

    market.on_trade(&trade(5, 100, 1, AskBid::Bid));
    market.on_candle_tick(&candle(6, 100, 10));
    // a trade three minutes back is still retained
    assert_eq!(market.trades.len(), 1);
}

#[test]
fn test_history_eviction_at_cap() {
    let mut market = MarketState::new();
    // 202 distinct minutes close 201 candles; the bounded history keeps the
    // newest 200, the bounded footprint history likewise
    for minute in 0..202u64 {
        market.on_candle_tick(&candle(minute, 100, 10));
    }
    assert_eq!(market.history_candles.len(), 200);
    assert_eq!(market.history_candles[0].minute, 1);
    assert_eq!(market.history_candles[199].minute, 200);
    assert_eq!(market.current_mutation_candle.map(|c| c.minute), Some(201));
    assert_eq!(market.footprints.len(), 200);
}

#[test]
fn test_push_history_and_prune() {
    let mut market = MarketState::new();
    for minute in 0..5u64 {
        market.push_history(&candle(minute, 100, (minute + 1) * 10));
    }
    assert_eq!(market.history_candles.len(), 5);
    // volumes 10..50 average to 30
    assert_eq!(market.candle_10_avg_volume, 30);

    market.prune_old_candles(2);
    assert_eq!(market.history_candles.len(), 2);
    assert_eq!(market.history_candles[0].minute, 3);
    // the newest two volumes are 40 and 50
    assert_eq!(market.candle_10_avg_volume, 45);
}

#[test]
fn test_ticker_passthrough() {
    let mut market = MarketState::new();
    let tick = Ticker { trade_price: 123, trade_timestamp: 456 };
    market.on_ticker(&tick);
    assert_eq!(market.current_ticker, Some(tick));
}
