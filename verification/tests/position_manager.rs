use ctb::position::{BacktestParams, BacktesterState, PositionState, INITIAL_ASSET};
use ctb::signal::{Signal, SignalReason};
use ctb::SCALE;

fn manager() -> BacktesterState {
    BacktesterState::new(BacktestParams::new("KRW-BTC".to_string(), 500, false, "of1".to_string()))
}

fn buy(stop: u64, target: u64, asset_ppm: u64) -> Signal {
    Signal::Buy {
        reason: "test entry".to_string(),
        initial_trailing_stop: stop,
        take_profit: target,
        asset_ppm,
    }
}

fn sell() -> Signal {
    Signal::Sell(SignalReason { reason: "test exit".to_string() })
}

#[test]
fn test_entry_and_take_profit() {
    let mut bt = manager();
    bt.handle_signal(&buy(90, 110, SCALE), 100);
    assert_eq!(
        bt.position,
        PositionState::InPosition {
            entry_price: 100,
            entry_asset: 1_000_000,
            take_profit_price: 110,
            trailing_stop_price: 90,
        }
    );
    assert_eq!(bt.current_asset, 0);

    // between the thresholds nothing happens
    bt.check_and_close_position(105);
    assert!(matches!(bt.position, PositionState::InPosition { .. }));

    // the take-profit level settles at the threshold price, not the tick
    bt.check_and_close_position(112);
    assert_eq!(bt.position, PositionState::Flat);
    // pnl: 110/100 - 1 - 2 * 0.05% = 9.9%
    assert_eq!(bt.total_pnl_ppm, 99_000);
    assert_eq!(bt.current_asset, 1_099_000);
    assert_eq!(bt.win_count, 1);
    assert_eq!(bt.loss_count, 0);
}

#[test]
fn test_trailing_stop_exit() {
    let mut bt = manager();
    bt.handle_signal(&buy(90, 110, SCALE), 100);
    bt.check_and_close_position(89);
    assert_eq!(bt.position, PositionState::Flat);
    // pnl: 90/100 - 1 - 2 * 0.05% = -10.1%
    assert_eq!(bt.total_pnl_ppm, -101_000);
    assert_eq!(bt.current_asset, 899_000);
    assert_eq!(bt.win_count, 0);
    assert_eq!(bt.loss_count, 1);
}

#[test]
fn test_trailing_stop_monotonicity() {
    let mut bt = manager();
    bt.handle_signal(&buy(90, 200, SCALE), 100);

    bt.handle_signal(&Signal::UpdateTrailingStop(105), 110);
    assert!(matches!(
        bt.position,
        PositionState::InPosition { trailing_stop_price: 105, .. }
    ));

    // a lower update is a violation and is ignored
    bt.handle_signal(&Signal::UpdateTrailingStop(95), 110);
    assert!(matches!(
        bt.position,
        PositionState::InPosition { trailing_stop_price: 105, .. }
    ));

    // a higher update tightens the stop
    bt.handle_signal(&Signal::UpdateTrailingStop(120), 130);
    assert!(matches!(
        bt.position,
        PositionState::InPosition { trailing_stop_price: 120, .. }
    ));
}

#[test]
fn test_capital_conservation_over_cycles() {
    let mut bt = manager();
    for _ in 0..3 {
        bt.handle_signal(&buy(90, 110, SCALE), 100);
        bt.check_and_close_position(115);
        assert_eq!(bt.position, PositionState::Flat);
        // free capital always equals the initial capital scaled by the
        // cumulative realized pnl
        assert_eq!(bt.current_asset as i64, INITIAL_ASSET as i64 + bt.total_pnl_ppm);
    }
    assert_eq!(bt.win_count, 3);
}

#[test]
fn test_invalid_signals_are_ignored() {
    let mut bt = manager();

    // a sell while flat is a no-op
    bt.handle_signal(&sell(), 100);
    assert_eq!(bt.position, PositionState::Flat);
    assert_eq!(bt.current_asset, INITIAL_ASSET);

    // an entry whose thresholds do not bracket the price is a no-op
    bt.handle_signal(&buy(110, 120, SCALE), 100);
    assert_eq!(bt.position, PositionState::Flat);
    bt.handle_signal(&buy(90, 95, SCALE), 100);
    assert_eq!(bt.position, PositionState::Flat);

    // an entry with a zero capital share is a no-op
    bt.handle_signal(&buy(90, 110, 0), 100);
    assert_eq!(bt.position, PositionState::Flat);

    // a trailing-stop update while flat is a no-op
    bt.handle_signal(&Signal::UpdateTrailingStop(105), 100);
    assert_eq!(bt.position, PositionState::Flat);

    // a second buy while in position is a no-op
    bt.handle_signal(&buy(90, 110, SCALE), 100);
    let before = bt.position;
    bt.handle_signal(&buy(95, 130, SCALE), 101);
    assert_eq!(bt.position, before);
}

#[test]
fn test_half_fraction_entry() {
    let mut bt = manager();
    bt.handle_signal(&buy(90, 110, SCALE / 2), 100);
    assert_eq!(
        bt.position,
        PositionState::InPosition {
            entry_price: 100,
            entry_asset: 500_000,
            take_profit_price: 110,
            trailing_stop_price: 90,
        }
    );
    assert_eq!(bt.current_asset, 500_000);
}

#[test]
fn test_results_summary() {
    let mut bt = manager();
    assert_eq!(bt.results_summary(), None);
    bt.handle_signal(&buy(90, 110, SCALE), 100);
    bt.check_and_close_position(115);
    let summary = bt.results_summary().unwrap();
    assert_eq!(summary.total_trades, 1);
    assert_eq!(summary.win_count, 1);
    assert_eq!(summary.win_rate_ppm, SCALE);
    assert_eq!(summary.total_pnl_ppm, 99_000);
}

#[test]
fn test_merge() {
    let mut a = manager();
    a.handle_signal(&buy(90, 110, SCALE), 100);
    a.check_and_close_position(115);
    let mut b = manager();
    b.handle_signal(&buy(90, 110, SCALE), 100);
    b.check_and_close_position(89);
    let merged = a.merge(b);
    assert_eq!(merged.position, PositionState::Flat);
    assert_eq!(merged.win_count, 1);
    assert_eq!(merged.loss_count, 1);
    assert_eq!(merged.total_pnl_ppm, 99_000 - 101_000);
    assert_eq!(merged.current_asset, 1_099_000 + 899_000);
}
