//! The position-risk state machine and its performance ledger.
//!
//! A manager owns one [`PositionState`] per instrument and a running ledger
//! (win/loss counters, cumulative realized pnl, free capital). The position
//! changes only through [`BacktesterState::handle_signal`] (entry, strategy
//! exit, trailing-stop update) and through the per-tick threshold check
//! [`BacktesterState::check_and_close_position`]. Signals are advisory: one
//! that does not fit the current state is ignored.
//!
//! Two laws are proved here. Trailing-stop monotonicity: an accepted
//! trailing-stop update never lowers the stored stop
//! ([`lemma_trailing_stop_monotonic`]). Capital conservation: whenever the
//! manager is flat, free capital equals the initial capital scaled by one
//! plus the cumulative realized pnl, exactly
//! ([`lemma_capital_conservation`]).

use vstd::prelude::*;
use crate::SCALE;
use crate::signal::{Decision, Signal, decision_of};

verus! {

/// Capital every manager starts with, in fixed-point capital units.
pub const INITIAL_ASSET: u64 = 1_000_000;

/// Cap on the ledger's free capital and on a position's committed capital.
pub const ASSET_LIMIT: u64 = 1_000_000_000_000_000_000;

/// The manager's exposure: flat, or long with its entry and exit thresholds.
#[derive(Clone, Copy, Debug, PartialEq, Eq, Structural)]
pub enum PositionState {
    /// No open position.
    Flat,
    /// One long position.
    InPosition {
        /// Price at which the position was opened.
        entry_price: u64,
        /// Capital committed at entry, in fixed-point capital units.
        entry_asset: u64,
        /// Close as soon as the price reaches this level.
        take_profit_price: u64,
        /// Close as soon as the price falls to this level. Only ever raised.
        trailing_stop_price: u64,
    },
}

/// Per-instrument configuration of a manager.
#[derive(Clone, Debug)]
pub struct BacktestParams {
    /// Instrument code the manager trades.
    pub code: String,
    /// Round-trip fee per side, in parts per million.
    pub fees_ppm: u64,
    /// Whether closes should be reported to the notification sink.
    pub enable_webhook_log: bool,
    /// Display name of the strategy driving this manager.
    pub strategy_name: String,
}

impl BacktestParams {
    /// A parameter set with every field given.
    pub fn new(code: String, fees_ppm: u64, enable_webhook_log: bool, strategy_name: String) -> (r:
        BacktestParams)
        ensures
            r.code == code,
            r.fees_ppm == fees_ppm,
            r.enable_webhook_log == enable_webhook_log,
            r.strategy_name == strategy_name,
    {
        BacktestParams { code, fees_ppm, enable_webhook_log, strategy_name }
    }

    /// The default parameter set: 0.05% fees per side, notifications on.
    pub fn default(code: &str, strategy_name: &str) -> (r: BacktestParams)
        ensures
            r.code@ == code@,
            r.fees_ppm == 500,
            r.enable_webhook_log,
            r.strategy_name@ == strategy_name@,
    {
        BacktestParams {
            code: code.to_owned(),
            fees_ppm: 500,
            enable_webhook_log: true,
            strategy_name: strategy_name.to_owned(),
        }
    }
}

/// The manager: current position, configuration and performance ledger.
#[derive(Clone, Debug)]
pub struct BacktesterState {
    /// Current exposure.
    pub position: PositionState,
    /// Per-instrument configuration.
    pub params: BacktestParams,
    /// Number of closes with a positive realized pnl.
    pub win_count: u64,
    /// Number of closes with a zero or negative realized pnl.
    pub loss_count: u64,
    /// Cumulative realized pnl relative to the initial capital, in parts per
    /// million.
    pub total_pnl_ppm: i64,
    /// Free capital not committed to a position.
    pub current_asset: u64,
}

/// A counter bump that sticks at the integer ceiling instead of wrapping.
pub open spec fn inc_sat(n: u64) -> u64 {
    if n < u64::MAX {
        (n + 1) as u64
    } else {
        n
    }
}

/// Realized pnl of closing at `exit` a position entered at `entry`, in parts
/// per million: the price ratio minus one, minus fees on both sides.
pub open spec fn spec_pnl_ppm(exit: u64, entry: u64, fees_ppm: u64) -> int
    recommends
        entry >= 1,
{
    exit * SCALE / (entry as int) - SCALE - 2 * fees_ppm
}

/// Capital returned by closing at `exit` a position of `entry_asset` entered
/// at `entry`: the committed capital scaled by the price ratio, minus fees on
/// both sides, floored at zero.
pub open spec fn spec_credit(entry_asset: u64, exit: u64, entry: u64, fees_ppm: u64) -> int
    recommends
        entry >= 1,
{
    let gross = entry_asset * exit / (entry as int);
    let fee_cut = entry_asset * (2 * fees_ppm) / (SCALE as int);
    if gross >= fee_cut {
        gross - fee_cut
    } else {
        0
    }
}

/// The capital that the ledger's cumulative pnl accounts for: the initial
/// capital scaled by one plus the realized pnl.
pub open spec fn spec_settled_capital(total_pnl_ppm: i64) -> int {
    INITIAL_ASSET * (SCALE + total_pnl_ppm) / (SCALE as int)
}

impl BacktesterState {
    /// Well-formedness: capital within bounds, fees at most 100%, and the
    /// ledger's conservation invariant — free capital (plus committed
    /// capital, when in position) equals the capital at last settlement.
    pub open spec fn wf(self) -> bool {
        &&& self.current_asset <= ASSET_LIMIT
        &&& self.params.fees_ppm <= SCALE
        &&& match self.position {
            PositionState::Flat => self.current_asset == spec_settled_capital(self.total_pnl_ppm),
            PositionState::InPosition { entry_price, entry_asset, .. } => {
                &&& entry_price >= 1
                &&& entry_asset <= ASSET_LIMIT
                &&& self.current_asset + entry_asset == spec_settled_capital(self.total_pnl_ppm)
            },
        }
    }

    /// A fresh manager: flat, full initial capital, empty ledger.
    pub fn new(params: BacktestParams) -> (r: BacktesterState)
        requires
            params.fees_ppm <= SCALE,
        ensures
            r.wf(),
            r.position == PositionState::Flat,
            r.params == params,
            r.win_count == 0,
            r.loss_count == 0,
            r.total_pnl_ppm == 0,
            r.current_asset == INITIAL_ASSET,
    {
        proof {
            lemma_mul_div_exact(INITIAL_ASSET as int, SCALE as int);
        }
        BacktesterState {
            position: PositionState::Flat,
            params,
            win_count: 0,
            loss_count: 0,
            total_pnl_ppm: 0,
            current_asset: INITIAL_ASSET,
        }
    }

    /// Mutable access to the position, for strategies that condition on it.
    pub fn get_position(&mut self) -> (r: &mut PositionState)
        ensures
            *r == old(self).position,
            *final(self) == (BacktesterState { position: *final(r), ..*old(self) }),
    {
        &mut self.position
    }
}

/// The ledger after settling a close at price `exit`: capital credited (and
/// capped), a win or a loss counted, and the cumulative pnl re-derived from
/// the new capital. Flat states are returned unchanged.
pub open spec fn spec_close(bt: BacktesterState, exit: u64) -> BacktesterState {
    match bt.position {
        PositionState::Flat => bt,
        PositionState::InPosition { entry_price, entry_asset, .. } => {
            let pnl = spec_pnl_ppm(exit, entry_price, bt.params.fees_ppm);
            let credit = spec_credit(entry_asset, exit, entry_price, bt.params.fees_ppm);
            let asset2 = if bt.current_asset + credit <= ASSET_LIMIT {
                bt.current_asset + credit
            } else {
                ASSET_LIMIT as int
            };
            BacktesterState {
                position: PositionState::Flat,
                params: bt.params,
                win_count: if pnl > 0 {
                    inc_sat(bt.win_count)
                } else {
                    bt.win_count
                },
                loss_count: if pnl > 0 {
                    bt.loss_count
                } else {
                    inc_sat(bt.loss_count)
                },
                total_pnl_ppm: (asset2 * SCALE / (INITIAL_ASSET as int) - SCALE) as i64,
                current_asset: asset2 as u64,
            }
        },
    }
}

/// The manager after one price observation: close at the take-profit price
/// if it was reached, else at the trailing stop if it was reached, else
/// unchanged.
pub open spec fn spec_check_close(bt: BacktesterState, price: u64) -> BacktesterState {
    match bt.position {
        PositionState::Flat => bt,
        PositionState::InPosition { take_profit_price, trailing_stop_price, .. } => {
            if price >= take_profit_price {
                spec_close(bt, take_profit_price)
            } else if price <= trailing_stop_price {
                spec_close(bt, trailing_stop_price)
            } else {
                bt
            }
        },
    }
}

/// Whether an entry decision is acceptable in the current state: the manager
/// is flat, the price is positive, the capital share lies in (0, 1], and the
/// thresholds bracket the price (stop below, target above).
pub open spec fn spec_entry_accepted(bt: BacktesterState, d: Decision, price: u64) -> bool {
    &&& bt.position is Flat
    &&& match d {
        Decision::Enter { initial_trailing_stop, take_profit, asset_ppm } => {
            &&& price >= 1
            &&& 0 < asset_ppm <= SCALE
            &&& initial_trailing_stop < price < take_profit
        },
        _ => false,
    }
}

/// The manager after applying one signal's decision at the current price.
/// A decision that does not fit the current state is a no-op.
pub open spec fn spec_apply_decision(bt: BacktesterState, d: Decision, price: u64)
    -> BacktesterState {
    match bt.position {
        PositionState::Flat => {
            if spec_entry_accepted(bt, d, price) {
                match d {
                    Decision::Enter { initial_trailing_stop, take_profit, asset_ppm } => {
                        let ea = bt.current_asset * asset_ppm / (SCALE as int);
                        BacktesterState {
                            position: PositionState::InPosition {
                                entry_price: price,
                                entry_asset: ea as u64,
                                take_profit_price: take_profit,
                                trailing_stop_price: initial_trailing_stop,
                            },
                            current_asset: (bt.current_asset - ea) as u64,
                            ..bt
                        }
                    },
                    _ => bt,
                }
            } else {
                bt
            }
        },
        PositionState::InPosition {
            entry_price,
            entry_asset,
            take_profit_price,
            trailing_stop_price,
        } => {
            match d {
                Decision::Exit => spec_close(bt, price),
                Decision::Raise(p) => {
                    if p >= trailing_stop_price {
                        BacktesterState {
                            position: PositionState::InPosition {
                                entry_price,
                                entry_asset,
                                take_profit_price,
                                trailing_stop_price: p,
                            },
                            ..bt
                        }
                    } else {
                        bt
                    }
                },
                _ => bt,
            }
        },
    }
}

/// `(a * b) / b == a` for positive `b`.
proof fn lemma_mul_div_exact(a: int, b: int)
    requires
        0 <= a,
        0 < b,
    ensures
        (a * b) / b == a,
{
    assert((a * b) / b == a) by (nonlinear_arith)
        requires
            0 <= a,
            0 < b,
    ;
}

/// The committed share of the capital never exceeds the capital itself.
proof fn lemma_entry_asset_bound(asset: int, ppm: int)
    requires
        0 <= asset,
        0 <= ppm <= SCALE,
    ensures
        0 <= asset * ppm / (SCALE as int) <= asset,
{
    assert(0 <= asset * ppm / (SCALE as int) <= asset) by (nonlinear_arith)
        requires
            0 <= asset,
            0 <= ppm <= SCALE,
    ;
}

/// Closing preserves well-formedness, and the settled ledger accounts for
/// the new capital exactly.
proof fn lemma_close_wf(bt: BacktesterState, exit: u64)
    requires
        bt.wf(),
        bt.position is InPosition,
    ensures
        spec_close(bt, exit).wf(),
        spec_close(bt, exit).position is Flat,
        0 <= spec_credit(
            bt.position->InPosition_entry_asset,
            exit,
            bt.position->InPosition_entry_price,
            bt.params.fees_ppm,
        ),
{
    match bt.position {
        PositionState::Flat => {},
        PositionState::InPosition { entry_price, entry_asset, .. } => {
            let pnl = spec_pnl_ppm(exit, entry_price, bt.params.fees_ppm);
            let credit = spec_credit(entry_asset, exit, entry_price, bt.params.fees_ppm);
            assert(0 <= entry_asset * exit / (entry_price as int)) by (nonlinear_arith)
                requires
                    entry_price >= 1,
                    entry_asset >= 0,
                    exit >= 0,
            ;
            assert(0 <= entry_asset * (2 * bt.params.fees_ppm) / (SCALE as int))
                by (nonlinear_arith)
                requires
                    entry_asset >= 0,
                    bt.params.fees_ppm >= 0,
            ;
            let asset2 = if bt.current_asset + credit <= ASSET_LIMIT {
                bt.current_asset + credit
            } else {
                ASSET_LIMIT as int
            };
            assert(0 <= asset2 <= ASSET_LIMIT);
            let total2 = asset2 * SCALE / (INITIAL_ASSET as int) - SCALE;
            lemma_mul_div_exact(asset2, SCALE as int);
            assert(asset2 * SCALE / (SCALE as int) == asset2);
            assert(INITIAL_ASSET == SCALE);
            assert(total2 == asset2 - SCALE);
            assert(spec_settled_capital(total2 as i64) == INITIAL_ASSET * (SCALE + (asset2 - SCALE))
                / (SCALE as int));
            assert(INITIAL_ASSET * asset2 / (SCALE as int) == asset2) by {
                assert(INITIAL_ASSET * asset2 == asset2 * SCALE) by (nonlinear_arith)
                    requires
                        INITIAL_ASSET == SCALE,
                ;
            }
        },
    }
}

/// An accepted entry preserves well-formedness: the committed capital moves
/// from the free side to the position, nothing is created or lost.
proof fn lemma_entry_wf(bt: BacktesterState, d: Decision, price: u64)
    requires
        bt.wf(),
        spec_entry_accepted(bt, d, price),
    ensures
        spec_apply_decision(bt, d, price).wf(),
        spec_apply_decision(bt, d, price).position is InPosition,
{
    match d {
        Decision::Enter { initial_trailing_stop, take_profit, asset_ppm } => {
            lemma_entry_asset_bound(bt.current_asset as int, asset_ppm as int);
        },
        _ => {},
    }
}

impl BacktesterState {
    /// Re-evaluates the open position against the current price and closes
    /// it when the take-profit or the trailing-stop threshold is reached.
    /// This runs on every new price observation, independent of strategy
    /// invocation. Exits settle at the threshold price, not at the observed
    /// price.
    pub fn check_and_close_position(&mut self, current_price: u64)
        requires
            old(self).wf(),
        ensures
            final(self).wf(),
            *final(self) == spec_check_close(*old(self), current_price),
    {
        match self.position {
            PositionState::Flat => {},
            PositionState::InPosition { take_profit_price, trailing_stop_price, .. } => {
                if current_price >= take_profit_price {
                    self.close_at(take_profit_price);
                } else if current_price <= trailing_stop_price {
                    self.close_at(trailing_stop_price);
                }
            },
        }
    }

    /// Applies a strategy signal: entry when flat, close or trailing-stop
    /// raise when in position. A signal that does not fit the current state,
    /// an entry whose thresholds do not bracket the current price, an entry
    /// with a capital share outside (0, 1], and a trailing-stop update below
    /// the stored stop are all ignored.
    pub fn handle_signal(&mut self, signal: &Signal, current_price: u64)
        requires
            old(self).wf(),
        ensures
            final(self).wf(),
            *final(self) == spec_apply_decision(*old(self), decision_of(*signal), current_price),
    {
        let d = signal.decision();
        match self.position {
            PositionState::Flat => {
                match d {
                    Decision::Enter { initial_trailing_stop, take_profit, asset_ppm } => {
                        if current_price >= 1 && 0 < asset_ppm && asset_ppm <= SCALE
                            && initial_trailing_stop < current_price && current_price
                            < take_profit {
                            proof {
                                lemma_entry_asset_bound(
                                    self.current_asset as int,
                                    asset_ppm as int,
                                );
                            }
                            let ea = ((self.current_asset as u128) * (asset_ppm as u128) / (
                            SCALE as u128)) as u64;
                            self.position = PositionState::InPosition {
                                entry_price: current_price,
                                entry_asset: ea,
                                take_profit_price: take_profit,
                                trailing_stop_price: initial_trailing_stop,
                            };
                            self.current_asset = self.current_asset - ea;
                        }
                    },
                    _ => {},
                }
            },
            PositionState::InPosition {
                entry_price,
                entry_asset,
                take_profit_price,
                trailing_stop_price,
            } => {
                match d {
                    Decision::Exit => {
                        self.close_at(current_price);
                    },
                    Decision::Raise(p) => {
                        if p >= trailing_stop_price {
                            self.position = PositionState::InPosition {
                                entry_price,
                                entry_asset,
                                take_profit_price,
                                trailing_stop_price: p,
                            };
                        }
                    },
                    _ => {},
                }
            },
        }
    }

    /// Settles the open position at the given exit price.
    fn close_at(&mut self, exit: u64)
        requires
            old(self).wf(),
            old(self).position is InPosition,
        ensures
            final(self).wf(),
            *final(self) == spec_close(*old(self), exit),
    {
        proof {
            lemma_close_wf(*self, exit);
        }
        match self.position {
            PositionState::Flat => {},
            PositionState::InPosition { entry_price, entry_asset, .. } => {
                let fees = self.params.fees_ppm;
                proof {
                    assert(entry_asset * exit <= (ASSET_LIMIT as int) * (u64::MAX as int))
                        by (nonlinear_arith)
                        requires
                            0 <= entry_asset <= ASSET_LIMIT,
                            0 <= exit <= u64::MAX,
                    ;
                    assert(entry_asset * (2 * fees) <= (ASSET_LIMIT as int) * (2 * SCALE))
                        by (nonlinear_arith)
                        requires
                            0 <= entry_asset <= ASSET_LIMIT,
                            0 <= fees <= SCALE,
                    ;
                    assert(entry_asset * exit / (entry_price as int) <= entry_asset * exit)
                        by (nonlinear_arith)
                        requires
                            0 <= entry_asset * exit,
                            1 <= entry_price,
                    ;
                }
                let pnl: i128 = ((exit as u128) * (SCALE as u128) / (entry_price as u128)) as i128
                    - SCALE as i128 - 2 * fees as i128;
                let gross: u128 = (entry_asset as u128) * (exit as u128) / (entry_price as u128);
                let fee_cut: u128 = (entry_asset as u128) * (2 * fees as u128) / (SCALE as u128);
                let credit: u128 = if gross >= fee_cut {
                    gross - fee_cut
                } else {
                    0
                };
                let with_credit: u128 = self.current_asset as u128 + credit;
                let asset2: u64 = if with_credit <= ASSET_LIMIT as u128 {
                    with_credit as u64
                } else {
                    ASSET_LIMIT
                };
                if pnl > 0 {
                    if self.win_count < u64::MAX {
                        self.win_count = self.win_count + 1;
                    }
                } else {
                    if self.loss_count < u64::MAX {
                        self.loss_count = self.loss_count + 1;
                    }
                }
                self.current_asset = asset2;
                self.total_pnl_ppm = (((asset2 as u128) * (SCALE as u128) / (
                INITIAL_ASSET as u128)) as i64) - SCALE as i64;
                self.position = PositionState::Flat;
            },
        }
    }
}

/// A run's performance summary, derived from the ledger.
#[derive(Clone, Copy, Debug, PartialEq, Eq, Structural)]
pub struct TradeSummary {
    /// Number of closed trades.
    pub total_trades: u64,
    /// Number of winning closes.
    pub win_count: u64,
    /// Number of losing closes.
    pub loss_count: u64,
    /// Share of winning closes, in parts per million.
    pub win_rate_ppm: u64,
    /// Cumulative realized pnl relative to the initial capital, in parts
    /// per million.
    pub total_pnl_ppm: i64,
    /// Free capital at the time of the summary.
    pub current_asset: u64,
}

impl BacktesterState {
    /// The run's performance summary; nothing before the first close.
    pub fn results_summary(&self) -> (r: Option<TradeSummary>)
        ensures
            r is Some <==> self.win_count + self.loss_count > 0,
            r matches Some(s) ==> {
                &&& s.total_trades == (if self.win_count + self.loss_count <= u64::MAX {
                    (self.win_count + self.loss_count) as u64
                } else {
                    u64::MAX
                })
                &&& s.win_count == self.win_count
                &&& s.loss_count == self.loss_count
                &&& s.win_rate_ppm == self.win_count * SCALE / (self.win_count
                    + self.loss_count)
                &&& s.total_pnl_ppm == self.total_pnl_ppm
                &&& s.current_asset == self.current_asset
            },
    {
        let total: u128 = self.win_count as u128 + self.loss_count as u128;
        if total == 0 {
            return None;
        }
        proof {
            assert((self.win_count as int) * (SCALE as int) <= (u64::MAX as int) * (SCALE as int));
            assert(self.win_count * SCALE / ((self.win_count + self.loss_count) as int)
                <= u64::MAX) by (nonlinear_arith)
                requires
                    0 < (self.win_count + self.loss_count) as int,
                    self.win_count <= (self.win_count + self.loss_count) as int,
                    0 <= self.win_count * SCALE,
                    SCALE > 0,
            ;
        }
        let win_rate_ppm = ((self.win_count as u128) * (SCALE as u128) / total) as u64;
        Some(
            TradeSummary {
                total_trades: if total <= u64::MAX as u128 {
                    total as u64
                } else {
                    u64::MAX
                },
                win_count: self.win_count,
                loss_count: self.loss_count,
                win_rate_ppm,
                total_pnl_ppm: self.total_pnl_ppm,
                current_asset: self.current_asset,
            },
        )
    }

    /// Combines the ledgers of two managers for aggregate reporting:
    /// counters, pnl and capital are added (saturating at their bounds),
    /// the position is meaningless in a sum and comes out flat. The result
    /// is a report, not a tradable state.
    pub fn merge(self, rhs: BacktesterState) -> (r: BacktesterState)
        ensures
            r.position == PositionState::Flat,
            r.params == self.params,
            r.win_count == (if self.win_count + rhs.win_count <= u64::MAX {
                (self.win_count + rhs.win_count) as u64
            } else {
                u64::MAX
            }),
            r.loss_count == (if self.loss_count + rhs.loss_count <= u64::MAX {
                (self.loss_count + rhs.loss_count) as u64
            } else {
                u64::MAX
            }),
            r.total_pnl_ppm == (if i64::MIN <= self.total_pnl_ppm + rhs.total_pnl_ppm
                <= i64::MAX {
                (self.total_pnl_ppm + rhs.total_pnl_ppm) as i64
            } else if self.total_pnl_ppm + rhs.total_pnl_ppm > i64::MAX {
                i64::MAX
            } else {
                i64::MIN
            }),
            r.current_asset == (if self.current_asset + rhs.current_asset <= u64::MAX {
                (self.current_asset + rhs.current_asset) as u64
            } else {
                u64::MAX
            }),
    {
        let wc: u128 = self.win_count as u128 + rhs.win_count as u128;
        let lc: u128 = self.loss_count as u128 + rhs.loss_count as u128;
        let pnl: i128 = self.total_pnl_ppm as i128 + rhs.total_pnl_ppm as i128;
        let asset: u128 = self.current_asset as u128 + rhs.current_asset as u128;
        BacktesterState {
            position: PositionState::Flat,
            params: self.params,
            win_count: if wc <= u64::MAX as u128 {
                wc as u64
            } else {
                u64::MAX
            },
            loss_count: if lc <= u64::MAX as u128 {
                lc as u64
            } else {
                u64::MAX
            },
            total_pnl_ppm: if pnl >= i64::MIN as i128 && pnl <= i64::MAX as i128 {
                pnl as i64
            } else if pnl > i64::MAX as i128 {
                i64::MAX
            } else {
                i64::MIN
            },
            current_asset: if asset <= u64::MAX as u128 {
                asset as u64
            } else {
                u64::MAX
            },
        }
    }
}

/// A manager state after a chain of trailing-stop updates.
pub open spec fn spec_apply_raises(bt: BacktesterState, ps: Seq<u64>, price: u64)
    -> BacktesterState
    decreases ps.len(),
{
    if ps.len() == 0 {
        bt
    } else {
        spec_apply_raises(spec_apply_decision(bt, Decision::Raise(ps.first()), price),
            ps.drop_first(), price)
    }
}

/// Trailing-stop monotonicity: however many trailing-stop updates are
/// applied while a position is open, the position stays open and its stored
/// trailing stop never decreases.
pub proof fn lemma_trailing_stop_monotonic(bt: BacktesterState, ps: Seq<u64>, price: u64)
    requires
        bt.position is InPosition,
    ensures
        spec_apply_raises(bt, ps, price).position is InPosition,
        spec_apply_raises(bt, ps, price).position->InPosition_trailing_stop_price
            >= bt.position->InPosition_trailing_stop_price,
    decreases ps.len(),
{
    if ps.len() > 0 {
        let bt1 = spec_apply_decision(bt, Decision::Raise(ps.first()), price);
        lemma_trailing_stop_monotonic(bt1, ps.drop_first(), price);
    }
}

/// Capital conservation: whenever the manager is flat, its free capital
/// equals the initial capital scaled by one plus the cumulative realized
/// pnl — exactly, in fixed point. Entries move capital into the position and
/// closes settle it back, so the equality survives every buy–sell cycle.
pub proof fn lemma_capital_conservation(bt: BacktesterState)
    requires
        bt.wf(),
        bt.position is Flat,
    ensures
        bt.current_asset == INITIAL_ASSET * (SCALE + bt.total_pnl_ppm) / (SCALE as int),
{
}

/// A manager state after a sequence of decisions, each applied at its own
/// price: any chain of entries, exits, updates and no-ops.
pub open spec fn spec_apply_all(bt: BacktesterState, steps: Seq<(Decision, u64)>)
    -> BacktesterState
    decreases steps.len(),
{
    if steps.len() == 0 {
        bt
    } else {
        spec_apply_all(spec_apply_decision(bt, steps.first().0, steps.first().1),
            steps.drop_first())
    }
}

/// Capital conservation over whole runs: after any sequence of buy and sell
/// decisions applied to a well-formed manager, the manager is still
/// well-formed, and whenever it ends flat its free capital equals the
/// initial capital scaled by one plus the cumulative realized pnl.
pub proof fn lemma_capital_conservation_cycles(bt: BacktesterState, steps: Seq<(Decision, u64)>)
    requires
        bt.wf(),
    ensures
        spec_apply_all(bt, steps).wf(),
        spec_apply_all(bt, steps).position is Flat ==> spec_apply_all(bt, steps).current_asset
            == INITIAL_ASSET * (SCALE + spec_apply_all(bt, steps).total_pnl_ppm) / (SCALE as int),
    decreases steps.len(),
{
    if steps.len() > 0 {
        lemma_transitions_preserve_wf(bt, steps.first().0, steps.first().1);
        lemma_capital_conservation_cycles(
            spec_apply_decision(bt, steps.first().0, steps.first().1),
            steps.drop_first(),
        );
    }
}

/// Every transition of the manager preserves well-formedness, so capital
/// conservation holds after any sequence of decisions applied to a
/// well-formed manager.
pub proof fn lemma_transitions_preserve_wf(bt: BacktesterState, d: Decision, price: u64)
    requires
        bt.wf(),
    ensures
        spec_apply_decision(bt, d, price).wf(),
        spec_check_close(bt, price).wf(),
{
    match bt.position {
        PositionState::Flat => {
            if spec_entry_accepted(bt, d, price) {
                lemma_entry_wf(bt, d, price);
            }
        },
        PositionState::InPosition { take_profit_price, trailing_stop_price, .. } => {
            if d is Exit {
                lemma_close_wf(bt, price);
            }
            if price >= take_profit_price {
                lemma_close_wf(bt, take_profit_price);
            } else if price <= trailing_stop_price {
                lemma_close_wf(bt, trailing_stop_price);
            }
        },
    }
}

} // verus!
