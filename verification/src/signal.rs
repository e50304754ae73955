//! Strategy signals and their reason-free decision content.
//!
//! A [`Signal`] is what a strategy hands to the position manager. Its
//! human-readable reason plays no part in any transition, so contracts speak
//! of the signal's [`Decision`]: the variant plus its numeric payload.

use vstd::prelude::*;

verus! {

/// Free-text explanation attached to a sell signal.
#[derive(Clone, Debug, PartialEq)]
pub struct SignalReason {
    /// Why the strategy sold.
    pub reason: String,
}

/// What a strategy asks the position manager to do.
#[derive(Clone, Debug, PartialEq)]
pub enum Signal {
    /// Open a long position.
    Buy {
        /// Why the strategy bought.
        reason: String,
        /// Initial trailing-stop price for the new position.
        initial_trailing_stop: u64,
        /// Take-profit price for the new position.
        take_profit: u64,
        /// Share of free capital to commit, in parts per million of [`crate::SCALE`].
        asset_ppm: u64,
    },
    /// Close the position at the current price.
    Sell(SignalReason),
    /// Do nothing.
    Hold,
    /// Replace the position's trailing-stop price.
    UpdateTrailingStop(u64),
}

/// The decision content of a signal: its variant and numeric payload, with
/// the free-text reason stripped. This is what the position manager's
/// transition depends on.
#[derive(Clone, Copy, Debug, PartialEq, Eq, Structural)]
pub enum Decision {
    /// Open a long position with the given thresholds and capital share.
    Enter {
        /// Initial trailing-stop price.
        initial_trailing_stop: u64,
        /// Take-profit price.
        take_profit: u64,
        /// Share of free capital to commit, in parts per million.
        asset_ppm: u64,
    },
    /// Close the position.
    Exit,
    /// Do nothing.
    Stay,
    /// Replace the trailing-stop price.
    Raise(u64),
}

/// The decision content of a signal.
pub open spec fn decision_of(s: Signal) -> Decision {
    match s {
        Signal::Buy { reason: _, initial_trailing_stop, take_profit, asset_ppm } => {
            Decision::Enter { initial_trailing_stop, take_profit, asset_ppm }
        },
        Signal::Sell(_) => Decision::Exit,
        Signal::Hold => Decision::Stay,
        Signal::UpdateTrailingStop(p) => Decision::Raise(p),
    }
}

impl Signal {
    /// The signal's decision content, reason stripped.
    pub fn decision(&self) -> (r: Decision)
        ensures
            r == decision_of(*self),
    {
        match self {
            Signal::Buy { reason: _, initial_trailing_stop, take_profit, asset_ppm } => {
                Decision::Enter {
                    initial_trailing_stop: *initial_trailing_stop,
                    take_profit: *take_profit,
                    asset_ppm: *asset_ppm,
                }
            },
            Signal::Sell(_) => Decision::Exit,
            Signal::Hold => Decision::Stay,
            Signal::UpdateTrailingStop(p) => Decision::Raise(*p),
        }
    }
}

} // verus!
