//! The minute-candle data model.
//!
//! A candle is an OHLCV bar for one minute of trading. Prices, the cumulative
//! traded value and the cumulative traded volume are fixed-point integers.
//! The `minute` field is the minute discriminator (minutes since the UTC
//! epoch): two ticks belong to the same forming candle exactly when their
//! minute discriminators are equal.

use vstd::prelude::*;

verus! {

/// One OHLCV bar for one minute. Immutable once finalized; exactly one
/// mutable "mutation candle" per instrument represents the forming minute.
#[derive(Clone, Copy, Debug, PartialEq, Eq, Structural)]
pub struct Candle {
    /// Minute discriminator: minutes since the UTC epoch.
    pub minute: u64,
    /// Opening price of the minute.
    pub opening_price: u64,
    /// Highest traded price of the minute.
    pub high_price: u64,
    /// Lowest traded price of the minute.
    pub low_price: u64,
    /// Latest traded price of the minute (the close once finalized).
    pub trade_price: u64,
    /// Cumulative traded value of the minute.
    pub candle_acc_trade_price: u64,
    /// Cumulative traded volume of the minute.
    pub candle_acc_trade_volume: u64,
}

impl Candle {
    /// A well-formed candle brackets its open and close between its low and
    /// its high, as every bar aggregated from real trades does.
    pub open spec fn wf(self) -> bool {
        self.low_price <= self.opening_price <= self.high_price
            && self.low_price <= self.trade_price <= self.high_price
    }

    /// The candle's full price range, high minus low.
    pub open spec fn spec_range(self) -> int {
        self.high_price - self.low_price
    }

    /// Absolute distance between open and close.
    pub open spec fn spec_body(self) -> int {
        if self.trade_price >= self.opening_price {
            self.trade_price - self.opening_price
        } else {
            self.opening_price - self.trade_price
        }
    }

    /// Distance from the top of the body to the high.
    pub open spec fn spec_upper_shadow(self) -> int {
        if self.trade_price >= self.opening_price {
            self.high_price - self.trade_price
        } else {
            self.high_price - self.opening_price
        }
    }

    /// Distance from the low to the bottom of the body.
    pub open spec fn spec_lower_shadow(self) -> int {
        if self.trade_price >= self.opening_price {
            self.opening_price - self.low_price
        } else {
            self.trade_price - self.low_price
        }
    }

    /// A bullish candle closes above its open.
    pub open spec fn spec_is_bullish(self) -> bool {
        self.opening_price < self.trade_price
    }

    /// Whether the candle closes above its open.
    pub fn is_bullish(&self) -> (r: bool)
        ensures
            r == self.spec_is_bullish(),
    {
        self.opening_price < self.trade_price
    }

    /// The candle's full price range, high minus low.
    pub fn range(&self) -> (r: u64)
        requires
            self.wf(),
        ensures
            r == self.spec_range(),
    {
        self.high_price - self.low_price
    }
}

} // verus!
