//! The reference order-flow strategy: absorption plus momentum breakout.
//!
//! Per finalized minute, [`calculate_of1_indicator_every_1mcandle`] locates
//! the "absorption price": among the lowest share of the newest footprint's
//! price levels (by count of levels), the level whose volume exceeds the
//! rolling average volume by a configured multiplier and is largest, ties
//! going to the lowest price. Per tick, [`of1`] manages an absorption
//! session around that price and, independently, watches the forming candle
//! for a momentum breakout. Exits are left entirely to the position
//! manager's threshold re-evaluation: this strategy never sells.
//!
//! The abandonment law is proved here: with a session active and the price
//! below the absorption price, the session resets and no entry is signalled
//! ([`lemma_absorption_abandonment`]).

use vstd::prelude::*;
use crate::SCALE;
use crate::aggregator::MarketModel;
use crate::aggregator::MarketState;
use crate::footprint::{FootprintLevel, FOOTPRINT_VOLUME_LIMIT, fp_total};
use crate::position::PositionState;
use crate::signal::{Decision, Signal, decision_of};

verus! {

/// Largest accepted value for the ratio multipliers, one thousand in parts
/// per million, keeping every threshold product inside 128 bits.
pub const MULTIPLIER_LIMIT: u64 = 1_000_000_000;

/// Tuning parameters of the order-flow strategy, ratios in parts per
/// million.
#[derive(Clone, Copy, Debug, PartialEq, Eq, Structural)]
pub struct Of1Params {
    /// A level absorbs when its volume exceeds the average volume times
    /// this multiplier.
    pub volume_threshold_multiplier: u64,
    /// Entry needs the mean per-price delta above the current price to
    /// exceed this share of the mean volume there.
    pub absorption_delta_ratio: u64,
    /// Take-profit distance as a multiple of the entry risk.
    pub rr_ratio: u64,
    /// Momentum needs the forming candle's volume to exceed the average
    /// volume times this multiplier.
    pub momentum_volume_multiplier: u64,
    /// Momentum needs the forming candle's range to exceed the average
    /// range times this multiplier.
    pub momentum_candle_range_multiplier: u64,
    /// Share of the footprint's lowest price levels, by count, in which the
    /// absorption price is searched.
    pub absorption_zone: u64,
}

impl Of1Params {
    /// Bounds under which every threshold computation fits its integer
    /// width.
    pub open spec fn wf(self) -> bool {
        &&& self.volume_threshold_multiplier <= MULTIPLIER_LIMIT
        &&& self.absorption_delta_ratio <= SCALE
        &&& self.rr_ratio <= MULTIPLIER_LIMIT
        &&& self.momentum_volume_multiplier <= MULTIPLIER_LIMIT
        &&& self.momentum_candle_range_multiplier <= MULTIPLIER_LIMIT
        &&& self.absorption_zone <= SCALE
    }

    /// The default tuning: 1.2x volume threshold, 0.7 delta ratio, 1.5
    /// risk-reward, 2x momentum multipliers, lowest 40% absorption zone.
    pub fn new() -> (r: Of1Params)
        ensures
            r.wf(),
            r.volume_threshold_multiplier == 1_200_000,
            r.absorption_delta_ratio == 700_000,
            r.rr_ratio == 1_500_000,
            r.momentum_volume_multiplier == 2_000_000,
            r.momentum_candle_range_multiplier == 2_000_000,
            r.absorption_zone == 400_000,
    {
        Of1Params {
            volume_threshold_multiplier: 1_200_000,
            absorption_delta_ratio: 700_000,
            rr_ratio: 1_500_000,
            momentum_volume_multiplier: 2_000_000,
            momentum_candle_range_multiplier: 2_000_000,
            absorption_zone: 400_000,
        }
    }
}

/// The per-minute indicator of the strategy: the located absorption price,
/// if any.
#[derive(Clone, Copy, Debug, PartialEq, Eq, Structural)]
pub struct Of1Indicator {
    /// The absorption price located in the newest footprint.
    pub absorption_price: Option<u64>,
}

impl Of1Indicator {
    /// An empty indicator: no absorption price located yet.
    pub fn new() -> (r: Of1Indicator)
        ensures
            r.absorption_price is None,
    {
        Of1Indicator { absorption_price: None }
    }
}

/// The strategy's session state.
#[derive(Clone, Copy, Debug, PartialEq, Eq, Structural)]
pub struct Of1State {
    /// The absorption price of the active session.
    pub absorb_price: Option<u64>,
    /// The low of the candle that closed when the session opened; the
    /// initial trailing stop of an absorption entry.
    pub absorb_candle_low_price: Option<u64>,
    /// The per-minute indicator.
    pub indicator: Of1Indicator,
}

impl Of1State {
    /// A session is either fully set or fully clear.
    pub open spec fn wf(self) -> bool {
        self.absorb_price is Some <==> self.absorb_candle_low_price is Some
    }

    /// A fresh strategy state: no session, no indicator.
    pub fn new() -> (r: Of1State)
        ensures
            r.wf(),
            r.absorb_price is None,
            r.absorb_candle_low_price is None,
            r.indicator.absorption_price is None,
    {
        Of1State {
            absorb_price: None,
            absorb_candle_low_price: None,
            indicator: Of1Indicator::new(),
        }
    }

    /// Abandons the absorption session.
    pub fn initialize_session(&mut self)
        ensures
            *final(self) == (Of1State {
                absorb_price: None,
                absorb_candle_low_price: None,
                ..*old(self)
            }),
    {
        self.absorb_price = None;
        self.absorb_candle_low_price = None;
    }
}

/// Total volume of one footprint level, both sides.
pub open spec fn level_volume(l: FootprintLevel) -> int {
    l.value.ask_volume + l.value.bid_volume
}

/// How many of the lowest levels the absorption zone spans: the configured
/// share of the level count, rounded up so one level is always in reach.
pub open spec fn zone_len(len: int, zone_ppm: u64) -> int {
    (len * zone_ppm + (SCALE - 1)) / (SCALE as int)
}

/// Index of the best absorption candidate among the first `k` levels: the
/// level with the largest volume above `threshold`, earliest (lowest price)
/// on ties.
pub open spec fn absorption_index(ls: Seq<FootprintLevel>, k: int, threshold: int) -> Option<int>
    decreases k,
{
    if k <= 0 {
        None
    } else {
        let prev = absorption_index(ls, k - 1, threshold);
        if level_volume(ls[k - 1]) > threshold {
            match prev {
                None => Some(k - 1),
                Some(j) => if level_volume(ls[k - 1]) > level_volume(ls[j]) {
                    Some(k - 1)
                } else {
                    Some(j)
                },
            }
        } else {
            prev
        }
    }
}

/// The absorption threshold: the rolling average volume scaled by the
/// configured multiplier.
pub open spec fn absorption_threshold(avg_volume: u64, multiplier: u64) -> int {
    avg_volume * multiplier / (SCALE as int)
}

/// The absorption price of a footprint: the price of the best candidate in
/// the zone of lowest levels.
pub open spec fn absorption_price_spec(ls: Seq<FootprintLevel>, avg_volume: u64, params: Of1Params)
    -> Option<u64> {
    let k = zone_len(ls.len() as int, params.absorption_zone);
    let kk = if k <= ls.len() {
        k
    } else {
        ls.len() as int
    };
    match absorption_index(ls, kk, absorption_threshold(
        avg_volume,
        params.volume_threshold_multiplier,
    )) {
        None => None,
        Some(j) => Some(ls[j].price),
    }
}

/// Sum over the levels priced above `price` of ask volume minus bid volume.
pub open spec fn delta_above(ls: Seq<FootprintLevel>, price: u64) -> int
    decreases ls.len(),
{
    if ls.len() == 0 {
        0
    } else {
        (if ls.first().price > price {
            ls.first().value.ask_volume - ls.first().value.bid_volume
        } else {
            0
        }) + delta_above(ls.drop_first(), price)
    }
}

/// Sum over the levels priced above `price` of ask volume plus bid volume.
pub open spec fn total_above(ls: Seq<FootprintLevel>, price: u64) -> int
    decreases ls.len(),
{
    if ls.len() == 0 {
        0
    } else {
        (if ls.first().price > price {
            ls.first().value.ask_volume + ls.first().value.bid_volume
        } else {
            0
        }) + total_above(ls.drop_first(), price)
    }
}

/// The entry's order-flow confirmation: the mean per-price delta above the
/// current price exceeds the configured share of the mean volume there.
/// With no levels above the price, both sums are zero and nothing fires.
pub open spec fn delta_confirms(ls: Seq<FootprintLevel>, price: u64, ratio_ppm: u64) -> bool {
    delta_above(ls, price) * SCALE > ratio_ppm * total_above(ls, price)
}

/// The take-profit price: the entry price plus the risk distance to the
/// stop scaled by the risk-reward ratio, saturating at the integer ceiling.
pub open spec fn spec_take_profit(price: u64, low: u64, rr_ppm: u64) -> u64
    recommends
        low <= price,
{
    let tp = price + (price - low) * rr_ppm / (SCALE as int);
    if tp <= u64::MAX {
        tp as u64
    } else {
        u64::MAX
    }
}

/// Whether the forming candle shows a momentum breakout: bullish, with
/// volume and range above the rolling averages by the configured
/// multipliers.
pub open spec fn momentum_fires(m: MarketModel, params: Of1Params) -> bool {
    match m.current_mutation_candle {
        Some(mc) => {
            &&& mc.spec_is_bullish()
            &&& mc.candle_acc_trade_volume * SCALE > m.candle_10_avg_volume
                * params.momentum_volume_multiplier
            &&& mc.spec_range() * SCALE > m.candle_20_avg_candle_range
                * params.momentum_candle_range_multiplier
        },
        None => false,
    }
}

/// One tick of absorption-session management while flat.
///
/// No session: one opens when the indicator has located an absorption price
/// and a just-closed candle provides the session low. Active session: a
/// price below the absorption price abandons it; a price above it with
/// order-flow confirmation closes it with an entry (or without one, if the
/// session low is not below the price).
pub open spec fn session_step(s: Of1State, m: MarketModel, params: Of1Params, price: u64) -> (
    Of1State,
    Decision,
) {
    match s.absorb_price {
        None => {
            if s.indicator.absorption_price is Some && m.history_candles.len() > 0 {
                (
                    Of1State {
                        absorb_price: s.indicator.absorption_price,
                        absorb_candle_low_price: Some(m.history_candles.last().low_price),
                        indicator: s.indicator,
                    },
                    Decision::Stay,
                )
            } else {
                (s, Decision::Stay)
            }
        },
        Some(ap) => {
            let cleared = Of1State {
                absorb_price: None,
                absorb_candle_low_price: None,
                indicator: s.indicator,
            };
            if price < ap {
                (cleared, Decision::Stay)
            } else if price > ap && delta_confirms(m.footprints.last(), price,
                params.absorption_delta_ratio) {
                match s.absorb_candle_low_price {
                    Some(low) => {
                        if low < price {
                            (
                                cleared,
                                Decision::Enter {
                                    initial_trailing_stop: low,
                                    take_profit: spec_take_profit(price, low, params.rr_ratio),
                                    asset_ppm: SCALE,
                                },
                            )
                        } else {
                            (cleared, Decision::Stay)
                        }
                    },
                    None => (cleared, Decision::Stay),
                }
            } else {
                (s, Decision::Stay)
            }
        },
    }
}

/// Whether the market state is ready for a decision: a ticker, at least one
/// footprint and a forming candle have been seen.
pub open spec fn market_ready(m: MarketModel) -> bool {
    &&& m.current_ticker is Some
    &&& m.footprints.len() > 0
    &&& m.current_mutation_candle is Some
}

/// The strategy's full per-tick decision: session management first, then
/// the independent momentum breakout, entries only while flat.
pub open spec fn of1_spec(s: Of1State, m: MarketModel, params: Of1Params, pos: PositionState) -> (
    Of1State,
    Decision,
) {
    if !market_ready(m) || !(pos is Flat) {
        (s, Decision::Stay)
    } else {
        let price = m.current_ticker->0.trade_price;
        let sd = session_step(s, m, params, price);
        if sd.1 is Enter {
            sd
        } else if momentum_fires(m, params) {
            let mc = m.current_mutation_candle->0;
            (
                Of1State {
                    absorb_price: None,
                    absorb_candle_low_price: None,
                    indicator: sd.0.indicator,
                },
                Decision::Enter {
                    initial_trailing_stop: mc.low_price,
                    take_profit: spec_take_profit(mc.trade_price, mc.low_price, params.rr_ratio),
                    asset_ppm: SCALE,
                },
            )
        } else {
            (sd.0, Decision::Stay)
        }
    }
}

/// Recomputes the strategy's per-minute indicator from the newest footprint
/// and the rolling average volume. With no footprint yet, the indicator is
/// left as it is.
pub fn calculate_of1_indicator_every_1mcandle(
    state: &mut Of1State,
    market: &MarketState,
    params: &Of1Params,
)
    requires
        params.wf(),
    ensures
        final(state).absorb_price == old(state).absorb_price,
        final(state).absorb_candle_low_price == old(state).absorb_candle_low_price,
        market@.footprints.len() == 0 ==> *final(state) == *old(state),
        market@.footprints.len() > 0 ==> final(state).indicator.absorption_price
            == absorption_price_spec(
            market@.footprints.last(),
            market@.candle_10_avg_volume,
            *params,
        ),
{
    let nf = market.footprints.len();
    if nf == 0 {
        return ;
    }
    let levels = &market.footprints[nf - 1].levels;
    let ghost ls = market@.footprints.last();
    proof {
        assert(market@.footprints[nf - 1] == ls);
    }
    let n = levels.len();
    proof {
        lemma_mul_le(
            market@.candle_10_avg_volume as int,
            params.volume_threshold_multiplier as int,
            u64::MAX as int,
            u64::MAX as int,
        );
        lemma_mul_le(
            n as int,
            params.absorption_zone as int,
            usize::MAX as int,
            SCALE as int,
        );
    }
    let threshold: u128 = (market.candle_10_avg_volume as u128) * (
    params.volume_threshold_multiplier as u128) / (SCALE as u128);
    let zone: u128 = ((n as u128) * (params.absorption_zone as u128) + (SCALE as u128 - 1)) / (
    SCALE as u128);
    let k: usize = if zone <= n as u128 {
        zone as usize
    } else {
        n
    };
    proof {
        assert(k as int == (if zone_len(ls.len() as int, params.absorption_zone) <= ls.len() {
            zone_len(ls.len() as int, params.absorption_zone)
        } else {
            ls.len() as int
        }));
    }
    let mut best: Option<usize> = None;
    let mut j: usize = 0;
    while j < k
        invariant
            j <= k,
            k <= n,
            n == ls.len(),
            levels@ == ls,
            threshold == absorption_threshold(
                market@.candle_10_avg_volume,
                params.volume_threshold_multiplier,
            ),
            match best {
                None => absorption_index(ls, j as int, threshold as int) is None,
                Some(b) => b < j && absorption_index(ls, j as int, threshold as int) == Some(
                    b as int,
                ),
            },
        decreases k - j,
    {
        let v: u128 = levels[j].value.ask_volume as u128 + levels[j].value.bid_volume as u128;
        match best {
            None => {
                if v > threshold {
                    best = Some(j);
                }
            },
            Some(b) => {
                let bv: u128 = levels[b].value.ask_volume as u128 + levels[b].value.bid_volume
                    as u128;
                if v > threshold && v > bv {
                    best = Some(j);
                }
            },
        }
        j = j + 1;
    }
    state.indicator = Of1Indicator {
        absorption_price: match best {
            None => None,
            Some(b) => Some(levels[b].price),
        },
    };
}

/// Product monotonicity for the overflow bounds of threshold computations.
proof fn lemma_mul_le(a: int, b: int, ca: int, cb: int)
    requires
        0 <= a <= ca,
        0 <= b <= cb,
    ensures
        a * b <= ca * cb,
{
    assert(a * b <= ca * cb) by (nonlinear_arith)
        requires
            0 <= a <= ca,
            0 <= b <= cb,
    ;
}

proof fn lemma_delta_sums_push(ls: Seq<FootprintLevel>, l: FootprintLevel, price: u64)
    ensures
        delta_above(ls.push(l), price) == delta_above(ls, price) + (if l.price > price {
            l.value.ask_volume - l.value.bid_volume
        } else {
            0
        }),
        total_above(ls.push(l), price) == total_above(ls, price) + (if l.price > price {
            l.value.ask_volume + l.value.bid_volume
        } else {
            0
        }),
    decreases ls.len(),
{
    if ls.len() == 0 {
        assert(ls.push(l).drop_first() =~= Seq::<FootprintLevel>::empty());
        assert(ls.push(l).first() == l);
        assert(delta_above(ls.push(l).drop_first(), price) == 0);
        assert(total_above(ls.push(l).drop_first(), price) == 0);
        assert(delta_above(ls, price) == 0);
        assert(total_above(ls, price) == 0);
    } else {
        assert(ls.push(l).drop_first() =~= ls.drop_first().push(l));
        assert(ls.push(l).first() == ls.first());
        lemma_delta_sums_push(ls.drop_first(), l, price);
        assert(delta_above(ls.push(l), price) == (if ls.first().price > price {
            ls.first().value.ask_volume - ls.first().value.bid_volume
        } else {
            0
        }) + delta_above(ls.drop_first().push(l), price));
        assert(delta_above(ls, price) == (if ls.first().price > price {
            ls.first().value.ask_volume - ls.first().value.bid_volume
        } else {
            0
        }) + delta_above(ls.drop_first(), price));
        assert(total_above(ls.push(l), price) == (if ls.first().price > price {
            ls.first().value.ask_volume + ls.first().value.bid_volume
        } else {
            0
        }) + total_above(ls.drop_first().push(l), price));
        assert(total_above(ls, price) == (if ls.first().price > price {
            ls.first().value.ask_volume + ls.first().value.bid_volume
        } else {
            0
        }) + total_above(ls.drop_first(), price));
    }
}

proof fn lemma_delta_sums_bounds(ls: Seq<FootprintLevel>, price: u64)
    ensures
        0 <= total_above(ls, price) <= fp_total(ls),
        -total_above(ls, price) <= delta_above(ls, price) <= total_above(ls, price),
    decreases ls.len(),
{
    if ls.len() > 0 {
        lemma_delta_sums_bounds(ls.drop_first(), price);
        assert(fp_total(ls) == ls.first().value.ask_volume + ls.first().value.bid_volume
            + fp_total(ls.drop_first()));
    } else {
        assert(fp_total(ls) == 0);
    }
}

proof fn lemma_fp_total_push(ls: Seq<FootprintLevel>, l: FootprintLevel)
    ensures
        fp_total(ls.push(l)) == fp_total(ls) + l.value.ask_volume + l.value.bid_volume,
    decreases ls.len(),
{
    if ls.len() == 0 {
        assert(ls.push(l).drop_first() =~= Seq::<FootprintLevel>::empty());
        assert(ls.push(l).first() == l);
        assert(fp_total(ls.push(l).drop_first()) == 0);
        assert(fp_total(ls) == 0);
    } else {
        assert(ls.push(l).drop_first() =~= ls.drop_first().push(l));
        assert(ls.push(l).first() == ls.first());
        lemma_fp_total_push(ls.drop_first(), l);
        assert(fp_total(ls.push(l)) == ls.first().value.ask_volume + ls.first().value.bid_volume
            + fp_total(ls.drop_first().push(l)));
        assert(fp_total(ls) == ls.first().value.ask_volume + ls.first().value.bid_volume
            + fp_total(ls.drop_first()));
    }
}

proof fn lemma_fp_total_prefix(ls: Seq<FootprintLevel>, i: int)
    requires
        0 <= i <= ls.len(),
    ensures
        fp_total(ls.subrange(0, i)) <= fp_total(ls),
    decreases ls.len() - i,
{
    if i == ls.len() {
        assert(ls.subrange(0, i) =~= ls);
    } else {
        lemma_fp_total_prefix(ls, i + 1);
        assert(ls.subrange(0, i + 1) =~= ls.subrange(0, i).push(ls[i]));
        lemma_fp_total_push(ls.subrange(0, i), ls[i]);
    }
}

/// The per-tick decision of the order-flow strategy. The position is only
/// read, never changed: entries and exits go through the position manager.
pub fn of1(
    state: &mut Of1State,
    market: &MarketState,
    params: &Of1Params,
    position: &mut PositionState,
) -> (r: Signal)
    requires
        old(state).wf(),
        params.wf(),
        market.wf(),
    ensures
        final(state).wf(),
        *final(position) == *old(position),
        *final(state) == of1_spec(*old(state), market@, *params, *old(position)).0,
        decision_of(r) == of1_spec(*old(state), market@, *params, *old(position)).1,
        (market_ready(market@) && *old(position) is Flat && session_step(
            *old(state),
            market@,
            *params,
            market@.current_ticker->0.trade_price,
        ).1 is Enter) ==> (r matches Signal::Buy { reason, .. } && reason@ == "OF1 Absorption"@),
        (market_ready(market@) && *old(position) is Flat && !(session_step(
            *old(state),
            market@,
            *params,
            market@.current_ticker->0.trade_price,
        ).1 is Enter) && momentum_fires(market@, *params)) ==> (r matches Signal::Buy {
            reason,
            ..
        } && reason@ == "OF1 Momentum"@),
{
    let ticker = match &market.current_ticker {
        None => {
            return Signal::Hold;
        },
        Some(t) => *t,
    };
    let nf = market.footprints.len();
    if nf == 0 {
        return Signal::Hold;
    }
    match &market.current_mutation_candle {
        None => {
            return Signal::Hold;
        },
        Some(_) => {},
    }
    let flat = match position {
        PositionState::Flat => true,
        PositionState::InPosition { .. } => false,
    };
    if !flat {
        return Signal::Hold;
    }
    let price = ticker.trade_price;
    // --- absorption session management ---
    let mut entry: Option<Signal> = None;
    let ghost sd = session_step(*old(state), market@, *params, price);
    match state.absorb_price {
        None => {
            if state.indicator.absorption_price.is_some() && market.history_candles.len() > 0 {
                let nh = market.history_candles.len();
                let last_low = market.history_candles[nh - 1].low_price;
                proof {
                    assert(market@.history_candles[nh - 1] == market@.history_candles.last());
                }
                state.absorb_candle_low_price = Some(last_low);
                state.absorb_price = state.indicator.absorption_price;
            }
        },
        Some(ap) => {
            if price < ap {
                state.initialize_session();
            } else if price > ap {
                let confirmed = delta_confirmation(
                    &market.footprints[nf - 1].levels,
                    price,
                    params.absorption_delta_ratio,
                );
                proof {
                    assert(market@.footprints[nf - 1] == market@.footprints.last());
                }
                if confirmed {
                    match state.absorb_candle_low_price {
                        Some(low) => {
                            if low < price {
                                let tp = take_profit_price(price, low, params.rr_ratio);
                                entry = Some(
                                    Signal::Buy {
                                        reason: make_reason("OF1 Absorption"),
                                        initial_trailing_stop: low,
                                        take_profit: tp,
                                        asset_ppm: SCALE,
                                    },
                                );
                            }
                        },
                        None => {},
                    }
                    state.initialize_session();
                }
            }
        },
    }
    proof {
        assert(*state == sd.0);
        match &entry {
            Some(s) => {
                assert(decision_of(*s) == sd.1);
            },
            None => {
                assert(sd.1 == Decision::Stay);
            },
        }
    }
    if let Some(sig) = entry {
        return sig;
    }
    // --- independent momentum breakout on the forming candle ---
    let mc = match &market.current_mutation_candle {
        None => {
            return Signal::Hold;
        },
        Some(c) => *c,
    };
    let bullish = mc.opening_price < mc.trade_price;
    proof {
        lemma_mul_le(
            market@.candle_10_avg_volume as int,
            params.momentum_volume_multiplier as int,
            u64::MAX as int,
            u64::MAX as int,
        );
        lemma_mul_le(
            market@.candle_20_avg_candle_range as int,
            params.momentum_candle_range_multiplier as int,
            u64::MAX as int,
            u64::MAX as int,
        );
    }
    let vol_hot = (mc.candle_acc_trade_volume as u128) * (SCALE as u128) > (
    market.candle_10_avg_volume as u128) * (params.momentum_volume_multiplier as u128);
    let range_hot = ((mc.high_price - mc.low_price) as u128) * (SCALE as u128) > (
    market.candle_20_avg_candle_range as u128) * (params.momentum_candle_range_multiplier as u128);
    if bullish && vol_hot && range_hot {
        state.initialize_session();
        let tp = take_profit_price(mc.trade_price, mc.low_price, params.rr_ratio);
        return Signal::Buy {
            reason: make_reason("OF1 Momentum"),
            initial_trailing_stop: mc.low_price,
            take_profit: tp,
            asset_ppm: SCALE,
        };
    }
    Signal::Hold
}

/// Builds an owned reason string from a literal.
fn make_reason(text: &str) -> (r: String)
    ensures
        r@ == text@,
{
    text.to_owned()
}

/// Whether the mean per-price delta above `price` exceeds the configured
/// share of the mean volume there.
fn delta_confirmation(levels: &Vec<FootprintLevel>, price: u64, ratio_ppm: u64) -> (r: bool)
    requires
        ratio_ppm <= SCALE,
        fp_total(levels@) <= FOOTPRINT_VOLUME_LIMIT,
    ensures
        r == delta_confirms(levels@, price, ratio_ppm),
{
    let ghost ls = levels@;
    let n = levels.len();
    let mut delta: i128 = 0;
    let mut total: i128 = 0;
    let mut i: usize = 0;
    proof {
        assert(ls.subrange(0, 0) =~= Seq::<FootprintLevel>::empty());
        assert(total_above(ls.subrange(0, 0), price) == 0);
        assert(delta_above(ls.subrange(0, 0), price) == 0);
        assert(fp_total(ls.subrange(0, 0)) == 0);
        lemma_fp_total_prefix(ls, 0);
    }
    while i < n
        invariant
            i <= n,
            n == ls.len(),
            levels@ == ls,
            fp_total(ls) <= FOOTPRINT_VOLUME_LIMIT,
            delta == delta_above(ls.subrange(0, i as int), price),
            total == total_above(ls.subrange(0, i as int), price),
            total <= fp_total(ls.subrange(0, i as int)),
            fp_total(ls.subrange(0, i as int)) <= fp_total(ls),
            -total <= delta <= total,
        decreases n - i,
    {
        proof {
            assert(ls.subrange(0, i as int).push(ls[i as int]) =~= ls.subrange(0, i as int + 1));
            lemma_delta_sums_push(ls.subrange(0, i as int), ls[i as int], price);
            lemma_fp_total_push(ls.subrange(0, i as int), ls[i as int]);
            lemma_fp_total_prefix(ls, i as int + 1);
            lemma_delta_sums_bounds(ls.subrange(0, i as int), price);
        }
        let l = levels[i];
        if l.price > price {
            delta = delta + l.value.ask_volume as i128 - l.value.bid_volume as i128;
            total = total + l.value.ask_volume as i128 + l.value.bid_volume as i128;
        }
        i = i + 1;
    }
    proof {
        assert(ls.subrange(0, n as int) =~= ls);
        lemma_delta_sums_bounds(ls, price);
        lemma_mul_le(
            ratio_ppm as int,
            total as int,
            SCALE as int,
            FOOTPRINT_VOLUME_LIMIT as int,
        );
        assert((-(FOOTPRINT_VOLUME_LIMIT as int)) * (SCALE as int) <= delta * SCALE <= (
        FOOTPRINT_VOLUME_LIMIT as int) * (SCALE as int)) by (nonlinear_arith)
            requires
                -(FOOTPRINT_VOLUME_LIMIT as int) <= delta <= FOOTPRINT_VOLUME_LIMIT as int,
        ;
    }
    delta * SCALE as i128 > ratio_ppm as i128 * total
}

/// The take-profit price for an entry at `price` with its stop at `low`,
/// saturating at the integer ceiling.
fn take_profit_price(price: u64, low: u64, rr_ppm: u64) -> (r: u64)
    requires
        low <= price,
        rr_ppm <= MULTIPLIER_LIMIT,
    ensures
        r == spec_take_profit(price, low, rr_ppm),
{
    proof {
        lemma_mul_le((price - low) as int, rr_ppm as int, u64::MAX as int, u64::MAX as int);
    }
    let risk = ((price - low) as u128) * (rr_ppm as u128) / (SCALE as u128);
    let tp = price as u128 + risk;
    if tp <= u64::MAX as u128 {
        tp as u64
    } else {
        u64::MAX
    }
}

/// Absorption session abandonment: with a session active, a price tick
/// below the absorption price resets the session to inactive and (unless
/// the independent momentum breakout fires at the same tick) no entry is
/// signalled.
pub proof fn lemma_absorption_abandonment(
    s: Of1State,
    m: MarketModel,
    params: Of1Params,
    pos: PositionState,
    ap: u64,
)
    requires
        s.absorb_price == Some(ap),
        market_ready(m),
        pos is Flat,
        m.current_ticker->0.trade_price < ap,
        !momentum_fires(m, params),
    ensures
        of1_spec(s, m, params, pos).0.absorb_price is None,
        of1_spec(s, m, params, pos).1 == Decision::Stay,
{
}

} // verus!
