//! Single-candle and multi-candle pattern predicates.
//!
//! Every predicate is stated over exact rational proportions of the candle's
//! range. A share such as "at least 40% of the range" is written as the exact
//! integer comparison `5 * part >= 2 * range`, so no rounding is involved.

use vstd::prelude::*;
use crate::candle::Candle;

verus! {

/// Largest accepted history length for the long-candle comparisons, so that
/// the body-sum arithmetic fits in 128 bits.
pub const PATTERN_HISTORY_LIMIT: usize = 1_000_000;

/// Sum of the body sizes of a candle sequence.
pub open spec fn sum_bodies(s: Seq<Candle>) -> int
    decreases s.len(),
{
    if s.len() == 0 {
        0
    } else {
        s.first().spec_body() + sum_bodies(s.drop_first())
    }
}

proof fn lemma_sum_bodies_push(s: Seq<Candle>, c: Candle)
    ensures
        sum_bodies(s.push(c)) == sum_bodies(s) + c.spec_body(),
    decreases s.len(),
{
    if s.len() == 0 {
        assert(s.push(c).drop_first() =~= Seq::<Candle>::empty());
        assert(s.push(c).first() == c);
        assert(sum_bodies(s.push(c)) == c.spec_body() + sum_bodies(s.push(c).drop_first()));
        assert(sum_bodies(s.push(c).drop_first()) == 0);
        assert(sum_bodies(s) == 0);
    } else {
        assert(s.push(c).drop_first() =~= s.drop_first().push(c));
        assert(s.push(c).first() == s.first());
        lemma_sum_bodies_push(s.drop_first(), c);
        assert(sum_bodies(s.push(c)) == s.first().spec_body() + sum_bodies(
            s.drop_first().push(c),
        ));
        assert(sum_bodies(s) == s.first().spec_body() + sum_bodies(s.drop_first()));
    }
}

proof fn lemma_sum_bodies_bound(s: Seq<Candle>)
    ensures
        0 <= sum_bodies(s) <= s.len() * (u64::MAX as int),
    decreases s.len(),
{
    if s.len() > 0 {
        lemma_sum_bodies_bound(s.drop_first());
        assert(s.drop_first().len() * (u64::MAX as int) <= (s.len() - 1) * (u64::MAX as int));
    }
}

/// The products compared by the long-candle predicates stay well inside 128
/// bits when the history length is bounded.
proof fn lemma_history_products_fit(body: int, n: int, sum: int)
    requires
        0 <= body <= u64::MAX,
        0 < n <= PATTERN_HISTORY_LIMIT,
        0 <= sum <= n * (u64::MAX as int),
    ensures
        body * n <= (u64::MAX as int) * (PATTERN_HISTORY_LIMIT as int),
        2 * sum <= 2 * (u64::MAX as int) * (PATTERN_HISTORY_LIMIT as int),
{
    assert(body * n <= (u64::MAX as int) * (PATTERN_HISTORY_LIMIT as int)) by (nonlinear_arith)
        requires
            0 <= body <= u64::MAX,
            0 < n <= PATTERN_HISTORY_LIMIT,
    ;
    assert(n * (u64::MAX as int) <= (PATTERN_HISTORY_LIMIT as int) * (u64::MAX as int))
        by (nonlinear_arith)
        requires
            0 < n <= PATTERN_HISTORY_LIMIT,
    ;
}

/// Hammer: a long lower shadow (at least 40% of the range), a short upper
/// shadow (at most 35%) and a small body (at most 35%).
pub open spec fn is_hammer_spec(c: Candle) -> bool {
    &&& 5 * c.spec_lower_shadow() >= 2 * c.spec_range()
    &&& 20 * c.spec_upper_shadow() <= 7 * c.spec_range()
    &&& 20 * c.spec_body() <= 7 * c.spec_range()
}

/// Whether the candle is a hammer.
pub fn is_hammer(candle: &Candle) -> (r: bool)
    requires
        candle.wf(),
    ensures
        r == is_hammer_spec(*candle),
{
    let lower = lower_shadow(candle) as u128;
    let upper = upper_shadow(candle) as u128;
    let body = body_size(candle) as u128;
    let range = candle.range() as u128;
    5 * lower >= 2 * range && 20 * upper <= 7 * range && 20 * body <= 7 * range
}

/// Inverted hammer: a long upper shadow (at least 40% of the range), a short
/// lower shadow (at most 35%) and a small body (at most 35%).
pub open spec fn is_inverted_hammer_spec(c: Candle) -> bool {
    &&& 5 * c.spec_upper_shadow() >= 2 * c.spec_range()
    &&& 20 * c.spec_lower_shadow() <= 7 * c.spec_range()
    &&& 20 * c.spec_body() <= 7 * c.spec_range()
}

/// Whether the candle is an inverted hammer.
pub fn is_inverted_hammer(candle: &Candle) -> (r: bool)
    requires
        candle.wf(),
    ensures
        r == is_inverted_hammer_spec(*candle),
{
    let lower = lower_shadow(candle) as u128;
    let upper = upper_shadow(candle) as u128;
    let body = body_size(candle) as u128;
    let range = candle.range() as u128;
    5 * upper >= 2 * range && 20 * lower <= 7 * range && 20 * body <= 7 * range
}

/// Bullish candle with only a bottom tail: no upper shadow to speak of (at
/// most 5% of the range), a visible lower shadow (at least 10%) that stays
/// shorter than the body.
pub open spec fn is_bottom_tail_bullish_spec(c: Candle) -> bool {
    &&& c.spec_is_bullish()
    &&& 20 * c.spec_upper_shadow() <= c.spec_range()
    &&& 10 * c.spec_lower_shadow() >= c.spec_range()
    &&& c.spec_lower_shadow() < c.spec_body()
}

/// Whether the candle is a bottom-tail bullish continuation candle.
pub fn is_bottom_tail_bullish_candle(candle: &Candle) -> (r: bool)
    requires
        candle.wf(),
    ensures
        r == is_bottom_tail_bullish_spec(*candle),
{
    let lower = lower_shadow(candle) as u128;
    let upper = upper_shadow(candle) as u128;
    let body = body_size(candle) as u128;
    let range = candle.range() as u128;
    candle.is_bullish() && 20 * upper <= range && 10 * lower >= range && lower < body
}

/// Bearish candle with only a top tail: no lower shadow to speak of (at most
/// 5% of the range), a visible upper shadow (at least 10%) that stays shorter
/// than the body.
pub open spec fn is_top_tail_bearish_spec(c: Candle) -> bool {
    &&& c.trade_price < c.opening_price
    &&& 20 * c.spec_lower_shadow() <= c.spec_range()
    &&& 10 * c.spec_upper_shadow() >= c.spec_range()
    &&& c.spec_upper_shadow() < c.spec_body()
}

/// Whether the candle is a top-tail bearish continuation candle.
pub fn is_top_tail_bearish_candle(candle: &Candle) -> (r: bool)
    requires
        candle.wf(),
    ensures
        r == is_top_tail_bearish_spec(*candle),
{
    let lower = lower_shadow(candle) as u128;
    let upper = upper_shadow(candle) as u128;
    let body = body_size(candle) as u128;
    let range = candle.range() as u128;
    candle.trade_price < candle.opening_price && 20 * lower <= range && 10 * upper >= range
        && upper < body
}

/// Long bullish candle: bullish, body at least 70% of the range, and at least
/// twice the average body of the preceding candles (when any are given).
pub open spec fn is_long_bullish_spec(c: Candle, prev: Seq<Candle>) -> bool {
    &&& c.spec_is_bullish()
    &&& 10 * c.spec_body() >= 7 * c.spec_range()
    &&& (prev.len() == 0 || c.spec_body() * prev.len() >= 2 * sum_bodies(prev))
}

/// Whether the candle is a long bullish candle relative to its predecessors.
pub fn is_long_bullish_candle(candle: &Candle, previous_candles: &[Candle]) -> (r: bool)
    requires
        candle.wf(),
        previous_candles@.len() <= PATTERN_HISTORY_LIMIT,
    ensures
        r == is_long_bullish_spec(*candle, previous_candles@),
{
    let body = body_size(candle) as u128;
    let range = candle.range() as u128;
    if !(candle.is_bullish() && 10 * body >= 7 * range) {
        return false;
    }
    if previous_candles.len() == 0 {
        return true;
    }
    let n = previous_candles.len();
    let sum = body_sum(previous_candles);
    proof {
        lemma_sum_bodies_bound(previous_candles@);
        lemma_history_products_fit(body as int, n as int, sum as int);
    }
    body * (n as u128) >= 2 * sum
}

/// Long bearish candle: bearish, body at least 70% of the range, and at least
/// twice the average body of the preceding candles (when any are given).
pub open spec fn is_long_bearish_spec(c: Candle, prev: Seq<Candle>) -> bool {
    &&& c.trade_price < c.opening_price
    &&& 10 * c.spec_body() >= 7 * c.spec_range()
    &&& (prev.len() == 0 || c.spec_body() * prev.len() >= 2 * sum_bodies(prev))
}

/// Whether the candle is a long bearish candle relative to its predecessors.
pub fn is_long_bearish_candle(candle: &Candle, previous_candles: &[Candle]) -> (r: bool)
    requires
        candle.wf(),
        previous_candles@.len() <= PATTERN_HISTORY_LIMIT,
    ensures
        r == is_long_bearish_spec(*candle, previous_candles@),
{
    let body = body_size(candle) as u128;
    let range = candle.range() as u128;
    if !(candle.trade_price < candle.opening_price && 10 * body >= 7 * range) {
        return false;
    }
    if previous_candles.len() == 0 {
        return true;
    }
    let n = previous_candles.len();
    let sum = body_sum(previous_candles);
    proof {
        lemma_sum_bodies_bound(previous_candles@);
        lemma_history_products_fit(body as int, n as int, sum as int);
    }
    body * (n as u128) >= 2 * sum
}

/// Rising belt-hold: bullish, opens at (or next to) its low and carries an
/// upper shadow of at least 20% of the range.
pub open spec fn is_rising_shooting_star_spec(c: Candle) -> bool {
    &&& c.spec_is_bullish()
    &&& 10 * c.spec_lower_shadow() <= c.spec_range()
    &&& 5 * c.spec_upper_shadow() >= c.spec_range()
}

/// Whether the candle is a rising belt-hold candle.
pub fn is_rising_shooting_star(candle: &Candle) -> (r: bool)
    requires
        candle.wf(),
    ensures
        r == is_rising_shooting_star_spec(*candle),
{
    let lower = lower_shadow(candle) as u128;
    let upper = upper_shadow(candle) as u128;
    let range = candle.range() as u128;
    candle.is_bullish() && 10 * lower <= range && 5 * upper >= range
}

/// Falling belt-hold: bearish, closes at (or next to) its low and carries an
/// upper shadow of at least 20% of the range.
pub open spec fn is_falling_shooting_star_spec(c: Candle) -> bool {
    &&& c.trade_price < c.opening_price
    &&& 10 * c.spec_lower_shadow() <= c.spec_range()
    &&& 5 * c.spec_upper_shadow() >= c.spec_range()
}

/// Whether the candle is a falling belt-hold candle.
pub fn is_falling_shooting_star(candle: &Candle) -> (r: bool)
    requires
        candle.wf(),
    ensures
        r == is_falling_shooting_star_spec(*candle),
{
    let lower = lower_shadow(candle) as u128;
    let upper = upper_shadow(candle) as u128;
    let range = candle.range() as u128;
    candle.trade_price < candle.opening_price && 10 * lower <= range && 5 * upper >= range
}

/// Hanging man: lower shadow of at least 60% of the range, upper shadow of at
/// most 10%, body of at most 30%.
pub open spec fn is_hanging_man_spec(c: Candle) -> bool {
    &&& 5 * c.spec_lower_shadow() >= 3 * c.spec_range()
    &&& 10 * c.spec_upper_shadow() <= c.spec_range()
    &&& 10 * c.spec_body() <= 3 * c.spec_range()
}

/// Whether the candle is a hanging man.
pub fn is_hanging_man(candle: &Candle) -> (r: bool)
    requires
        candle.wf(),
    ensures
        r == is_hanging_man_spec(*candle),
{
    let lower = lower_shadow(candle) as u128;
    let upper = upper_shadow(candle) as u128;
    let body = body_size(candle) as u128;
    let range = candle.range() as u128;
    5 * lower >= 3 * range && 10 * upper <= range && 10 * body <= 3 * range
}

/// Shooting star: upper shadow of at least 70% of the range, lower shadow of
/// at most 5%, body of at most 25%.
pub open spec fn is_shooting_star_spec(c: Candle) -> bool {
    &&& 10 * c.spec_upper_shadow() >= 7 * c.spec_range()
    &&& 20 * c.spec_lower_shadow() <= c.spec_range()
    &&& 4 * c.spec_body() <= c.spec_range()
}

/// Whether the candle is a shooting star.
pub fn is_shooting_star(candle: &Candle) -> (r: bool)
    requires
        candle.wf(),
    ensures
        r == is_shooting_star_spec(*candle),
{
    let lower = lower_shadow(candle) as u128;
    let upper = upper_shadow(candle) as u128;
    let body = body_size(candle) as u128;
    let range = candle.range() as u128;
    10 * upper >= 7 * range && 20 * lower <= range && 4 * body <= range
}

/// Doji: the body is at most 10% of the range.
pub open spec fn is_doji_spec(c: Candle) -> bool {
    10 * c.spec_body() <= c.spec_range()
}

/// Whether the candle is a doji.
pub fn is_doji(candle: &Candle) -> (r: bool)
    requires
        candle.wf(),
    ensures
        r == is_doji_spec(*candle),
{
    let body = body_size(candle) as u128;
    let range = candle.range() as u128;
    10 * body <= range
}

/// Gravestone doji: tiny body (at most 5% of the range), upper shadow of at
/// least 60%, lower shadow of at most 5%.
pub open spec fn is_gravestone_doji_spec(c: Candle) -> bool {
    &&& 20 * c.spec_body() <= c.spec_range()
    &&& 5 * c.spec_upper_shadow() >= 3 * c.spec_range()
    &&& 20 * c.spec_lower_shadow() <= c.spec_range()
}

/// Whether the candle is a gravestone doji.
pub fn is_gravestone_doji(candle: &Candle) -> (r: bool)
    requires
        candle.wf(),
    ensures
        r == is_gravestone_doji_spec(*candle),
{
    let lower = lower_shadow(candle) as u128;
    let upper = upper_shadow(candle) as u128;
    let body = body_size(candle) as u128;
    let range = candle.range() as u128;
    20 * body <= range && 5 * upper >= 3 * range && 20 * lower <= range
}

/// Dragonfly doji: small body (at most 10% of the range), lower shadow of at
/// least 50%, upper shadow of at most 10%.
pub open spec fn is_dragonfly_doji_spec(c: Candle) -> bool {
    &&& 10 * c.spec_body() <= c.spec_range()
    &&& 2 * c.spec_lower_shadow() >= c.spec_range()
    &&& 10 * c.spec_upper_shadow() <= c.spec_range()
}

/// Whether the candle is a dragonfly doji.
pub fn is_dragonfly_doji(candle: &Candle) -> (r: bool)
    requires
        candle.wf(),
    ensures
        r == is_dragonfly_doji_spec(*candle),
{
    let lower = lower_shadow(candle) as u128;
    let upper = upper_shadow(candle) as u128;
    let body = body_size(candle) as u128;
    let range = candle.range() as u128;
    10 * body <= range && 2 * lower >= range && 10 * upper <= range
}

/// Four-price doji: body, upper shadow and lower shadow all at most 5% of the
/// range.
pub open spec fn is_four_price_doji_spec(c: Candle) -> bool {
    &&& 20 * c.spec_body() <= c.spec_range()
    &&& 20 * c.spec_upper_shadow() <= c.spec_range()
    &&& 20 * c.spec_lower_shadow() <= c.spec_range()
}

/// Whether the candle is a four-price doji.
pub fn is_four_price_doji(candle: &Candle) -> (r: bool)
    requires
        candle.wf(),
    ensures
        r == is_four_price_doji_spec(*candle),
{
    let lower = lower_shadow(candle) as u128;
    let upper = upper_shadow(candle) as u128;
    let body = body_size(candle) as u128;
    let range = candle.range() as u128;
    20 * body <= range && 20 * upper <= range && 20 * lower <= range
}

/// The candle patterns the library can identify.
#[derive(Clone, Copy, Debug, PartialEq, Eq, Structural)]
pub enum CandlePattern {
    Hammer,
    InvertedHammer,
    BottomTailBullish,
    TopTailBearish,
    LongBullishCandle,
    LongBearishCandle,
    RisingShootingStar,
    FallingShootingStar,
    HangingMan,
    ShootingStar,
    Doji,
    GravestoneDoji,
    DragonflyDoji,
    FourPriceDoji,
}

/// The Korean display name of each pattern.
pub open spec fn spec_korean_name(p: CandlePattern) -> Seq<char> {
    match p {
        CandlePattern::Hammer => "망치형"@,
        CandlePattern::InvertedHammer => "역망치형"@,
        CandlePattern::BottomTailBullish => "밑꼬리양봉형"@,
        CandlePattern::TopTailBearish => "윗꼬리음봉형"@,
        CandlePattern::LongBullishCandle => "장대 양봉형"@,
        CandlePattern::LongBearishCandle => "장대 음봉형"@,
        CandlePattern::RisingShootingStar => "상승 샅바형"@,
        CandlePattern::FallingShootingStar => "하락 샅바형"@,
        CandlePattern::HangingMan => "교수형"@,
        CandlePattern::ShootingStar => "유성형"@,
        CandlePattern::Doji => "십자형"@,
        CandlePattern::GravestoneDoji => "비석 십자형"@,
        CandlePattern::DragonflyDoji => "잠자리형"@,
        CandlePattern::FourPriceDoji => "점십자형"@,
    }
}

impl CandlePattern {
    /// The pattern's Korean name, romanized.
    pub fn to_korean_name(&self) -> (r: &'static str)
        ensures
            r@ == spec_korean_name(*self),
    {
        match self {
            CandlePattern::Hammer => "망치형",
            CandlePattern::InvertedHammer => "역망치형",
            CandlePattern::BottomTailBullish => "밑꼬리양봉형",
            CandlePattern::TopTailBearish => "윗꼬리음봉형",
            CandlePattern::LongBullishCandle => "장대 양봉형",
            CandlePattern::LongBearishCandle => "장대 음봉형",
            CandlePattern::RisingShootingStar => "상승 샅바형",
            CandlePattern::FallingShootingStar => "하락 샅바형",
            CandlePattern::HangingMan => "교수형",
            CandlePattern::ShootingStar => "유성형",
            CandlePattern::Doji => "십자형",
            CandlePattern::GravestoneDoji => "비석 십자형",
            CandlePattern::DragonflyDoji => "잠자리형",
            CandlePattern::FourPriceDoji => "점십자형",
        }
    }
}

/// Which pattern a candle matches, checked from the most specific shape down,
/// exactly in the order of [`identify_candle_pattern`].
pub open spec fn identify_spec(c: Candle, prev: Seq<Candle>) -> Option<CandlePattern> {
    if is_four_price_doji_spec(c) {
        Some(CandlePattern::FourPriceDoji)
    } else if is_gravestone_doji_spec(c) {
        Some(CandlePattern::GravestoneDoji)
    } else if is_dragonfly_doji_spec(c) {
        Some(CandlePattern::DragonflyDoji)
    } else if is_doji_spec(c) {
        Some(CandlePattern::Doji)
    } else if is_hanging_man_spec(c) {
        Some(CandlePattern::HangingMan)
    } else if is_shooting_star_spec(c) {
        Some(CandlePattern::ShootingStar)
    } else if is_hammer_spec(c) {
        Some(CandlePattern::Hammer)
    } else if is_inverted_hammer_spec(c) {
        Some(CandlePattern::InvertedHammer)
    } else if is_bottom_tail_bullish_spec(c) {
        Some(CandlePattern::BottomTailBullish)
    } else if is_top_tail_bearish_spec(c) {
        Some(CandlePattern::TopTailBearish)
    } else if is_rising_shooting_star_spec(c) {
        Some(CandlePattern::RisingShootingStar)
    } else if is_falling_shooting_star_spec(c) {
        Some(CandlePattern::FallingShootingStar)
    } else if is_long_bullish_spec(c, prev) {
        Some(CandlePattern::LongBullishCandle)
    } else if is_long_bearish_spec(c, prev) {
        Some(CandlePattern::LongBearishCandle)
    } else {
        None
    }
}

/// Identifies the candle's pattern, most specific shape first.
pub fn identify_candle_pattern(candle: &Candle, previous_candles: &[Candle]) -> (r: Option<
    CandlePattern,
>)
    requires
        candle.wf(),
        previous_candles@.len() <= PATTERN_HISTORY_LIMIT,
    ensures
        r == identify_spec(*candle, previous_candles@),
{
    if is_four_price_doji(candle) {
        Some(CandlePattern::FourPriceDoji)
    } else if is_gravestone_doji(candle) {
        Some(CandlePattern::GravestoneDoji)
    } else if is_dragonfly_doji(candle) {
        Some(CandlePattern::DragonflyDoji)
    } else if is_doji(candle) {
        Some(CandlePattern::Doji)
    } else if is_hanging_man(candle) {
        Some(CandlePattern::HangingMan)
    } else if is_shooting_star(candle) {
        Some(CandlePattern::ShootingStar)
    } else if is_hammer(candle) {
        Some(CandlePattern::Hammer)
    } else if is_inverted_hammer(candle) {
        Some(CandlePattern::InvertedHammer)
    } else if is_bottom_tail_bullish_candle(candle) {
        Some(CandlePattern::BottomTailBullish)
    } else if is_top_tail_bearish_candle(candle) {
        Some(CandlePattern::TopTailBearish)
    } else if is_rising_shooting_star(candle) {
        Some(CandlePattern::RisingShootingStar)
    } else if is_falling_shooting_star(candle) {
        Some(CandlePattern::FallingShootingStar)
    } else if is_long_bullish_candle(candle, previous_candles) {
        Some(CandlePattern::LongBullishCandle)
    } else if is_long_bearish_candle(candle, previous_candles) {
        Some(CandlePattern::LongBearishCandle)
    } else {
        None
    }
}

/// Absolute distance between the candle's open and close.
fn body_size(candle: &Candle) -> (r: u64)
    ensures
        r == candle.spec_body(),
{
    if candle.trade_price >= candle.opening_price {
        candle.trade_price - candle.opening_price
    } else {
        candle.opening_price - candle.trade_price
    }
}

/// Distance from the top of the candle's body to its high.
fn upper_shadow(candle: &Candle) -> (r: u64)
    requires
        candle.wf(),
    ensures
        r == candle.spec_upper_shadow(),
{
    if candle.trade_price >= candle.opening_price {
        candle.high_price - candle.trade_price
    } else {
        candle.high_price - candle.opening_price
    }
}

/// Distance from the candle's low to the bottom of its body.
fn lower_shadow(candle: &Candle) -> (r: u64)
    requires
        candle.wf(),
    ensures
        r == candle.spec_lower_shadow(),
{
    if candle.trade_price >= candle.opening_price {
        candle.opening_price - candle.low_price
    } else {
        candle.trade_price - candle.low_price
    }
}

/// Sum of the body sizes of a candle slice.
fn body_sum(candles: &[Candle]) -> (r: u128)
    requires
        candles@.len() <= PATTERN_HISTORY_LIMIT,
    ensures
        r == sum_bodies(candles@),
{
    let mut sum: u128 = 0;
    let n = candles.len();
    let mut i: usize = 0;
    proof {
        assert(candles@.subrange(0, 0) =~= Seq::<Candle>::empty());
    }
    while i < n
        invariant
            i <= n,
            n == candles@.len() <= PATTERN_HISTORY_LIMIT,
            sum == sum_bodies(candles@.subrange(0, i as int)),
            sum <= i * (u64::MAX as int),
        decreases n - i,
    {
        let c = candles[i];
        let b = if c.trade_price >= c.opening_price {
            c.trade_price - c.opening_price
        } else {
            c.opening_price - c.trade_price
        };
        proof {
            lemma_sum_bodies_push(candles@.subrange(0, i as int), candles@[i as int]);
            assert(candles@.subrange(0, i as int).push(candles@[i as int]) =~= candles@.subrange(
                0,
                i as int + 1,
            ));
        }
        sum = sum + b as u128;
        i = i + 1;
    }
    proof {
        assert(candles@.subrange(0, n as int) =~= candles@);
    }
    sum
}

} // verus!
