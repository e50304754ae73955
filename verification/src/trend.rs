//! Trend classification by comparison of two moving averages.

use vstd::prelude::*;
use crate::sma::{SERIES_LIMIT, sum_values};

verus! {

/// The direction a value series is moving in.
#[derive(Clone, Copy, Debug, PartialEq, Eq, Structural)]
pub enum Trend {
    /// The short average runs more than one percent above the long one.
    Uptrend,
    /// The short average runs more than one percent below the long one.
    Downtrend,
    /// The two averages lie within one percent of each other.
    Sideways,
}

/// The trend of a series by moving-average crossover: the short mean over
/// the last `sp` values against the long mean over the last `lp` values,
/// with a one-percent dead band for sideways markets. Nothing when the
/// periods are not ordered or the series is too short; sideways when the
/// long mean is zero (the division-by-zero fallback).
pub open spec fn trend_spec(values: Seq<u64>, sp: int, lp: int) -> Option<Trend> {
    if !(0 < sp && sp < lp && lp <= values.len()) {
        None
    } else {
        let s = sum_values(values.subrange(values.len() - sp, values.len() as int));
        let l = sum_values(values.subrange(values.len() - lp, values.len() as int));
        if l == 0 {
            Some(Trend::Sideways)
        } else if 100 * s * lp > 101 * sp * l {
            Some(Trend::Uptrend)
        } else if 100 * s * lp < 99 * sp * l {
            Some(Trend::Downtrend)
        } else {
            Some(Trend::Sideways)
        }
    }
}

proof fn lemma_sum_window_push(s: Seq<u64>, v: u64)
    ensures
        sum_values(s.push(v)) == sum_values(s) + v,
    decreases s.len(),
{
    if s.len() == 0 {
        assert(s.push(v).drop_first() =~= Seq::<u64>::empty());
        assert(s.push(v).first() == v);
        assert(sum_values(s.push(v).drop_first()) == 0);
        assert(sum_values(s) == 0);
    } else {
        assert(s.push(v).drop_first() =~= s.drop_first().push(v));
        assert(s.push(v).first() == s.first());
        lemma_sum_window_push(s.drop_first(), v);
        assert(sum_values(s.push(v)) == s.first() + sum_values(s.drop_first().push(v)));
        assert(sum_values(s) == s.first() + sum_values(s.drop_first()));
    }
}

/// Sum of the last `period` values of the series.
fn sum_last(data: &Vec<u64>, period: usize) -> (r: u128)
    requires
        0 < period <= data@.len() <= SERIES_LIMIT,
    ensures
        r == sum_values(data@.subrange(data@.len() - period, data@.len() as int)),
        r <= (period as int) * (u64::MAX as int),
{
    let n = data.len();
    let start = n - period;
    let ghost window = data@.subrange(start as int, n as int);
    let mut sum: u128 = 0;
    let mut i: usize = start;
    proof {
        assert(window.subrange(0, 0) =~= Seq::<u64>::empty());
    }
    while i < n
        invariant
            start <= i <= n,
            n == data@.len() <= SERIES_LIMIT,
            start == n - period,
            window == data@.subrange(start as int, n as int),
            sum == sum_values(window.subrange(0, i - start)),
            sum <= (i - start) * (u64::MAX as int),
        decreases n - i,
    {
        proof {
            let k = i - start;
            assert(window.subrange(0, k as int).push(window[k as int]) =~= window.subrange(
                0,
                k as int + 1,
            ));
            lemma_sum_window_push(window.subrange(0, k as int), window[k as int]);
            assert(window[k as int] == data@[i as int]);
        }
        sum = sum + data[i] as u128;
        i = i + 1;
    }
    proof {
        assert(window.subrange(0, period as int) =~= window);
    }
    sum
}

/// Classifies the series' trend by comparing its short and long moving
/// averages; see [`trend_spec`] for the exact rule.
pub fn analyze_trend_moving_average(values: &Vec<u64>, short_period: usize, long_period: usize)
    -> (r: Option<Trend>)
    requires
        values@.len() <= SERIES_LIMIT,
    ensures
        r == trend_spec(values@, short_period as int, long_period as int),
        r is Some <==> 0 < short_period < long_period <= values@.len(),
{
    let n = values.len();
    if !(0 < short_period && short_period < long_period && long_period <= n) {
        return None;
    }
    let s = sum_last(values, short_period);
    let l = sum_last(values, long_period);
    if l == 0 {
        return Some(Trend::Sideways);
    }
    proof {
        lemma_trend_products_fit(
            s as int,
            l as int,
            short_period as int,
            long_period as int,
        );
    }
    let up = 100 * s * (long_period as u128) > 101 * (short_period as u128) * l;
    let down = 100 * s * (long_period as u128) < 99 * (short_period as u128) * l;
    if up {
        Some(Trend::Uptrend)
    } else if down {
        Some(Trend::Downtrend)
    } else {
        Some(Trend::Sideways)
    }
}

/// The crossover products stay well inside 128 bits for bounded series.
proof fn lemma_trend_products_fit(s: int, l: int, sp: int, lp: int)
    requires
        0 < sp <= SERIES_LIMIT,
        0 < lp <= SERIES_LIMIT,
        0 <= s <= sp * (u64::MAX as int),
        0 <= l <= lp * (u64::MAX as int),
    ensures
        0 <= 100 * s * lp <= 101 * (SERIES_LIMIT as int) * (u64::MAX as int) * (
        SERIES_LIMIT as int),
        0 <= 101 * sp * l <= 101 * (SERIES_LIMIT as int) * (u64::MAX as int) * (
        SERIES_LIMIT as int),
        0 <= 99 * sp * l <= 101 * (SERIES_LIMIT as int) * (u64::MAX as int) * (
        SERIES_LIMIT as int),
{
    assert(s <= (SERIES_LIMIT as int) * (u64::MAX as int)) by (nonlinear_arith)
        requires
            0 < sp <= SERIES_LIMIT,
            0 <= s <= sp * (u64::MAX as int),
    ;
    assert(l <= (SERIES_LIMIT as int) * (u64::MAX as int)) by (nonlinear_arith)
        requires
            0 < lp <= SERIES_LIMIT,
            0 <= l <= lp * (u64::MAX as int),
    ;
    assert(0 <= 100 * s * lp <= 101 * (SERIES_LIMIT as int) * (u64::MAX as int) * (
    SERIES_LIMIT as int)) by (nonlinear_arith)
        requires
            0 <= s <= (SERIES_LIMIT as int) * (u64::MAX as int),
            0 < lp <= SERIES_LIMIT,
    ;
    assert(0 <= 101 * sp * l <= 101 * (SERIES_LIMIT as int) * (u64::MAX as int) * (
    SERIES_LIMIT as int) && 0 <= 99 * sp * l <= 101 * (SERIES_LIMIT as int) * (u64::MAX as int) * (
    SERIES_LIMIT as int)) by (nonlinear_arith)
        requires
            0 <= l <= (SERIES_LIMIT as int) * (u64::MAX as int),
            0 < sp <= SERIES_LIMIT,
    ;
}

} // verus!
