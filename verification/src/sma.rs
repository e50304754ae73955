//! Simple moving average over the most recent values of a series.

use vstd::prelude::*;

verus! {

/// Largest accepted series length, keeping the sum inside 128 bits.
pub const SERIES_LIMIT: usize = 1_000_000;

/// Sum of a value sequence.
pub open spec fn sum_values(s: Seq<u64>) -> int
    decreases s.len(),
{
    if s.len() == 0 {
        0
    } else {
        s.first() + sum_values(s.drop_first())
    }
}

/// The simple moving average over the last `period` values: their sum
/// divided by `period`, rounded toward zero; nothing when the series is
/// shorter than the period.
pub open spec fn sma_spec(data: Seq<u64>, period: int) -> Option<int> {
    if period <= 0 || data.len() < period {
        None
    } else {
        Some(sum_values(data.subrange(data.len() - period, data.len() as int)) / period)
    }
}

proof fn lemma_sum_values_push(s: Seq<u64>, v: u64)
    ensures
        sum_values(s.push(v)) == sum_values(s) + v,
    decreases s.len(),
{
    if s.len() == 0 {
        assert(s.push(v).drop_first() =~= Seq::<u64>::empty());
        assert(s.push(v).first() == v);
        assert(sum_values(s.push(v).drop_first()) == 0);
        assert(sum_values(s) == 0);
    } else {
        assert(s.push(v).drop_first() =~= s.drop_first().push(v));
        assert(s.push(v).first() == s.first());
        lemma_sum_values_push(s.drop_first(), v);
        assert(sum_values(s.push(v)) == s.first() + sum_values(s.drop_first().push(v)));
        assert(sum_values(s) == s.first() + sum_values(s.drop_first()));
    }
}

/// The mean of the last `period` values of the series, rounded toward zero;
/// nothing when the series is shorter than the period or the period is zero.
pub fn calculate_sma(data: &Vec<u64>, period: usize) -> (r: Option<u64>)
    requires
        data@.len() <= SERIES_LIMIT,
    ensures
        r is Some <==> 0 < period <= data@.len(),
        match r {
            Some(v) => Some(v as int) == sma_spec(data@, period as int),
            None => sma_spec(data@, period as int) is None,
        },
{
    let n = data.len();
    if period == 0 || n < period {
        return None;
    }
    let start = n - period;
    let ghost window = data@.subrange(start as int, n as int);
    let mut sum: u128 = 0;
    let mut i: usize = start;
    proof {
        assert(window.subrange(0, 0) =~= Seq::<u64>::empty());
    }
    while i < n
        invariant
            start <= i <= n,
            n == data@.len() <= SERIES_LIMIT,
            start == n - period,
            window == data@.subrange(start as int, n as int),
            sum == sum_values(window.subrange(0, i - start)),
            sum <= (i - start) * (u64::MAX as int),
        decreases n - i,
    {
        proof {
            let k = i - start;
            assert(window.subrange(0, k as int).push(window[k as int]) =~= window.subrange(
                0,
                k as int + 1,
            ));
            lemma_sum_values_push(window.subrange(0, k as int), window[k as int]);
            assert(window[k as int] == data@[i as int]);
        }
        sum = sum + data[i] as u128;
        i = i + 1;
    }
    proof {
        assert(window.subrange(0, period as int) =~= window);
        assert(0 <= sum / (period as u128) <= u64::MAX) by (nonlinear_arith)
            requires
                0 < period,
                0 <= sum <= (period as int) * (u64::MAX as int),
        ;
    }
    Some((sum / period as u128) as u64)
}

} // verus!
