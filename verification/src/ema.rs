//! The exponential moving average.

use vstd::prelude::*;

use crate::arith::{
    index_before, is_difference, is_mean, is_number, is_product, is_quotient, is_sum, mean,
    Arithmetic,
};
use crate::error::IndicatorError;

verus! {

/// The lookback period that an exponential moving average has where none is
/// given.
pub const DEFAULT_EMA_PERIOD: usize = 14;

/// The index of the first value of the average: `period - 1` where the data
/// reach that far, and 0 where they do not.
pub open spec fn ema_start(len: int, period: int) -> int {
    if len >= period {
        period - 1
    } else {
        0
    }
}

/// `weight` is a result of `2 / (period + 1)`, and `rest` a result of
/// `1 - weight`.
pub open spec fn is_ema_weights<T, A: Arithmetic<T>>(
    arith: &A,
    period: usize,
    weight: T,
    rest: T,
) -> bool {
    exists|p: T, one: T, two: T, d: T|
        #![trigger is_sum(arith, p, one, d), is_quotient(arith, two, d, weight)]
        {
            &&& is_number(arith, period, p)
            &&& is_number(arith, 1, one)
            &&& is_number(arith, 2, two)
            &&& is_sum(arith, p, one, d)
            &&& is_quotient(arith, two, d, weight)
            &&& is_difference(arith, one, weight, rest)
        }
}

/// `r` is a result of `x * weight + previous * rest`.
pub open spec fn is_smoothed<T, A: Arithmetic<T>>(
    arith: &A,
    x: T,
    weight: T,
    previous: T,
    rest: T,
    r: T,
) -> bool {
    exists|a: T, b: T|
        #![trigger is_sum(arith, a, b, r)]
        {
            &&& is_product(arith, x, weight, a)
            &&& is_product(arith, previous, rest, b)
            &&& is_sum(arith, a, b, r)
        }
}

/// `value` is what the average holds at index `i`, given what it holds at
/// the index before: zero before `start`, the mean of `data[0..=start]` at
/// `start`, and after it the item smoothed into the previous value.
pub open spec fn is_ema_value<T, A: Arithmetic<T>>(
    arith: &A,
    data: Seq<T>,
    start: int,
    weight: T,
    rest: T,
    i: int,
    previous: T,
    value: T,
) -> bool {
    if i < start {
        is_number(arith, 0, value)
    } else if i == start {
        is_mean(arith, data.take(start + 1), value)
    } else {
        is_smoothed(arith, data[i], weight, previous, rest, value)
    }
}

/// `out` is the exponential moving average of `data` with the given weights.
pub open spec fn is_ema_run<T, A: Arithmetic<T>>(
    arith: &A,
    data: Seq<T>,
    period: usize,
    weight: T,
    rest: T,
    out: Seq<T>,
) -> bool {
    &&& out.len() == data.len()
    &&& forall|i: int|
        0 <= i < data.len() ==> is_ema_value(
            arith,
            data,
            ema_start(data.len() as int, period as int),
            weight,
            rest,
            i,
            out[index_before(i)],
            #[trigger] out[i],
        )
}

/// `out` is an exponential moving average of `data` over `period`: as long
/// as `data`; and where there are data, zero before the start, seeded at the
/// start with the mean of the items up to it, and from there on each item
/// smoothed into the value before with the weight `2 / (period + 1)`.
pub open spec fn is_ema<T, A: Arithmetic<T>>(
    arith: &A,
    data: Seq<T>,
    period: usize,
    out: Seq<T>,
) -> bool {
    &&& out.len() == data.len()
    &&& data.len() > 0 ==> exists|weight: T, rest: T|
        #![trigger is_ema_weights(arith, period, weight, rest)]
        is_ema_weights(arith, period, weight, rest) && is_ema_run(
            arith,
            data,
            period,
            weight,
            rest,
            out,
        )
}

/// The weights of the average over `period`.
fn ema_weights<T: Copy, A: Arithmetic<T>>(arith: &A, period: usize) -> (r: (T, T))
    ensures
        is_ema_weights(arith, period, r.0, r.1),
{
    let p = arith.number(period);
    let one = arith.number(1);
    let two = arith.number(2);
    let d = arith.plus(p, one);
    let weight = arith.over(two, d);
    let rest = arith.minus(one, weight);
    assert(is_sum(arith, p, one, d) && is_quotient(arith, two, d, weight));
    (weight, rest)
}

/// Smooths `x` into `previous`.
fn smooth<T: Copy, A: Arithmetic<T>>(arith: &A, x: T, weight: T, previous: T, rest: T) -> (r: T)
    ensures
        is_smoothed(arith, x, weight, previous, rest, r),
{
    let a = arith.times(x, weight);
    let b = arith.times(previous, rest);
    let r = arith.plus(a, b);
    assert(is_sum(arith, a, b, r));
    r
}

/// The exponential moving average of `data` over a period that is not zero.
pub(crate) fn smooth_series<T: Copy, A: Arithmetic<T>>(arith: &A, data: &Vec<T>, period: usize) -> (out:
    Vec<T>)
    requires
        period > 0,
    ensures
        is_ema(arith, data@, period, out@),
{
    let mut out: Vec<T> = Vec::new();
    if data.len() == 0 {
        return out;
    }
    let (weight, rest) = ema_weights(arith, period);
    let start: usize = if data.len() >= period {
        period - 1
    } else {
        0
    };
    let zero = arith.number(0);
    let mut i: usize = 0;
    while i < start
        invariant
            i <= start < data.len(),
            out.len() == i,
            is_number(arith, 0, zero),
            forall|j: int| 0 <= j < i ==> is_number(arith, 0, #[trigger] out@[j]),
        decreases start - i,
    {
        out.push(zero);
        i += 1;
    }
    let mut current = mean(arith, data, 0, start + 1);
    out.push(current);
    i = start + 1;
    while i < data.len()
        invariant
            start < i <= data.len(),
            start == ema_start(data.len() as int, period as int),
            out.len() == i,
            current == out@[i - 1],
            forall|j: int|
                0 <= j < i ==> is_ema_value(
                    arith,
                    data@,
                    start as int,
                    weight,
                    rest,
                    j,
                    out@[index_before(j)],
                    #[trigger] out@[j],
                ),
        decreases data.len() - i,
    {
        current = smooth(arith, data[i], weight, current, rest);
        out.push(current);
        i += 1;
    }
    out
}

/// The exponential moving average of `data` over `period`. A period of zero
/// is refused.
pub fn calculate_ema<T: Copy, A: Arithmetic<T>>(arith: &A, data: &Vec<T>, period: usize) -> (r:
    Result<Vec<T>, IndicatorError>)
    ensures
        r is Err <==> period == 0,
        r matches Ok(out) ==> out.len() == data.len() && is_ema(arith, data@, period, out@),
{
    if period == 0 {
        return Err(IndicatorError::InvalidArgument);
    }
    Ok(smooth_series(arith, data, period))
}

} // verus!
