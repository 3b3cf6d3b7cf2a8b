//! The simple moving average: a rolling arithmetic mean.

use vstd::prelude::*;

use crate::arith::{
    is_difference, is_mean, is_number, is_running_total, is_share, is_sum, is_total, share,
    Arithmetic,
};
use crate::error::IndicatorError;

verus! {

/// The lookback period that a simple moving average has where none is given.
pub const DEFAULT_SMA_PERIOD: usize = 20;

/// One step of the average at index `i`, from the running sum `before` to the
/// running sum `after` and the value `value`: `data[i]` enters the sum, giving
/// `entered`; from index `period` on, `data[i - period]` leaves it; and from
/// index `period - 1` on the value is the sum divided by `period`, before
/// that the padding zero.
pub open spec fn is_sma_step<T, A: Arithmetic<T>>(
    arith: &A,
    data: Seq<T>,
    period: usize,
    i: int,
    before: T,
    entered: T,
    after: T,
    value: T,
) -> bool {
    &&& is_sum(arith, before, data[i], entered)
    &&& if i >= period {
        is_difference(arith, entered, data[i - period], after)
    } else {
        after == entered
    }
    &&& if i + 1 < period {
        is_number(arith, 0, value)
    } else {
        is_share(arith, after, period, value)
    }
}

/// `out` is the simple moving average of `data` that the running sums `sums`
/// give, one sum before the first index and one after each step.
pub open spec fn is_sma_run<T, A: Arithmetic<T>>(
    arith: &A,
    data: Seq<T>,
    period: usize,
    entered: Seq<T>,
    sums: Seq<T>,
    out: Seq<T>,
) -> bool {
    &&& out.len() == data.len()
    &&& entered.len() == data.len()
    &&& sums.len() == data.len() + 1
    &&& is_number(arith, 0, sums[0])
    &&& forall|i: int|
        0 <= i < data.len() ==> is_sma_step(
            arith,
            data,
            period,
            i,
            sums[i],
            entered[i],
            sums[i + 1],
            #[trigger] out[i],
        )
}

/// `out` is a simple moving average of `data` over `period`: as long as
/// `data`, zero before index `period - 1`, and from there on the mean of the
/// last `period` items, taken from a sum that is kept from step to step.
pub open spec fn is_sma<T, A: Arithmetic<T>>(
    arith: &A,
    data: Seq<T>,
    period: usize,
    out: Seq<T>,
) -> bool {
    exists|entered: Seq<T>, sums: Seq<T>| #[trigger]
        is_sma_run(arith, data, period, entered, sums, out)
}

/// The simple moving average of `data` over `period`. A period of zero is
/// refused.
pub fn calculate_sma<T: Copy, A: Arithmetic<T>>(arith: &A, data: &Vec<T>, period: usize) -> (r:
    Result<Vec<T>, IndicatorError>)
    ensures
        r is Err <==> period == 0,
        r matches Ok(out) ==> out.len() == data.len() && is_sma(arith, data@, period, out@),
{
    if period == 0 {
        return Err(IndicatorError::InvalidArgument);
    }
    let zero = arith.number(0);
    let mut sum = zero;
    let mut out: Vec<T> = Vec::new();
    let ghost mut entered: Seq<T> = Seq::empty();
    let ghost mut sums: Seq<T> = seq![zero];
    let mut i: usize = 0;
    while i < data.len()
        invariant
            period > 0,
            i <= data.len(),
            is_number(arith, 0, zero),
            out.len() == i,
            entered.len() == i,
            sums.len() == i + 1,
            sums[0] == zero,
            sums.last() == sum,
            forall|j: int|
                0 <= j < i ==> is_sma_step(
                    arith,
                    data@,
                    period,
                    j,
                    sums[j],
                    entered[j],
                    sums[j + 1],
                    #[trigger] out@[j],
                ),
        decreases data.len() - i,
    {
        let joined = arith.plus(sum, data[i]);
        if i >= period {
            sum = arith.minus(joined, data[i - period]);
        } else {
            sum = joined;
        }
        let value = if i < period - 1 {
            zero
        } else {
            share(arith, sum, period)
        };
        out.push(value);
        proof {
            entered = entered.push(joined);
            sums = sums.push(sum);
        }
        i += 1;
    }
    assert(is_sma_run(arith, data@, period, entered, sums, out@));
    Ok(out)
}

/// Up to the first full window a simple moving average holds what the middle
/// Bollinger band holds: zero, and then the mean of the window, added up from
/// zero in order. Later values are taken from the running sum, which is the
/// total of its window in exact arithmetic only.
pub proof fn lemma_sma_up_to_first_window<T, A: Arithmetic<T>>(
    arith: &A,
    data: Seq<T>,
    period: usize,
    out: Seq<T>,
    i: int,
)
    requires
        period > 0,
        is_sma(arith, data, period, out),
        0 <= i < data.len(),
        i < period,
    ensures
        if i + 1 < period {
            is_number(arith, 0, out[i])
        } else {
            is_mean(arith, data.subrange(i + 1 - period, i + 1), out[i])
        },
{
    let (entered, sums) = choose|entered: Seq<T>, sums: Seq<T>| #[trigger]
        is_sma_run(arith, data, period, entered, sums, out);
    if i + 1 == period {
        let window = data.subrange(0, i + 1);
        let head = sums.take(i + 2);
        assert forall|j: int| 0 <= j < window.len() implies is_sum(
            arith,
            head[j],
            window[j],
            #[trigger] head[j + 1],
        ) by {
            assert(is_sma_step(arith, data, period, j, sums[j], entered[j], sums[j + 1], out[j]));
        }
        assert(is_running_total(arith, window, head));
        assert(is_total(arith, window, sums[i + 1]));
    }
}

} // verus!
