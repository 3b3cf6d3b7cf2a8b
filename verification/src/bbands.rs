//! Bollinger bands: a rolling mean with a band of standard deviations around
//! it.

use vstd::prelude::*;

use crate::arith::{
    is_difference, is_mean, is_number, is_product, is_root, is_share, is_sum, mean, share,
    Arithmetic,
};
use crate::error::IndicatorError;
use crate::sma::{is_sma, lemma_sma_up_to_first_window};

verus! {

/// The lookback period that the bands have where none is given.
pub const DEFAULT_BBANDS_PERIOD: usize = 20;

/// The width of the bands, in standard deviations, where none is given.
pub const DEFAULT_BBANDS_WIDTH: usize = 2;

/// `after` is a result of `before + (x - center) * (x - center)`.
pub open spec fn is_squared_step<T, A: Arithmetic<T>>(
    arith: &A,
    x: T,
    center: T,
    before: T,
    after: T,
) -> bool {
    exists|d: T, square: T|
        #![trigger is_product(arith, d, d, square)]
        {
            &&& is_difference(arith, x, center, d)
            &&& is_product(arith, d, d, square)
            &&& is_sum(arith, before, square, after)
        }
}

/// `sums` holds the running totals of the squared distances of `items` from
/// `center`, added up from zero in order.
pub open spec fn is_squares_total<T, A: Arithmetic<T>>(
    arith: &A,
    items: Seq<T>,
    center: T,
    sums: Seq<T>,
) -> bool {
    &&& sums.len() == items.len() + 1
    &&& is_number(arith, 0, sums[0])
    &&& forall|i: int|
        0 <= i < items.len() ==> is_squared_step(
            arith,
            items[i],
            center,
            sums[i],
            #[trigger] sums[i + 1],
        )
}

/// `r` is a result of the population standard deviation of `items` about
/// `center`: the root of the total of the squared distances divided by the
/// number of items.
pub open spec fn is_deviation<T, A: Arithmetic<T>>(
    arith: &A,
    items: Seq<T>,
    center: T,
    r: T,
) -> bool {
    exists|sums: Seq<T>, variance: T|
        #![trigger is_squares_total(arith, items, center, sums), is_root(arith, variance, r)]
        {
            &&& is_squares_total(arith, items, center, sums)
            &&& is_share(arith, sums.last(), items.len() as usize, variance)
            &&& is_root(arith, variance, r)
        }
}

/// `upper`, `middle` and `lower` are the bands of the window `items`: the
/// middle is the mean, and the others lie `width` standard deviations above
/// and below it.
pub open spec fn is_band<T, A: Arithmetic<T>>(
    arith: &A,
    items: Seq<T>,
    width: T,
    upper: T,
    middle: T,
    lower: T,
) -> bool {
    &&& is_mean(arith, items, middle)
    &&& exists|deviation: T, reach: T|
        #![trigger is_deviation(arith, items, middle, deviation), is_product(arith, width, deviation, reach)]
        {
            &&& is_deviation(arith, items, middle, deviation)
            &&& is_product(arith, width, deviation, reach)
            &&& is_sum(arith, middle, reach, upper)
            &&& is_difference(arith, middle, reach, lower)
        }
}

/// What the three bands hold at index `i`: zero before index `period - 1`,
/// and from there on the bands of the last `period` items.
pub open spec fn is_bands_value<T, A: Arithmetic<T>>(
    arith: &A,
    data: Seq<T>,
    period: usize,
    width: T,
    i: int,
    upper: T,
    middle: T,
    lower: T,
) -> bool {
    if i + 1 < period {
        &&& is_number(arith, 0, upper)
        &&& is_number(arith, 0, middle)
        &&& is_number(arith, 0, lower)
    } else {
        is_band(arith, data.subrange(i + 1 - period, i + 1), width, upper, middle, lower)
    }
}

/// `upper`, `middle` and `lower` are the Bollinger bands of `data` over
/// `period` with the given width: each as long as `data`, and at every index
/// what [`is_bands_value`] says.
pub open spec fn is_bbands<T, A: Arithmetic<T>>(
    arith: &A,
    data: Seq<T>,
    period: usize,
    width: T,
    upper: Seq<T>,
    middle: Seq<T>,
    lower: Seq<T>,
) -> bool {
    &&& upper.len() == data.len()
    &&& middle.len() == data.len()
    &&& lower.len() == data.len()
    &&& forall|i: int|
        0 <= i < data.len() ==> is_bands_value(
            arith,
            data,
            period,
            width,
            i,
            upper[i],
            #[trigger] middle[i],
            lower[i],
        )
}

/// The population standard deviation of `data[first..end]` about `center`.
pub fn deviation<T: Copy, A: Arithmetic<T>>(
    arith: &A,
    data: &Vec<T>,
    first: usize,
    end: usize,
    center: T,
) -> (r: T)
    requires
        first <= end <= data.len(),
    ensures
        is_deviation(arith, data@.subrange(first as int, end as int), center, r),
{
    let mut sum = arith.number(0);
    let ghost mut sums: Seq<T> = seq![sum];
    let mut i: usize = first;
    while i < end
        invariant
            first <= i <= end <= data.len(),
            is_squares_total(arith, data@.subrange(first as int, i as int), center, sums),
            sums.last() == sum,
        decreases end - i,
    {
        let d = arith.minus(data[i], center);
        let square = arith.times(d, d);
        sum = arith.plus(sum, square);
        proof {
            assert(is_product(arith, d, d, square));
            sums = sums.push(sum);
        }
        i += 1;
    }
    let variance = share(arith, sum, end - first);
    let r = arith.root(variance);
    assert(is_squares_total(arith, data@.subrange(first as int, end as int), center, sums)
        && is_root(arith, variance, r));
    r
}

/// The Bollinger bands of `data` over `period`, `width` standard deviations
/// wide: upper, middle and lower, in that order. A period of zero is refused.
pub fn calculate_bbands<T: Copy, A: Arithmetic<T>>(
    arith: &A,
    data: &Vec<T>,
    period: usize,
    width: T,
) -> (r: Result<(Vec<T>, Vec<T>, Vec<T>), IndicatorError>)
    ensures
        r is Err <==> period == 0,
        r matches Ok(bands) ==> {
            &&& bands.0.len() == data.len()
            &&& bands.1.len() == data.len()
            &&& bands.2.len() == data.len()
            &&& is_bbands(arith, data@, period, width, bands.0@, bands.1@, bands.2@)
        },
{
    if period == 0 {
        return Err(IndicatorError::InvalidArgument);
    }
    let zero = arith.number(0);
    let mut upper: Vec<T> = Vec::new();
    let mut middle: Vec<T> = Vec::new();
    let mut lower: Vec<T> = Vec::new();
    let mut i: usize = 0;
    while i < data.len()
        invariant
            period > 0,
            i <= data.len(),
            is_number(arith, 0, zero),
            upper.len() == i,
            middle.len() == i,
            lower.len() == i,
            forall|j: int|
                0 <= j < i ==> is_bands_value(
                    arith,
                    data@,
                    period,
                    width,
                    j,
                    upper@[j],
                    #[trigger] middle@[j],
                    lower@[j],
                ),
        decreases data.len() - i,
    {
        if i < period - 1 {
            upper.push(zero);
            middle.push(zero);
            lower.push(zero);
        } else {
            let first = i + 1 - period;
            let center = mean(arith, data, first, i + 1);
            let spread = deviation(arith, data, first, i + 1, center);
            let reach = arith.times(width, spread);
            let above = arith.plus(center, reach);
            let below = arith.minus(center, reach);
            assert(is_deviation(arith, data@.subrange(first as int, i + 1), center, spread)
                && is_product(arith, width, spread, reach));
            upper.push(above);
            middle.push(center);
            lower.push(below);
        }
        i += 1;
    }
    Ok((upper, middle, lower))
}

/// Up to the first full window the middle band and the simple moving average
/// of the same data over the same period are made in the same way: both are
/// zero before the window is full, and both are the mean of the first window,
/// added up from zero in order. From the next index on the average is taken
/// from its running sum, and equals the middle band in exact arithmetic only.
pub proof fn lemma_middle_band_and_sma<T, A: Arithmetic<T>>(
    arith: &A,
    data: Seq<T>,
    period: usize,
    width: T,
    upper: Seq<T>,
    middle: Seq<T>,
    lower: Seq<T>,
    average: Seq<T>,
    i: int,
)
    requires
        period > 0,
        is_bbands(arith, data, period, width, upper, middle, lower),
        is_sma(arith, data, period, average),
        0 <= i < data.len(),
        i < period,
    ensures
        if i + 1 < period {
            is_number(arith, 0, middle[i]) && is_number(arith, 0, average[i])
        } else {
            let window = data.subrange(i + 1 - period, i + 1);
            is_mean(arith, window, middle[i]) && is_mean(arith, window, average[i])
        },
{
    lemma_sma_up_to_first_window(arith, data, period, average, i);
}

} // verus!
