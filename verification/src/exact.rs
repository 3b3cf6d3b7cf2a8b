//! What the indicators are in an arithmetic without rounding.
//!
//! Floating point rounds, so a sum that is kept from step to step drifts
//! away from the sum of its window, and the mean of equal prices need not be
//! that price. The laws here are those that hold where nothing is rounded:
//! in an arithmetic whose prices can be read as whole numbers, faithfully,
//! with exact operations.

use vstd::prelude::*;

use crate::arith::{
    is_difference, is_mean, is_number, is_product, is_quotient, is_root, is_running_total,
    is_share, is_sum, is_total, Arithmetic,
};
use crate::bbands::{
    is_band, is_bands_value, is_bbands, is_deviation, is_squared_step, is_squares_total,
};
use crate::sma::{is_sma, is_sma_run, is_sma_step};

verus! {

/// `value` reads every price of `arith` as a whole number, no two prices as
/// the same, and under it counting, adding, subtracting and multiplying are
/// exact, a division that leaves no remainder is exact, a division has one
/// result only, and the root of zero is zero.
pub open spec fn is_exact<T, A: Arithmetic<T>>(arith: &A, value: spec_fn(T) -> int) -> bool {
    &&& forall|a: T, b: T| #![trigger value(a), value(b)] value(a) == value(b) ==> a == b
    &&& forall|n: usize, r: T| #[trigger] is_number(arith, n, r) ==> value(r) == n
    &&& forall|a: T, b: T, r: T| #[trigger]
        is_sum(arith, a, b, r) ==> value(r) == value(a) + value(b)
    &&& forall|a: T, b: T, r: T| #[trigger]
        is_difference(arith, a, b, r) ==> value(r) == value(a) - value(b)
    &&& forall|a: T, b: T, r: T| #[trigger]
        is_product(arith, a, b, r) ==> value(r) == value(a) * value(b)
    &&& forall|a: T, b: T, r: T, k: int|
        #![trigger is_quotient(arith, a, b, r), k * value(b)]
        is_quotient(arith, a, b, r) && value(b) != 0 && value(a) == k * value(b) ==> value(r)
            == k
    &&& forall|a: T, b: T, r: T, s: T|
        #![trigger is_quotient(arith, a, b, r), is_quotient(arith, a, b, s)]
        is_quotient(arith, a, b, r) && is_quotient(arith, a, b, s) ==> r == s
    &&& forall|a: T, r: T| #[trigger] is_root(arith, a, r) && value(a) == 0 ==> value(r) == 0
}

/// The values of `data[from..to]`, added up.
pub open spec fn sum_of_values<T>(value: spec_fn(T) -> int, data: Seq<T>, from: int, to: int) -> int
    decreases to - from,
{
    if from >= to {
        0
    } else {
        sum_of_values(value, data, from, to - 1) + value(data[to - 1])
    }
}

/// A sum of values without its first item.
pub proof fn lemma_sum_of_values_without_first<T>(
    value: spec_fn(T) -> int,
    data: Seq<T>,
    from: int,
    to: int,
)
    requires
        0 <= from < to <= data.len(),
    ensures
        sum_of_values(value, data, from + 1, to) == sum_of_values(value, data, from, to) - value(
            data[from],
        ),
    decreases to - from,
{
    if from + 1 < to {
        lemma_sum_of_values_without_first(value, data, from, to - 1);
    } else {
        assert(sum_of_values(value, data, from, to - 1) == 0);
    }
}

/// A sum of values depends on the items at its indices only.
pub proof fn lemma_sum_of_values_prefix<T>(
    value: spec_fn(T) -> int,
    a: Seq<T>,
    b: Seq<T>,
    n: int,
)
    requires
        0 <= n <= a.len(),
        n <= b.len(),
        forall|j: int| 0 <= j < n ==> a[j] == b[j],
    ensures
        sum_of_values(value, a, 0, n) == sum_of_values(value, b, 0, n),
    decreases n,
{
    if n > 0 {
        lemma_sum_of_values_prefix(value, a, b, n - 1);
    }
}

/// The values of a window, added up, are the values of the data at its
/// indices, added up.
pub proof fn lemma_sum_of_values_shifted<T>(
    value: spec_fn(T) -> int,
    data: Seq<T>,
    from: int,
    to: int,
)
    requires
        0 <= from <= to <= data.len(),
    ensures
        sum_of_values(value, data.subrange(from, to), 0, to - from) == sum_of_values(
            value,
            data,
            from,
            to,
        ),
    decreases to - from,
{
    if from < to {
        lemma_sum_of_values_shifted(value, data, from, to - 1);
        lemma_sum_of_values_prefix(value, data.subrange(from, to), data.subrange(from, to - 1), to - 1 - from);
    }
}

/// A sum of values of equal items is so many times the value of one.
pub proof fn lemma_sum_of_equal_values<T>(
    value: spec_fn(T) -> int,
    data: Seq<T>,
    from: int,
    to: int,
    c: T,
)
    requires
        0 <= from <= to <= data.len(),
        forall|j: int| from <= j < to ==> data[j] == c,
    ensures
        sum_of_values(value, data, from, to) == (to - from) * value(c),
    decreases to - from,
{
    if from < to {
        lemma_sum_of_equal_values(value, data, from, to - 1, c);
        assert(data[to - 1] == c);
        assert((to - from) * value(c) == (to - 1 - from) * value(c) + value(c))
            by (nonlinear_arith);
    } else {
        assert((to - from) * value(c) == 0) by (nonlinear_arith)
            requires
                to - from == 0,
        ;
    }
}

/// In exact arithmetic a running total is the sum of the values so far.
pub proof fn lemma_running_total_when_exact<T, A: Arithmetic<T>>(
    arith: &A,
    value: spec_fn(T) -> int,
    items: Seq<T>,
    sums: Seq<T>,
    k: int,
)
    requires
        is_exact(arith, value),
        is_running_total(arith, items, sums),
        0 <= k <= items.len(),
    ensures
        value(sums[k]) == sum_of_values(value, items, 0, k),
    decreases k,
{
    if k > 0 {
        lemma_running_total_when_exact(arith, value, items, sums, k - 1);
        assert(is_sum(arith, sums[k - 1], items[k - 1], sums[k - 1 + 1]));
    }
}

/// In exact arithmetic the running sum of a simple moving average is the sum
/// of the values in its window.
pub proof fn lemma_running_sum_when_exact<T, A: Arithmetic<T>>(
    arith: &A,
    value: spec_fn(T) -> int,
    data: Seq<T>,
    period: usize,
    entered: Seq<T>,
    sums: Seq<T>,
    out: Seq<T>,
    i: int,
)
    requires
        period > 0,
        is_exact(arith, value),
        is_sma_run(arith, data, period, entered, sums, out),
        0 <= i < data.len(),
    ensures
        value(sums[i + 1]) == sum_of_values(
            value,
            data,
            if i + 1 >= period {
                i + 1 - period
            } else {
                0
            },
            i + 1,
        ),
    decreases i,
{
    assert(is_sma_step(arith, data, period, i, sums[i], entered[i], sums[i + 1], out[i]));
    let first: int = if i >= period {
        i - period
    } else {
        0
    };
    if i > 0 {
        lemma_running_sum_when_exact(arith, value, data, period, entered, sums, out, i - 1);
    } else {
        assert(sum_of_values(value, data, 0, 0) == 0);
    }
    assert(value(sums[i]) == sum_of_values(value, data, first, i));
    assert(value(entered[i]) == sum_of_values(value, data, first, i + 1));
    if i >= period {
        lemma_sum_of_values_without_first(value, data, first, i + 1);
    }
}

/// In exact arithmetic the running total of the squared distances of equal
/// items from themselves stays zero.
pub proof fn lemma_no_spread_when_exact<T, A: Arithmetic<T>>(
    arith: &A,
    value: spec_fn(T) -> int,
    items: Seq<T>,
    c: T,
    sums: Seq<T>,
    k: int,
)
    requires
        is_exact(arith, value),
        is_squares_total(arith, items, c, sums),
        forall|j: int| 0 <= j < items.len() ==> items[j] == c,
        0 <= k <= items.len(),
    ensures
        value(sums[k]) == 0,
    decreases k,
{
    if k > 0 {
        lemma_no_spread_when_exact(arith, value, items, c, sums, k - 1);
        assert(is_squared_step(arith, items[k - 1], c, sums[k - 1], sums[k - 1 + 1]));
        let (d, square) = choose|d: T, square: T|
            #![trigger is_product(arith, d, d, square)]
            {
                &&& is_difference(arith, items[k - 1], c, d)
                &&& is_product(arith, d, d, square)
                &&& is_sum(arith, sums[k - 1], square, sums[k])
            };
        assert(value(square) == 0) by (nonlinear_arith)
            requires
                value(square) == value(d) * value(d),
                value(d) == 0,
        ;
    }
}

/// In exact arithmetic the middle Bollinger band is the simple moving
/// average of the same data over the same period.
pub proof fn lemma_middle_band_is_sma_when_exact<T, A: Arithmetic<T>>(
    arith: &A,
    value: spec_fn(T) -> int,
    data: Seq<T>,
    period: usize,
    width: T,
    upper: Seq<T>,
    middle: Seq<T>,
    lower: Seq<T>,
    average: Seq<T>,
)
    requires
        period > 0,
        is_exact(arith, value),
        is_bbands(arith, data, period, width, upper, middle, lower),
        is_sma(arith, data, period, average),
    ensures
        middle == average,
{
    let (entered, sums) = choose|entered: Seq<T>, sums: Seq<T>| #[trigger]
        is_sma_run(arith, data, period, entered, sums, average);
    assert forall|i: int| 0 <= i < data.len() implies middle[i] == average[i] by {
        assert(is_bands_value(arith, data, period, width, i, upper[i], middle[i], lower[i]));
        assert(is_sma_step(arith, data, period, i, sums[i], entered[i], sums[i + 1], average[i]));
        if i + 1 >= period {
            let first = i + 1 - period;
            let window = data.subrange(first, i + 1);
            let sum = choose|sum: T| #[trigger]
                is_total(arith, window, sum) && is_share(arith, sum, window.len() as usize, middle[i]);
            let totals = choose|totals: Seq<T>| #[trigger]
                is_running_total(arith, window, totals) && totals.last() == sum;
            lemma_running_total_when_exact(arith, value, window, totals, window.len() as int);
            lemma_sum_of_values_shifted(value, data, first, i + 1);
            lemma_running_sum_when_exact(arith, value, data, period, entered, sums, average, i);
            assert(sum == sums[i + 1]);
            let count = choose|count: T| #[trigger]
                is_number(arith, period, count) && is_quotient(arith, sum, count, middle[i]);
            let tally = choose|tally: T| #[trigger]
                is_number(arith, period, tally) && is_quotient(
                    arith,
                    sums[i + 1],
                    tally,
                    average[i],
                );
            assert(count == tally);
        }
    }
    assert(middle =~= average);
}

/// In exact arithmetic the three Bollinger bands of a constant series are
/// that constant at every index from `period - 1` on.
pub proof fn lemma_constant_series_when_exact<T, A: Arithmetic<T>>(
    arith: &A,
    value: spec_fn(T) -> int,
    data: Seq<T>,
    period: usize,
    width: T,
    upper: Seq<T>,
    middle: Seq<T>,
    lower: Seq<T>,
    c: T,
    i: int,
)
    requires
        period > 0,
        is_exact(arith, value),
        is_bbands(arith, data, period, width, upper, middle, lower),
        forall|j: int| 0 <= j < data.len() ==> data[j] == c,
        period - 1 <= i < data.len(),
    ensures
        upper[i] == c,
        middle[i] == c,
        lower[i] == c,
{
    let window = data.subrange(i + 1 - period, i + 1);
    assert(is_bands_value(arith, data, period, width, i, upper[i], middle[i], lower[i]));
    assert(is_band(arith, window, width, upper[i], middle[i], lower[i]));
    // The mean of the window is the constant.
    let sum = choose|sum: T| #[trigger]
        is_total(arith, window, sum) && is_share(arith, sum, window.len() as usize, middle[i]);
    let totals = choose|totals: Seq<T>| #[trigger]
        is_running_total(arith, window, totals) && totals.last() == sum;
    lemma_running_total_when_exact(arith, value, window, totals, window.len() as int);
    lemma_sum_of_equal_values(value, window, 0, window.len() as int, c);
    let count = choose|count: T| #[trigger]
        is_number(arith, period, count) && is_quotient(arith, sum, count, middle[i]);
    assert(value(sum) == value(c) * value(count)) by (nonlinear_arith)
        requires
            value(sum) == (period - 0) * value(c),
            value(count) == period,
    ;
    assert(value(middle[i]) == value(c));
    // The window has no spread about it.
    let (deviation, reach) = choose|deviation: T, reach: T|
        #![trigger is_deviation(arith, window, middle[i], deviation), is_product(arith, width, deviation, reach)]
        {
            &&& is_deviation(arith, window, middle[i], deviation)
            &&& is_product(arith, width, deviation, reach)
            &&& is_sum(arith, middle[i], reach, upper[i])
            &&& is_difference(arith, middle[i], reach, lower[i])
        };
    let (squares, variance) = choose|squares: Seq<T>, variance: T|
        #![trigger is_squares_total(arith, window, middle[i], squares), is_root(arith, variance, deviation)]
        {
            &&& is_squares_total(arith, window, middle[i], squares)
            &&& is_share(arith, squares.last(), window.len() as usize, variance)
            &&& is_root(arith, variance, deviation)
        };
    lemma_no_spread_when_exact(arith, value, window, c, squares, window.len() as int);
    let tally = choose|tally: T| #[trigger]
        is_number(arith, period, tally) && is_quotient(arith, squares.last(), tally, variance);
    assert(value(squares.last()) == 0 * value(tally));
    assert(value(variance) == 0);
    assert(value(deviation) == 0);
    assert(value(reach) == 0) by (nonlinear_arith)
        requires
            value(reach) == value(width) * value(deviation),
            value(deviation) == 0,
    ;
}

} // verus!
