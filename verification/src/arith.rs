//! The arithmetic in which the indicators are computed.
//!
//! The indicator engine is generic in the type of a price. It takes the
//! arithmetic as a value that implements [`Arithmetic`], and says of every
//! number it returns by which sequence of operations it was obtained. Nothing
//! is assumed of an operation: its result is whatever the implementation
//! returns, so a contract reads "`r` is a result of adding `a` and `b`", never
//! "`r` is the sum of `a` and `b`".

use vstd::prelude::*;

verus! {

/// The operations on prices that the indicators need.
pub trait Arithmetic<T> {
    /// The count `n` as a price.
    fn number(&self, n: usize) -> T;

    /// `a + b`.
    fn plus(&self, a: T, b: T) -> T;

    /// `a - b`.
    fn minus(&self, a: T, b: T) -> T;

    /// `a * b`.
    fn times(&self, a: T, b: T) -> T;

    /// `a / b`.
    fn over(&self, a: T, b: T) -> T;

    /// The square root of `a`.
    fn root(&self, a: T) -> T;

    /// The absolute value of `a`.
    fn magnitude(&self, a: T) -> T;

    /// Whether `a` is greater than zero.
    fn is_positive(&self, a: T) -> bool;

    /// Whether `a` equals zero.
    fn is_zero(&self, a: T) -> bool;
}

/// `r` is a result of turning the count `n` into a price.
pub open spec fn is_number<T, A: Arithmetic<T>>(arith: &A, n: usize, r: T) -> bool {
    call_ensures(A::number, (arith, n), r)
}

/// `r` is a result of `a + b`.
pub open spec fn is_sum<T, A: Arithmetic<T>>(arith: &A, a: T, b: T, r: T) -> bool {
    call_ensures(A::plus, (arith, a, b), r)
}

/// `r` is a result of `a - b`.
pub open spec fn is_difference<T, A: Arithmetic<T>>(arith: &A, a: T, b: T, r: T) -> bool {
    call_ensures(A::minus, (arith, a, b), r)
}

/// `r` is a result of `a * b`.
pub open spec fn is_product<T, A: Arithmetic<T>>(arith: &A, a: T, b: T, r: T) -> bool {
    call_ensures(A::times, (arith, a, b), r)
}

/// `r` is a result of `a / b`.
pub open spec fn is_quotient<T, A: Arithmetic<T>>(arith: &A, a: T, b: T, r: T) -> bool {
    call_ensures(A::over, (arith, a, b), r)
}

/// `r` is a result of taking the square root of `a`.
pub open spec fn is_root<T, A: Arithmetic<T>>(arith: &A, a: T, r: T) -> bool {
    call_ensures(A::root, (arith, a), r)
}

/// `r` is a result of taking the absolute value of `a`.
pub open spec fn is_magnitude<T, A: Arithmetic<T>>(arith: &A, a: T, r: T) -> bool {
    call_ensures(A::magnitude, (arith, a), r)
}

/// `b` is an answer to whether `a` is greater than zero.
pub open spec fn answers_positive<T, A: Arithmetic<T>>(arith: &A, a: T, b: bool) -> bool {
    call_ensures(A::is_positive, (arith, a), b)
}

/// `b` is an answer to whether `a` equals zero.
pub open spec fn answers_zero<T, A: Arithmetic<T>>(arith: &A, a: T, b: bool) -> bool {
    call_ensures(A::is_zero, (arith, a), b)
}

/// The index before `i`, and 0 where there is none.
pub open spec fn index_before(i: int) -> int {
    if i > 0 {
        i - 1
    } else {
        0
    }
}

/// `sums` holds the running totals of `items`, added up from zero in their
/// order: one entry before the first item and one after each.
pub open spec fn is_running_total<T, A: Arithmetic<T>>(
    arith: &A,
    items: Seq<T>,
    sums: Seq<T>,
) -> bool {
    &&& sums.len() == items.len() + 1
    &&& is_number(arith, 0, sums[0])
    &&& forall|i: int|
        0 <= i < items.len() ==> is_sum(arith, sums[i], items[i], #[trigger] sums[i + 1])
}

/// `r` is a result of adding up `items` from zero in their order.
pub open spec fn is_total<T, A: Arithmetic<T>>(arith: &A, items: Seq<T>, r: T) -> bool {
    exists|sums: Seq<T>| #[trigger] is_running_total(arith, items, sums) && sums.last() == r
}

/// `r` is a result of dividing `sum` by the count `n`.
pub open spec fn is_share<T, A: Arithmetic<T>>(arith: &A, sum: T, n: usize, r: T) -> bool {
    exists|count: T| #[trigger] is_number(arith, n, count) && is_quotient(arith, sum, count, r)
}

/// `r` is a result of the arithmetic mean of `items`: their total, divided by
/// their number.
pub open spec fn is_mean<T, A: Arithmetic<T>>(arith: &A, items: Seq<T>, r: T) -> bool {
    exists|sum: T| #[trigger]
        is_total(arith, items, sum) && is_share(arith, sum, items.len() as usize, r)
}

/// Divides `sum` by the count `n`.
pub fn share<T: Copy, A: Arithmetic<T>>(arith: &A, sum: T, n: usize) -> (r: T)
    ensures
        is_share(arith, sum, n, r),
{
    let count = arith.number(n);
    let r = arith.over(sum, count);
    assert(is_number(arith, n, count) && is_quotient(arith, sum, count, r));
    r
}

/// Adds up `data[first..end]` from zero, in order.
pub fn total<T: Copy, A: Arithmetic<T>>(arith: &A, data: &Vec<T>, first: usize, end: usize) -> (r:
    T)
    requires
        first <= end <= data.len(),
    ensures
        is_total(arith, data@.subrange(first as int, end as int), r),
{
    let mut sum = arith.number(0);
    let mut i = first;
    let ghost mut sums: Seq<T> = seq![sum];
    while i < end
        invariant
            first <= i <= end <= data.len(),
            is_running_total(arith, data@.subrange(first as int, i as int), sums),
            sums.last() == sum,
        decreases end - i,
    {
        sum = arith.plus(sum, data[i]);
        proof {
            sums = sums.push(sum);
        }
        i += 1;
    }
    sum
}

/// The arithmetic mean of `data[first..end]`.
pub fn mean<T: Copy, A: Arithmetic<T>>(arith: &A, data: &Vec<T>, first: usize, end: usize) -> (r:
    T)
    requires
        first <= end <= data.len(),
    ensures
        is_mean(arith, data@.subrange(first as int, end as int), r),
{
    let sum = total(arith, data, first, end);
    share(arith, sum, end - first)
}

} // verus!
