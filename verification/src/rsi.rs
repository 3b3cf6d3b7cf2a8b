//! The relative strength index, with Wilder's smoothing.
//!
//! The first value, at index `period`, is made from the plain averages of the
//! gains and losses of the warm-up; the smoothing sets in one index later.

use vstd::prelude::*;

use crate::arith::{
    answers_positive, answers_zero, index_before, is_difference, is_magnitude, is_number, is_product,
    is_quotient, is_share, is_sum, share, Arithmetic,
};
use crate::error::IndicatorError;

verus! {

/// The lookback period that the index has where none is given.
pub const DEFAULT_RSI_PERIOD: usize = 14;

/// The value that the index holds where there are too few prices for one.
pub const RSI_PADDING: usize = 50;

/// The last index of the warm-up: `period`, or the last index there is.
pub open spec fn warm_up_end(len: int, period: int) -> int {
    if len > period {
        period
    } else {
        len - 1
    }
}

/// The number by which the totals of the warm-up are divided: the number of
/// changes in it, or 1 where it has none.
pub open spec fn warm_up_divisor(end: int) -> int {
    if end > 0 {
        end
    } else {
        1
    }
}

/// `changes` holds the change of each price from the one before it; the
/// first price has none, and zero stands in its place.
pub open spec fn is_changes<T, A: Arithmetic<T>>(
    arith: &A,
    prices: Seq<T>,
    changes: Seq<T>,
) -> bool {
    &&& changes.len() == prices.len()
    &&& prices.len() > 0 ==> is_number(arith, 0, changes[0])
    &&& forall|i: int|
        1 <= i < prices.len() ==> is_difference(
            arith,
            prices[i],
            prices[i - 1],
            #[trigger] changes[i],
        )
}

/// `gain` and `loss` are the two sides of `change`: a change above zero is a
/// gain and no loss, any other is no gain and a loss of its absolute value.
pub open spec fn is_split<T, A: Arithmetic<T>>(arith: &A, change: T, gain: T, loss: T) -> bool {
    exists|up: bool| #[trigger]
        answers_positive(arith, change, up) && if up {
            gain == change && is_number(arith, 0, loss)
        } else {
            is_number(arith, 0, gain) && is_magnitude(arith, change, loss)
        }
}

/// One step of the warm-up: `change` is added to the total of the gains if it
/// is above zero, and its absolute value to the total of the losses if not.
pub open spec fn is_warm_up_step<T, A: Arithmetic<T>>(
    arith: &A,
    change: T,
    gains_before: T,
    losses_before: T,
    gains_after: T,
    losses_after: T,
) -> bool {
    exists|up: bool| #[trigger]
        answers_positive(arith, change, up) && if up {
            is_sum(arith, gains_before, change, gains_after) && losses_after == losses_before
        } else {
            gains_after == gains_before && exists|size: T| #[trigger]
                is_magnitude(arith, change, size) && is_sum(
                    arith,
                    losses_before,
                    size,
                    losses_after,
                )
        }
}

/// `gains` and `losses` hold the running totals of the warm-up over the
/// changes at the indices 1 to `end`: entry `k` is the total after the change
/// at index `k`, entry 0 is zero.
pub open spec fn is_warm_up_run<T, A: Arithmetic<T>>(
    arith: &A,
    changes: Seq<T>,
    end: int,
    gains: Seq<T>,
    losses: Seq<T>,
) -> bool {
    &&& gains.len() == end + 1
    &&& losses.len() == end + 1
    &&& is_number(arith, 0, gains[0])
    &&& is_number(arith, 0, losses[0])
    &&& forall|k: int|
        1 <= k <= end ==> is_warm_up_step(
            arith,
            changes[k],
            gains[k - 1],
            losses[k - 1],
            #[trigger] gains[k],
            losses[k],
        )
}

/// `gain` and `loss` are the averages of the warm-up: the totals of the gains
/// and of the losses over the changes at the indices 1 to `end`, each divided
/// by the divisor of the warm-up.
pub open spec fn is_warm_up<T, A: Arithmetic<T>>(
    arith: &A,
    changes: Seq<T>,
    end: int,
    gain: T,
    loss: T,
) -> bool {
    exists|gains: Seq<T>, losses: Seq<T>| #[trigger]
        is_warm_up_run(arith, changes, end, gains, losses) && is_share(
            arith,
            gains[end],
            warm_up_divisor(end) as usize,
            gain,
        ) && is_share(arith, losses[end], warm_up_divisor(end) as usize, loss)
}

/// `whole` is a result of `period` as a price, and `rest` of `period - 1`.
pub open spec fn is_wilder_weights<T, A: Arithmetic<T>>(
    arith: &A,
    period: usize,
    whole: T,
    rest: T,
) -> bool {
    &&& is_number(arith, period, whole)
    &&& exists|one: T| #[trigger]
        is_number(arith, 1, one) && is_difference(arith, whole, one, rest)
}

/// `r` is a result of Wilder's recurrence `(previous * rest + x) / whole`.
pub open spec fn is_wilder_step<T, A: Arithmetic<T>>(
    arith: &A,
    previous: T,
    rest: T,
    x: T,
    whole: T,
    r: T,
) -> bool {
    exists|a: T, b: T|
        #![trigger is_sum(arith, a, x, b)]
        {
            &&& is_product(arith, previous, rest, a)
            &&& is_sum(arith, a, x, b)
            &&& is_quotient(arith, b, whole, r)
        }
}

/// `r` is the index that the averages `gain` and `loss` give: 100 where the
/// average loss is zero, and `100 - 100 / (1 + gain / loss)` where it is not.
pub open spec fn is_strength<T, A: Arithmetic<T>>(arith: &A, gain: T, loss: T, r: T) -> bool {
    exists|flat: bool| #[trigger]
        answers_zero(arith, loss, flat) && if flat {
            is_number(arith, 100, r)
        } else {
            exists|ratio: T, one: T, hundred: T, d: T, q: T|
                #![trigger is_sum(arith, one, ratio, d), is_quotient(arith, hundred, d, q)]
                {
                    &&& is_quotient(arith, gain, loss, ratio)
                    &&& is_number(arith, 1, one)
                    &&& is_number(arith, 100, hundred)
                    &&& is_sum(arith, one, ratio, d)
                    &&& is_quotient(arith, hundred, d, q)
                    &&& is_difference(arith, hundred, q, r)
                }
        }
}

/// What the index holds at index `i`, and the averages `gain` and `loss` that
/// it is made from, given the averages at the index before. Before index
/// `period` it holds the padding. At index `period` the averages are those of
/// the warm-up, unchanged. After it, the change at `i` is smoothed into the
/// previous averages.
pub open spec fn is_rsi_value<T, A: Arithmetic<T>>(
    arith: &A,
    period: usize,
    i: int,
    change: T,
    first_gain: T,
    first_loss: T,
    whole: T,
    rest: T,
    gain_before: T,
    loss_before: T,
    gain: T,
    loss: T,
    value: T,
) -> bool {
    if i < period {
        is_number(arith, RSI_PADDING, value)
    } else {
        &&& if i == period {
            gain == first_gain && loss == first_loss
        } else {
            exists|up: T, down: T|
                #![trigger is_split(arith, change, up, down)]
                {
                    &&& is_split(arith, change, up, down)
                    &&& is_wilder_step(arith, gain_before, rest, up, whole, gain)
                    &&& is_wilder_step(arith, loss_before, rest, down, whole, loss)
                }
        }
        &&& is_strength(arith, gain, loss, value)
    }
}

/// `out` is the index that the averages `gains` and `losses` give, entry by
/// entry.
pub open spec fn is_rsi_run<T, A: Arithmetic<T>>(
    arith: &A,
    period: usize,
    changes: Seq<T>,
    first_gain: T,
    first_loss: T,
    whole: T,
    rest: T,
    gains: Seq<T>,
    losses: Seq<T>,
    out: Seq<T>,
) -> bool {
    &&& out.len() == changes.len()
    &&& gains.len() == changes.len()
    &&& losses.len() == changes.len()
    &&& forall|i: int|
        0 <= i < changes.len() ==> is_rsi_value(
            arith,
            period,
            i,
            changes[i],
            first_gain,
            first_loss,
            whole,
            rest,
            gains[index_before(i)],
            losses[index_before(i)],
            gains[i],
            losses[i],
            #[trigger] out[i],
        )
}

/// `out` holds the padding at every index.
pub open spec fn is_all_padding<T, A: Arithmetic<T>>(arith: &A, out: Seq<T>) -> bool {
    forall|i: int| 0 <= i < out.len() ==> is_number(arith, RSI_PADDING, #[trigger] out[i])
}

/// The index of `prices` that the given changes, warm-up averages and weights
/// lead to.
pub open spec fn is_rsi_from<T, A: Arithmetic<T>>(
    arith: &A,
    prices: Seq<T>,
    period: usize,
    changes: Seq<T>,
    first_gain: T,
    first_loss: T,
    whole: T,
    rest: T,
    out: Seq<T>,
) -> bool {
    &&& is_changes(arith, prices, changes)
    &&& is_warm_up(
        arith,
        changes,
        warm_up_end(prices.len() as int, period as int),
        first_gain,
        first_loss,
    )
    &&& is_wilder_weights(arith, period, whole, rest)
    &&& exists|gains: Seq<T>, losses: Seq<T>| #[trigger]
        is_rsi_run(
            arith,
            period,
            changes,
            first_gain,
            first_loss,
            whole,
            rest,
            gains,
            losses,
            out,
        )
}

/// `out` is a relative strength index of `prices` over `period`: as long as
/// `prices`; all padding where there are fewer prices than `period`; and
/// else padding before index `period` and from there on the strength of
/// Wilder's averages of the gains and losses, which start from the plain
/// averages of the warm-up.
pub open spec fn is_rsi<T, A: Arithmetic<T>>(
    arith: &A,
    prices: Seq<T>,
    period: usize,
    out: Seq<T>,
) -> bool {
    &&& out.len() == prices.len()
    &&& if prices.len() < period {
        is_all_padding(arith, out)
    } else {
        exists|changes: Seq<T>, first_gain: T, first_loss: T, whole: T, rest: T|
            #![trigger is_rsi_from(arith, prices, period, changes, first_gain, first_loss, whole, rest, out)]
            is_rsi_from(arith, prices, period, changes, first_gain, first_loss, whole, rest, out)
    }
}

/// The change of each price from the one before it.
pub fn changes_of<T: Copy, A: Arithmetic<T>>(arith: &A, prices: &Vec<T>) -> (changes: Vec<T>)
    ensures
        is_changes(arith, prices@, changes@),
{
    let mut changes: Vec<T> = Vec::new();
    if prices.len() == 0 {
        return changes;
    }
    changes.push(arith.number(0));
    let mut i: usize = 1;
    while i < prices.len()
        invariant
            1 <= i <= prices.len(),
            changes.len() == i,
            is_number(arith, 0, changes@[0]),
            forall|j: int|
                1 <= j < i ==> is_difference(
                    arith,
                    prices@[j],
                    prices@[j - 1],
                    #[trigger] changes@[j],
                ),
        decreases prices.len() - i,
    {
        changes.push(arith.minus(prices[i], prices[i - 1]));
        i += 1;
    }
    changes
}

/// The averages of the warm-up over the changes at the indices 1 to `end`.
pub fn warm_up<T: Copy, A: Arithmetic<T>>(arith: &A, changes: &Vec<T>, end: usize) -> (r: (T, T))
    requires
        end < changes.len(),
    ensures
        is_warm_up(arith, changes@, end as int, r.0, r.1),
{
    let zero = arith.number(0);
    let mut gain = zero;
    let mut loss = zero;
    let ghost mut gains: Seq<T> = seq![zero];
    let ghost mut losses: Seq<T> = seq![zero];
    let mut k: usize = 0;
    while k < end
        invariant
            k <= end < changes.len(),
            gains.len() == k + 1,
            losses.len() == k + 1,
            is_number(arith, 0, gains[0]),
            is_number(arith, 0, losses[0]),
            gains[k as int] == gain,
            losses[k as int] == loss,
            forall|j: int|
                1 <= j <= k ==> is_warm_up_step(
                    arith,
                    changes@[j],
                    gains[j - 1],
                    losses[j - 1],
                    #[trigger] gains[j],
                    losses[j],
                ),
        decreases end - k,
    {
        k += 1;
        let change = changes[k];
        let ghost loss_before = loss;
        let up = arith.is_positive(change);
        if up {
            gain = arith.plus(gain, change);
        } else {
            let size = arith.magnitude(change);
            loss = arith.plus(loss, size);
            assert(is_magnitude(arith, change, size) && is_sum(arith, loss_before, size, loss));
        }
        proof {
            assert(answers_positive(arith, change, up));
            gains = gains.push(gain);
            losses = losses.push(loss);
        }
    }
    let divisor: usize = if end > 0 {
        end
    } else {
        1
    };
    let first_gain = share(arith, gain, divisor);
    let first_loss = share(arith, loss, divisor);
    assert(is_warm_up_run(arith, changes@, end as int, gains, losses));
    (first_gain, first_loss)
}

/// The two sides of `change`.
fn split<T: Copy, A: Arithmetic<T>>(arith: &A, change: T) -> (r: (T, T))
    ensures
        is_split(arith, change, r.0, r.1),
{
    let up = arith.is_positive(change);
    let r = if up {
        (change, arith.number(0))
    } else {
        (arith.number(0), arith.magnitude(change))
    };
    assert(answers_positive(arith, change, up));
    r
}

/// One step of Wilder's recurrence.
fn wilder_step<T: Copy, A: Arithmetic<T>>(arith: &A, previous: T, rest: T, x: T, whole: T) -> (r:
    T)
    ensures
        is_wilder_step(arith, previous, rest, x, whole, r),
{
    let a = arith.times(previous, rest);
    let b = arith.plus(a, x);
    let r = arith.over(b, whole);
    assert(is_sum(arith, a, x, b));
    r
}

/// The index that the averages `gain` and `loss` give.
fn strength<T: Copy, A: Arithmetic<T>>(arith: &A, gain: T, loss: T) -> (r: T)
    ensures
        is_strength(arith, gain, loss, r),
{
    let flat = arith.is_zero(loss);
    if flat {
        let r = arith.number(100);
        assert(answers_zero(arith, loss, flat));
        r
    } else {
        let ratio = arith.over(gain, loss);
        let one = arith.number(1);
        let hundred = arith.number(100);
        let d = arith.plus(one, ratio);
        let q = arith.over(hundred, d);
        let r = arith.minus(hundred, q);
        assert(is_sum(arith, one, ratio, d) && is_quotient(arith, hundred, d, q));
        assert(answers_zero(arith, loss, flat));
        r
    }
}

/// The relative strength index of `prices` over `period`. A period of zero
/// is refused.
pub fn calculate_rsi<T: Copy, A: Arithmetic<T>>(arith: &A, prices: &Vec<T>, period: usize) -> (r:
    Result<Vec<T>, IndicatorError>)
    ensures
        r is Err <==> period == 0,
        r matches Ok(out) ==> {
            &&& out.len() == prices.len()
            &&& prices.len() < period ==> is_all_padding(arith, out@)
            &&& is_rsi(arith, prices@, period, out@)
        },
{
    if period == 0 {
        return Err(IndicatorError::InvalidArgument);
    }
    let padding = arith.number(RSI_PADDING);
    let mut out: Vec<T> = Vec::new();
    let lead: usize = if prices.len() < period {
        prices.len()
    } else {
        period
    };
    let mut i: usize = 0;
    while i < lead
        invariant
            i <= lead,
            out.len() == i,
            is_number(arith, RSI_PADDING, padding),
            forall|j: int| 0 <= j < i ==> is_number(arith, RSI_PADDING, #[trigger] out@[j]),
        decreases lead - i,
    {
        out.push(padding);
        i += 1;
    }
    if prices.len() < period {
        return Ok(out);
    }
    let changes = changes_of(arith, prices);
    let end: usize = if changes.len() > period {
        period
    } else {
        changes.len() - 1
    };
    let (first_gain, first_loss) = warm_up(arith, &changes, end);
    let whole = arith.number(period);
    let one = arith.number(1);
    let rest = arith.minus(whole, one);
    assert(is_number(arith, 1, one) && is_difference(arith, whole, one, rest));
    let mut gain = first_gain;
    let mut loss = first_loss;
    let ghost mut gains: Seq<T> = Seq::new(period as nat, |j: int| first_gain);
    let ghost mut losses: Seq<T> = Seq::new(period as nat, |j: int| first_loss);
    while i < prices.len()
        invariant
            0 < period <= i <= prices.len(),
            changes.len() == prices.len(),
            out.len() == i,
            gains.len() == i,
            losses.len() == i,
            gains[i - 1] == gain,
            losses[i - 1] == loss,
            i == period ==> gain == first_gain && loss == first_loss,
            forall|j: int|
                0 <= j < i ==> is_rsi_value(
                    arith,
                    period,
                    j,
                    changes@[j],
                    first_gain,
                    first_loss,
                    whole,
                    rest,
                    gains[index_before(j)],
                    losses[index_before(j)],
                    gains[j],
                    losses[j],
                    #[trigger] out@[j],
                ),
        decreases prices.len() - i,
    {
        let ghost gain_before = gain;
        let ghost loss_before = loss;
        if i != period {
            let (up, down) = split(arith, changes[i]);
            gain = wilder_step(arith, gain, rest, up, whole);
            loss = wilder_step(arith, loss, rest, down, whole);
        }
        let value = strength(arith, gain, loss);
        out.push(value);
        proof {
            gains = gains.push(gain);
            losses = losses.push(loss);
            assert(is_rsi_value(
                arith,
                period,
                i as int,
                changes@[i as int],
                first_gain,
                first_loss,
                whole,
                rest,
                gain_before,
                loss_before,
                gain,
                loss,
                value,
            ));
        }
        i += 1;
    }
    proof {
        assert(is_rsi_run(
            arith,
            period,
            changes@,
            first_gain,
            first_loss,
            whole,
            rest,
            gains,
            losses,
            out@,
        ));
        assert(is_rsi_from(
            arith,
            prices@,
            period,
            changes@,
            first_gain,
            first_loss,
            whole,
            rest,
            out@,
        ));
    }
    Ok(out)
}

} // verus!
