//! Moving average convergence divergence: the distance between a fast and a
//! slow exponential moving average, and a smoothed signal of that distance.

use vstd::prelude::*;

use crate::arith::{is_difference, Arithmetic};
use crate::ema::{is_ema, smooth_series};
use crate::error::IndicatorError;

verus! {

/// The period of the fast average where none is given.
pub const DEFAULT_MACD_FAST: usize = 12;

/// The period of the slow average where none is given.
pub const DEFAULT_MACD_SLOW: usize = 26;

/// The period of the signal line where none is given.
pub const DEFAULT_MACD_SIGNAL: usize = 9;

/// `out` holds at every index a result of `a[i] - b[i]`.
pub open spec fn is_distance<T, A: Arithmetic<T>>(
    arith: &A,
    a: Seq<T>,
    b: Seq<T>,
    out: Seq<T>,
) -> bool {
    &&& a.len() == out.len()
    &&& b.len() == out.len()
    &&& forall|i: int| 0 <= i < out.len() ==> is_difference(arith, a[i], b[i], #[trigger] out[i])
}

/// `line`, `signal_line` and `histogram` are the three lines of the
/// indicator of `data`: the line is the distance between the exponential
/// moving averages of `data` over `fast` and over `slow`, each padded and
/// seeded by its own period; the signal line is the exponential moving
/// average of that line over `signal`, its padding included; and the
/// histogram is the distance between the two.
pub open spec fn is_macd<T, A: Arithmetic<T>>(
    arith: &A,
    data: Seq<T>,
    fast: usize,
    slow: usize,
    signal: usize,
    line: Seq<T>,
    signal_line: Seq<T>,
    histogram: Seq<T>,
) -> bool {
    &&& exists|quick: Seq<T>, slack: Seq<T>|
        #![trigger is_ema(arith, data, fast, quick), is_ema(arith, data, slow, slack)]
        {
            &&& is_ema(arith, data, fast, quick)
            &&& is_ema(arith, data, slow, slack)
            &&& is_distance(arith, quick, slack, line)
        }
    &&& is_ema(arith, line, signal, signal_line)
    &&& is_distance(arith, line, signal_line, histogram)
}

/// The distance between `a` and `b`, index by index.
pub fn distance<T: Copy, A: Arithmetic<T>>(arith: &A, a: &Vec<T>, b: &Vec<T>) -> (out: Vec<T>)
    requires
        a.len() == b.len(),
    ensures
        is_distance(arith, a@, b@, out@),
{
    let mut out: Vec<T> = Vec::new();
    let mut i: usize = 0;
    while i < a.len()
        invariant
            i <= a.len(),
            a.len() == b.len(),
            out.len() == i,
            forall|j: int| 0 <= j < i ==> is_difference(arith, a@[j], b@[j], #[trigger] out@[j]),
        decreases a.len() - i,
    {
        out.push(arith.minus(a[i], b[i]));
        i += 1;
    }
    out
}

/// The indicator of `data`: its line, its signal line and its histogram, in
/// that order. A period of zero is refused, whichever of the three it is.
pub fn calculate_macd<T: Copy, A: Arithmetic<T>>(
    arith: &A,
    data: &Vec<T>,
    fast: usize,
    slow: usize,
    signal: usize,
) -> (r: Result<(Vec<T>, Vec<T>, Vec<T>), IndicatorError>)
    ensures
        r is Err <==> fast == 0 || slow == 0 || signal == 0,
        r matches Ok(lines) ==> {
            &&& lines.0.len() == data.len()
            &&& lines.1.len() == data.len()
            &&& lines.2.len() == data.len()
            &&& is_distance(arith, lines.0@, lines.1@, lines.2@)
            &&& is_macd(arith, data@, fast, slow, signal, lines.0@, lines.1@, lines.2@)
        },
{
    if fast == 0 || slow == 0 || signal == 0 {
        return Err(IndicatorError::InvalidArgument);
    }
    let quick = smooth_series(arith, data, fast);
    let slack = smooth_series(arith, data, slow);
    let line = distance(arith, &quick, &slack);
    let smoothed = smooth_series(arith, &line, signal);
    let histogram = distance(arith, &line, &smoothed);
    Ok((line, smoothed, histogram))
}

} // verus!
