//! What the indicator engine refuses.

use vstd::prelude::*;

verus! {

/// Why an indicator could not be computed.
#[derive(Debug, Clone, Copy, PartialEq, Eq, Structural)]
pub enum IndicatorError {
    /// A lookback period was zero.
    InvalidArgument,
}

} // verus!
