//! The error taxonomy of the pool core.

use vstd::prelude::*;

verus! {

/// Why an operation was refused. Every guard runs before any fund movement,
/// so a refused operation leaves the pool untouched.
#[derive(Clone, Copy, Debug, PartialEq, Eq, Structural)]
pub enum AmmError {
    /// A product, sum, or narrowing conversion cannot be represented
    /// exactly in the working integer width; never silently wrapped.
    ArithmeticOverflow,
    /// A computed amount violates the caller's max/min bound.
    SlippageExceeded,
    /// The requested output is not covered by the available reserve, or the
    /// withdrawal ratio would divide by a zero LP-share supply.
    InsufficientLiquidity,
    /// A pool was to be created with a fee rate above the allowed maximum.
    InvalidFeeRate,
}

} // verus!
