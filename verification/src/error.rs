//! The errors of the sampler.

use vstd::prelude::*;

verus! {

/// The ways in which building or querying a distribution can fail.
///
/// Every function says in its contract on which inputs it reports which of
/// these, and fails on no others.
#[derive(Clone, Copy, Debug, PartialEq, Eq, Structural)]
pub enum SamplerError {
    /// The quantum numbers break `n >= 1`, `0 <= l <= n - 1`, `-l <= m <= l`,
    /// or the length scale is not positive.
    InvalidQuantumState,
    /// The grid resolution is below two, or a density table does not have
    /// one entry for each row of the half grid.
    InvalidResolution,
    /// A value was asked for outside the domain on which it is defined and
    /// fits the machine: the factorial of a negative number or of one above
    /// `MAX_FACTORIAL_ARG`, an orbital that needs such a factorial, or the
    /// position of a point that is not on the grid.
    DomainError,
    /// A sampling fraction lies outside `[0, 1)`.
    OutOfRangeFraction,
    /// A distribution holds no mass at all, so there is nothing to sample.
    DegenerateDistribution,
}

} // verus!
