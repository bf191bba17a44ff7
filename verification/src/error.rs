//! The conditions under which an operation of the library fails.
use vstd::prelude::*;

verus! {

/// Why an operation could not produce its result.
#[derive(Clone, Copy, Debug, PartialEq, Eq, Structural)]
pub enum Error {
    /// Two operands disagree in size, or a matrix does not have the shape
    /// that the operation is defined for.
    DimensionMismatch,
    /// The magnitude of a determinant lies below the tolerance.
    SingularMatrix,
    /// The second-difference matrix of an acceleration step is singular, so
    /// the step has no extrapolated point.
    AccelerationDegenerate,
    /// An iterate or a residual has a component that is not finite.
    NonFiniteIterate,
}

} // verus!
