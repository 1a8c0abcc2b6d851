//! The typed errors of the engine.

use vstd::prelude::*;

verus! {

/// Everything that can go wrong in a multiplication, kept apart so that a
/// caller can tell bad input shapes from internal worker failure.
#[derive(Clone, Copy, Debug, PartialEq, Eq, Structural)]
pub enum MatrixError {
    /// The operand shapes are incompatible: the left matrix has `a_cols`
    /// columns while the right one has `b_rows` rows. Raised before any
    /// task is built.
    ShapeMismatch { a_cols: usize, b_rows: usize },
    /// A task could not be submitted because the worker's queue is closed.
    WorkerUnavailable,
    /// A reply channel's producer disappeared without sending a result.
    WorkerCrashed,
    /// A dot product was asked of two vectors of different lengths.
    DimensionMismatch { a_len: usize, b_len: usize },
}

} // verus!
