use vstd::prelude::*;

verus! {

/// The ways a matrix operation can be asked to do something
/// ill-shaped. Every fallible operation reports which of these
/// occurred instead of faulting on a bad access.
#[derive(Clone, Copy, Debug, PartialEq, Eq, Structural)]
pub enum MatrixError {
    /// Two matrices were combined whose shapes do not fit the
    /// operation: unequal shapes for addition, or unequal inner
    /// dimensions for multiplication.
    DimensionMismatch,
    /// A row or column index at or beyond the matrix bound.
    IndexOutOfBounds,
    /// A construction from rows was given no rows, or an empty
    /// first row.
    EmptyInput,
    /// A construction from rows was given rows of differing lengths.
    RowLengthMismatch,
}

impl MatrixError {
    /// A short, stable name for the error, for embedding in messages.
    pub fn describe(&self) -> (r: &'static str)
        ensures
            r@ == match *self {
                MatrixError::DimensionMismatch => "dimension mismatch"@,
                MatrixError::IndexOutOfBounds => "index out of bounds"@,
                MatrixError::EmptyInput => "empty input"@,
                MatrixError::RowLengthMismatch => "row length mismatch"@,
            },
    {
        match self {
            MatrixError::DimensionMismatch => "dimension mismatch",
            MatrixError::IndexOutOfBounds => "index out of bounds",
            MatrixError::EmptyInput => "empty input",
            MatrixError::RowLengthMismatch => "row length mismatch",
        }
    }
}

} // verus!
