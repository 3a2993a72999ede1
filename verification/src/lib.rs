//! A dense, row-major 2D numeric matrix container.
//!
//! The matrix is generic over its element type. Purely structural
//! operations (construction from rows, row/column access, transpose)
//! are available for any copyable element; arithmetic operations
//! (addition, scalar multiply/divide, matrix multiply, elementwise
//! exponential and reciprocal) require the element type to implement
//! the [`scalar::Scalar`] capability trait, which callers implement
//! for their numeric types.
//!
//! Illegal operations (shape mismatch in add or multiply, out-of-range
//! row or column access, empty or ragged row input) are rejected up
//! front with a typed [`error::MatrixError`] instead of faulting at
//! some later access; this is a deliberate hardening of the design
//! this crate implements.

pub mod error;
pub mod matrix;
pub mod render;
pub mod scalar;
