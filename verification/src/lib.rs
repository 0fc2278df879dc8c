//! Escape-time field over a square sample of the complex plane.
//!
//! The library verifies the parts of the computation with discrete meaning:
//! assembling the square grid of binary classification values from an escape
//! kernel, and exporting the grid as a flat, length-tagged buffer in
//! row-major order. The floating-point kernel itself and the raw-pointer
//! boundary handle live outside the verified core and feed it plain values.

pub mod export;
pub mod field;
pub mod grid;

pub use crate::export::{flatten, FlatBuffer};
pub use crate::field::{classify, sample_field, Cell, FieldError};
pub use crate::grid::is_square;
