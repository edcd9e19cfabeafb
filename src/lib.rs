//! Dense integer matrices with shape-checked operations and a column-aligned
//! text rendering.
pub mod matrix;
pub mod render;
pub mod laws;

pub use matrix::{Matrix, MatrixError};
