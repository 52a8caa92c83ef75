//! A dense, row-major matrix of 64-bit integers with verified construction,
//! transpose, addition, multiplication, row slicing and element access.

pub mod laws;
pub mod matrix;
pub mod model;

pub use crate::matrix::Matrix;
