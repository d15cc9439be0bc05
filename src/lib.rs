//! Fixed-size vectors and matrices whose dimensions are part of their types,
//! with elementwise arithmetic, products, transpose, determinant and inverse.
pub mod arrays;
pub mod laws;
pub mod matrix;
pub mod scalar;
pub mod sums;
pub mod vector;

pub use matrix::Matrix;
pub use vector::Vector;
