//! Matrices and the transformations written as matrices.

pub mod matrix;
