//! Fixed-dimension vectors and square matrices over `i64` scalars.
//!
//! The dimension is a const parameter, so every `VecN<N>` has exactly `N`
//! components and every `Matrix<N>` exactly `N` rows of `N` entries. Each
//! operation is specified over a mathematical model: a vector is viewed as a
//! `Seq<int>`, a matrix as a `Seq<Seq<int>>` of rows.
pub mod matrix;
pub mod sum;
pub mod vector;

pub use matrix::Matrix;
pub use vector::VecN;
