//! A small linear-algebra library: vectors and matrices over exact scalar
//! types, with elementwise arithmetic, dot product, norms, linear combination
//! and interpolation. Every operation carries a proved contract; dimension
//! mismatches surface as a typed error before either operand is touched.

pub mod error;
pub mod frac;
pub mod lerp;
pub mod linear_combination;
pub mod matrix;
pub mod scalar;
pub mod vector;
