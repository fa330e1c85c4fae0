//! A small dense-matrix library: construction, transpose, addition,
//! subtraction, and multiplication over any scalar type that supplies
//! total add/sub/mul operations and an additive identity.

pub mod laws;
pub mod matrix;
pub mod scalar;
