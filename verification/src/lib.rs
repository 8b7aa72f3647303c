//! Arithmetic over the 128-bit prime field with modulus
//! `M = 2^128 - 45 * 2^40 + 1`: modular addition, subtraction,
//! multiplication by Solinas-style reduction, and uniform sampling.

pub mod field;
pub mod laws;
pub mod utils;
