//! A small generic matrix-arithmetic library.
//!
//! Rectangular matrices over a numeric element type are built from flat,
//! row-major input data and support elementwise addition, matrix
//! multiplication, identity-matrix generation and, for the 2x2 case,
//! regularity testing and inversion. Every operation reads its operands and
//! returns a new value or a typed error; nothing is mutated in place.

pub mod error;
pub mod matrix;
pub mod number;
