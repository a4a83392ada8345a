//! Dense tensors: a flat, row-major buffer of scalars tagged with a shape.
//!
//! The element type is a parameter. Nothing is assumed of its arithmetic:
//! each contract says which operation, on which operands, gave each element
//! of a result. For an element type whose operations have contracts of their
//! own, such as `i64`, that fixes every element.

pub mod error;
pub mod integers;
pub mod laws;
pub mod matrix;
pub mod model;
pub mod ops;
pub mod scalar;
pub mod shape;
pub mod tensors;
pub mod text;
