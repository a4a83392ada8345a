use vstd::prelude::*;

verus! {

/// Why an operation on a tensor was refused.
#[derive(Clone, Copy, Debug, PartialEq, Eq, Structural)]
pub enum TensorError {
    /// The shapes or element counts involved do not fit one another.
    ShapeMismatch,
    /// The operation is defined for matrices only and the tensor is not one.
    UnsupportedRank,
    /// A generator was asked for a degenerate sequence.
    InvalidArgument,
}

} // verus!
