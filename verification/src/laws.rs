//! Laws that relate the shape operations to one another.

use vstd::prelude::*;
use crate::error::TensorError;
use crate::model::TensorView;

verus! {

/// Reshaping a tensor to any shape that describes as many elements as it
/// holds, and then back to its own shape, gives the tensor again: the same
/// elements in the same order, under the same shape.
pub proof fn lemma_reshape_round_trip<E>(t: TensorView<E>, shape: Seq<usize>)
    requires
        t.wf(),
        crate::shape::volume(shape) == t.elems.len(),
    ensures
        t.reshaped(shape).is_ok(),
        t.reshaped(shape).unwrap().wf(),
        t.reshaped(shape).unwrap().elems == t.elems,
        t.reshaped(shape).unwrap().reshaped(t.shape) == Ok::<TensorView<E>, TensorError>(t),
{
}

/// Transposing a matrix twice gives the matrix again: the same shape and
/// the same elements in the same order.
pub proof fn lemma_transpose_twice<E>(t: TensorView<E>)
    requires
        t.wf(),
        t.rank() == 2,
    ensures
        t.transposed().is_ok(),
        t.transposed().unwrap().transposed() == Ok::<TensorView<E>, TensorError>(t),
{
    let u = t.transposed().unwrap();
    let back = u.transposed().unwrap();
    let rows: int = t.rows() as int;
    let cols: int = t.cols() as int;
    crate::matrix::lemma_transposed(t);
    crate::matrix::lemma_matrix_len(t);
    assert(back.shape =~= t.shape);
    assert forall|p: int| 0 <= p < t.elems.len() implies back.elems[p] == t.elems[p] by {
        crate::matrix::lemma_offset_join(p, rows, cols);
        let i: int = p / cols;
        let j: int = p % cols;
        assert(u.at(j, i) == t.at(i, j));
    }
    assert(back.elems =~= t.elems);
}

} // verus!
