//! Matrices in row-major order: the element in row `i` and column `j` of a
//! matrix with `cols` columns lies at offset `i * cols + j`.

use vstd::prelude::*;
use crate::model::TensorView;
use crate::scalar::Scalar;

verus! {

/// The offset of a position inside a matrix lies inside its buffer.
pub proof fn lemma_offset_in_bounds(i: int, j: int, rows: int, cols: int)
    requires
        0 <= i < rows,
        0 <= j < cols,
    ensures
        0 <= i * cols,
        0 <= i * cols + j < rows * cols,
{
    assert(0 <= i * cols && i * cols + cols <= rows * cols) by (nonlinear_arith)
        requires
            0 <= i < rows,
            0 < cols,
    ;
}

/// An offset determines its row and its column.
pub proof fn lemma_offset_split(i: int, j: int, cols: int)
    requires
        0 <= i,
        0 <= j < cols,
    ensures
        (i * cols + j) / cols == i,
        (i * cols + j) % cols == j,
{
    vstd::arithmetic::div_mod::lemma_fundamental_div_mod_converse(i * cols + j, cols, i, j);
}

/// Every offset inside the buffer of a matrix is the offset of one position.
pub proof fn lemma_offset_join(p: int, rows: int, cols: int)
    requires
        0 <= p < rows * cols,
        0 <= rows,
        0 <= cols,
    ensures
        0 <= p / cols < rows,
        0 <= p % cols < cols,
        (p / cols) * cols + p % cols == p,
{
    assert(cols > 0) by (nonlinear_arith)
        requires
            0 <= p < rows * cols,
            0 <= cols,
    ;
    vstd::arithmetic::div_mod::lemma_fundamental_div_mod(p, cols);
    let q: int = p / cols;
    assert(cols * q == q * cols) by (nonlinear_arith);
    assert(0 <= q < rows) by (nonlinear_arith)
        requires
            0 <= p < rows * cols,
            p == q * cols + p % cols,
            0 <= p % cols < cols,
    ;
}

/// A well-formed matrix holds `rows * cols` elements.
pub proof fn lemma_matrix_len<E>(t: TensorView<E>)
    requires
        t.wf(),
        t.rank() == 2,
    ensures
        t.elems.len() == t.rows() * t.cols(),
{
    crate::shape::lemma_volume_matrix(t.shape);
}

/// The transpose of a well-formed matrix is a well-formed matrix, with rows
/// and columns exchanged position by position.
pub proof fn lemma_transposed<E>(t: TensorView<E>)
    requires
        t.wf(),
        t.rank() == 2,
    ensures
        t.transposed().is_ok(),
        t.transposed().unwrap().wf(),
        t.transposed().unwrap().rank() == 2,
        t.transposed().unwrap().rows() == t.cols(),
        t.transposed().unwrap().cols() == t.rows(),
        forall|i: int, j: int|
            0 <= i < t.rows() && 0 <= j < t.cols() ==> #[trigger] t.transposed().unwrap().at(j, i)
                == t.at(i, j),
{
    let u = t.transposed().unwrap();
    let rows: int = t.rows() as int;
    let cols: int = t.cols() as int;
    lemma_matrix_len(t);
    crate::shape::lemma_volume_matrix(u.shape);
    assert(cols * rows == rows * cols) by (nonlinear_arith);
    assert forall|i: int, j: int| 0 <= i < rows && 0 <= j < cols implies #[trigger] u.at(j, i)
        == t.at(i, j) by {
        lemma_offset_in_bounds(j, i, cols, rows);
        lemma_offset_split(j, i, rows);
    }
}

/// A matrix product is a well-formed matrix with the rows of its left
/// operand and the columns of its right operand.
pub proof fn lemma_product_shape<E: Scalar>(p: TensorView<E>, a: TensorView<E>, b: TensorView<E>)
    requires
        a.rank() == 2,
        b.rank() == 2,
        p.is_matrix_product_of(a, b),
    ensures
        p.wf(),
        p.rank() == 2,
        p.rows() == a.rows(),
        p.cols() == b.cols(),
{
    crate::shape::lemma_volume_matrix(p.shape);
}

/// Two well-formed matrices of one shape whose elements agree position by
/// position are equal.
pub proof fn lemma_matrices_equal<E>(x: TensorView<E>, y: TensorView<E>)
    requires
        x.wf(),
        y.wf(),
        x.rank() == 2,
        x.shape == y.shape,
        forall|i: int, j: int|
            0 <= i < x.rows() && 0 <= j < x.cols() ==> #[trigger] x.at(i, j) == y.at(i, j),
    ensures
        x == y,
{
    lemma_matrix_len(y);
    assert forall|p: int| 0 <= p < x.elems.len() implies x.elems[p] == y.elems[p] by {
        lemma_offset_join(p, x.rows() as int, x.cols() as int);
        let i: int = p / (x.cols() as int);
        let j: int = p % (x.cols() as int);
        assert(x.at(i, j) == y.at(i, j));
    }
    assert(x.elems =~= y.elems);
}

} // verus!
