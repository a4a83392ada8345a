//! Arithmetic on tensors: element by element, with a scalar, and the matrix
//! product. No operation changes its operands.

use vstd::prelude::*;
use crate::error::TensorError;
use crate::model::TensorView;
use crate::scalar::Scalar;
use crate::shape::same_shape;
use crate::tensors::Tensor;

verus! {

impl<E: Scalar> Tensor<E> {
    /// The sum of two tensors of one shape, element by element.
    ///
    /// Fails with `ShapeMismatch` exactly when the shapes differ.
    pub fn add(&self, rhs: &Tensor<E>) -> (r: Result<Tensor<E>, TensorError>)
        ensures
            match r {
                Ok(t) => self@.shape == rhs@.shape && t@.is_sum_of(self@, rhs@),
                Err(e) => self@.shape != rhs@.shape && e == TensorError::ShapeMismatch,
            },
    {
        proof {
            use_type_invariant(self);
            use_type_invariant(rhs);
        }
        if !same_shape(&self.dim, &rhs.dim) {
            return Err(TensorError::ShapeMismatch);
        }
        let n: usize = self.elems.len();
        let mut out: Vec<E> = Vec::new();
        let mut i: usize = 0;
        while i < n
            invariant
                i <= n,
                n == self.elems@.len(),
                n == rhs.elems@.len(),
                out@.len() == i,
                forall|k: int|
                    0 <= k < i ==> crate::scalar::is_sum(
                        self.elems@[k],
                        rhs.elems@[k],
                        #[trigger] out@[k],
                    ),
            decreases n - i,
        {
            out.push(self.elems[i].plus(rhs.elems[i]));
            i += 1;
        }
        Ok(Tensor { dim: self.dim.clone(), elems: out })
    }

    /// The difference of two tensors of one shape, element by element.
    ///
    /// Fails with `ShapeMismatch` exactly when the shapes differ.
    pub fn sub(&self, rhs: &Tensor<E>) -> (r: Result<Tensor<E>, TensorError>)
        ensures
            match r {
                Ok(t) => self@.shape == rhs@.shape && t@.is_difference_of(self@, rhs@),
                Err(e) => self@.shape != rhs@.shape && e == TensorError::ShapeMismatch,
            },
    {
        proof {
            use_type_invariant(self);
            use_type_invariant(rhs);
        }
        if !same_shape(&self.dim, &rhs.dim) {
            return Err(TensorError::ShapeMismatch);
        }
        let n: usize = self.elems.len();
        let mut out: Vec<E> = Vec::new();
        let mut i: usize = 0;
        while i < n
            invariant
                i <= n,
                n == self.elems@.len(),
                n == rhs.elems@.len(),
                out@.len() == i,
                forall|k: int|
                    0 <= k < i ==> crate::scalar::is_difference(
                        self.elems@[k],
                        rhs.elems@[k],
                        #[trigger] out@[k],
                    ),
            decreases n - i,
        {
            out.push(self.elems[i].minus(rhs.elems[i]));
            i += 1;
        }
        Ok(Tensor { dim: self.dim.clone(), elems: out })
    }

    /// The tensor with `rhs` added to every element.
    pub fn add_scalar(&self, rhs: E) -> (r: Tensor<E>)
        ensures
            r@.is_sum_with(self@, rhs),
    {
        proof {
            use_type_invariant(self);
        }
        let n: usize = self.elems.len();
        let mut out: Vec<E> = Vec::new();
        let mut i: usize = 0;
        while i < n
            invariant
                i <= n,
                n == self.elems@.len(),
                out@.len() == i,
                forall|k: int|
                    0 <= k < i ==> crate::scalar::is_sum(self.elems@[k], rhs, #[trigger] out@[k]),
            decreases n - i,
        {
            out.push(self.elems[i].plus(rhs));
            i += 1;
        }
        Tensor { dim: self.dim.clone(), elems: out }
    }

    /// The tensor with `rhs` subtracted from every element.
    pub fn sub_scalar(&self, rhs: E) -> (r: Tensor<E>)
        ensures
            r@.is_difference_with(self@, rhs),
    {
        proof {
            use_type_invariant(self);
        }
        let n: usize = self.elems.len();
        let mut out: Vec<E> = Vec::new();
        let mut i: usize = 0;
        while i < n
            invariant
                i <= n,
                n == self.elems@.len(),
                out@.len() == i,
                forall|k: int|
                    0 <= k < i ==> crate::scalar::is_difference(
                        self.elems@[k],
                        rhs,
                        #[trigger] out@[k],
                    ),
            decreases n - i,
        {
            out.push(self.elems[i].minus(rhs));
            i += 1;
        }
        Tensor { dim: self.dim.clone(), elems: out }
    }

    /// The tensor with every element multiplied by `rhs`.
    pub fn mul_scalar(&self, rhs: E) -> (r: Tensor<E>)
        ensures
            r@.is_multiple_of(self@, rhs),
    {
        proof {
            use_type_invariant(self);
        }
        let n: usize = self.elems.len();
        let mut out: Vec<E> = Vec::new();
        let mut i: usize = 0;
        while i < n
            invariant
                i <= n,
                n == self.elems@.len(),
                out@.len() == i,
                forall|k: int|
                    0 <= k < i ==> crate::scalar::is_product(
                        self.elems@[k],
                        rhs,
                        #[trigger] out@[k],
                    ),
            decreases n - i,
        {
            out.push(self.elems[i].times(rhs));
            i += 1;
        }
        Tensor { dim: self.dim.clone(), elems: out }
    }

    /// The matrix product of two matrices, as a new tensor of shape
    /// `[self.rows, rhs.cols]`. Each element is a dot product, added up from
    /// zero in increasing order of the inner index.
    ///
    /// Fails with `UnsupportedRank` exactly when one of the two does not have
    /// two dimensions, and otherwise with `ShapeMismatch` exactly when `self`
    /// does not have as many columns as `rhs` has rows.
    #[verifier::loop_isolation(false)]
    pub fn mul(&self, rhs: &Tensor<E>) -> (r: Result<Tensor<E>, TensorError>)
        ensures
            match r {
                Ok(t) => {
                    &&& self@.rank() == 2
                    &&& rhs@.rank() == 2
                    &&& self@.cols() == rhs@.rows()
                    &&& t@.is_matrix_product_of(self@, rhs@)
                },
                Err(e) => if self@.rank() != 2 || rhs@.rank() != 2 {
                    e == TensorError::UnsupportedRank
                } else {
                    self@.cols() != rhs@.rows() && e == TensorError::ShapeMismatch
                },
            },
    {
        proof {
            use_type_invariant(self);
            use_type_invariant(rhs);
        }
        if self.dim.len() != 2 || rhs.dim.len() != 2 {
            return Err(TensorError::UnsupportedRank);
        }
        if self.dim[1] != rhs.dim[0] {
            return Err(TensorError::ShapeMismatch);
        }
        let m: usize = self.dim[0];
        let inner: usize = self.dim[1];
        let n: usize = rhs.dim[1];
        // With `rhs` transposed, both operands are read along their rows.
        let turned = match rhs.T() {
            Ok(t) => t,
            Err(e) => {
                return Err(e);
            },
        };
        proof {
            use_type_invariant(&turned);
            crate::matrix::lemma_transposed(rhs@);
            crate::matrix::lemma_matrix_len(self@);
            crate::matrix::lemma_matrix_len(turned@);
            assert(self.elems@.len() == self.elems.len());
            assert(turned.elems@.len() == turned.elems.len());
        }
        let mut out: Vec<E> = Vec::new();
        let mut i: usize = 0;
        while i < m
            invariant
                i <= m,
                out@.len() == i * n,
                forall|p: int|
                    0 <= p < out@.len() ==> crate::model::is_dot(
                        self@.row(p / (n as int)),
                        rhs@.col(p % (n as int)),
                        #[trigger] out@[p],
                    ),
            decreases m - i,
        {
            let mut j: usize = 0;
            while j < n
                invariant
                    i < m,
                    j <= n,
                    out@.len() == i * n + j,
                    forall|p: int|
                        0 <= p < out@.len() ==> crate::model::is_dot(
                            self@.row(p / (n as int)),
                            rhs@.col(p % (n as int)),
                            #[trigger] out@[p],
                        ),
                decreases n - j,
            {
                let ghost row = self@.row(i as int);
                let ghost col = rhs@.col(j as int);
                let mut e = E::zero();
                let mut k: usize = 0;
                while k < inner
                    invariant
                        k <= inner,
                        crate::model::is_dot(row.take(k as int), col.take(k as int), e),
                    decreases inner - k,
                {
                    proof {
                        crate::matrix::lemma_offset_in_bounds(
                            i as int,
                            k as int,
                            m as int,
                            inner as int,
                        );
                        crate::matrix::lemma_offset_in_bounds(
                            j as int,
                            k as int,
                            n as int,
                            inner as int,
                        );
                    }
                    let x = self.elems[i * inner + k];
                    let y = turned.elems[j * inner + k];
                    let term = x.times(y);
                    let next = e.plus(term);
                    proof {
                        let ra = row.take(k + 1);
                        let cb = col.take(k + 1);
                        assert(y == turned@.at(j as int, k as int));
                        assert(ra.drop_last() =~= row.take(k as int));
                        assert(cb.drop_last() =~= col.take(k as int));
                        crate::model::lemma_dot_step(ra, cb, e, term, next);
                    }
                    e = next;
                    k += 1;
                }
                proof {
                    assert(row.take(inner as int) =~= row);
                    assert(col.take(inner as int) =~= col);
                    crate::matrix::lemma_offset_split(i as int, j as int, n as int);
                }
                out.push(e);
                j += 1;
            }
            proof {
                assert(i * n + n == (i + 1) * n) by (nonlinear_arith);
            }
            i += 1;
        }
        let dim: Vec<usize> = vec![m, n];
        proof {
            assert(dim@ =~= seq![m, n]);
            crate::shape::lemma_volume_matrix(dim@);
            let t = TensorView { shape: dim@, elems: out@ };
            assert forall|a: int, b: int| 0 <= a < m && 0 <= b < n implies crate::model::is_dot(
                self@.row(a),
                rhs@.col(b),
                #[trigger] t.at(a, b),
            ) by {
                crate::matrix::lemma_offset_in_bounds(a, b, m as int, n as int);
                crate::matrix::lemma_offset_split(a, b, n as int);
            }
        }
        Ok(Tensor { dim: dim, elems: out })
    }
}

} // verus!
