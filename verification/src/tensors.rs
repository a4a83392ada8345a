//! The tensor type, its constructors and its shape operations.

use vstd::prelude::*;
use vstd::slice::slice_to_vec;
use crate::error::TensorError;
use crate::model::TensorView;
use crate::scalar::Scalar;
use crate::shape::checked_volume;

verus! {

/// A dense tensor: a shape and a flat buffer of elements in row-major order.
///
/// Every tensor holds exactly as many elements as its shape describes.
#[derive(Debug, PartialEq)]
pub struct Tensor<E> {
    pub(crate) dim: Vec<usize>,
    pub(crate) elems: Vec<E>,
}

impl<E> View for Tensor<E> {
    type V = TensorView<E>;

    open(crate) spec fn view(&self) -> TensorView<E> {
        TensorView { shape: self.dim@, elems: self.elems@ }
    }
}

/// What a fallible operation gave: the content of the tensor, or the error.
pub open spec fn outcome<E>(r: Result<Tensor<E>, TensorError>) -> Result<
    TensorView<E>,
    TensorError,
> {
    match r {
        Ok(t) => Ok(t@),
        Err(e) => Err(e),
    }
}

impl<E> Tensor<E> {
    #[verifier::type_invariant]
    pub(crate) open spec fn inv(self) -> bool {
        self@.wf()
    }

    /// The shape.
    pub fn dim(&self) -> (r: &Vec<usize>)
        ensures
            r@ == self@.shape,
    {
        &self.dim
    }

    /// The elements, in row-major order.
    pub fn elems(&self) -> (r: &Vec<E>)
        ensures
            r@ == self@.elems,
    {
        &self.elems
    }

    /// The number of elements, which is the volume of the shape: every
    /// tensor holds exactly the elements that its shape describes.
    pub fn n_elems(&self) -> (n: usize)
        ensures
            n == self@.elems.len(),
            n == crate::shape::volume(self@.shape),
    {
        proof {
            use_type_invariant(self);
        }
        self.elems.len()
    }

    /// Gives the tensor another shape and leaves the elements and their
    /// order as they are.
    ///
    /// Fails with `ShapeMismatch` exactly when `dim` does not describe as
    /// many elements as the tensor holds; the tensor is then unchanged.
    pub fn reshape(&mut self, dim: &[usize]) -> (r: Result<(), TensorError>)
        ensures
            match old(self)@.reshaped(dim@) {
                Ok(v) => r.is_ok() && final(self)@ == v,
                Err(e) => r == Err::<(), TensorError>(e) && final(self)@ == old(self)@,
            },
    {
        proof {
            use_type_invariant(&*self);
        }
        match checked_volume(dim) {
            Some(n) => {
                if n == self.elems.len() {
                    self.dim = slice_to_vec(dim);
                    Ok(())
                } else {
                    Err(TensorError::ShapeMismatch)
                }
            },
            None => {
                assert(self.elems@.len() == self.elems.len());
                Err(TensorError::ShapeMismatch)
            },
        }
    }
}

impl<E: Copy> Tensor<E> {
    /// Builds a tensor that owns copies of the given elements and shape.
    ///
    /// Fails with `ShapeMismatch` exactly when the shape does not describe
    /// `elems.len()` elements.
    pub fn new(elems: &[E], dim: &[usize]) -> (r: Result<Tensor<E>, TensorError>)
        ensures
            match r {
                Ok(t) => crate::shape::volume(dim@) == elems@.len() && t@ == (TensorView {
                    shape: dim@,
                    elems: elems@,
                }),
                Err(e) => crate::shape::volume(dim@) != elems@.len() && e
                    == TensorError::ShapeMismatch,
            },
    {
        assert(elems@.len() == elems.len());
        match checked_volume(dim) {
            Some(n) => {
                if n == elems.len() {
                    Ok(Tensor { dim: slice_to_vec(dim), elems: slice_to_vec(elems) })
                } else {
                    Err(TensorError::ShapeMismatch)
                }
            },
            None => Err(TensorError::ShapeMismatch),
        }
    }

    /// The transpose of a matrix, as a new tensor: shape `[cols, rows]`, and
    /// in row `j` and column `i` the element that `self` has in row `i` and
    /// column `j`.
    ///
    /// Fails with `UnsupportedRank` exactly when the tensor does not have two
    /// dimensions.
    #[allow(non_snake_case)]
    #[verifier::loop_isolation(false)]
    pub fn T(&self) -> (r: Result<Tensor<E>, TensorError>)
        ensures
            outcome(r) == self@.transposed(),
    {
        proof {
            use_type_invariant(self);
        }
        if self.dim.len() != 2 {
            return Err(TensorError::UnsupportedRank);
        }
        let rows: usize = self.dim[0];
        let cols: usize = self.dim[1];
        proof {
            crate::matrix::lemma_matrix_len(self@);
            assert(self.elems@.len() == self.elems.len());
        }
        let mut out: Vec<E> = Vec::new();
        let mut j: usize = 0;
        while j < cols
            invariant
                j <= cols,
                out@.len() == j * rows,
                forall|p: int|
                    0 <= p < out@.len() ==> out@[p] == self@.at(
                        p % (rows as int),
                        p / (rows as int),
                    ),
            decreases cols - j,
        {
            let mut i: usize = 0;
            while i < rows
                invariant
                    i <= rows,
                    j < cols,
                    out@.len() == j * rows + i,
                    forall|p: int|
                        0 <= p < out@.len() ==> out@[p] == self@.at(
                            p % (rows as int),
                            p / (rows as int),
                        ),
                decreases rows - i,
            {
                proof {
                    crate::matrix::lemma_offset_in_bounds(
                        i as int,
                        j as int,
                        rows as int,
                        cols as int,
                    );
                    crate::matrix::lemma_offset_split(j as int, i as int, rows as int);
                }
                out.push(self.elems[i * cols + j]);
                i += 1;
            }
            proof {
                assert(j * rows + rows == (j + 1) * rows) by (nonlinear_arith);
            }
            j += 1;
        }
        let dim: Vec<usize> = vec![cols, rows];
        proof {
            assert(dim@ =~= seq![cols, rows]);
            assert(cols * rows == rows * cols) by (nonlinear_arith);
            crate::shape::lemma_volume_matrix(dim@);
            assert(out@ =~= self@.transposed().unwrap().elems);
        }
        Ok(Tensor { dim: dim, elems: out })
    }
}

impl<E: Scalar> Tensor<E> {
    /// One row of `count` evenly spaced points from `start` to `end`, both
    /// included: shape `[1, count]`, and at position `i` the point
    /// `start + i * step`, where `step` is `(end - start) / (count - 1)`.
    ///
    /// Fails with `InvalidArgument` exactly when `count` is less than two,
    /// for which there is no step.
    pub fn linspace(start: E, end: E, count: usize) -> (r: Result<Tensor<E>, TensorError>)
        ensures
            match r {
                Ok(t) => count >= 2 && t@.is_linspace_of(start, end, count),
                Err(e) => count < 2 && e == TensorError::InvalidArgument,
            },
    {
        if count < 2 {
            return Err(TensorError::InvalidArgument);
        }
        let span = end.minus(start);
        let gaps = E::from_index(count - 1);
        let step = span.over(gaps);
        proof {
            assert(crate::scalar::is_difference(end, start, span));
            assert(crate::scalar::is_index((count - 1) as usize, gaps));
            assert(crate::model::is_step(start, end, count, step));
        }
        let mut out: Vec<E> = Vec::new();
        let mut i: usize = 0;
        while i < count
            invariant
                i <= count,
                out@.len() == i,
                forall|k: int|
                    0 <= k < i ==> crate::model::is_point(
                        start,
                        step,
                        k as usize,
                        #[trigger] out@[k],
                    ),
            decreases count - i,
        {
            let pos = E::from_index(i);
            let offset = pos.times(step);
            let point = start.plus(offset);
            proof {
                assert(crate::scalar::is_product(pos, step, offset));
                assert(crate::scalar::is_sum(start, offset, point));
            }
            out.push(point);
            i += 1;
        }
        let dim: Vec<usize> = vec![1, count];
        proof {
            assert(dim@ =~= seq![1usize, count]);
            crate::shape::lemma_volume_row(dim@);
        }
        Ok(Tensor { dim: dim, elems: out })
    }

    /// One row of values spread over the interval from `min` to `max`:
    /// shape `[1, draws.len()]`, and at position `i` the value
    /// `min + draws[i] * (max - min)`.
    ///
    /// With draws from the unit interval, one for each element, the values
    /// lie between `min` and `max`.
    pub fn rand(min: E, max: E, draws: &[E]) -> (r: Tensor<E>)
        ensures
            r@.is_spread_of(min, max, draws@),
    {
        let count: usize = draws.len();
        let range = max.minus(min);
        assert(crate::scalar::is_difference(max, min, range));
        let mut out: Vec<E> = Vec::new();
        let mut i: usize = 0;
        while i < count
            invariant
                i <= count,
                count == draws@.len(),
                out@.len() == i,
                forall|k: int|
                    0 <= k < i ==> crate::model::is_scaled(
                        min,
                        range,
                        draws@[k],
                        #[trigger] out@[k],
                    ),
            decreases count - i,
        {
            let part = draws[i].times(range);
            let value = min.plus(part);
            proof {
                assert(crate::scalar::is_product(draws@[i as int], range, part));
            }
            out.push(value);
            i += 1;
        }
        let dim: Vec<usize> = vec![1, count];
        proof {
            assert(dim@ =~= seq![1usize, count]);
            crate::shape::lemma_volume_row(dim@);
        }
        Tensor { dim: dim, elems: out }
    }
}

} // verus!
