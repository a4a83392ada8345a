//! The mathematical content of a tensor, and what each operation makes of it.

use vstd::prelude::*;
use crate::error::TensorError;
use crate::scalar::Scalar;

verus! {

/// What a tensor is: a shape and the elements in row-major order.
pub struct TensorView<E> {
    pub shape: Seq<usize>,
    pub elems: Seq<E>,
}

impl<E> TensorView<E> {
    /// The shape describes exactly the elements that are there.
    pub open spec fn wf(self) -> bool {
        crate::shape::volume(self.shape) == self.elems.len()
    }

    /// The number of dimensions.
    pub open spec fn rank(self) -> nat {
        self.shape.len()
    }

    /// The number of rows of a matrix.
    pub open spec fn rows(self) -> nat
        recommends
            self.rank() == 2,
    {
        self.shape[0] as nat
    }

    /// The number of columns of a matrix.
    pub open spec fn cols(self) -> nat
        recommends
            self.rank() == 2,
    {
        self.shape[1] as nat
    }

    /// The element in row `i` and column `j` of a matrix.
    pub open spec fn at(self, i: int, j: int) -> E
        recommends
            self.rank() == 2,
            0 <= i < self.rows(),
            0 <= j < self.cols(),
    {
        self.elems[i * self.cols() + j]
    }

    /// Row `i` of a matrix, from left to right.
    pub open spec fn row(self, i: int) -> Seq<E>
        recommends
            self.rank() == 2,
            0 <= i < self.rows(),
    {
        Seq::new(self.cols(), |j: int| self.at(i, j))
    }

    /// Column `j` of a matrix, from top to bottom.
    pub open spec fn col(self, j: int) -> Seq<E>
        recommends
            self.rank() == 2,
            0 <= j < self.cols(),
    {
        Seq::new(self.rows(), |i: int| self.at(i, j))
    }

    /// The same elements under another shape, where that shape describes as
    /// many elements as there are.
    pub open spec fn reshaped(self, shape: Seq<usize>) -> Result<TensorView<E>, TensorError> {
        if crate::shape::volume(shape) == self.elems.len() {
            Ok(TensorView { shape: shape, elems: self.elems })
        } else {
            Err(TensorError::ShapeMismatch)
        }
    }

    /// The transpose of a matrix: the element in row `j` and column `i` of
    /// the result is the element in row `i` and column `j` of `self`.
    pub open spec fn transposed(self) -> Result<TensorView<E>, TensorError> {
        if self.rank() == 2 {
            Ok(
                TensorView {
                    shape: seq![self.shape[1], self.shape[0]],
                    elems: Seq::new(
                        self.elems.len(),
                        |p: int| self.at(p % (self.rows() as int), p / (self.rows() as int)),
                    ),
                },
            )
        } else {
            Err(TensorError::UnsupportedRank)
        }
    }
}

impl<E: Scalar> TensorView<E> {
    /// Every element of `self` is the sum of the elements of `a` and `b` in
    /// its place.
    pub open spec fn is_sum_of(self, a: TensorView<E>, b: TensorView<E>) -> bool {
        &&& self.shape == a.shape
        &&& self.elems.len() == a.elems.len()
        &&& forall|i: int|
            0 <= i < self.elems.len() ==> crate::scalar::is_sum(
                a.elems[i],
                b.elems[i],
                #[trigger] self.elems[i],
            )
    }

    /// Every element of `self` is the difference of the elements of `a` and
    /// `b` in its place.
    pub open spec fn is_difference_of(self, a: TensorView<E>, b: TensorView<E>) -> bool {
        &&& self.shape == a.shape
        &&& self.elems.len() == a.elems.len()
        &&& forall|i: int|
            0 <= i < self.elems.len() ==> crate::scalar::is_difference(
                a.elems[i],
                b.elems[i],
                #[trigger] self.elems[i],
            )
    }

    /// Every element of `self` is the element of `a` in its place plus `s`.
    pub open spec fn is_sum_with(self, a: TensorView<E>, s: E) -> bool {
        &&& self.shape == a.shape
        &&& self.elems.len() == a.elems.len()
        &&& forall|i: int|
            0 <= i < self.elems.len() ==> crate::scalar::is_sum(
                a.elems[i],
                s,
                #[trigger] self.elems[i],
            )
    }

    /// Every element of `self` is the element of `a` in its place minus `s`.
    pub open spec fn is_difference_with(self, a: TensorView<E>, s: E) -> bool {
        &&& self.shape == a.shape
        &&& self.elems.len() == a.elems.len()
        &&& forall|i: int|
            0 <= i < self.elems.len() ==> crate::scalar::is_difference(
                a.elems[i],
                s,
                #[trigger] self.elems[i],
            )
    }

    /// Every element of `self` is the element of `a` in its place times `s`.
    pub open spec fn is_multiple_of(self, a: TensorView<E>, s: E) -> bool {
        &&& self.shape == a.shape
        &&& self.elems.len() == a.elems.len()
        &&& forall|i: int|
            0 <= i < self.elems.len() ==> crate::scalar::is_product(
                a.elems[i],
                s,
                #[trigger] self.elems[i],
            )
    }

    /// `self` is one row of `count` evenly spaced points from `start` to
    /// `end`, both included.
    pub open spec fn is_linspace_of(self, start: E, end: E, count: usize) -> bool {
        &&& self.shape == seq![1usize, count]
        &&& self.elems.len() == count
        &&& exists|step: E|
            {
                &&& #[trigger] is_step(start, end, count, step)
                &&& forall|i: int|
                    0 <= i < count ==> is_point(start, step, i as usize, #[trigger] self.elems[i])
            }
    }

    /// `self` is one row that holds, for each of `draws` in its place, that
    /// draw carried from the unit interval to the interval from `min` to
    /// `max`: `min + draw * (max - min)`.
    pub open spec fn is_spread_of(self, min: E, max: E, draws: Seq<E>) -> bool {
        &&& self.shape == seq![1usize, draws.len() as usize]
        &&& self.elems.len() == draws.len()
        &&& exists|range: E|
            {
                &&& #[trigger] crate::scalar::is_difference(max, min, range)
                &&& forall|i: int|
                    0 <= i < draws.len() ==> is_scaled(
                        min,
                        range,
                        draws[i],
                        #[trigger] self.elems[i],
                    )
            }
    }

    /// `self` is the matrix product of `a` and `b`: the element in row `i`
    /// and column `j` is the dot product of row `i` of `a` and column `j` of
    /// `b`.
    pub open spec fn is_matrix_product_of(self, a: TensorView<E>, b: TensorView<E>) -> bool {
        &&& self.shape == seq![a.shape[0], b.shape[1]]
        &&& self.elems.len() == a.rows() * b.cols()
        &&& forall|i: int, j: int|
            0 <= i < a.rows() && 0 <= j < b.cols() ==> is_dot(
                a.row(i),
                b.col(j),
                #[trigger] self.at(i, j),
            )
    }
}

/// `step` is the distance between neighbours among `count` evenly spaced
/// points from `start` to `end`: `(end - start) / (count - 1)`.
pub open spec fn is_step<E: Scalar>(start: E, end: E, count: usize, step: E) -> bool {
    exists|span: E, gaps: E|
        {
            &&& #[trigger] crate::scalar::is_difference(end, start, span)
            &&& #[trigger] crate::scalar::is_index((count - 1) as usize, gaps)
            &&& crate::scalar::is_quotient(span, gaps, step)
        }
}

/// `r` is the point at position `i` among evenly spaced points:
/// `start + i * step`.
pub open spec fn is_point<E: Scalar>(start: E, step: E, i: usize, r: E) -> bool {
    exists|pos: E, offset: E|
        {
            &&& crate::scalar::is_index(i, pos)
            &&& #[trigger] crate::scalar::is_product(pos, step, offset)
            &&& #[trigger] crate::scalar::is_sum(start, offset, r)
        }
}

/// `r` is `draw` carried from the unit interval to the interval that starts
/// at `min` and is `range` long: `min + draw * range`.
pub open spec fn is_scaled<E: Scalar>(min: E, range: E, draw: E, r: E) -> bool {
    exists|part: E|
        {
            &&& #[trigger] crate::scalar::is_product(draw, range, part)
            &&& crate::scalar::is_sum(min, part, r)
        }
}

/// `r` is the dot product of `a` and `b`, which have one length: the sum of
/// the products `a[k] * b[k]`, added up from zero in increasing order of `k`.
pub open spec fn is_dot<E: Scalar>(a: Seq<E>, b: Seq<E>, r: E) -> bool
    decreases a.len(),
{
    if a.len() == 0 {
        crate::scalar::is_zero(r)
    } else {
        exists|acc: E, term: E|
            {
                &&& is_dot(a.drop_last(), b.drop_last(), acc)
                &&& #[trigger] crate::scalar::is_product(a.last(), b.last(), term)
                &&& #[trigger] crate::scalar::is_sum(acc, term, r)
            }
    }
}

/// A dot product grows by one product at its end: `r` is the dot product of
/// `a` and `b` where it is the sum of the dot product of all but their last
/// elements and the product of those last two.
pub proof fn lemma_dot_step<E: Scalar>(a: Seq<E>, b: Seq<E>, acc: E, term: E, r: E)
    requires
        a.len() > 0,
        is_dot(a.drop_last(), b.drop_last(), acc),
        crate::scalar::is_product(a.last(), b.last(), term),
        crate::scalar::is_sum(acc, term, r),
    ensures
        is_dot(a, b, r),
{
}

} // verus!
