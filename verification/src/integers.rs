//! Tensors of `i64`: the arithmetic wraps, so every element of a result is
//! the exact value reduced modulo 2^64.

use vstd::prelude::*;
use crate::model::TensorView;

verus! {

/// The `i64` that differs from `x` by a multiple of 2^64.
pub open spec fn wrap(x: int) -> i64 {
    vstd::wrapping::i64_specs::signed_crop(x)
}

/// Two integers that differ by a multiple of 2^64.
pub open spec fn congruent(x: int, y: int) -> bool {
    x % 0x1_0000_0000_0000_0000 == y % 0x1_0000_0000_0000_0000
}

/// Integers that differ by a multiple of 2^64 wrap to the same `i64`.
pub proof fn lemma_congruent_wrap(x: int, y: int)
    requires
        congruent(x, y),
    ensures
        wrap(x) == wrap(y),
{
}

/// Sums and products of integers that differ by multiples of 2^64 differ by
/// multiples of 2^64.
pub proof fn lemma_congruent_arith(x: int, x2: int, y: int, y2: int)
    requires
        congruent(x, x2),
        congruent(y, y2),
    ensures
        congruent(x + y, x2 + y2),
        congruent(x * y, x2 * y2),
{
    let m: int = 0x1_0000_0000_0000_0000;
    vstd::arithmetic::div_mod::lemma_mul_mod_noop_general(x, y, m);
    vstd::arithmetic::div_mod::lemma_mul_mod_noop_general(x2, y2, m);
}

/// The sum of the products `a[k] * b[k]`, as an integer.
pub open spec fn dot_sum(a: Seq<i64>, b: Seq<i64>) -> int
    decreases a.len(),
{
    if a.len() == 0 {
        0
    } else {
        dot_sum(a.drop_last(), b.drop_last()) + a.last() * b.last()
    }
}

/// On `i64`, the dot product of `a` and `b` is the sum of the products
/// `a[k] * b[k]`, wrapped.
pub proof fn lemma_dot_exact(a: Seq<i64>, b: Seq<i64>, r: i64)
    requires
        crate::model::is_dot(a, b, r),
    ensures
        r == wrap(dot_sum(a, b)),
    decreases a.len(),
{
    if a.len() > 0 {
        let (acc, term) = choose|acc: i64, term: i64|
            {
                &&& crate::model::is_dot(a.drop_last(), b.drop_last(), acc)
                &&& #[trigger] crate::scalar::is_product(a.last(), b.last(), term)
                &&& #[trigger] crate::scalar::is_sum(acc, term, r)
            };
        lemma_dot_exact(a.drop_last(), b.drop_last(), acc);
    }
}

/// The sum of `f(0)`, ..., `f(n - 1)`.
pub open spec fn sum_to(n: nat, f: spec_fn(int) -> int) -> int
    decreases n,
{
    if n == 0 {
        0
    } else {
        sum_to((n - 1) as nat, f) + f(n - 1)
    }
}

/// Sums of terms that are equal one by one are equal.
pub proof fn lemma_sum_equal(n: nat, f: spec_fn(int) -> int, g: spec_fn(int) -> int)
    requires
        forall|k: int| 0 <= k < n ==> #[trigger] f(k) == g(k),
    ensures
        sum_to(n, f) == sum_to(n, g),
    decreases n,
{
    if n > 0 {
        lemma_sum_equal((n - 1) as nat, f, g);
    }
}

/// Sums of terms that differ one by one by multiples of 2^64 differ by a
/// multiple of 2^64.
pub proof fn lemma_sum_congruent(n: nat, f: spec_fn(int) -> int, g: spec_fn(int) -> int)
    requires
        forall|k: int| 0 <= k < n ==> #[trigger] congruent(f(k), g(k)),
    ensures
        congruent(sum_to(n, f), sum_to(n, g)),
    decreases n,
{
    if n > 0 {
        lemma_sum_congruent((n - 1) as nat, f, g);
        lemma_congruent_arith(
            sum_to((n - 1) as nat, f),
            sum_to((n - 1) as nat, g),
            f(n - 1),
            g(n - 1),
        );
    }
}

/// A factor common to all terms of a sum can be taken out of it.
pub proof fn lemma_sum_scaled(n: nat, f: spec_fn(int) -> int, c: int, g: spec_fn(int) -> int)
    requires
        forall|k: int| 0 <= k < n ==> #[trigger] g(k) == f(k) * c,
    ensures
        sum_to(n, g) == sum_to(n, f) * c,
    decreases n,
{
    if n > 0 {
        lemma_sum_scaled((n - 1) as nat, f, c, g);
        assert((sum_to((n - 1) as nat, f) + f(n - 1)) * c == sum_to((n - 1) as nat, f) * c + f(
            n - 1,
        ) * c) by (nonlinear_arith);
    }
}

/// The sum of sums, term by term, is the sum of the two sums.
pub proof fn lemma_sum_added(
    n: nat,
    f: spec_fn(int) -> int,
    g: spec_fn(int) -> int,
    both: spec_fn(int) -> int,
)
    requires
        forall|k: int| 0 <= k < n ==> #[trigger] both(k) == f(k) + g(k),
    ensures
        sum_to(n, both) == sum_to(n, f) + sum_to(n, g),
    decreases n,
{
    if n > 0 {
        lemma_sum_added((n - 1) as nat, f, g, both);
    }
}

/// A sum over rows of sums over columns is the sum over columns of the sums
/// over rows.
pub proof fn lemma_sum_exchanged(n: nat, m: nat, h: spec_fn(int, int) -> int)
    ensures
        sum_to(n, |l: int| sum_to(m, |k: int| h(l, k))) == sum_to(
            m,
            |k: int| sum_to(n, |l: int| h(l, k)),
        ),
    decreases n,
{
    let by_rows = |l: int| sum_to(m, |k: int| h(l, k));
    let by_cols = |k: int| sum_to(n, |l: int| h(l, k));
    if n == 0 {
        // Every column sums to zero, and a sum of zeros is zero.
        let zero = |k: int| 0int;
        lemma_sum_equal(m, by_cols, zero);
        lemma_sum_scaled(m, zero, 0, zero);
    } else {
        let rest: nat = (n - 1) as nat;
        let cols_before = |k: int| sum_to(rest, |l: int| h(l, k));
        let last_row = |k: int| h(n - 1, k);
        lemma_sum_exchanged(rest, m, h);
        lemma_sum_added(m, cols_before, last_row, by_cols);
    }
}

/// The dot product of `a` and `b`, which have one length, as a sum over
/// their positions.
pub proof fn lemma_dot_sum(a: Seq<i64>, b: Seq<i64>)
    requires
        a.len() == b.len(),
    ensures
        dot_sum(a, b) == sum_to(a.len(), |k: int| a[k] * b[k]),
    decreases a.len(),
{
    if a.len() > 0 {
        let rest: nat = (a.len() - 1) as nat;
        lemma_dot_sum(a.drop_last(), b.drop_last());
        lemma_sum_equal(
            rest,
            |k: int| a.drop_last()[k] * b.drop_last()[k],
            |k: int| a[k] * b[k],
        );
    }
}

/// The sum of which the element in row `i` and column `j` of the matrix
/// product of `a` and `b` is made: over `k`, the products of the element
/// in row `i` and column `k` of `a` and the element in row `k` and column
/// `j` of `b`.
pub open spec fn entry_sum(a: TensorView<i64>, b: TensorView<i64>, i: int, j: int) -> int {
    sum_to(a.cols(), |k: int| a.at(i, k) * b.at(k, j))
}

/// On `i64`, each element of a matrix product is its sum of products,
/// wrapped.
pub proof fn lemma_product_entry(
    p: TensorView<i64>,
    a: TensorView<i64>,
    b: TensorView<i64>,
    i: int,
    j: int,
)
    requires
        a.rank() == 2,
        b.rank() == 2,
        a.cols() == b.rows(),
        p.is_matrix_product_of(a, b),
        0 <= i < a.rows(),
        0 <= j < b.cols(),
    ensures
        p.at(i, j) == wrap(entry_sum(a, b, i, j)),
{
    let row = a.row(i);
    let col = b.col(j);
    lemma_dot_exact(row, col, p.at(i, j));
    lemma_dot_sum(row, col);
    lemma_sum_equal(a.cols(), |k: int| row[k] * col[k], |k: int| a.at(i, k) * b.at(k, j));
}

/// On `i64`, the matrix product is associative: `(a * b) * c` and
/// `a * (b * c)` are the same tensor.
pub proof fn lemma_product_associative(
    a: TensorView<i64>,
    b: TensorView<i64>,
    c: TensorView<i64>,
    ab: TensorView<i64>,
    bc: TensorView<i64>,
    left: TensorView<i64>,
    right: TensorView<i64>,
)
    requires
        a.wf() && a.rank() == 2,
        b.wf() && b.rank() == 2,
        c.wf() && c.rank() == 2,
        a.cols() == b.rows(),
        b.cols() == c.rows(),
        ab.is_matrix_product_of(a, b),
        left.is_matrix_product_of(ab, c),
        bc.is_matrix_product_of(b, c),
        right.is_matrix_product_of(a, bc),
    ensures
        left == right,
{
    crate::matrix::lemma_product_shape(ab, a, b);
    crate::matrix::lemma_product_shape(bc, b, c);
    crate::matrix::lemma_product_shape(left, ab, c);
    crate::matrix::lemma_product_shape(right, a, bc);
    let inner: nat = a.cols();
    let outer: nat = b.cols();
    assert forall|i: int, j: int|
        0 <= i < left.rows() && 0 <= j < left.cols() implies #[trigger] left.at(i, j) == right.at(
        i,
        j,
    ) by {
        let h = |l: int, k: int| (a.at(i, k) * b.at(k, l)) * c.at(l, j);
        // The left side, row by row of `c`.
        let left_terms = |l: int| ab.at(i, l) * c.at(l, j);
        let left_exact = |l: int| sum_to(inner, |k: int| h(l, k));
        lemma_product_entry(left, ab, c, i, j);
        assert forall|l: int| 0 <= l < outer implies #[trigger] congruent(
            left_terms(l),
            left_exact(l),
        ) by {
            lemma_product_entry(ab, a, b, i, l);
            lemma_congruent_arith(
                ab.at(i, l) as int,
                entry_sum(a, b, i, l),
                c.at(l, j) as int,
                c.at(l, j) as int,
            );
            lemma_sum_scaled(
                inner,
                |k: int| a.at(i, k) * b.at(k, l),
                c.at(l, j) as int,
                |k: int| h(l, k),
            );
        }
        lemma_sum_congruent(outer, left_terms, left_exact);
        // The right side, column by column of `a`.
        let right_terms = |k: int| a.at(i, k) * bc.at(k, j);
        let right_exact = |k: int| sum_to(outer, |l: int| h(l, k));
        lemma_product_entry(right, a, bc, i, j);
        assert forall|k: int| 0 <= k < inner implies #[trigger] congruent(
            right_terms(k),
            right_exact(k),
        ) by {
            lemma_product_entry(bc, b, c, k, j);
            lemma_congruent_arith(
                a.at(i, k) as int,
                a.at(i, k) as int,
                bc.at(k, j) as int,
                entry_sum(b, c, k, j),
            );
            let scaled = |l: int| (b.at(k, l) * c.at(l, j)) * a.at(i, k);
            lemma_sum_scaled(
                outer,
                |l: int| b.at(k, l) * c.at(l, j),
                a.at(i, k) as int,
                scaled,
            );
            assert forall|l: int| 0 <= l < outer implies #[trigger] scaled(l) == h(l, k) by {
                assert((b.at(k, l) * c.at(l, j)) * a.at(i, k) == (a.at(i, k) * b.at(k, l)) * c.at(
                    l,
                    j,
                )) by (nonlinear_arith);
            }
            lemma_sum_equal(outer, scaled, |l: int| h(l, k));
            assert(a.at(i, k) * entry_sum(b, c, k, j)
                == entry_sum(b, c, k, j) * a.at(i, k)) by (nonlinear_arith);
        }
        lemma_sum_congruent(inner, right_terms, right_exact);
        lemma_sum_exchanged(outer, inner, h);
        lemma_congruent_wrap(
            entry_sum(ab, c, i, j),
            entry_sum(a, bc, i, j),
        );
    }
    crate::matrix::lemma_matrices_equal(left, right);
}

/// On `i64`, the element in row `i` and column `j` of the sum of two
/// matrices of one shape is the sum of their elements there, wrapped.
pub proof fn lemma_sum_entry(
    s: TensorView<i64>,
    x: TensorView<i64>,
    y: TensorView<i64>,
    i: int,
    j: int,
)
    requires
        x.wf() && x.rank() == 2,
        x.shape == y.shape,
        s.is_sum_of(x, y),
        0 <= i < x.rows(),
        0 <= j < x.cols(),
    ensures
        s.at(i, j) == wrap(x.at(i, j) + y.at(i, j)),
{
    crate::matrix::lemma_matrix_len(x);
    crate::matrix::lemma_offset_in_bounds(i, j, x.rows() as int, x.cols() as int);
    let p: int = i * x.cols() + j;
}

/// On `i64`, the matrix product distributes over the sum on its right:
/// `a * (b + c)` and `a * b + a * c` are the same tensor.
pub proof fn lemma_product_distributes_right(
    a: TensorView<i64>,
    b: TensorView<i64>,
    c: TensorView<i64>,
    sum: TensorView<i64>,
    ab: TensorView<i64>,
    ac: TensorView<i64>,
    left: TensorView<i64>,
    right: TensorView<i64>,
)
    requires
        a.wf() && a.rank() == 2,
        b.wf() && b.rank() == 2,
        c.wf() && c.rank() == 2,
        b.shape == c.shape,
        a.cols() == b.rows(),
        sum.is_sum_of(b, c),
        left.is_matrix_product_of(a, sum),
        ab.is_matrix_product_of(a, b),
        ac.is_matrix_product_of(a, c),
        right.is_sum_of(ab, ac),
    ensures
        left == right,
{
    crate::matrix::lemma_product_shape(left, a, sum);
    crate::matrix::lemma_product_shape(ab, a, b);
    crate::matrix::lemma_product_shape(ac, a, c);
    let inner: nat = a.cols();
    assert forall|i: int, j: int|
        0 <= i < left.rows() && 0 <= j < left.cols() implies #[trigger] left.at(i, j) == right.at(
        i,
        j,
    ) by {
        let with_b = |k: int| a.at(i, k) * b.at(k, j);
        let with_c = |k: int| a.at(i, k) * c.at(k, j);
        let with_sum = |k: int| a.at(i, k) * sum.at(k, j);
        let exact = |k: int| with_b(k) + with_c(k);
        lemma_product_entry(left, a, sum, i, j);
        lemma_product_entry(ab, a, b, i, j);
        lemma_product_entry(ac, a, c, i, j);
        lemma_sum_entry(right, ab, ac, i, j);
        assert forall|k: int| 0 <= k < inner implies #[trigger] congruent(
            with_sum(k),
            exact(k),
        ) by {
            lemma_sum_entry(sum, b, c, k, j);
            lemma_congruent_arith(
                a.at(i, k) as int,
                a.at(i, k) as int,
                sum.at(k, j) as int,
                b.at(k, j) + c.at(k, j),
            );
            assert(a.at(i, k) * (b.at(k, j) + c.at(k, j)) == a.at(i, k) * b.at(k, j) + a.at(i, k)
                * c.at(k, j)) by (nonlinear_arith);
        }
        lemma_sum_congruent(inner, with_sum, exact);
        lemma_sum_added(inner, with_b, with_c, exact);
        let sum_b: int = entry_sum(a, b, i, j);
        let sum_c: int = entry_sum(a, c, i, j);
        lemma_congruent_arith(wrap(sum_b) as int, sum_b, wrap(sum_c) as int, sum_c);
        lemma_congruent_wrap(
            entry_sum(a, sum, i, j),
            wrap(sum_b) + wrap(sum_c),
        );
    }
    crate::matrix::lemma_matrices_equal(left, right);
}

/// On `i64`, the matrix product distributes over the sum on its left:
/// `(a + b) * c` and `a * c + b * c` are the same tensor.
pub proof fn lemma_product_distributes_left(
    a: TensorView<i64>,
    b: TensorView<i64>,
    c: TensorView<i64>,
    sum: TensorView<i64>,
    ac: TensorView<i64>,
    bc: TensorView<i64>,
    left: TensorView<i64>,
    right: TensorView<i64>,
)
    requires
        a.wf() && a.rank() == 2,
        b.wf() && b.rank() == 2,
        c.wf() && c.rank() == 2,
        a.shape == b.shape,
        a.cols() == c.rows(),
        sum.is_sum_of(a, b),
        left.is_matrix_product_of(sum, c),
        ac.is_matrix_product_of(a, c),
        bc.is_matrix_product_of(b, c),
        right.is_sum_of(ac, bc),
    ensures
        left == right,
{
    crate::matrix::lemma_product_shape(left, sum, c);
    crate::matrix::lemma_product_shape(ac, a, c);
    crate::matrix::lemma_product_shape(bc, b, c);
    let inner: nat = a.cols();
    assert forall|i: int, j: int|
        0 <= i < left.rows() && 0 <= j < left.cols() implies #[trigger] left.at(i, j) == right.at(
        i,
        j,
    ) by {
        let with_a = |k: int| a.at(i, k) * c.at(k, j);
        let with_b = |k: int| b.at(i, k) * c.at(k, j);
        let with_sum = |k: int| sum.at(i, k) * c.at(k, j);
        let exact = |k: int| with_a(k) + with_b(k);
        lemma_product_entry(left, sum, c, i, j);
        lemma_product_entry(ac, a, c, i, j);
        lemma_product_entry(bc, b, c, i, j);
        lemma_sum_entry(right, ac, bc, i, j);
        assert forall|k: int| 0 <= k < inner implies #[trigger] congruent(
            with_sum(k),
            exact(k),
        ) by {
            lemma_sum_entry(sum, a, b, i, k);
            lemma_congruent_arith(
                sum.at(i, k) as int,
                a.at(i, k) + b.at(i, k),
                c.at(k, j) as int,
                c.at(k, j) as int,
            );
            assert((a.at(i, k) + b.at(i, k)) * c.at(k, j) == a.at(i, k) * c.at(k, j) + b.at(i, k)
                * c.at(k, j)) by (nonlinear_arith);
        }
        lemma_sum_congruent(inner, with_sum, exact);
        lemma_sum_added(inner, with_a, with_b, exact);
        let sum_a: int = entry_sum(a, c, i, j);
        let sum_b: int = entry_sum(b, c, i, j);
        lemma_congruent_arith(wrap(sum_a) as int, sum_a, wrap(sum_b) as int, sum_b);
        lemma_congruent_wrap(
            entry_sum(sum, c, i, j),
            wrap(sum_a) + wrap(sum_b),
        );
    }
    crate::matrix::lemma_matrices_equal(left, right);
}

} // verus!
