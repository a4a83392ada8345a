//! Shapes and the number of elements that they describe.

use vstd::prelude::*;

verus! {

/// The number of elements of a tensor with the given shape: the product of
/// its dimensions, and 1 for the empty shape.
pub open spec fn volume(shape: Seq<usize>) -> nat
    decreases shape.len(),
{
    if shape.len() == 0 {
        1
    } else {
        volume(shape.drop_last()) * (shape.last() as nat)
    }
}

/// A shape with a dimension of size zero describes no element.
pub proof fn lemma_volume_zero(shape: Seq<usize>, at: int)
    requires
        0 <= at < shape.len(),
        shape[at] == 0,
    ensures
        volume(shape) == 0,
    decreases shape.len(),
{
    if at < shape.len() - 1 {
        lemma_volume_zero(shape.drop_last(), at);
        assert(volume(shape.drop_last()) * (shape.last() as nat) == 0) by (nonlinear_arith)
            requires
                volume(shape.drop_last()) == 0,
        ;
    } else {
        assert(volume(shape.drop_last()) * (shape.last() as nat) == 0) by (nonlinear_arith)
            requires
                shape.last() == 0,
        ;
    }
}

/// Without a dimension of size zero, every leading part of a shape describes
/// at most as many elements as the whole, and at least one.
pub proof fn lemma_volume_prefix(shape: Seq<usize>, len: int)
    requires
        0 <= len <= shape.len(),
        forall|i: int| 0 <= i < shape.len() ==> shape[i] != 0,
    ensures
        1 <= volume(shape.take(len)) <= volume(shape),
    decreases shape.len() - len,
{
    if len == shape.len() {
        assert(shape.take(len) =~= shape);
        lemma_volume_positive(shape);
    } else {
        lemma_volume_prefix(shape, len + 1);
        lemma_volume_step(shape, len);
        assert(volume(shape.take(len)) <= volume(shape.take(len)) * (shape[len] as nat))
            by (nonlinear_arith)
            requires
                shape[len] >= 1,
        ;
    }
}

/// A shape without a dimension of size zero describes at least one element.
pub proof fn lemma_volume_positive(shape: Seq<usize>)
    requires
        forall|i: int| 0 <= i < shape.len() ==> shape[i] != 0,
    ensures
        volume(shape) >= 1,
    decreases shape.len(),
{
    if shape.len() > 0 {
        lemma_volume_positive(shape.drop_last());
        assert(volume(shape.drop_last()) * (shape.last() as nat) >= 1) by (nonlinear_arith)
            requires
                volume(shape.drop_last()) >= 1,
                shape.last() >= 1,
        ;
    }
}

/// Taking one more dimension into account multiplies the volume by it.
pub proof fn lemma_volume_step(shape: Seq<usize>, len: int)
    requires
        0 <= len < shape.len(),
    ensures
        volume(shape.take(len + 1)) == volume(shape.take(len)) * (shape[len] as nat),
{
    assert(shape.take(len + 1).drop_last() =~= shape.take(len));
}

/// The volume of a shape with exactly two dimensions.
pub proof fn lemma_volume_matrix(shape: Seq<usize>)
    requires
        shape.len() == 2,
    ensures
        volume(shape) == shape[0] * shape[1],
{
    let row = shape.drop_last();
    assert(volume(row.drop_last()) == 1);
    assert(volume(row) == 1 * (shape[0] as nat));
    assert(1 * (shape[0] as nat) == shape[0]) by (nonlinear_arith);
}

/// The volume of the shape of a single row.
pub proof fn lemma_volume_row(shape: Seq<usize>)
    requires
        shape.len() == 2,
        shape[0] == 1,
    ensures
        volume(shape) == shape[1],
{
    lemma_volume_matrix(shape);
    assert(shape[0] * shape[1] == shape[1]) by (nonlinear_arith)
        requires
            shape[0] == 1,
    ;
}

/// Computes the volume of a shape, or finds that it does not fit in a `usize`.
pub fn checked_volume(shape: &[usize]) -> (r: Option<usize>)
    ensures
        match r {
            Some(n) => n == volume(shape@),
            None => volume(shape@) > usize::MAX,
        },
{
    let mut i: usize = 0;
    while i < shape.len()
        invariant
            i <= shape.len(),
            forall|k: int| 0 <= k < i ==> shape@[k] != 0,
        decreases shape.len() - i,
    {
        if shape[i] == 0 {
            proof {
                lemma_volume_zero(shape@, i as int);
            }
            return Some(0);
        }
        i += 1;
    }
    let mut total: usize = 1;
    let mut j: usize = 0;
    proof {
    }
    while j < shape.len()
        invariant
            j <= shape.len(),
            forall|k: int| 0 <= k < shape.len() ==> shape@[k] != 0,
            total == volume(shape@.take(j as int)),
        decreases shape.len() - j,
    {
        proof {
            lemma_volume_step(shape@, j as int);
            lemma_volume_prefix(shape@, j + 1);
        }
        match total.checked_mul(shape[j]) {
            Some(next) => {
                total = next;
            },
            None => {
                return None;
            },
        }
        j += 1;
    }
    proof {
        assert(shape@.take(shape.len() as int) =~= shape@);
    }
    Some(total)
}

/// Whether two shapes are the same: as many dimensions, and each of one size.
pub fn same_shape(a: &Vec<usize>, b: &Vec<usize>) -> (r: bool)
    ensures
        r == (a@ == b@),
{
    if a.len() != b.len() {
        return false;
    }
    let mut i: usize = 0;
    while i < a.len()
        invariant
            i <= a.len(),
            a.len() == b.len(),
            forall|k: int| 0 <= k < i ==> a@[k] == b@[k],
        decreases a.len() - i,
    {
        if a[i] != b[i] {
            return false;
        }
        i += 1;
    }
    assert(a@ =~= b@);
    true
}

} // verus!
