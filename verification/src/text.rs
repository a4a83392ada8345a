//! A matrix as text: one line for each row.

use vstd::prelude::*;
use vstd::string::StringExecFns;
use crate::error::TensorError;
use crate::scalar::Scalar;
use crate::tensors::Tensor;

verus! {

/// The texts of the cells, one after the other.
pub open spec fn texts(cells: Seq<String>) -> Seq<Seq<char>> {
    Seq::new(cells.len(), |i: int| cells[i]@)
}

/// The cells of one row with a comma and a space between neighbours.
pub open spec fn joined(cells: Seq<Seq<char>>) -> Seq<char>
    decreases cells.len(),
{
    if cells.len() == 0 {
        Seq::empty()
    } else if cells.len() == 1 {
        cells[0]
    } else {
        joined(cells.drop_last()) + seq![',', ' '] + cells.last()
    }
}

/// The line for one row: a space, the joined cells in square brackets, and
/// a line feed.
pub open spec fn row_text(cells: Seq<Seq<char>>) -> Seq<char> {
    seq![' ', '['] + joined(cells) + seq![']', '\n']
}

/// The lines of the first `rows` rows of a matrix with `cols` columns whose
/// cells are given in row-major order.
pub open spec fn grid_text(cells: Seq<Seq<char>>, rows: nat, cols: nat) -> Seq<char>
    decreases rows,
{
    if rows == 0 {
        Seq::empty()
    } else {
        grid_text(cells, (rows - 1) as nat, cols) + row_text(
            cells.subrange((rows - 1) * cols, (rows - 1) * cols + cols),
        )
    }
}

/// Each cell is the text of the element in its place.
pub open spec fn are_texts_of<E: Scalar>(cells: Seq<String>, elems: Seq<E>) -> bool {
    &&& cells.len() == elems.len()
    &&& forall|i: int|
        0 <= i < cells.len() ==> crate::scalar::is_text(elems[i], #[trigger] cells[i])
}

/// Lays out the cells of a matrix with `rows` rows and `cols` columns, given
/// in row-major order, one line for each row.
///
/// Fails with `ShapeMismatch` exactly when there are not `rows * cols` cells.
#[verifier::loop_isolation(false)]
pub fn layout(cells: &Vec<String>, rows: usize, cols: usize) -> (r: Result<String, TensorError>)
    ensures
        match r {
            Ok(s) => cells@.len() == rows * cols && s@ == grid_text(
                texts(cells@),
                rows as nat,
                cols as nat,
            ),
            Err(e) => cells@.len() != rows * cols && e == TensorError::ShapeMismatch,
        },
{
    let len: usize = cells.len();
    match rows.checked_mul(cols) {
        Some(n) => {
            if n != len {
                return Err(TensorError::ShapeMismatch);
            }
        },
        None => {
            return Err(TensorError::ShapeMismatch);
        },
    }
    let ghost all = texts(cells@);
    let mut out = String::new();
    let mut i: usize = 0;
    while i < rows
        invariant
            i <= rows,
            out@ == grid_text(all, i as nat, cols as nat),
        decreases rows - i,
    {
        let ghost before = out@;
        let ghost row = all.subrange(i * cols, i * cols + cols);
        proof {
            reveal_strlit(" [");
            reveal_strlit(", ");
            reveal_strlit("]\n");
            assert(0 <= i * cols && (i + 1) * cols <= rows * cols) by (nonlinear_arith)
                requires
                    0 <= i < rows,
                    0 <= cols,
            ;
            assert((i + 1) * cols == i * cols + cols) by (nonlinear_arith);
        }
        out.append(" [");
        let mut j: usize = 0;
        while j < cols
            invariant
                i < rows,
                j <= cols,
                out@ == before + seq![' ', '['] + joined(row.take(j as int)),
            decreases cols - j,
        {
            if j > 0 {
                out.append(", ");
            }
            out.append(cells[i * cols + j].as_str());
            proof {
                let next = row.take(j + 1);
                assert(next.drop_last() =~= row.take(j as int));
                if j > 0 {
                    assert(joined(next) == joined(row.take(j as int)) + seq![',', ' ']
                        + next.last());
                }
            }
            j += 1;
        }
        out.append("]\n");
        proof {
            assert(row.take(cols as int) =~= row);
        }
        i += 1;
    }
    Ok(out)
}

impl<E: Scalar> Tensor<E> {
    /// The matrix as text, one line for each row: a space, then the texts
    /// of the row's elements in square brackets, with a comma and a space
    /// between neighbours, then a line feed.
    ///
    /// Fails with `UnsupportedRank` exactly when the tensor does not have two
    /// dimensions.
    pub fn render(&self) -> (r: Result<String, TensorError>)
        ensures
            match r {
                Ok(s) => self@.rank() == 2 && exists|cells: Seq<String>|
                    {
                        &&& #[trigger] are_texts_of(cells, self@.elems)
                        &&& s@ == grid_text(texts(cells), self@.rows(), self@.cols())
                    },
                Err(e) => self@.rank() != 2 && e == TensorError::UnsupportedRank,
            },
    {
        proof {
            use_type_invariant(self);
        }
        if self.dim.len() != 2 {
            return Err(TensorError::UnsupportedRank);
        }
        proof {
            crate::matrix::lemma_matrix_len(self@);
        }
        let n: usize = self.elems.len();
        let mut cells: Vec<String> = Vec::new();
        let mut i: usize = 0;
        while i < n
            invariant
                i <= n,
                n == self.elems@.len(),
                cells@.len() == i,
                forall|k: int|
                    0 <= k < i ==> crate::scalar::is_text(self.elems@[k], #[trigger] cells@[k]),
            decreases n - i,
        {
            cells.push(self.elems[i].text());
            i += 1;
        }
        assert(are_texts_of(cells@, self@.elems));
        layout(&cells, self.dim[0], self.dim[1])
    }
}

} // verus!
