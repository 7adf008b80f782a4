use vstd::arithmetic::div_mod::{lemma_fundamental_div_mod_converse, lemma_mod_multiples_basic};
use vstd::prelude::*;
use p3_matrix::dense::{DenseMatrix, RowMajorMatrix};

verus! {

/// The dense row-major matrix of `p3_matrix`. Verified code hands it on and
/// speaks of it through `matrix_values` and `matrix_width` alone.
#[verifier::external_type_specification]
#[verifier::external_body]
#[verifier::reject_recursive_types(T)]
#[verifier::reject_recursive_types(V)]
pub struct ExDenseMatrix<T, V>(DenseMatrix<T, V>);

/// The cells of a trace, row after row: the matrix's `values` buffer. A cell
/// holds the canonical integer of a field element.
pub uninterp spec fn matrix_values(m: RowMajorMatrix<u64>) -> Seq<u64>;

/// The number of columns: the matrix's `width` field.
pub uninterp spec fn matrix_width(m: RowMajorMatrix<u64>) -> nat;

/// The number of rows of a matrix with at least one column.
pub open spec fn matrix_height(m: RowMajorMatrix<u64>) -> nat {
    matrix_values(m).len() / matrix_width(m)
}

/// The cell in row `r` and column `c`.
pub open spec fn matrix_cell(m: RowMajorMatrix<u64>, r: int, c: int) -> u64 {
    matrix_values(m)[r * matrix_width(m) + c]
}

/// `RowMajorMatrix::new`: the matrix keeps the buffer and the width it is
/// given, unchanged. The buffer must hold whole rows (none, where the width is
/// zero), which the outside constructor asserts.
#[verifier::external_body]
pub(crate) fn new_matrix(values: Vec<u64>, width: usize) -> (m: RowMajorMatrix<u64>)
    requires
        width == 0 ==> values@.len() == 0,
        width > 0 ==> values@.len() % (width as nat) == 0,
    ensures
        matrix_values(m) == values@,
        matrix_width(m) == width,
{
    RowMajorMatrix::new(values, width)
}

/// The cells of `rows`, row after row.
pub open spec fn flatten_rows<const N: usize>(rows: Seq<[u64; N]>) -> Seq<u64> {
    Seq::new(rows.len() * (N as nat), |i: int| rows[i / (N as int)][i % (N as int)])
}

/// Lays `rows` out row after row in a matrix of `N` columns.
pub fn rows_to_matrix<const N: usize>(rows: &Vec<[u64; N]>) -> (m: RowMajorMatrix<u64>)
    ensures
        matrix_width(m) == N,
        matrix_values(m) == flatten_rows(rows@),
{
    let mut values: Vec<u64> = Vec::new();
    let mut r: usize = 0;
    while r < rows.len()
        invariant
            r <= rows.len(),
            values@.len() == r * N,
            forall|i: int|
                0 <= i < values@.len() ==> values@[i] == #[trigger] flatten_rows(rows@)[i],
        decreases rows.len() - r,
    {
        let row: &[u64; N] = &rows[r];
        let mut c: usize = 0;
        while c < N
            invariant
                r < rows.len(),
                c <= N,
                *row == rows@[r as int],
                values@.len() == r * N + c,
                forall|i: int|
                    0 <= i < values@.len() ==> values@[i] == #[trigger] flatten_rows(rows@)[i],
            decreases N - c,
        {
            proof {
                let i = r * N + c;
                lemma_fundamental_div_mod_converse(i, N as int, r as int, c as int);
                assert(i < rows@.len() * N) by (nonlinear_arith)
                    requires
                        i == r * N + c,
                        c < N,
                        r < rows@.len(),
                ;
            }
            values.push(row[c]);
            c = c + 1;
        }
        assert((r + 1) * N == r * N + N) by (nonlinear_arith);
        r = r + 1;
    }
    proof {
        assert(values@ =~= flatten_rows(rows@));
        if N > 0 {
            lemma_mod_multiples_basic(r as int, N as int);
        }
    }
    new_matrix(values, N)
}

} // verus!
