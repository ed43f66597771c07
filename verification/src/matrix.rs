//! Row-major dense matrices and the dimension-checked matrix product.

use vstd::arithmetic::div_mod::lemma_fundamental_div_mod_converse;
use vstd::prelude::*;
use vstd::string::StringExecFns;

use crate::error::MatrixError;
use crate::text::{dec_digits, dec_int, push_i64_decimal, push_u64_decimal};
use crate::vector::{dot_in_i64, dot_product, spec_dot, Vector};

verus! {

/// The mathematical content of a `Matrix`: its extents and its row-major
/// element sequence.
pub ghost struct MatrixView {
    pub rows: nat,
    pub cols: nat,
    pub data: Seq<i64>,
}

impl MatrixView {
    /// The element at row `i`, column `j`: row-major order puts it at
    /// `i * cols + j`.
    pub open spec fn ent(self, i: int, j: int) -> i64 {
        self.data[i * self.cols + j]
    }

    /// The sole structural invariant: the data holds exactly one element
    /// per cell.
    pub open spec fn wf(self) -> bool {
        self.data.len() == self.rows * self.cols
    }

    /// Row `i`: a contiguous run of `cols` elements.
    pub open spec fn row_seq(self, i: int) -> Seq<i64> {
        Seq::new(self.cols, |j: int| self.ent(i, j))
    }

    /// Column `j`: the strided walk through the data with step `cols`,
    /// gathered into a dense sequence.
    pub open spec fn col_seq(self, j: int) -> Seq<i64> {
        Seq::new(self.rows, |i: int| self.ent(i, j))
    }
}

/// The entry of the mathematical product of `a` and `b` at row `i`,
/// column `j`: the dot product of `a`'s row `i` and `b`'s column `j`.
pub open spec fn product_ent(a: MatrixView, b: MatrixView, i: int, j: int) -> int {
    spec_dot(a.row_seq(i), b.col_seq(j))
}

/// `m` is the standard mathematical matrix product of `a` and `b`,
/// element-wise.
pub open spec fn is_product(a: MatrixView, b: MatrixView, m: MatrixView) -> bool {
    &&& m.rows == a.rows
    &&& m.cols == b.cols
    &&& m.wf()
    &&& forall|i: int, j: int|
        0 <= i < a.rows && 0 <= j < b.cols ==> #[trigger] m.ent(i, j) == product_ent(a, b, i, j)
}

/// Every per-cell dot product of the matrix product stays within `i64`,
/// and the output length fits the machine.
pub open spec fn multiply_in_i64(a: MatrixView, b: MatrixView) -> bool {
    &&& a.rows * b.cols <= usize::MAX
    &&& forall|i: int, j: int|
        0 <= i < a.rows && 0 <= j < b.cols ==> #[trigger] dot_in_i64(a.row_seq(i), b.col_seq(j))
}

/// A row-major index stays inside the grid, and dividing it back out
/// recovers the row and the column.
pub proof fn lemma_row_major_index(i: int, j: int, r: int, c: int)
    requires
        0 <= i < r,
        0 <= j < c,
    ensures
        0 <= i * c + j < r * c,
        (i * c + j) / c == i,
        (i * c + j) % c == j,
{
    assert(0 <= i * c + j < r * c) by (nonlinear_arith)
        requires
            0 <= i < r,
            0 <= j < c,
    ;
    lemma_fundamental_div_mod_converse(i * c + j, c, i, j);
}

proof fn lemma_div_in_range(k: int, q: int, rm: int, r: int, c: int)
    requires
        0 <= k < r * c,
        0 < c,
        k == c * q + rm,
        0 <= rm < c,
    ensures
        0 <= q < r,
{
    assert(0 <= q < r) by (nonlinear_arith)
        requires
            0 <= k < r * c,
            0 < c,
            k == c * q + rm,
            0 <= rm < c,
    ;
}

/// A row-major position splits back into a row and a column of the
/// grid.
pub proof fn lemma_row_major_split(k: int, r: int, c: int)
    requires
        0 <= k < r * c,
        0 < c,
    ensures
        0 <= k / c < r,
        0 <= k % c < c,
        k == (k / c) * c + (k % c),
{
    vstd::arithmetic::div_mod::lemma_fundamental_div_mod(k, c);
    vstd::arithmetic::div_mod::lemma_mod_pos_bound(k, c);
    lemma_div_in_range(k, k / c, k % c, r, c);
    assert((k / c) * c == c * (k / c)) by (nonlinear_arith);
}

/// Law: the matrix product is deterministic. Its defining relation pins
/// every cell, so any two results for the same operands are equal —
/// whatever order the per-cell work was finished in.
pub proof fn lemma_multiply_deterministic(
    a: MatrixView,
    b: MatrixView,
    m1: MatrixView,
    m2: MatrixView,
)
    requires
        is_product(a, b, m1),
        is_product(a, b, m2),
    ensures
        m1 == m2,
{
    if m1.cols == 0 {
        assert(m1.rows * m1.cols == 0) by (nonlinear_arith)
            requires
                m1.cols == 0,
        ;
        assert(m2.rows * m2.cols == 0) by (nonlinear_arith)
            requires
                m2.cols == 0,
        ;
        assert(m1.data =~= m2.data);
    } else {
        assert forall|k: int| 0 <= k < m1.data.len() implies m1.data[k] == m2.data[k] by {
            lemma_row_major_split(k, m1.rows as int, m1.cols as int);
            let i = k / m1.cols as int;
            let j = k % m1.cols as int;
            assert(m1.ent(i, j) == product_ent(a, b, i, j));
            assert(m2.ent(i, j) == product_ent(a, b, i, j));
        }
        assert(m1.data =~= m2.data);
    }
}

/// The row-major element sequence of the product of `a` and `b`,
/// truncated to its first `n` cells.
pub open spec fn product_data(a: MatrixView, b: MatrixView, n: int) -> Seq<i64> {
    Seq::new(n as nat, |k: int| (product_ent(a, b, k / b.cols as int, k % b.cols as int)) as i64)
}

/// A row-major dense numeric grid. Construction performs no shape
/// validation; callers assert the shape, and the operations that depend
/// on it require `wf()`.
pub struct Matrix {
    data: Vec<i64>,
    row: usize,
    col: usize,
}

impl View for Matrix {
    type V = MatrixView;

    closed spec fn view(&self) -> MatrixView {
        MatrixView { rows: self.row as nat, cols: self.col as nat, data: self.data@ }
    }
}

impl Matrix {
    /// The data holds exactly one element per cell.
    pub open spec fn wf(&self) -> bool {
        self@.wf()
    }

    /// Wraps the given row-major data with the given extents; O(1), no
    /// shape validation by design.
    pub fn new(data: Vec<i64>, row: usize, col: usize) -> (m: Matrix)
        ensures
            m@ == (MatrixView { rows: row as nat, cols: col as nat, data: data@ }),
    {
        Matrix { data, row, col }
    }

    pub fn rows(&self) -> (r: usize)
        ensures
            r == self@.rows,
    {
        self.row
    }

    pub fn cols(&self) -> (c: usize)
        ensures
            c == self@.cols,
    {
        self.col
    }

    /// The number of elements actually stored; equals `rows * cols`
    /// exactly when the matrix is well formed.
    pub fn size(&self) -> (n: usize)
        ensures
            n == self@.data.len(),
    {
        self.data.len()
    }

    pub fn get(&self, i: usize, j: usize) -> (x: i64)
        requires
            self.wf(),
            i < self@.rows,
            j < self@.cols,
        ensures
            x == self@.ent(i as int, j as int),
    {
        let n = self.data.len();
        proof {
            lemma_row_major_index(i as int, j as int, self@.rows as int, self@.cols as int);
        }
        self.data[i * self.col + j]
    }

    /// A dense, independent copy of row `i`: the per-task row payload
    /// built by the dispatcher.
    pub fn row_vector(&self, i: usize) -> (v: Vector)
        requires
            self.wf(),
            i < self@.rows,
        ensures
            v@ == self@.row_seq(i as int),
    {
        let c = self.cols();
        let mut out: Vec<i64> = Vec::new();
        for j in 0..c
            invariant
                self.wf(),
                i < self@.rows,
                c == self@.cols,
                out@.len() == j,
                forall|k: int| 0 <= k < j ==> out@[k] == self@.ent(i as int, k),
        {
            out.push(self.get(i, j));
        }
        proof {
            assert(out@ =~= self@.row_seq(i as int));
        }
        Vector::new(out)
    }

    /// A dense, independent copy of column `j`, gathered with a strided
    /// walk: the per-task column payload built by the dispatcher.
    pub fn col_vector(&self, j: usize) -> (v: Vector)
        requires
            self.wf(),
            j < self@.cols,
        ensures
            v@ == self@.col_seq(j as int),
    {
        let r = self.rows();
        let mut out: Vec<i64> = Vec::new();
        for i in 0..r
            invariant
                self.wf(),
                j < self@.cols,
                r == self@.rows,
                out@.len() == i,
                forall|k: int| 0 <= k < i ==> out@[k] == self@.ent(k, j as int),
        {
            out.push(self.get(i, j));
        }
        proof {
            assert(out@ =~= self@.col_seq(j as int));
        }
        Vector::new(out)
    }
}

/// The characters of the first `j` cells of row `i`, space-separated.
pub open spec fn row_chars(v: MatrixView, i: int, j: int) -> Seq<char>
    decreases j,
{
    if j <= 0 {
        Seq::empty()
    } else if j == 1 {
        dec_int(v.ent(i, 0) as int)
    } else {
        row_chars(v, i, j - 1) + seq![' '] + dec_int(v.ent(i, j - 1) as int)
    }
}

/// The characters of the first `i` rows, separated by a comma and a
/// space.
pub open spec fn rows_chars(v: MatrixView, i: int) -> Seq<char>
    decreases i,
{
    if i <= 0 {
        Seq::empty()
    } else if i == 1 {
        row_chars(v, 0, v.cols as int)
    } else {
        rows_chars(v, i - 1) + seq![','] + seq![' '] + row_chars(v, i - 1, v.cols as int)
    }
}

/// The display form: brace-delimited, comma-separated rows,
/// space-separated columns, as in `{v00 v01, v10 v11}`.
pub open spec fn display_chars(v: MatrixView) -> Seq<char> {
    seq!['{'] + rows_chars(v, v.rows as int) + seq!['}']
}

/// The debug form: `Matrix(row=R, col=C, <display>)`.
pub open spec fn debug_chars(v: MatrixView) -> Seq<char> {
    "Matrix(row="@ + dec_digits(v.rows) + ", col="@ + dec_digits(v.cols) + ", "@ + display_chars(
        v,
    ) + seq![')']
}

impl Matrix {
    /// Renders the display form; the stand-in for the `Display` trait.
    pub fn display_string(&self) -> (s: String)
        requires
            self.wf(),
        ensures
            s@ == display_chars(self@),
    {
        let mut s = String::from_str("{");
        proof {
            reveal_strlit("{");
            assert(s@ =~= seq!['{'] + rows_chars(self@, 0));
        }
        let r = self.rows();
        let c = self.cols();
        for i in 0..r
            invariant
                self.wf(),
                r == self@.rows,
                c == self@.cols,
                s@ == seq!['{'] + rows_chars(self@, i as int),
        {
            if i > 0 {
                s.append(", ");
                proof {
                    reveal_strlit(", ");
                }
            }
            proof {
                assert(s@ =~= seq!['{'] + rows_chars(self@, i as int) + (if i == 0 {
                    Seq::<char>::empty()
                } else {
                    seq![','] + seq![' ']
                }) + row_chars(self@, i as int, 0));
            }
            for j in 0..c
                invariant
                    self.wf(),
                    r == self@.rows,
                    c == self@.cols,
                    i < r,
                    s@ == seq!['{'] + rows_chars(self@, i as int) + (if i == 0 {
                        Seq::<char>::empty()
                    } else {
                        seq![','] + seq![' ']
                    }) + row_chars(self@, i as int, j as int),
            {
                if j > 0 {
                    s.append(" ");
                    proof {
                        reveal_strlit(" ");
                    }
                }
                let x = self.get(i, j);
                push_i64_decimal(&mut s, x);
                proof {
                    assert(s@ =~= seq!['{'] + rows_chars(self@, i as int) + (if i == 0 {
                        Seq::<char>::empty()
                    } else {
                        seq![','] + seq![' ']
                    }) + row_chars(self@, i as int, j as int + 1));
                }
            }
            proof {
                assert(s@ =~= seq!['{'] + rows_chars(self@, i as int + 1));
            }
        }
        s.append("}");
        proof {
            reveal_strlit("}");
            assert(s@ =~= display_chars(self@));
        }
        s
    }

    /// Renders the debug form; the stand-in for the `Debug` trait.
    pub fn debug_string(&self) -> (s: String)
        requires
            self.wf(),
        ensures
            s@ == debug_chars(self@),
    {
        let mut s = String::from_str("Matrix(row=");
        push_u64_decimal(&mut s, self.row as u64);
        s.append(", col=");
        push_u64_decimal(&mut s, self.col as u64);
        s.append(", ");
        let d = self.display_string();
        s.append(d.as_str());
        s.append(")");
        proof {
            reveal_strlit(")");
            assert(s@ =~= debug_chars(self@));
        }
        s
    }
}

/// Decides, without itself overflowing, whether the pending product
/// stays within the machine: the output length fits `usize` and every
/// per-cell dot product stays within `i64`. Callers establish
/// `multiply`'s overflow precondition at run time with this test.
pub fn multiply_in_range(a: &Matrix, b: &Matrix) -> (ok: bool)
    requires
        a.wf(),
        b.wf(),
        a@.cols == b@.rows,
    ensures
        ok == multiply_in_i64(a@, b@),
{
    let m = a.rows();
    let p = b.cols();
    if m.checked_mul(p).is_none() {
        return false;
    }
    for i in 0..m
        invariant
            a.wf(),
            b.wf(),
            a@.cols == b@.rows,
            m == a@.rows,
            p == b@.cols,
            m * p <= usize::MAX,
            forall|i2: int, j2: int|
                0 <= i2 < i && 0 <= j2 < p ==> #[trigger] dot_in_i64(
                    a@.row_seq(i2),
                    b@.col_seq(j2),
                ),
    {
        for j in 0..p
            invariant
                a.wf(),
                b.wf(),
                a@.cols == b@.rows,
                m == a@.rows,
                p == b@.cols,
                m * p <= usize::MAX,
                i < m,
                forall|i2: int, j2: int|
                    0 <= i2 < i && 0 <= j2 < p ==> #[trigger] dot_in_i64(
                        a@.row_seq(i2),
                        b@.col_seq(j2),
                    ),
                forall|j2: int|
                    0 <= j2 < j ==> #[trigger] dot_in_i64(a@.row_seq(i as int), b@.col_seq(j2)),
        {
            let rv = a.row_vector(i);
            let cv = b.col_vector(j);
            if !crate::vector::dot_in_range(&rv, &cv) {
                proof {
                    assert(!dot_in_i64(a@.row_seq(i as int), b@.col_seq(j as int)));
                }
                return false;
            }
        }
    }
    true
}

/// The matrix product. Validates the shapes first: `a.cols != b.rows`
/// fails with `DimensionMismatch` and nothing else happens. On success
/// the result is the standard mathematical matrix product, assembled in
/// row-major order, one dot product of a row of `a` and a column of `b`
/// per output cell.
pub fn multiply(a: &Matrix, b: &Matrix) -> (r: Result<Matrix, MatrixError>)
    requires
        a.wf(),
        b.wf(),
        a@.cols == b@.rows ==> multiply_in_i64(a@, b@),
    ensures
        match r {
            Ok(m) => a@.cols == b@.rows && is_product(a@, b@, m@),
            Err(e) => a@.cols != b@.rows && e == MatrixError::DimensionMismatch,
        },
{
    if a.cols() != b.rows() {
        return Err(MatrixError::DimensionMismatch);
    }
    let m = a.rows();
    let p = b.cols();
    let mut out: Vec<i64> = Vec::new();
    proof {
        assert(0 * p == 0) by (nonlinear_arith);
        assert(out@ =~= product_data(a@, b@, (0 * p) as int));
    }
    for i in 0..m
        invariant
            a.wf(),
            b.wf(),
            a@.cols == b@.rows,
            multiply_in_i64(a@, b@),
            m == a@.rows,
            p == b@.cols,
            out@.len() == i * p,
            out@ == product_data(a@, b@, (i * p) as int),
    {
        proof {
            assert(i * p + p <= m * p) by (nonlinear_arith)
                requires
                    0 <= i < m,
                    0 <= p,
            ;
        }
        for j in 0..p
            invariant
                a.wf(),
                b.wf(),
                a@.cols == b@.rows,
                multiply_in_i64(a@, b@),
                m == a@.rows,
                p == b@.cols,
                i < m,
                i * p + p <= m * p,
                out@.len() == i * p + j,
                out@ == product_data(a@, b@, (i * p + j) as int),
        {
            let rv = a.row_vector(i);
            let cv = b.col_vector(j);
            let v = match dot_product(rv, cv) {
                Ok(v) => v,
                Err(_) => {
                    proof {
                        assert(false);
                    }
                    vstd::pervasive::unreached()
                },
            };
            out.push(v);
            proof {
                lemma_row_major_index(i as int, j as int, m as int, p as int);
                assert(out@ =~= product_data(a@, b@, (i * p + j + 1) as int));
            }
        }
        proof {
            assert((i + 1) * p == i * p + p) by (nonlinear_arith);
        }
    }
    proof {
        assert(m * p == m as int * p as int);
    }
    let result = Matrix::new(out, m, p);
    proof {
        assert forall|i: int, j: int| 0 <= i < a@.rows && 0 <= j < b@.cols implies #[trigger] result@.ent(i, j)
            == product_ent(a@, b@, i, j) by {
            lemma_row_major_index(i, j, m as int, p as int);
            assert(dot_in_i64(a@.row_seq(i), b@.col_seq(j)));
            crate::vector::lemma_dot_in_range(a@.row_seq(i), b@.col_seq(j));
        }
    }
    Ok(result)
}

} // verus!
