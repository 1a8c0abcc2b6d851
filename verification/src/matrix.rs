//! Row-major dense matrices: shape, storage, slicing and formatting, and the
//! mathematical model that the multiplication contracts are stated over.

use crate::decimal::{dec_chars, int_chars, push_digits, push_i64};
use crate::sums::{lemma_sum_ext, lemma_sum_scale, lemma_sum_swap, sum};
use crate::vector::{dot, entry_product, Vector};
use vstd::arithmetic::div_mod::lemma_fundamental_div_mod_converse;
use vstd::prelude::*;
use vstd::string::StringExecFns;

verus! {

/// The mathematical content of a matrix: the row-major entries and the shape.
pub struct MatrixView {
    pub data: Seq<i64>,
    pub rows: nat,
    pub cols: nat,
}

impl MatrixView {
    /// The backing sequence holds exactly one entry per cell of the shape.
    pub open spec fn wf(self) -> bool {
        self.data.len() == self.rows * self.cols
    }

    /// The entry at `(i, j)`, stored at row-major offset `i * cols + j`.
    pub open spec fn ent(self, i: int, j: int) -> i64 {
        self.data[i * self.cols + j]
    }

    /// Row `i`, a contiguous run of `cols` entries.
    pub open spec fn row_seq(self, i: int) -> Seq<i64> {
        Seq::new(self.cols, |l: int| self.ent(i, l))
    }

    /// Column `j`, gathered with stride `cols`.
    pub open spec fn col_seq(self, j: int) -> Seq<i64> {
        Seq::new(self.rows, |k: int| self.ent(k, j))
    }

    /// The first `j` entries of row `i` rendered in decimal, space-separated.
    pub open spec fn row_chars(self, i: int, j: int) -> Seq<char>
        decreases j,
    {
        if j <= 0 {
            Seq::empty()
        } else if j == 1 {
            int_chars(self.ent(i, 0) as int)
        } else {
            self.row_chars(i, j - 1) + " "@ + int_chars(self.ent(i, j - 1) as int)
        }
    }

    /// The first `i` rows rendered, comma-separated.
    pub open spec fn rows_chars(self, i: int) -> Seq<char>
        decreases i,
    {
        if i <= 0 {
            Seq::empty()
        } else if i == 1 {
            self.row_chars(0, self.cols as int)
        } else {
            self.rows_chars(i - 1) + ", "@ + self.row_chars(i - 1, self.cols as int)
        }
    }

    /// The display rendering: rows space-separated within and
    /// comma-separated between, wrapped in braces.
    pub open spec fn display_chars(self) -> Seq<char> {
        "{"@ + self.rows_chars(self.rows as int) + "}"@
    }

    /// The debug rendering: the shape, then the display body.
    pub open spec fn debug_chars(self) -> Seq<char> {
        "Matrix( row: "@ + dec_chars(self.rows as int) + ", col: "@ + dec_chars(self.cols as int)
            + ", "@ + self.display_chars() + ")"@
    }
}

/// A row-major dense 2-D container of `i64` with shape `(rows, cols)`.
/// Immutable after construction; multiplication produces a fresh matrix.
pub struct Matrix {
    data: Vec<i64>,
    row: usize,
    col: usize,
}

impl View for Matrix {
    type V = MatrixView;

    closed spec fn view(&self) -> MatrixView {
        MatrixView { data: self.data@, rows: self.row as nat, cols: self.col as nat }
    }
}

impl Matrix {
    #[verifier::type_invariant]
    spec fn shape_inv(self) -> bool {
        self@.wf()
    }

    /// Wraps a flat row-major buffer with its declared shape. The buffer
    /// must hold exactly `row * col` entries; downstream slicing depends on
    /// that, so it is demanded here rather than checked later.
    pub fn new(data: Vec<i64>, row: usize, col: usize) -> (r: Matrix)
        requires
            data@.len() == row * col,
        ensures
            r@ == (MatrixView { data: data@, rows: row as nat, cols: col as nat }),
    {
        Matrix { data, row, col }
    }

    /// The number of rows. Also a witness that the shape invariant holds.
    pub fn rows(&self) -> (r: usize)
        ensures
            r == self@.rows,
            self@.wf(),
    {
        proof {
            use_type_invariant(self);
        }
        self.row
    }

    /// The number of columns. Also a witness that the shape invariant holds.
    pub fn cols(&self) -> (r: usize)
        ensures
            r == self@.cols,
            self@.wf(),
    {
        proof {
            use_type_invariant(self);
        }
        self.col
    }

    /// The row-major backing buffer.
    pub fn data(&self) -> (r: &Vec<i64>)
        ensures
            r@ == self@.data,
            self@.wf(),
    {
        proof {
            use_type_invariant(self);
        }
        &self.data
    }

    /// Copies row `i` out as a vector (a contiguous borrow of the storage).
    pub fn row_vector(&self, i: usize) -> (r: Vector)
        requires
            i < self@.rows,
        ensures
            r@ == self@.row_seq(i as int),
    {
        proof {
            use_type_invariant(self);
        }
        let mut out: Vec<i64> = Vec::new();
        let mut l: usize = 0;
        while l < self.col
            invariant
                self@.wf(),
                i < self@.rows,
                l <= self.col,
                self.col == self@.cols,
                out@.len() == l,
                forall|t: int| 0 <= t < l ==> out@[t] == self@.ent(i as int, t),
            decreases self.col - l,
        {
            proof {
                assert(self.data.len() == self.row * self.col);
                assert(i * self.col + l < self.row * self.col) by (nonlinear_arith)
                    requires
                        i < self.row,
                        l < self.col,
                ;
            }
            out.push(self.data[i * self.col + l]);
            l = l + 1;
        }
        proof {
            assert(out@ =~= self@.row_seq(i as int));
        }
        Vector::new(out)
    }

    /// Gathers column `j` into a vector with stride `cols`; needed because
    /// the storage is row-major.
    pub fn col_vector(&self, j: usize) -> (r: Vector)
        requires
            j < self@.cols,
        ensures
            r@ == self@.col_seq(j as int),
    {
        proof {
            use_type_invariant(self);
        }
        let mut out: Vec<i64> = Vec::new();
        let mut k: usize = 0;
        while k < self.row
            invariant
                self@.wf(),
                j < self@.cols,
                k <= self.row,
                self.row == self@.rows,
                self.col == self@.cols,
                out@.len() == k,
                forall|t: int| 0 <= t < k ==> out@[t] == self@.ent(t, j as int),
            decreases self.row - k,
        {
            proof {
                assert(self.data.len() == self.row * self.col);
                assert(k * self.col + j < self.row * self.col) by (nonlinear_arith)
                    requires
                        k < self.row,
                        j < self.col,
                ;
            }
            out.push(self.data[k * self.col + j]);
            k = k + 1;
        }
        proof {
            assert(out@ =~= self@.col_seq(j as int));
        }
        Vector::new(out)
    }

    /// Renders the matrix in its display form: entries in decimal, rows
    /// space-separated within and comma-separated between, in braces.
    pub fn display_string(&self) -> (r: String)
        ensures
            r@ == self@.display_chars(),
    {
        proof {
            use_type_invariant(self);
        }
        let mut out = String::new();
        out.append("{");
        let mut i: usize = 0;
        while i < self.row
            invariant
                self@.wf(),
                self.row == self@.rows,
                self.col == self@.cols,
                i <= self.row,
                out@ == "{"@ + self@.rows_chars(i as int),
            decreases self.row - i,
        {
            if i > 0 {
                out.append(", ");
            }
            let ghost base = out@;
            let mut j: usize = 0;
            while j < self.col
                invariant
                    self@.wf(),
                    self.row == self@.rows,
                    self.col == self@.cols,
                    i < self.row,
                    j <= self.col,
                    out@ == base + self@.row_chars(i as int, j as int),
                decreases self.col - j,
            {
                if j > 0 {
                    out.append(" ");
                }
                proof {
                    assert(self.data.len() == self.row * self.col);
                    assert(i * self.col + j < self.row * self.col) by (nonlinear_arith)
                        requires
                            i < self.row,
                            j < self.col,
                    ;
                }
                push_i64(&mut out, self.data[i * self.col + j]);
                proof {
                    assert(out@ =~= base + self@.row_chars(i as int, j as int + 1));
                }
                j = j + 1;
            }
            proof {
                assert(out@ =~= "{"@ + self@.rows_chars(i as int + 1));
            }
            i = i + 1;
        }
        out.append("}");
        proof {
            assert(out@ =~= self@.display_chars());
        }
        out
    }

    /// Renders the matrix in its debug form: the shape, then the display
    /// body.
    pub fn debug_string(&self) -> (r: String)
        ensures
            r@ == self@.debug_chars(),
    {
        proof {
            use_type_invariant(self);
        }
        let mut out = String::new();
        out.append("Matrix( row: ");
        push_digits(&mut out, self.row as u64);
        out.append(", col: ");
        push_digits(&mut out, self.col as u64);
        out.append(", ");
        let body = self.display_string();
        out.append(body.as_str());
        out.append(")");
        proof {
            assert(out@ =~= self@.debug_chars());
        }
        out
    }
}

/// The entries of an `i64` sequence as unbounded integers.
pub open spec fn ints(s: Seq<i64>) -> Seq<int> {
    s.map_values(|x: i64| x as int)
}

/// Entry `(i, j)` of the product of an `.×k` matrix `a` and a `k×n` matrix
/// `b`, both row-major: the dot product of row `i` of `a` and column `j` of
/// `b`, over unbounded integers.
pub open spec fn product_entry(a: Seq<int>, b: Seq<int>, k: nat, n: nat, i: int, j: int) -> int {
    sum(k as int, |l: int| a[i * k + l] * b[l * n + j])
}

/// The row-major data of the product of an `m×k` matrix `a` and a `k×n`
/// matrix `b`, over unbounded integers.
pub open spec fn product_data(a: Seq<int>, b: Seq<int>, m: nat, k: nat, n: nat) -> Seq<int> {
    Seq::new(m * n, |c: int| product_entry(a, b, k, n, c / n as int, c % n as int))
}

/// The dot product of a row slice and a column gather is exactly the
/// product entry over the flat storage.
pub proof fn lemma_dot_is_product_entry(a: MatrixView, b: MatrixView, i: int, j: int)
    requires
        a.wf(),
        b.wf(),
        a.cols == b.rows,
        0 <= i < a.rows,
        0 <= j < b.cols,
    ensures
        dot(a.row_seq(i), b.col_seq(j)) == product_entry(
            ints(a.data),
            ints(b.data),
            a.cols,
            b.cols,
            i,
            j,
        ),
{
    let k = a.cols;
    let n = b.cols;
    let f = entry_product(a.row_seq(i), b.col_seq(j));
    let g = |l: int| ints(a.data)[i * k + l] * ints(b.data)[l * n + j];
    assert forall|l: int| 0 <= l < k implies #[trigger] f(l) == g(l) by {
        assert(a.row_seq(i)[l] == a.ent(i, l));
        assert(b.col_seq(j)[l] == b.ent(l, j));
        assert(i * k + l < a.data.len()) by (nonlinear_arith)
            requires
                0 <= i < a.rows,
                0 <= l < k,
                a.data.len() == a.rows * k,
        ;
        assert(l * n + j < b.data.len()) by (nonlinear_arith)
            requires
                0 <= l < b.rows,
                0 <= j < n,
                b.data.len() == b.rows * n,
        ;
        assert(ints(a.data)[i * k + l] == a.ent(i, l) as int);
        assert(ints(b.data)[l * n + j] == b.ent(l, j) as int);
    }
    lemma_sum_ext(k as int, f, g);
    assert(a.row_seq(i).len() == k);
}

/// A multiplication result whose every entry is the dot product of the
/// matching row and column has exactly `product_data` as its storage.
pub proof fn lemma_result_is_product(a: MatrixView, b: MatrixView, r: MatrixView)
    requires
        a.wf(),
        b.wf(),
        r.wf(),
        a.cols == b.rows,
        r.rows == a.rows,
        r.cols == b.cols,
        forall|i: int, j: int|
            0 <= i < a.rows && 0 <= j < b.cols ==> #[trigger] r.ent(i, j) as int == dot(
                a.row_seq(i),
                b.col_seq(j),
            ),
    ensures
        ints(r.data) == product_data(ints(a.data), ints(b.data), a.rows, a.cols, b.cols),
{
    let m = a.rows;
    let n = b.cols;
    let lhs = ints(r.data);
    let rhs = product_data(ints(a.data), ints(b.data), a.rows, a.cols, b.cols);
    assert(lhs.len() == m * n);
    assert forall|t: int| 0 <= t < m * n implies lhs[t] == rhs[t] by {
        assert(n > 0) by (nonlinear_arith)
            requires
                0 <= t < m * n,
        ;
        let i = t / n as int;
        let j = t % n as int;
        vstd::arithmetic::div_mod::lemma_fundamental_div_mod(t, n as int);
        vstd::arithmetic::div_mod::lemma_mod_bound(t, n as int);
        assert(i < m) by (nonlinear_arith)
            requires
                t < m * n,
                t == (n as int) * i + j,
                0 <= j < n,
        ;
        assert(0 <= i) by (nonlinear_arith)
            requires
                0 <= t,
                t == (n as int) * i + j,
                j < n,
        ;
        assert(t == i * n + j) by (nonlinear_arith)
            requires
                t == (n as int) * i + j,
        ;
        assert(lhs[t] == r.ent(i, j) as int);
        lemma_dot_is_product_entry(a, b, i, j);
    }
    assert(lhs =~= rhs);
}

/// Law: the product is determined by its operands. Any two matrices that
/// meet the multiplication contract against the same `a` and `b` — the
/// product shape, with every entry the dot product of the matching row and
/// column — carry identical storage, however they were computed.
pub proof fn lemma_multiply_deterministic(
    a: MatrixView,
    b: MatrixView,
    r1: MatrixView,
    r2: MatrixView,
)
    requires
        a.wf(),
        b.wf(),
        r1.wf(),
        r2.wf(),
        a.cols == b.rows,
        r1.rows == a.rows && r1.cols == b.cols,
        r2.rows == a.rows && r2.cols == b.cols,
        forall|i: int, j: int|
            0 <= i < a.rows && 0 <= j < b.cols ==> #[trigger] r1.ent(i, j) as int == dot(
                a.row_seq(i),
                b.col_seq(j),
            ),
        forall|i: int, j: int|
            0 <= i < a.rows && 0 <= j < b.cols ==> #[trigger] r2.ent(i, j) as int == dot(
                a.row_seq(i),
                b.col_seq(j),
            ),
    ensures
        r1.data == r2.data,
{
    lemma_result_is_product(a, b, r1);
    lemma_result_is_product(a, b, r2);
    assert forall|t: int| 0 <= t < r1.data.len() implies r1.data[t] == r2.data[t] by {
        assert(ints(r1.data)[t] == ints(r2.data)[t]);
    }
    assert(r1.data =~= r2.data);
}

/// Entry `(i, j)` of `(a · b) · c` equals entry `(i, j)` of `a · (b · c)`.
proof fn lemma_product_entry_assoc(
    a: Seq<int>,
    b: Seq<int>,
    c: Seq<int>,
    m: nat,
    k: nat,
    n: nat,
    p: nat,
    i: int,
    j: int,
)
    requires
        a.len() == m * k,
        b.len() == k * n,
        c.len() == n * p,
        0 <= i < m,
        0 <= j < p,
    ensures
        product_entry(product_data(a, b, m, k, n), c, n, p, i, j) == product_entry(
            a,
            product_data(b, c, k, n, p),
            k,
            p,
            i,
            j,
        ),
{
    let ab = product_data(a, b, m, k, n);
    let bc = product_data(b, c, k, n, p);
    let triple = |l: int, q: int| a[i * k + q] * b[q * n + l] * c[l * p + j];
    let lhs_f = |l: int| ab[i * n + l] * c[l * p + j];
    let lhs_rows = |l: int| sum(k as int, |q: int| triple(l, q));
    // Each term of the outer sum of the left side is itself a sum over a row.
    assert forall|l: int| 0 <= l < n implies #[trigger] lhs_f(l) == lhs_rows(l) by {
        assert(i * n + l < m * n) by (nonlinear_arith)
            requires
                0 <= i < m,
                0 <= l < n,
        ;
        lemma_fundamental_div_mod_converse(i * n + l, n as int, i, l);
        assert(ab[i * n + l] == product_entry(a, b, k, n, i, l));
        let scaled = |q: int| triple(l, q);
        let inner = |q: int| a[i * k + q] * b[q * n + l];
        assert forall|q: int| 0 <= q < k implies #[trigger] scaled(q) == c[l * p + j] * inner(
            q,
        ) by {
            assert(a[i * k + q] * b[q * n + l] * c[l * p + j] == c[l * p + j] * (a[i * k + q] * b[q
                * n + l])) by (nonlinear_arith);
        }
        lemma_sum_scale(k as int, c[l * p + j], inner, scaled);
        assert(product_entry(a, b, k, n, i, l) == sum(k as int, inner));
        let s = sum(k as int, inner);
        let w = c[l * p + j];
        assert(s * w == w * s) by (nonlinear_arith);
    }
    lemma_sum_ext(n as int, lhs_f, lhs_rows);
    // Exchange the order of the double sum.
    lemma_sum_swap(n as int, k as int, triple);
    let rhs_cols = |q: int| sum(n as int, |l: int| triple(l, q));
    let rhs_f = |q: int| a[i * k + q] * bc[q * p + j];
    // Each term of the outer sum of the right side is a column sum.
    assert forall|q: int| 0 <= q < k implies #[trigger] rhs_cols(q) == rhs_f(q) by {
        assert(q * p + j < k * p) by (nonlinear_arith)
            requires
                0 <= q < k,
                0 <= j < p,
        ;
        lemma_fundamental_div_mod_converse(q * p + j, p as int, q, j);
        assert(bc[q * p + j] == product_entry(b, c, n, p, q, j));
        let col = |l: int| triple(l, q);
        let inner = |l: int| b[q * n + l] * c[l * p + j];
        assert forall|l: int| 0 <= l < n implies #[trigger] col(l) == a[i * k + q] * inner(l) by {
            assert(a[i * k + q] * b[q * n + l] * c[l * p + j] == a[i * k + q] * (b[q * n + l] * c[l
                * p + j])) by (nonlinear_arith);
        }
        lemma_sum_scale(n as int, a[i * k + q], inner, col);
    }
    lemma_sum_ext(k as int, rhs_cols, rhs_f);
}

/// Law: matrix multiplication is associative. For an `m×k` matrix `a`, a
/// `k×n` matrix `b` and an `n×p` matrix `c`, all row-major over unbounded
/// integers, `(a · b) · c` and `a · (b · c)` are the same `m×p` matrix.
pub proof fn lemma_product_assoc(
    a: Seq<int>,
    b: Seq<int>,
    c: Seq<int>,
    m: nat,
    k: nat,
    n: nat,
    p: nat,
)
    requires
        a.len() == m * k,
        b.len() == k * n,
        c.len() == n * p,
    ensures
        product_data(product_data(a, b, m, k, n), c, m, n, p) == product_data(
            a,
            product_data(b, c, k, n, p),
            m,
            k,
            p,
        ),
{
    let lhs = product_data(product_data(a, b, m, k, n), c, m, n, p);
    let rhs = product_data(a, product_data(b, c, k, n, p), m, k, p);
    assert forall|t: int| 0 <= t < m * p implies lhs[t] == rhs[t] by {
        assert(p > 0) by (nonlinear_arith)
            requires
                0 <= t < m * p,
        ;
        let i = t / p as int;
        let j = t % p as int;
        vstd::arithmetic::div_mod::lemma_fundamental_div_mod(t, p as int);
        vstd::arithmetic::div_mod::lemma_mod_bound(t, p as int);
        assert(i < m) by (nonlinear_arith)
            requires
                t < m * p,
                t == (p as int) * i + j,
                0 <= j < p,
        ;
        assert(0 <= i) by (nonlinear_arith)
            requires
                0 <= t,
                t == (p as int) * i + j,
                j < p,
        ;
        lemma_product_entry_assoc(a, b, c, m, k, n, p, i, j);
    }
    assert(lhs =~= rhs);
}

/// Two distinct cells of an `.×n` shape have distinct row-major offsets.
pub proof fn lemma_flat_index_injective(n: int, i1: int, j1: int, i2: int, j2: int)
    requires
        0 <= j1 < n,
        0 <= j2 < n,
        0 <= i1,
        0 <= i2,
        i1 * n + j1 == i2 * n + j2,
    ensures
        i1 == i2,
        j1 == j2,
{
    lemma_fundamental_div_mod_converse(i1 * n + j1, n, i1, j1);
    lemma_fundamental_div_mod_converse(i2 * n + j2, n, i2, j2);
}

} // verus!
