use vstd::arithmetic::div_mod::{
    lemma_fundamental_div_mod, lemma_mod_division_less_than_divisor,
};
use vstd::prelude::*;

use crate::error::MatrixError;
use crate::scalar::Scalar;

verus! {

/// The mathematical value of a matrix: a shape together with the
/// flat, row-major sequence of its entries.
#[verifier::ext_equal]
pub struct MatrixView<T> {
    pub rows: nat,
    pub cols: nat,
    pub elems: Seq<T>,
}

impl<T> MatrixView<T> {
    /// A well-formed matrix has at least one row and one column, and
    /// stores exactly `rows * cols` entries.
    pub open spec fn wf(self) -> bool {
        &&& self.elems.len() == self.rows * self.cols
        &&& self.rows >= 1
        &&& self.cols >= 1
    }

    /// The entry in row `r`, column `c`: row-major storage places it
    /// at flat index `r * cols + c`.
    pub open spec fn entry(self, r: int, c: int) -> T
        recommends
            0 <= r < self.rows,
            0 <= c < self.cols,
    {
        self.elems[r * self.cols + c]
    }

    /// `b` holds the same values as `self` with rows and columns
    /// exchanged.
    pub open spec fn is_transpose_of(self, b: MatrixView<T>) -> bool {
        &&& self.rows == b.cols
        &&& self.cols == b.rows
        &&& forall|r: int, c: int|
            0 <= r < self.rows && 0 <= c < self.cols ==> self.entry(r, c) == b.entry(c, r)
    }
}

/// A row index and a column index within the shape land strictly
/// inside the row-major storage.
pub proof fn lemma_row_major_index_bounds(r: int, c: int, rows: int, cols: int)
    by (nonlinear_arith)
    requires
        0 <= r < rows,
        0 <= c < cols,
    ensures
        0 <= r * cols + c < rows * cols,
        r * cols + c < (r + 1) * cols <= rows * cols,
{
}

/// Every flat index of the row-major storage is reached from exactly
/// the row/column pair given by division and remainder by the column
/// count.
pub proof fn lemma_flat_index_split(k: int, rows: int, cols: int)
    requires
        0 < cols,
        0 <= k < rows * cols,
    ensures
        0 <= k / cols < rows,
        0 <= k % cols < cols,
        k == (k / cols) * cols + k % cols,
{
    lemma_fundamental_div_mod(k, cols);
    lemma_mod_division_less_than_divisor(k, cols);
    assert(0 <= k / cols && k / cols < rows && k == (k / cols) * cols + k % cols)
        by (nonlinear_arith)
        requires
            0 < cols,
            0 <= k < rows * cols,
            k == cols * (k / cols) + k % cols,
            0 <= k % cols < cols,
    {
    }
}

/// Two well-formed matrices of the same shape with equal entries are
/// equal outright.
pub proof fn lemma_entrywise_eq<T>(a: MatrixView<T>, b: MatrixView<T>)
    requires
        a.wf(),
        b.wf(),
        a.rows == b.rows,
        a.cols == b.cols,
        forall|r: int, c: int|
            0 <= r < a.rows && 0 <= c < a.cols ==> a.entry(r, c) == b.entry(r, c),
    ensures
        a =~= b,
{
    assert forall|k: int| 0 <= k < a.elems.len() implies a.elems[k] == b.elems[k] by {
        lemma_flat_index_split(k, a.rows as int, a.cols as int);
        let r = k / (a.cols as int);
        let c = k % (a.cols as int);
        assert(a.entry(r, c) == b.entry(r, c));
    }
    assert(a.elems =~= b.elems);
}

/// A dense 2D numeric container with `n` rows and `m` columns, its
/// entries stored row-major in one flat vector of length `n * m`.
#[derive(Clone)]
pub struct Matrix<T> {
    /// Row count.
    pub n: usize,
    /// Column count.
    pub m: usize,
    data: Vec<T>,
}

impl<T> View for Matrix<T> {
    type V = MatrixView<T>;

    closed spec fn view(&self) -> MatrixView<T> {
        MatrixView { rows: self.n as nat, cols: self.m as nat, elems: self.data@ }
    }
}

impl<T: Copy> Matrix<T> {
    /// The flat row-major storage, row after row.
    pub fn data(&self) -> (r: &Vec<T>)
        ensures
            r@ == self@.elems,
    {
        &self.data
    }

    /// Builds an `n` by `m` matrix with every entry equal to `val`.
    /// The caller hands over the element value itself; turning a
    /// literal into an element is the element type's own affair.
    pub fn new(val: T, n: usize, m: usize) -> (r: Matrix<T>)
        requires
            1 <= n,
            1 <= m,
            n * m <= usize::MAX,
        ensures
            r@.wf(),
            r@.rows == n,
            r@.cols == m,
            forall|i: int| 0 <= i < n * m ==> r@.elems[i] == val,
    {
        let total: usize = n * m;
        let mut data: Vec<T> = Vec::new();
        while data.len() < total
            invariant
                data@.len() <= total,
                forall|i: int| 0 <= i < data@.len() ==> data@[i] == val,
            decreases total - data@.len(),
        {
            data.push(val);
        }
        Matrix { n, m, data }
    }
}

impl<T: Copy> Matrix<T> {
    /// A read-only view of row `row`: the contiguous run of `m`
    /// entries starting at flat index `row * m`. A row index at or
    /// beyond the row count is reported as `IndexOutOfBounds`.
    pub fn get_row(&self, row: usize) -> (r: Result<&[T], MatrixError>)
        requires
            self@.wf(),
        ensures
            r is Ok <==> row < self@.rows,
            r matches Ok(s) ==> s@ == Seq::new(
                self@.cols,
                |j: int| self@.entry(row as int, j),
            ),
            r matches Err(e) ==> e == MatrixError::IndexOutOfBounds,
    {
        let len: usize = self.data.len();
        if row < self.n {
            proof {
                lemma_row_major_index_bounds(row as int, 0, self.n as int, self.m as int);
                assert((row as int + 1) * (self.m as int) == row as int * (self.m as int)
                    + self.m as int) by (nonlinear_arith);
            }
            let start: usize = row * self.m;
            let end: usize = start + self.m;
            let s = vstd::slice::slice_subrange(self.data.as_slice(), start, end);
            proof {
                let target = Seq::new(self@.cols, |j: int| self@.entry(row as int, j));
                assert(s@ =~= target);
            }
            Ok(s)
        } else {
            Err(MatrixError::IndexOutOfBounds)
        }
    }

    /// The entries of column `col`, top to bottom, gathered into a
    /// fresh vector. A column index at or beyond the column count is
    /// reported as `IndexOutOfBounds`.
    pub fn get_col(&self, col: usize) -> (r: Result<Vec<T>, MatrixError>)
        requires
            self@.wf(),
        ensures
            r is Ok <==> col < self@.cols,
            r matches Ok(v) ==> v@ == Seq::new(
                self@.rows,
                |i: int| self@.entry(i, col as int),
            ),
            r matches Err(e) ==> e == MatrixError::IndexOutOfBounds,
    {
        let len: usize = self.data.len();
        if col < self.m {
            let mut out: Vec<T> = Vec::new();
            let mut i: usize = 0;
            while i < self.n
                invariant
                    self@.wf(),
                    col < self@.cols,
                    i <= self@.rows,
                    len == self@.elems.len(),
                    out@.len() == i,
                    forall|j: int| 0 <= j < i ==> out@[j] == self@.entry(j, col as int),
                decreases self@.rows - i,
            {
                proof {
                    lemma_row_major_index_bounds(i as int, col as int, self.n as int, self.m as int);
                }
                out.push(self.data[i * self.m + col]);
                i = i + 1;
            }
            proof {
                let target = Seq::new(self@.rows, |i: int| self@.entry(i, col as int));
                assert(out@ =~= target);
            }
            Ok(out)
        } else {
            Err(MatrixError::IndexOutOfBounds)
        }
    }

    /// Builds the transpose: a matrix whose entry in row `r`, column
    /// `c` is this matrix's entry in row `c`, column `r`. The new
    /// storage is produced by one direct pass in row-major order of
    /// the result rather than by repeated column extraction, which
    /// keeps the same entries at linear cost.
    pub fn transpose(&self) -> (r: Matrix<T>)
        requires
            self@.wf(),
        ensures
            r@.wf(),
            r@.is_transpose_of(self@),
    {
        let len: usize = self.data.len();
        let mut data: Vec<T> = Vec::new();
        let mut i: usize = 0;
        while i < self.m
            invariant
                self@.wf(),
                i <= self@.cols,
                len == self@.elems.len(),
                data@.len() == i * self@.rows,
                forall|r0: int, c0: int|
                    0 <= r0 < i && 0 <= c0 < self@.rows ==> data@[r0 * self@.rows + c0]
                        == self@.entry(c0, r0),
            decreases self@.cols - i,
        {
            let mut j: usize = 0;
            while j < self.n
                invariant
                    self@.wf(),
                    i < self@.cols,
                    j <= self@.rows,
                    len == self@.elems.len(),
                    data@.len() == i * self@.rows + j,
                    forall|r0: int, c0: int|
                        0 <= r0 < i && 0 <= c0 < self@.rows ==> data@[r0 * self@.rows + c0]
                            == self@.entry(c0, r0),
                    forall|c0: int| 0 <= c0 < j ==> data@[i * self@.rows + c0] == self@.entry(c0, i as int),
                decreases self@.rows - j,
            {
                proof {
                    lemma_row_major_index_bounds(j as int, i as int, self.n as int, self.m as int);
                    lemma_row_major_index_bounds(i as int, j as int, self.m as int, self.n as int);
                }
                data.push(self.data[j * self.m + i]);
                j = j + 1;
                proof {
                    assert forall|r0: int, c0: int|
                        0 <= r0 < i && 0 <= c0 < self@.rows implies data@[r0 * self@.rows + c0]
                        == self@.entry(c0, r0) by {
                        lemma_row_major_index_bounds(r0, c0, i as int, self@.rows as int);
                    }
                }
            }
            proof {
                assert((i as int + 1) * (self@.rows as int) == i as int * (self@.rows as int)
                    + self@.rows as int) by (nonlinear_arith);
            }
            i = i + 1;
        }
        let out = Matrix { n: self.m, m: self.n, data };
        proof {
            assert forall|r0: int, c0: int|
                0 <= r0 < out@.rows && 0 <= c0 < out@.cols implies out@.entry(r0, c0)
                == self@.entry(c0, r0) by {
                lemma_row_major_index_bounds(r0, c0, out@.rows as int, out@.cols as int);
            }
        }
        out
    }
}

impl<T: Copy> Matrix<T> {
    /// Builds a matrix from owned nested rows: the outer vector's
    /// length becomes the row count, the first row's length the
    /// column count. No rows, or an empty first row, is rejected with
    /// `EmptyInput`; a later row of a different length with
    /// `RowLengthMismatch`, so the row-major reading of the storage
    /// can never silently misalign.
    pub fn from_rows(rows: Vec<Vec<T>>) -> (r: Result<Matrix<T>, MatrixError>)
        ensures
            r is Ok <==> (rows@.len() > 0 && rows@[0]@.len() > 0 && forall|i: int|
                0 <= i < rows@.len() ==> #[trigger] rows@[i]@.len() == rows@[0]@.len()),
            r matches Ok(mat) ==> (mat@.wf() && mat@.rows == rows@.len() && mat@.cols
                == rows@[0]@.len() && forall|i: int, j: int|
                0 <= i < mat@.rows && 0 <= j < mat@.cols ==> mat@.entry(i, j) == rows@[i]@[j]),
            r matches Err(e) ==> (e == MatrixError::EmptyInput <==> (rows@.len() == 0
                || rows@[0]@.len() == 0)),
            r matches Err(e) ==> (e == MatrixError::RowLengthMismatch <==> (rows@.len() > 0
                && rows@[0]@.len() > 0)),
    {
        let n: usize = rows.len();
        if n == 0 {
            return Err(MatrixError::EmptyInput);
        }
        let m: usize = rows[0].len();
        if m == 0 {
            return Err(MatrixError::EmptyInput);
        }
        let mut data: Vec<T> = Vec::new();
        let mut i: usize = 0;
        while i < n
            invariant
                n == rows@.len(),
                m == rows@[0]@.len(),
                1 <= m,
                i <= n,
                data@.len() == i * m,
                forall|r0: int| 0 <= r0 < i ==> #[trigger] rows@[r0]@.len() == m,
                forall|r0: int, c0: int|
                    0 <= r0 < i && 0 <= c0 < m ==> data@[r0 * m + c0] == rows@[r0]@[c0],
            decreases n - i,
        {
            let row = &rows[i];
            if row.len() != m {
                return Err(MatrixError::RowLengthMismatch);
            }
            let mut j: usize = 0;
            while j < m
                invariant
                    n == rows@.len(),
                    m == rows@[0]@.len(),
                    1 <= m,
                    i < n,
                    j <= m,
                    rows@[i as int]@.len() == m,
                    data@.len() == i * m + j,
                    forall|r0: int, c0: int|
                        0 <= r0 < i && 0 <= c0 < m ==> data@[r0 * m + c0] == rows@[r0]@[c0],
                    forall|c0: int| 0 <= c0 < j ==> data@[i * m + c0] == rows@[i as int]@[c0],
                decreases m - j,
            {
                data.push(rows[i][j]);
                j = j + 1;
                proof {
                    assert forall|r0: int, c0: int|
                        0 <= r0 < i && 0 <= c0 < m implies data@[r0 * m + c0] == rows@[r0]@[c0] by {
                        lemma_row_major_index_bounds(r0, c0, i as int, m as int);
                    }
                }
            }
            proof {
                assert((i as int + 1) * (m as int) == i as int * (m as int) + m as int)
                    by (nonlinear_arith);
            }
            i = i + 1;
        }
        let out = Matrix { n, m, data };
        proof {
            assert forall|i0: int, j0: int|
                0 <= i0 < n && 0 <= j0 < m implies out@.entry(i0, j0) == rows@[i0]@[j0] by {
                lemma_row_major_index_bounds(i0, j0, n as int, m as int);
            }
        }
        Ok(out)
    }

    /// Builds a matrix from a flat slice of borrowed row slices,
    /// under the same contract as `from_rows`: the first row fixes
    /// the column count, no rows or an empty first row is
    /// `EmptyInput`, and a row of any other length is
    /// `RowLengthMismatch`.
    pub fn from_row_slices(rows: &[&[T]]) -> (r: Result<Matrix<T>, MatrixError>)
        ensures
            r is Ok <==> (rows@.len() > 0 && rows@[0]@.len() > 0 && forall|i: int|
                0 <= i < rows@.len() ==> #[trigger] rows@[i]@.len() == rows@[0]@.len()),
            r matches Ok(mat) ==> (mat@.wf() && mat@.rows == rows@.len() && mat@.cols
                == rows@[0]@.len() && forall|i: int, j: int|
                0 <= i < mat@.rows && 0 <= j < mat@.cols ==> mat@.entry(i, j) == rows@[i]@[j]),
            r matches Err(e) ==> (e == MatrixError::EmptyInput <==> (rows@.len() == 0
                || rows@[0]@.len() == 0)),
            r matches Err(e) ==> (e == MatrixError::RowLengthMismatch <==> (rows@.len() > 0
                && rows@[0]@.len() > 0)),
    {
        let n: usize = rows.len();
        if n == 0 {
            return Err(MatrixError::EmptyInput);
        }
        let first: &[T] = *vstd::slice::slice_index_get(rows, 0);
        let m: usize = first.len();
        if m == 0 {
            return Err(MatrixError::EmptyInput);
        }
        let mut data: Vec<T> = Vec::new();
        let mut i: usize = 0;
        while i < n
            invariant
                n == rows@.len(),
                m == rows@[0]@.len(),
                1 <= m,
                i <= n,
                data@.len() == i * m,
                forall|r0: int| 0 <= r0 < i ==> #[trigger] rows@[r0]@.len() == m,
                forall|r0: int, c0: int|
                    0 <= r0 < i && 0 <= c0 < m ==> data@[r0 * m + c0] == rows@[r0]@[c0],
            decreases n - i,
        {
            let row: &[T] = *vstd::slice::slice_index_get(rows, i);
            if row.len() != m {
                return Err(MatrixError::RowLengthMismatch);
            }
            let mut j: usize = 0;
            while j < m
                invariant
                    n == rows@.len(),
                    m == rows@[0]@.len(),
                    1 <= m,
                    i < n,
                    j <= m,
                    row@.len() == m,
                    row@ == rows@[i as int]@,
                    data@.len() == i * m + j,
                    forall|r0: int, c0: int|
                        0 <= r0 < i && 0 <= c0 < m ==> data@[r0 * m + c0] == rows@[r0]@[c0],
                    forall|c0: int| 0 <= c0 < j ==> data@[i * m + c0] == rows@[i as int]@[c0],
                decreases m - j,
            {
                data.push(*vstd::slice::slice_index_get(row, j));
                j = j + 1;
                proof {
                    assert forall|r0: int, c0: int|
                        0 <= r0 < i && 0 <= c0 < m implies data@[r0 * m + c0] == rows@[r0]@[c0] by {
                        lemma_row_major_index_bounds(r0, c0, i as int, m as int);
                    }
                }
            }
            proof {
                assert((i as int + 1) * (m as int) == i as int * (m as int) + m as int)
                    by (nonlinear_arith);
            }
            i = i + 1;
        }
        let out = Matrix { n, m, data };
        proof {
            assert forall|i0: int, j0: int|
                0 <= i0 < n && 0 <= j0 < m implies out@.entry(i0, j0) == rows@[i0]@[j0] by {
                lemma_row_major_index_bounds(i0, j0, n as int, m as int);
            }
        }
        Ok(out)
    }
}

/// Transposing twice gives back the original matrix: shape and every
/// entry.
pub proof fn lemma_transpose_involutive<T>(a: MatrixView<T>, b: MatrixView<T>, c: MatrixView<T>)
    requires
        a.wf(),
        b.wf(),
        c.wf(),
        b.is_transpose_of(a),
        c.is_transpose_of(b),
    ensures
        c =~= a,
{
    assert forall|r: int, co: int|
        0 <= r < c.rows && 0 <= co < c.cols implies c.entry(r, co) == a.entry(r, co) by {
        assert(c.entry(r, co) == b.entry(co, r));
        assert(b.entry(co, r) == a.entry(r, co));
    }
    lemma_entrywise_eq(c, a);
}

/// What the identity matrix holds at row `i`, column `j`: one on the
/// main diagonal, zero off it.
pub open spec fn identity_entry<T: Scalar>(i: int, j: int) -> T {
    if i == j {
        T::one_spec()
    } else {
        T::zero_spec()
    }
}

/// The running left-to-right sum of the first `k` products of row
/// `r` of `a` with column `c` of `b`: the order the multiply sums in.
pub open spec fn dot_prefix<T: Scalar>(
    a: MatrixView<T>,
    b: MatrixView<T>,
    r: int,
    c: int,
    k: int,
) -> T
    recommends
        1 <= k <= a.cols,
        a.cols == b.rows,
    decreases k,
{
    if k <= 1 {
        a.entry(r, 0).mul_spec(b.entry(0, c))
    } else {
        dot_prefix(a, b, r, c, k - 1).add_spec(a.entry(r, k - 1).mul_spec(b.entry(k - 1, c)))
    }
}

/// The dot product of row `r` of `a` with column `c` of `b`, summed
/// left to right over the whole inner dimension.
pub open spec fn dot<T: Scalar>(a: MatrixView<T>, b: MatrixView<T>, r: int, c: int) -> T {
    dot_prefix(a, b, r, c, a.cols as int)
}

impl<T: Scalar> Matrix<T> {
    /// Builds the `n` by `n` identity matrix: one on the main
    /// diagonal, zero everywhere else.
    pub fn identity(n: usize) -> (r: Matrix<T>)
        requires
            1 <= n,
            n * n <= usize::MAX,
        ensures
            r@.wf(),
            r@.rows == n,
            r@.cols == n,
            forall|i: int, j: int|
                0 <= i < n && 0 <= j < n ==> r@.entry(i, j) == identity_entry::<T>(i, j),
    {
        let mut data: Vec<T> = Vec::new();
        let mut i: usize = 0;
        while i < n
            invariant
                i <= n,
                n * n <= usize::MAX,
                data@.len() == i * n,
                forall|r0: int, c0: int|
                    0 <= r0 < i && 0 <= c0 < n ==> data@[r0 * n + c0] == identity_entry::<T>(
                        r0,
                        c0,
                    ),
            decreases n - i,
        {
            let mut j: usize = 0;
            while j < n
                invariant
                    i < n,
                    j <= n,
                    n * n <= usize::MAX,
                    data@.len() == i * n + j,
                    forall|r0: int, c0: int|
                        0 <= r0 < i && 0 <= c0 < n ==> data@[r0 * n + c0] == identity_entry::<T>(
                            r0,
                            c0,
                        ),
                    forall|c0: int|
                        0 <= c0 < j ==> data@[i * n + c0] == identity_entry::<T>(i as int, c0),
                decreases n - j,
            {
                proof {
                    lemma_row_major_index_bounds(i as int, j as int, n as int, n as int);
                }
                if i == j {
                    data.push(T::one());
                } else {
                    data.push(T::zero());
                }
                j = j + 1;
                proof {
                    assert forall|r0: int, c0: int|
                        0 <= r0 < i && 0 <= c0 < n implies data@[r0 * n + c0]
                        == identity_entry::<T>(r0, c0) by {
                        lemma_row_major_index_bounds(r0, c0, i as int, n as int);
                    }
                }
            }
            proof {
                assert((i as int + 1) * (n as int) == i as int * (n as int) + n as int)
                    by (nonlinear_arith);
            }
            i = i + 1;
        }
        let out = Matrix { n, m: n, data };
        proof {
            assert forall|i0: int, j0: int|
                0 <= i0 < n && 0 <= j0 < n implies out@.entry(i0, j0) == identity_entry::<T>(
                i0,
                j0,
            ) by {
                lemma_row_major_index_bounds(i0, j0, n as int, n as int);
            }
        }
        out
    }

    /// Builds an `n` by `m` matrix with every entry equal to the
    /// element type's zero.
    pub fn zeros(n: usize, m: usize) -> (r: Matrix<T>)
        requires
            1 <= n,
            1 <= m,
            n * m <= usize::MAX,
        ensures
            r@.wf(),
            r@.rows == n,
            r@.cols == m,
            forall|i: int| 0 <= i < n * m ==> r@.elems[i] == T::zero_spec(),
    {
        Matrix::new(T::zero(), n, m)
    }

    /// A new matrix of the same shape whose every entry is the
    /// exponential of the corresponding entry of this one.
    pub fn exp(&self) -> (r: Matrix<T>)
        requires
            self@.wf(),
        ensures
            r@.wf(),
            r@.rows == self@.rows,
            r@.cols == self@.cols,
            forall|i: int|
                0 <= i < self@.elems.len() ==> r@.elems[i] == self@.elems[i].exp_spec(),
    {
        let len: usize = self.data.len();
        let mut data: Vec<T> = Vec::new();
        let mut k: usize = 0;
        while k < len
            invariant
                self@.wf(),
                len == self@.elems.len(),
                k <= len,
                data@.len() == k,
                forall|i: int| 0 <= i < k ==> data@[i] == self@.elems[i].exp_spec(),
            decreases len - k,
        {
            data.push(self.data[k].exp_val());
            k = k + 1;
        }
        Matrix { n: self.n, m: self.m, data }
    }

    /// A new matrix of the same shape whose every entry is one
    /// divided by the corresponding entry of this one. An entry equal
    /// to the element type's zero is divided like any other; the
    /// outcome is whatever the element type's division yields.
    pub fn one_over(&self) -> (r: Matrix<T>)
        requires
            self@.wf(),
        ensures
            r@.wf(),
            r@.rows == self@.rows,
            r@.cols == self@.cols,
            forall|i: int|
                0 <= i < self@.elems.len() ==> r@.elems[i] == T::one_spec().div_spec(
                    self@.elems[i],
                ),
    {
        let len: usize = self.data.len();
        let mut data: Vec<T> = Vec::new();
        let mut k: usize = 0;
        while k < len
            invariant
                self@.wf(),
                len == self@.elems.len(),
                k <= len,
                data@.len() == k,
                forall|i: int|
                    0 <= i < k ==> data@[i] == T::one_spec().div_spec(self@.elems[i]),
            decreases len - k,
        {
            data.push(T::one().div_val(self.data[k]));
            k = k + 1;
        }
        Matrix { n: self.n, m: self.m, data }
    }

    /// A new matrix of the same shape with every entry multiplied by
    /// the scalar `rhs`.
    pub fn scalar_mul(&self, rhs: T) -> (r: Matrix<T>)
        requires
            self@.wf(),
        ensures
            r@.wf(),
            r@.rows == self@.rows,
            r@.cols == self@.cols,
            forall|i: int|
                0 <= i < self@.elems.len() ==> r@.elems[i] == self@.elems[i].mul_spec(rhs),
    {
        let len: usize = self.data.len();
        let mut data: Vec<T> = Vec::new();
        let mut k: usize = 0;
        while k < len
            invariant
                self@.wf(),
                len == self@.elems.len(),
                k <= len,
                data@.len() == k,
                forall|i: int| 0 <= i < k ==> data@[i] == self@.elems[i].mul_spec(rhs),
            decreases len - k,
        {
            data.push(self.data[k].mul_val(rhs));
            k = k + 1;
        }
        Matrix { n: self.n, m: self.m, data }
    }

    /// A new matrix of the same shape with every entry divided by the
    /// scalar `rhs`. A zero scalar divides like any other; the
    /// outcome of each entry is whatever the element type's division
    /// yields.
    pub fn scalar_div(&self, rhs: T) -> (r: Matrix<T>)
        requires
            self@.wf(),
        ensures
            r@.wf(),
            r@.rows == self@.rows,
            r@.cols == self@.cols,
            forall|i: int|
                0 <= i < self@.elems.len() ==> r@.elems[i] == self@.elems[i].div_spec(rhs),
    {
        let len: usize = self.data.len();
        let mut data: Vec<T> = Vec::new();
        let mut k: usize = 0;
        while k < len
            invariant
                self@.wf(),
                len == self@.elems.len(),
                k <= len,
                data@.len() == k,
                forall|i: int| 0 <= i < k ==> data@[i] == self@.elems[i].div_spec(rhs),
            decreases len - k,
        {
            data.push(self.data[k].div_val(rhs));
            k = k + 1;
        }
        Matrix { n: self.n, m: self.m, data }
    }

    /// Elementwise sum of two matrices of identical shape. Matrices
    /// of different shapes are rejected with `DimensionMismatch`
    /// before any entry is read.
    pub fn add(&self, rhs: &Matrix<T>) -> (r: Result<Matrix<T>, MatrixError>)
        requires
            self@.wf(),
            rhs@.wf(),
        ensures
            r is Ok <==> (self@.rows == rhs@.rows && self@.cols == rhs@.cols),
            r matches Ok(s) ==> (s@.wf() && s@.rows == self@.rows && s@.cols == self@.cols
                && forall|i: int|
                    0 <= i < self@.elems.len() ==> s@.elems[i] == self@.elems[i].add_spec(
                        rhs@.elems[i],
                    )),
            r matches Err(e) ==> e == MatrixError::DimensionMismatch,
    {
        if self.n != rhs.n || self.m != rhs.m {
            return Err(MatrixError::DimensionMismatch);
        }
        let len: usize = self.data.len();
        let mut data: Vec<T> = Vec::new();
        let mut k: usize = 0;
        while k < len
            invariant
                self@.wf(),
                rhs@.wf(),
                self@.rows == rhs@.rows,
                self@.cols == rhs@.cols,
                len == self@.elems.len(),
                k <= len,
                data@.len() == k,
                forall|i: int|
                    0 <= i < k ==> data@[i] == self@.elems[i].add_spec(rhs@.elems[i]),
            decreases len - k,
        {
            data.push(self.data[k].add_val(rhs.data[k]));
            k = k + 1;
        }
        Ok(Matrix { n: self.n, m: self.m, data })
    }

    /// Standard matrix product. The inner dimensions must agree: this
    /// matrix's column count must equal `rhs`'s row count, else the
    /// product is rejected with `DimensionMismatch`. The result has
    /// this matrix's row count and `rhs`'s column count, and each of
    /// its entries is the dot product of the matching row of `self`
    /// and column of `rhs`, summed left to right.
    pub fn matmul(&self, rhs: &Matrix<T>) -> (r: Result<Matrix<T>, MatrixError>)
        requires
            self@.wf(),
            rhs@.wf(),
        ensures
            r is Ok <==> self@.cols == rhs@.rows,
            r matches Ok(p) ==> (p@.wf() && p@.rows == self@.rows && p@.cols == rhs@.cols
                && forall|i: int, j: int|
                    0 <= i < self@.rows && 0 <= j < rhs@.cols ==> p@.entry(i, j) == dot(
                        self@,
                        rhs@,
                        i,
                        j,
                    )),
            r matches Err(e) ==> e == MatrixError::DimensionMismatch,
    {
        if self.m != rhs.n {
            return Err(MatrixError::DimensionMismatch);
        }
        let len_a: usize = self.data.len();
        let len_b: usize = rhs.data.len();
        let inner: usize = self.m;
        let cols_b: usize = rhs.m;
        let mut data: Vec<T> = Vec::new();
        let mut i: usize = 0;
        while i < self.n
            invariant
                self@.wf(),
                rhs@.wf(),
                self@.cols == rhs@.rows,
                inner == self@.cols,
                cols_b == rhs@.cols,
                len_a == self@.elems.len(),
                len_b == rhs@.elems.len(),
                i <= self@.rows,
                data@.len() == i * cols_b,
                forall|r0: int, c0: int|
                    0 <= r0 < i && 0 <= c0 < cols_b ==> data@[r0 * cols_b + c0] == dot(
                        self@,
                        rhs@,
                        r0,
                        c0,
                    ),
            decreases self@.rows - i,
        {
            let mut j: usize = 0;
            while j < cols_b
                invariant
                    self@.wf(),
                    rhs@.wf(),
                    self@.cols == rhs@.rows,
                    inner == self@.cols,
                    cols_b == rhs@.cols,
                    len_a == self@.elems.len(),
                    len_b == rhs@.elems.len(),
                    i < self@.rows,
                    j <= cols_b,
                    data@.len() == i * cols_b + j,
                    forall|r0: int, c0: int|
                        0 <= r0 < i && 0 <= c0 < cols_b ==> data@[r0 * cols_b + c0] == dot(
                            self@,
                            rhs@,
                            r0,
                            c0,
                        ),
                    forall|c0: int|
                        0 <= c0 < j ==> data@[i * cols_b + c0] == dot(self@, rhs@, i as int, c0),
                decreases cols_b - j,
            {
                proof {
                    lemma_row_major_index_bounds(i as int, 0, self.n as int, inner as int);
                    lemma_row_major_index_bounds(0, j as int, inner as int, cols_b as int);
                }
                let mut acc: T = self.data[i * inner].mul_val(rhs.data[j]);
                let mut k: usize = 1;
                while k < inner
                    invariant
                        self@.wf(),
                        rhs@.wf(),
                        self@.cols == rhs@.rows,
                        inner == self@.cols,
                        cols_b == rhs@.cols,
                        len_a == self@.elems.len(),
                        len_b == rhs@.elems.len(),
                        i < self@.rows,
                        j < cols_b,
                        1 <= k <= inner,
                        acc == dot_prefix(self@, rhs@, i as int, j as int, k as int),
                    decreases inner - k,
                {
                    proof {
                        lemma_row_major_index_bounds(i as int, k as int, self.n as int, inner as int);
                        lemma_row_major_index_bounds(k as int, j as int, inner as int, cols_b as int);
                    }
                    acc = acc.add_val(self.data[i * inner + k].mul_val(rhs.data[k * cols_b + j]));
                    k = k + 1;
                }
                data.push(acc);
                j = j + 1;
                proof {
                    assert forall|r0: int, c0: int|
                        0 <= r0 < i && 0 <= c0 < cols_b implies data@[r0 * cols_b + c0] == dot(
                        self@,
                        rhs@,
                        r0,
                        c0,
                    ) by {
                        lemma_row_major_index_bounds(r0, c0, i as int, cols_b as int);
                    }
                }
            }
            proof {
                assert((i as int + 1) * (cols_b as int) == i as int * (cols_b as int)
                    + cols_b as int) by (nonlinear_arith);
            }
            i = i + 1;
        }
        let out = Matrix { n: self.n, m: cols_b, data };
        proof {
            assert forall|i0: int, j0: int|
                0 <= i0 < self@.rows && 0 <= j0 < cols_b implies out@.entry(i0, j0) == dot(
                self@,
                rhs@,
                i0,
                j0,
            ) by {
                lemma_row_major_index_bounds(i0, j0, self.n as int, cols_b as int);
            }
        }
        Ok(out)
    }
}

} // verus!
