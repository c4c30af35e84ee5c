//! Dense two-dimensional matrices over an abstract [`Scalar`] element.
//!
//! A matrix is viewed as a sequence of rows (`Seq<Seq<T>>`); every operation
//! states the value of each result entry against a specification function
//! over that view, so callers reason about matrix algebra purely at the
//! mathematical level.

use vstd::prelude::*;

use crate::scalar::Scalar;

verus! {

/// The view is a grid: `r` rows, each of width `c`.
pub open spec fn is_grid<T>(v: Seq<Seq<T>>, r: int, c: int) -> bool {
    &&& v.len() == r
    &&& forall|i: int| 0 <= i < r ==> (#[trigger] v[i]).len() == c
}

/// Column `j` of a grid, as a sequence.
pub open spec fn col_s<T>(m: Seq<Seq<T>>, j: int) -> Seq<T> {
    Seq::new(m.len(), |i: int| m[i][j])
}

/// A one-column grid holding the entries of `s`.
pub open spec fn col_mat_s<T>(s: Seq<T>) -> Seq<Seq<T>> {
    Seq::new(s.len(), |i: int| seq![s[i]])
}

/// A grid of `r` rows and `c` columns whose entries are all `v`.
pub open spec fn const_m<T>(r: int, c: int, v: T) -> Seq<Seq<T>> {
    Seq::new(r as nat, |i: int| Seq::new(c as nat, |j: int| v))
}

/// Dot product, folded left to right over the element operations.
pub open spec fn dot_s<T: Scalar>(a: Seq<T>, b: Seq<T>) -> T
    decreases a.len(),
{
    if a.len() == 0 {
        T::zero_s()
    } else {
        T::add_s(dot_s(a.drop_last(), b.drop_last()), T::mul_s(a.last(), b.last()))
    }
}

/// Matrix product of an `m x n` grid and an `n x bcols` grid.
pub open spec fn mm_s<T: Scalar>(a: Seq<Seq<T>>, b: Seq<Seq<T>>, bcols: int) -> Seq<Seq<T>> {
    Seq::new(a.len(), |i: int| Seq::new(bcols as nat, |j: int| dot_s(a[i], col_s(b, j))))
}

/// Entrywise sum.
pub open spec fn add_m<T: Scalar>(a: Seq<Seq<T>>, b: Seq<Seq<T>>) -> Seq<Seq<T>> {
    Seq::new(a.len(), |i: int| Seq::new(a[i].len(), |j: int| T::add_s(a[i][j], b[i][j])))
}

/// Entrywise difference.
pub open spec fn sub_m<T: Scalar>(a: Seq<Seq<T>>, b: Seq<Seq<T>>) -> Seq<Seq<T>> {
    Seq::new(a.len(), |i: int| Seq::new(a[i].len(), |j: int| T::sub_s(a[i][j], b[i][j])))
}

/// Entrywise (Hadamard) product.
pub open spec fn had_m<T: Scalar>(a: Seq<Seq<T>>, b: Seq<Seq<T>>) -> Seq<Seq<T>> {
    Seq::new(a.len(), |i: int| Seq::new(a[i].len(), |j: int| T::mul_s(a[i][j], b[i][j])))
}

/// Every entry multiplied by the scalar `c` (on the left).
pub open spec fn scale_m<T: Scalar>(c: T, a: Seq<Seq<T>>) -> Seq<Seq<T>> {
    Seq::new(a.len(), |i: int| Seq::new(a[i].len(), |j: int| T::mul_s(c, a[i][j])))
}

/// The transpose of a grid of width `acols`.
pub open spec fn transpose_m<T>(a: Seq<Seq<T>>, acols: int) -> Seq<Seq<T>> {
    Seq::new(acols as nat, |i: int| Seq::new(a.len(), |j: int| a[j][i]))
}

/// A dense matrix, row-major.
pub struct Matrix<T> {
    pub rows: usize,
    pub cols: usize,
    pub data: Vec<T>,
}

impl<T> View for Matrix<T> {
    type V = Seq<Seq<T>>;

    open spec fn view(&self) -> Seq<Seq<T>> {
        Seq::new(
            self.rows as nat,
            |i: int| Seq::new(self.cols as nat, |j: int| self.data@[i * self.cols + j]),
        )
    }
}

/// Two grids with equal dimensions and equal entries are equal.
pub proof fn lemma_grid_eq<T>(a: Seq<Seq<T>>, b: Seq<Seq<T>>)
    requires
        a.len() == b.len(),
        forall|i: int| 0 <= i < a.len() ==> (#[trigger] a[i]).len() == b[i].len(),
        forall|i: int, j: int|
            0 <= i < a.len() && 0 <= j < a[i].len() ==> #[trigger] a[i][j] == b[i][j],
    ensures
        a == b,
{
    assert(a =~~= b);
}

/// Row-major position of entry `(i, j)` lies inside an `r x c` block.
pub proof fn lemma_flat_lt(i: int, j: int, r: int, c: int)
    requires
        0 <= i < r,
        0 <= j < c,
    ensures
        0 <= i * c + j < r * c,
{
    assert(0 <= i * c + j < r * c) by (nonlinear_arith)
        requires
            0 <= i < r,
            0 <= j < c,
    ;
}

/// Extending both operands of a dot product by one entry.
proof fn lemma_dot_take_step<T: Scalar>(a: Seq<T>, b: Seq<T>, k: int)
    requires
        0 <= k < a.len(),
        a.len() == b.len(),
    ensures
        dot_s(a.take(k + 1), b.take(k + 1)) == T::add_s(
            dot_s(a.take(k), b.take(k)),
            T::mul_s(a[k], b[k]),
        ),
{
    assert(a.take(k + 1).drop_last() =~= a.take(k));
    assert(b.take(k + 1).drop_last() =~= b.take(k));
    assert(a.take(k + 1).last() == a[k]);
    assert(b.take(k + 1).last() == b[k]);
}

impl<T: Copy> Matrix<T> {
    /// The stored data covers exactly `rows x cols` entries.
    pub open spec fn wf(&self) -> bool {
        self.data.len() == self.rows * self.cols
    }

    /// Wrap row-major data as a matrix.
    pub fn from_vec(rows: usize, cols: usize, data: Vec<T>) -> (r: Matrix<T>)
        requires
            data.len() == rows * cols,
        ensures
            r.wf(),
            r.rows == rows,
            r.cols == cols,
            r.data == data,
    {
        Matrix { rows, cols, data }
    }

    /// Read entry `(i, j)`.
    pub fn get(&self, i: usize, j: usize) -> (r: T)
        requires
            self.wf(),
            i < self.rows,
            j < self.cols,
        ensures
            r == self@[i as int][j as int],
    {
        proof {
            lemma_flat_lt(i as int, j as int, self.rows as int, self.cols as int);
        }
        self.data[i * self.cols + j]
    }

    /// An owned copy.
    pub fn clone_mat(&self) -> (r: Matrix<T>)
        requires
            self.wf(),
        ensures
            r.wf(),
            r.rows == self.rows,
            r.cols == self.cols,
            r.data@ == self.data@,
            r@ == self@,
    {
        let mut data: Vec<T> = Vec::new();
        let mut n: usize = 0;
        while n < self.data.len()
            invariant
                0 <= n <= self.data.len(),
                data@ =~= self.data@.take(n as int),
            decreases self.data.len() - n,
        {
            data.push(self.data[n]);
            n = n + 1;
        }
        proof {
            assert(data@ =~= self.data@);
        }
        Matrix { rows: self.rows, cols: self.cols, data }
    }

    /// A `rows x cols` matrix with every entry `val`.
    pub fn filled(rows: usize, cols: usize, val: T) -> (r: Matrix<T>)
        requires
            rows * cols <= usize::MAX,
        ensures
            r.wf(),
            r.rows == rows,
            r.cols == cols,
            r@ == const_m(rows as int, cols as int, val),
    {
        let total: usize = rows * cols;
        let mut data: Vec<T> = Vec::new();
        let mut n: usize = 0;
        while n < total
            invariant
                0 <= n <= total,
                data@.len() == n,
                forall|k: int| 0 <= k < n ==> data@[k] == val,
            decreases total - n,
        {
            data.push(val);
            n = n + 1;
        }
        let r = Matrix { rows, cols, data };
        proof {
            assert forall|i: int, j: int|
                0 <= i < rows && 0 <= j < cols implies #[trigger] r@[i][j] == val by {
                lemma_flat_lt(i, j, rows as int, cols as int);
            }
            lemma_grid_eq(r@, const_m(rows as int, cols as int, val));
        }
        r
    }
}

impl<T: Scalar> Matrix<T> {
    /// Matrix product.
    pub fn matmul(&self, b: &Matrix<T>) -> (r: Matrix<T>)
        requires
            self.wf(),
            b.wf(),
            self.cols == b.rows,
        ensures
            r.wf(),
            r.rows == self.rows,
            r.cols == b.cols,
            r@ == mm_s(self@, b@, b.cols as int),
    {
        let m: usize = self.rows;
        let n: usize = self.cols;
        let p: usize = b.cols;
        let mut data: Vec<T> = Vec::new();
        let mut i: usize = 0;
        while i < m
            invariant
                0 <= i <= m,
                self.wf(),
                b.wf(),
                m == self.rows,
                n == self.cols,
                p == b.cols,
                n == b.rows,
                data@.len() == i * p,
                forall|ii: int, jj: int|
                    0 <= ii < i && 0 <= jj < p ==> #[trigger] data@[ii * p + jj] == dot_s(
                        self@[ii],
                        col_s(b@, jj),
                    ),
            decreases m - i,
        {
            let mut j: usize = 0;
            while j < p
                invariant
                    0 <= i < m,
                    0 <= j <= p,
                    self.wf(),
                    b.wf(),
                    m == self.rows,
                    n == self.cols,
                    p == b.cols,
                    n == b.rows,
                    data@.len() == i * p + j,
                    forall|ii: int, jj: int|
                        (0 <= ii < i && 0 <= jj < p) || (ii == i && 0 <= jj < j)
                            ==> #[trigger] data@[ii * p + jj] == dot_s(self@[ii], col_s(b@, jj)),
                decreases p - j,
            {
                let mut acc: T = T::zero_v();
                let mut k: usize = 0;
                proof {
                    assert(self@[i as int].take(0) =~= Seq::<T>::empty());
                    assert(col_s(b@, j as int).take(0) =~= Seq::<T>::empty());
                }
                while k < n
                    invariant
                        0 <= i < m,
                        0 <= j < p,
                        0 <= k <= n,
                        self.wf(),
                        b.wf(),
                        m == self.rows,
                        n == self.cols,
                        p == b.cols,
                        n == b.rows,
                        acc == dot_s(self@[i as int].take(k as int), col_s(b@, j as int).take(k as int)),
                    decreases n - k,
                {
                    let x = self.get(i, k);
                    let y = b.get(k, j);
                    proof {
                        assert(col_s(b@, j as int)[k as int] == b@[k as int][j as int]);
                        lemma_dot_take_step::<T>(self@[i as int], col_s(b@, j as int), k as int);
                    }
                    acc = T::add_v(acc, T::mul_v(x, y));
                    k = k + 1;
                }
                proof {
                    assert(self@[i as int].take(n as int) =~= self@[i as int]);
                    assert(col_s(b@, j as int).take(n as int) =~= col_s(b@, j as int));
                }
                let ghost pre = data@;
                data.push(acc);
                proof {
                    assert forall|ii: int, jj: int|
                        (0 <= ii < i && 0 <= jj < p) || (ii == i && 0 <= jj < j + 1)
                            implies #[trigger] data@[ii * p + jj] == dot_s(
                            self@[ii],
                            col_s(b@, jj),
                        ) by {
                        if ii == i && jj == j as int {
                            assert(data@[ii * p + jj] == acc);
                        } else {
                            assert(ii * p + jj < i * p + j) by (nonlinear_arith)
                                requires
                                    0 <= jj < p,
                                    0 <= ii <= i,
                                    0 <= j,
                                    ii < i || (ii == i && jj < j),
                            ;
                            assert(data@[ii * p + jj] == pre[ii * p + jj]);
                        }
                    }
                }
                j = j + 1;
            }
            proof {
                assert(i * p + p == (i + 1) * p) by (nonlinear_arith);
            }
            i = i + 1;
        }
        let r = Matrix { rows: m, cols: p, data };
        proof {
            assert(r.wf());
            let target = mm_s(self@, b@, p as int);
            assert forall|ii: int, jj: int|
                0 <= ii < m && 0 <= jj < p implies #[trigger] r@[ii][jj] == target[ii][jj] by {
                lemma_flat_lt(ii, jj, m as int, p as int);
            }
            lemma_grid_eq(r@, target);
        }
        r
    }

    /// Entrywise combination of two same-shaped matrices; `op` selects
    /// which element operation is applied.
    fn zip_entries(&self, b: &Matrix<T>, op: u8) -> (r: Matrix<T>)
        requires
            self.wf(),
            b.wf(),
            self.rows == b.rows,
            self.cols == b.cols,
            op == 0 || op == 1 || op == 2,
        ensures
            r.wf(),
            r.rows == self.rows,
            r.cols == self.cols,
            op == 0 ==> r@ == add_m(self@, b@),
            op == 1 ==> r@ == sub_m(self@, b@),
            op == 2 ==> r@ == had_m(self@, b@),
    {
        let mut data: Vec<T> = Vec::new();
        let mut n: usize = 0;
        let total: usize = self.data.len();
        while n < total
            invariant
                0 <= n <= total,
                self.wf(),
                b.wf(),
                self.rows == b.rows,
                self.cols == b.cols,
                total == self.data.len(),
                data@.len() == n,
                op == 0 || op == 1 || op == 2,
                forall|k: int|
                    0 <= k < n ==> #[trigger] data@[k] == (if op == 0 {
                        T::add_s(self.data@[k], b.data@[k])
                    } else if op == 1 {
                        T::sub_s(self.data@[k], b.data@[k])
                    } else {
                        T::mul_s(self.data@[k], b.data@[k])
                    }),
            decreases total - n,
        {
            let x = self.data[n];
            let y = b.data[n];
            let e: T = if op == 0 {
                T::add_v(x, y)
            } else if op == 1 {
                T::sub_v(x, y)
            } else {
                T::mul_v(x, y)
            };
            data.push(e);
            n = n + 1;
        }
        let r = Matrix { rows: self.rows, cols: self.cols, data };
        proof {
            let target = if op == 0 {
                add_m(self@, b@)
            } else if op == 1 {
                sub_m(self@, b@)
            } else {
                had_m(self@, b@)
            };
            assert forall|i: int, j: int|
                0 <= i < r.rows && 0 <= j < r.cols implies #[trigger] r@[i][j] == target[i][j] by {
                lemma_flat_lt(i, j, r.rows as int, r.cols as int);
            }
            lemma_grid_eq(r@, target);
        }
        r
    }

    /// Entrywise sum.
    pub fn add_mat(&self, b: &Matrix<T>) -> (r: Matrix<T>)
        requires
            self.wf(),
            b.wf(),
            self.rows == b.rows,
            self.cols == b.cols,
        ensures
            r.wf(),
            r.rows == self.rows,
            r.cols == self.cols,
            r@ == add_m(self@, b@),
    {
        self.zip_entries(b, 0)
    }

    /// Entrywise difference.
    pub fn sub_mat(&self, b: &Matrix<T>) -> (r: Matrix<T>)
        requires
            self.wf(),
            b.wf(),
            self.rows == b.rows,
            self.cols == b.cols,
        ensures
            r.wf(),
            r.rows == self.rows,
            r.cols == self.cols,
            r@ == sub_m(self@, b@),
    {
        self.zip_entries(b, 1)
    }

    /// Entrywise (Hadamard) product.
    pub fn hadamard(&self, b: &Matrix<T>) -> (r: Matrix<T>)
        requires
            self.wf(),
            b.wf(),
            self.rows == b.rows,
            self.cols == b.cols,
        ensures
            r.wf(),
            r.rows == self.rows,
            r.cols == self.cols,
            r@ == had_m(self@, b@),
    {
        self.zip_entries(b, 2)
    }

    /// Every entry multiplied by `c` (on the left).
    pub fn scale_mat(&self, c: T) -> (r: Matrix<T>)
        requires
            self.wf(),
        ensures
            r.wf(),
            r.rows == self.rows,
            r.cols == self.cols,
            r@ == scale_m(c, self@),
    {
        let mut data: Vec<T> = Vec::new();
        let mut n: usize = 0;
        let total: usize = self.data.len();
        while n < total
            invariant
                0 <= n <= total,
                self.wf(),
                total == self.data.len(),
                data@.len() == n,
                forall|k: int| 0 <= k < n ==> #[trigger] data@[k] == T::mul_s(c, self.data@[k]),
            decreases total - n,
        {
            data.push(T::mul_v(c, self.data[n]));
            n = n + 1;
        }
        let r = Matrix { rows: self.rows, cols: self.cols, data };
        proof {
            let target = scale_m(c, self@);
            assert forall|i: int, j: int|
                0 <= i < r.rows && 0 <= j < r.cols implies #[trigger] r@[i][j] == target[i][j] by {
                lemma_flat_lt(i, j, r.rows as int, r.cols as int);
            }
            lemma_grid_eq(r@, target);
        }
        r
    }

    /// The transpose.
    pub fn transpose(&self) -> (r: Matrix<T>)
        requires
            self.wf(),
        ensures
            r.wf(),
            r.rows == self.cols,
            r.cols == self.rows,
            r@ == transpose_m(self@, self.cols as int),
    {
        let mut data: Vec<T> = Vec::new();
        let mut i: usize = 0;
        while i < self.cols
            invariant
                0 <= i <= self.cols,
                self.wf(),
                data@.len() == i * self.rows,
                forall|ii: int, jj: int|
                    0 <= ii < i && 0 <= jj < self.rows
                        ==> #[trigger] data@[ii * self.rows + jj] == self@[jj][ii],
            decreases self.cols - i,
        {
            let mut j: usize = 0;
            while j < self.rows
                invariant
                    0 <= i < self.cols,
                    0 <= j <= self.rows,
                    self.wf(),
                    data@.len() == i * self.rows + j,
                    forall|ii: int, jj: int|
                        (0 <= ii < i && 0 <= jj < self.rows) || (ii == i && 0 <= jj < j)
                            ==> #[trigger] data@[ii * self.rows + jj] == self@[jj][ii],
                decreases self.rows - j,
            {
                let e = self.get(j, i);
                let ghost pre = data@;
                data.push(e);
                proof {
                    let rr = self.rows as int;
                    assert forall|ii: int, jj: int|
                        (0 <= ii < i && 0 <= jj < rr) || (ii == i && 0 <= jj < j + 1)
                            implies #[trigger] data@[ii * rr + jj] == self@[jj][ii] by {
                        if ii == i && jj == j as int {
                            assert(data@[ii * rr + jj] == e);
                        } else {
                            assert(ii * rr + jj < i * rr + j) by (nonlinear_arith)
                                requires
                                    0 <= jj < rr,
                                    0 <= ii <= i,
                                    0 <= j,
                                    ii < i || (ii == i && jj < j),
                            ;
                            assert(data@[ii * rr + jj] == pre[ii * rr + jj]);
                        }
                    }
                }
                j = j + 1;
            }
            proof {
                assert(i * self.rows + self.rows == (i + 1) * self.rows) by (nonlinear_arith);
            }
            i = i + 1;
        }
        let r = Matrix { rows: self.cols, cols: self.rows, data };
        proof {
            let target = transpose_m(self@, self.cols as int);
            assert forall|ii: int, jj: int|
                0 <= ii < r.rows && 0 <= jj < r.cols implies #[trigger] r@[ii][jj] == target[ii][jj] by {
                lemma_flat_lt(ii, jj, r.rows as int, r.cols as int);
            }
            lemma_grid_eq(r@, target);
        }
        r
    }

    /// Row `i` as a vector of entries.
    pub fn row(&self, i: usize) -> (r: Vec<T>)
        requires
            self.wf(),
            i < self.rows,
        ensures
            r@ == self@[i as int],
    {
        let mut out: Vec<T> = Vec::new();
        let mut j: usize = 0;
        while j < self.cols
            invariant
                0 <= j <= self.cols,
                self.wf(),
                i < self.rows,
                out@.len() == j,
                forall|k: int| 0 <= k < j ==> #[trigger] out@[k] == self@[i as int][k],
            decreases self.cols - j,
        {
            out.push(self.get(i, j));
            j = j + 1;
        }
        proof {
            assert(out@ =~= self@[i as int]);
        }
        out
    }

    /// Column `j` as a vector of entries.
    pub fn column(&self, j: usize) -> (r: Vec<T>)
        requires
            self.wf(),
            j < self.cols,
        ensures
            r@ == col_s(self@, j as int),
    {
        let mut out: Vec<T> = Vec::new();
        let mut i: usize = 0;
        while i < self.rows
            invariant
                0 <= i <= self.rows,
                self.wf(),
                j < self.cols,
                out@.len() == i,
                forall|k: int| 0 <= k < i ==> #[trigger] out@[k] == self@[k][j as int],
            decreases self.rows - i,
        {
            out.push(self.get(i, j));
            i = i + 1;
        }
        proof {
            assert(out@ =~= col_s(self@, j as int));
        }
        out
    }

    /// Reshape a flat vector of entries into a single-column matrix.
    pub fn from_column(v: &Vec<T>) -> (r: Matrix<T>)
        ensures
            r.wf(),
            r.rows == v.len(),
            r.cols == 1,
            r@ == col_mat_s(v@),
    {
        let mut data: Vec<T> = Vec::new();
        let mut i: usize = 0;
        while i < v.len()
            invariant
                0 <= i <= v.len(),
                data@ =~= v@.take(i as int),
            decreases v.len() - i,
        {
            data.push(v[i]);
            i = i + 1;
        }
        proof {
            assert(data@ =~= v@);
        }
        let r = Matrix { rows: v.len(), cols: 1, data };
        proof {
            let target = col_mat_s(v@);
            assert forall|i2: int, j2: int|
                0 <= i2 < r.rows && 0 <= j2 < 1 implies #[trigger] r@[i2][j2] == target[i2][j2] by {
            }
            lemma_grid_eq(r@, target);
        }
        r
    }
}

} // verus!
