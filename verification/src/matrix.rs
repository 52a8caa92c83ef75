//! The executable matrix type and its verified operations.

use crate::model::{add_ok, col, dot, dot_ok, dot_prefix, fits_i64, is_grid, mat_add, mat_mul,
    mat_transpose, mat_zero, mul_ok, row_to_ints};
use vstd::prelude::*;

verus! {

/// A dense matrix stored row-major: `data` holds `nrows` rows of
/// `ncols` elements each.
#[derive(Debug)]
pub struct Matrix {
    data: Vec<Vec<i64>>,
    nrows: usize,
    ncols: usize,
}

impl View for Matrix {
    type V = Seq<Seq<int>>;

    closed spec fn view(&self) -> Seq<Seq<int>> {
        Seq::new(self.data@.len(), |i: int| row_to_ints(self.data@[i]@))
    }
}

/// Every row of `d` is as long as the first one.
pub open spec fn rows_rect(d: Seq<Vec<i64>>) -> bool {
    forall|i: int| 0 <= i < d.len() ==> (#[trigger] d[i])@.len() == d[0]@.len()
}

impl Matrix {
    #[verifier::type_invariant]
    spec fn wf(self) -> bool {
        self.data@.len() == self.nrows && forall|i: int|
            0 <= i < self.data@.len() ==> (#[trigger] self.data@[i])@.len() == self.ncols
    }

    /// The number of rows.
    pub closed spec fn spec_rows(&self) -> nat {
        self.nrows as nat
    }

    /// The number of columns.
    pub closed spec fn spec_cols(&self) -> nat {
        self.ncols as nat
    }

    /// Builds the `rows` by `cols` matrix with every element zero.
    pub fn new(rows: usize, cols: usize) -> (r: Matrix)
        ensures
            r.spec_rows() == rows,
            r.spec_cols() == cols,
            is_grid(r@, rows as int, cols as int),
            r@ == mat_zero(rows as nat, cols as nat),
    {
        let mut data: Vec<Vec<i64>> = Vec::new();
        let mut i: usize = 0;
        while i < rows
            invariant
                i <= rows,
                data@.len() == i,
                forall|k: int| 0 <= k < i ==> (#[trigger] data@[k])@.len() == cols,
                forall|k: int, t: int|
                    0 <= k < i && 0 <= t < cols ==> (#[trigger] data@[k]@[t]) == 0i64,
            decreases rows - i,
        {
            let mut row: Vec<i64> = Vec::new();
            let mut j: usize = 0;
            while j < cols
                invariant
                    j <= cols,
                    row@.len() == j,
                    forall|t: int| 0 <= t < j ==> row@[t] == 0i64,
                decreases cols - j,
            {
                row.push(0i64);
                j += 1;
            }
            data.push(row);
            i += 1;
        }
        let r = Matrix { data, nrows: rows, ncols: cols };
        proof {
            assert(r@ =~~= mat_zero(rows as nat, cols as nat));
        }
        r
    }

    /// Takes ownership of a rectangular row-major structure. The shape is
    /// the caller's obligation: every row must be as long as the first.
    /// An empty outer structure gives the empty matrix.
    pub fn from(data: Vec<Vec<i64>>) -> (r: Matrix)
        requires
            rows_rect(data@),
        ensures
            r.spec_rows() == data@.len(),
            r.spec_cols() == (if data@.len() == 0 {
                0int
            } else {
                data@[0]@.len() as int
            }),
            is_grid(r@, r.spec_rows() as int, r.spec_cols() as int),
            forall|i: int| 0 <= i < data@.len() ==> r@[i] == row_to_ints((#[trigger] data@[i])@),
    {
        if data.len() == 0 {
            Matrix::new(0, 0)
        } else {
            let rows = data.len();
            let cols = data[0].len();
            Matrix { data, nrows: rows, ncols: cols }
        }
    }

    /// The number of rows.
    pub fn rows(&self) -> (n: usize)
        ensures
            n == self.spec_rows(),
    {
        self.nrows
    }

    /// The number of columns.
    pub fn cols(&self) -> (n: usize)
        ensures
            n == self.spec_cols(),
    {
        self.ncols
    }

    /// Reads the element in row `row`, column `column`.
    pub fn at(&self, row: usize, column: usize) -> (x: i64)
        requires
            row < self.spec_rows(),
            column < self.spec_cols(),
        ensures
            x as int == self@[row as int][column as int],
    {
        proof {
            use_type_invariant(&*self);
        }
        self.data[row][column]
    }

    /// Replaces the matrix in place by its transpose.
    pub fn transpose(&mut self)
        ensures
            final(self).spec_rows() == old(self).spec_cols(),
            final(self).spec_cols() == old(self).spec_rows(),
            is_grid(final(self)@, final(self).spec_rows() as int, final(self).spec_cols() as int),
            final(self)@ == mat_transpose(old(self)@, old(self).spec_cols()),
    {
        proof {
            use_type_invariant(&*self);
        }
        let rows = self.nrows;
        let cols = self.ncols;
        let mut tmp: Vec<Vec<i64>> = Vec::new();
        let mut i: usize = 0;
        while i < cols
            invariant
                i <= cols,
                self.wf(),
                self.nrows == rows,
                self.ncols == cols,
                *self == *old(self),
                tmp@.len() == i,
                forall|k: int| 0 <= k < i ==> (#[trigger] tmp@[k])@.len() == rows,
                forall|k: int, t: int|
                    0 <= k < i && 0 <= t < rows ==> (#[trigger] tmp@[k]@[t]) == self.data@[t]@[k],
            decreases cols - i,
        {
            let mut row: Vec<i64> = Vec::new();
            let mut j: usize = 0;
            while j < rows
                invariant
                    j <= rows,
                    i < cols,
                    self.wf(),
                    self.nrows == rows,
                    self.ncols == cols,
                    *self == *old(self),
                    row@.len() == j,
                    forall|t: int| 0 <= t < j ==> row@[t] == self.data@[t]@[i as int],
                decreases rows - j,
            {
                row.push(self.data[j][i]);
                j += 1;
            }
            tmp.push(row);
            i += 1;
        }
        *self = Matrix { data: tmp, nrows: cols, ncols: rows };
        proof {
            assert(self@ =~~= mat_transpose(old(self)@, old(self).spec_cols()));
        }
    }

    /// Copies the rows named by `range`, in the order given, into a new
    /// matrix. Indices may repeat or come out of order; each must name a
    /// row of `self`. Selecting no rows gives the empty matrix.
    pub fn slice(&self, range: &Vec<usize>) -> (r: Matrix)
        requires
            forall|k: int| 0 <= k < range@.len() ==> (#[trigger] range@[k]) < self.spec_rows(),
        ensures
            r.spec_rows() == range@.len(),
            r.spec_cols() == (if range@.len() == 0 {
                0int
            } else {
                self.spec_cols() as int
            }),
            is_grid(r@, r.spec_rows() as int, r.spec_cols() as int),
            forall|k: int| 0 <= k < range@.len() ==> r@[k] == self@[#[trigger] range@[k] as int],
    {
        proof {
            use_type_invariant(&*self);
        }
        let mut tmp: Vec<Vec<i64>> = Vec::new();
        let mut i: usize = 0;
        while i < range.len()
            invariant
                i <= range@.len(),
                self.wf(),
                forall|k: int| 0 <= k < range@.len() ==> (#[trigger] range@[k]) < self.spec_rows(),
                tmp@.len() == i,
                forall|k: int| 0 <= k < i ==> (#[trigger] tmp@[k])@ == self.data@[range@[k] as int]@,
                forall|k: int| 0 <= k < i ==> (#[trigger] tmp@[k])@.len() == self.ncols,
            decreases range@.len() - i,
        {
            tmp.push(copy_row(&self.data[range[i]]));
            i += 1;
        }
        let r = Matrix::from(tmp);
        proof {
            assert forall|k: int| 0 <= k < range@.len() implies r@[k] == self@[
                (#[trigger] range@[k]) as int
            ] by {
                assert(r@[k] == row_to_ints(tmp@[k]@));
                assert(tmp@[k]@ == self.data@[range@[k] as int]@);
            }
        }
        r
    }

    /// Elementwise sum of `self` and `other`, which must share a shape;
    /// both operands are left as they were. Every entry of the sum must
    /// fit in an `i64`: that is the caller's obligation.
    pub fn add(&self, other: &Matrix) -> (r: Matrix)
        requires
            self.spec_rows() == other.spec_rows(),
            self.spec_cols() == other.spec_cols(),
            add_ok(self@, other@),
        ensures
            r.spec_rows() == self.spec_rows(),
            r.spec_cols() == self.spec_cols(),
            is_grid(r@, r.spec_rows() as int, r.spec_cols() as int),
            r@ == mat_add(self@, other@),
    {
        proof {
            use_type_invariant(&*self);
            use_type_invariant(&*other);
        }
        let rows = self.nrows;
        let cols = self.ncols;
        let mut out: Vec<Vec<i64>> = Vec::new();
        let mut i: usize = 0;
        while i < rows
            invariant
                i <= rows,
                self.wf(),
                other.wf(),
                self.nrows == rows,
                self.ncols == cols,
                other.nrows == rows,
                other.ncols == cols,
                add_ok(self@, other@),
                out@.len() == i,
                forall|k: int| 0 <= k < i ==> (#[trigger] out@[k])@.len() == cols,
                forall|k: int, t: int|
                    0 <= k < i && 0 <= t < cols ==> (#[trigger] out@[k]@[t]) as int == self@[k][t]
                        + other@[k][t],
            decreases rows - i,
        {
            let mut row: Vec<i64> = Vec::new();
            let mut j: usize = 0;
            while j < cols
                invariant
                    j <= cols,
                    i < rows,
                    self.wf(),
                    other.wf(),
                    self.nrows == rows,
                    self.ncols == cols,
                    other.nrows == rows,
                    other.ncols == cols,
                    add_ok(self@, other@),
                    row@.len() == j,
                    forall|t: int|
                        0 <= t < j ==> (#[trigger] row@[t]) as int == self@[i as int][t]
                            + other@[i as int][t],
                decreases cols - j,
            {
                proof {
                    assert(fits_i64(self@[i as int][j as int] + other@[i as int][j as int]));
                }
                row.push(self.data[i][j] + other.data[i][j]);
                j += 1;
            }
            out.push(row);
            i += 1;
        }
        let r = Matrix { data: out, nrows: rows, ncols: cols };
        proof {
            assert(r@ =~~= mat_add(self@, other@));
        }
        r
    }

    /// Elementwise sum that consumes both operands; it returns exactly
    /// what `add` returns on the same values.
    pub fn add_owned(self, other: Matrix) -> (r: Matrix)
        requires
            self.spec_rows() == other.spec_rows(),
            self.spec_cols() == other.spec_cols(),
            add_ok(self@, other@),
        ensures
            r.spec_rows() == self.spec_rows(),
            r.spec_cols() == self.spec_cols(),
            is_grid(r@, r.spec_rows() as int, r.spec_cols() as int),
            r@ == mat_add(self@, other@),
    {
        self.add(&other)
    }

    /// Matrix product of `self` and `rhs`: entry `(i, j)` is the dot
    /// product of row `i` of `self` and column `j` of `rhs`, accumulated
    /// left to right from zero. `self` must have as many columns as `rhs`
    /// has rows, and every intermediate product and partial sum must fit
    /// in an `i64`: both are the caller's obligation.
    pub fn mul(&self, rhs: &Matrix) -> (r: Matrix)
        requires
            self.spec_cols() == rhs.spec_rows(),
            mul_ok(self@, rhs@, rhs.spec_cols()),
        ensures
            r.spec_rows() == self.spec_rows(),
            r.spec_cols() == rhs.spec_cols(),
            is_grid(r@, r.spec_rows() as int, r.spec_cols() as int),
            r@ == mat_mul(self@, rhs@, rhs.spec_cols()),
    {
        proof {
            use_type_invariant(&*self);
            use_type_invariant(&*rhs);
        }
        let rows = self.nrows;
        let mid = self.ncols;
        let cols = rhs.ncols;
        let mut out: Vec<Vec<i64>> = Vec::new();
        let mut i: usize = 0;
        while i < rows
            invariant
                i <= rows,
                self.wf(),
                rhs.wf(),
                self.nrows == rows,
                self.ncols == mid,
                rhs.nrows == mid,
                rhs.ncols == cols,
                mul_ok(self@, rhs@, rhs.spec_cols()),
                out@.len() == i,
                forall|k: int| 0 <= k < i ==> (#[trigger] out@[k])@.len() == cols,
                forall|k: int, t: int|
                    0 <= k < i && 0 <= t < cols ==> (#[trigger] out@[k]@[t]) as int == dot(
                        self@[k],
                        col(rhs@, t),
                    ),
            decreases rows - i,
        {
            let mut row: Vec<i64> = Vec::new();
            let mut j: usize = 0;
            while j < cols
                invariant
                    j <= cols,
                    i < rows,
                    self.wf(),
                    rhs.wf(),
                    self.nrows == rows,
                    self.ncols == mid,
                    rhs.nrows == mid,
                    rhs.ncols == cols,
                    mul_ok(self@, rhs@, rhs.spec_cols()),
                    row@.len() == j,
                    forall|t: int|
                        0 <= t < j ==> (#[trigger] row@[t]) as int == dot(
                            self@[i as int],
                            col(rhs@, t),
                        ),
                decreases cols - j,
            {
                proof {
                    assert(dot_ok(self@[i as int], col(rhs@, j as int)));
                }
                let ghost rvec = self@[i as int];
                let ghost cvec = col(rhs@, j as int);
                let mut entry: i64 = 0;
                let mut k: usize = 0;
                while k < mid
                    invariant
                        k <= mid,
                        i < rows,
                        j < cols,
                        self.wf(),
                        rhs.wf(),
                        self.nrows == rows,
                        self.ncols == mid,
                        rhs.nrows == mid,
                        rhs.ncols == cols,
                        rvec == self@[i as int],
                        cvec == col(rhs@, j as int),
                        dot_ok(rvec, cvec),
                        rvec.len() == mid,
                        entry as int == dot_prefix(rvec, cvec, k as int),
                    decreases mid - k,
                {
                    proof {
                        assert(fits_i64(rvec[k as int] * cvec[k as int]));
                        assert(fits_i64(dot_prefix(rvec, cvec, k as int + 1)));
                        assert(rvec[k as int] == self.data@[i as int]@[k as int] as int);
                        assert(cvec[k as int] == rhs.data@[k as int]@[j as int] as int);
                    }
                    entry += self.data[i][k] * rhs.data[k][j];
                    k += 1;
                }
                row.push(entry);
                j += 1;
            }
            out.push(row);
            i += 1;
        }
        let r = Matrix { data: out, nrows: rows, ncols: cols };
        proof {
            assert(r@ =~~= mat_mul(self@, rhs@, rhs.spec_cols()));
        }
        r
    }

    /// Matrix product that consumes both operands; it returns exactly
    /// what `mul` returns on the same values.
    pub fn mul_owned(self, rhs: Matrix) -> (r: Matrix)
        requires
            self.spec_cols() == rhs.spec_rows(),
            mul_ok(self@, rhs@, rhs.spec_cols()),
        ensures
            r.spec_rows() == self.spec_rows(),
            r.spec_cols() == rhs.spec_cols(),
            is_grid(r@, r.spec_rows() as int, r.spec_cols() as int),
            r@ == mat_mul(self@, rhs@, rhs.spec_cols()),
    {
        self.mul(&rhs)
    }

    /// Elementwise sum as a checked operation: `None` exactly when the
    /// shapes differ or some entry of the sum overflows an `i64`, and
    /// otherwise the same result as `add`.
    pub fn checked_add(&self, other: &Matrix) -> (r: Option<Matrix>)
        ensures
            r is Some <==> (self.spec_rows() == other.spec_rows() && self.spec_cols()
                == other.spec_cols() && add_ok(self@, other@)),
            r matches Some(m) ==> m.spec_rows() == self.spec_rows() && m.spec_cols()
                == self.spec_cols() && is_grid(m@, m.spec_rows() as int, m.spec_cols() as int)
                && m@ == mat_add(self@, other@),
    {
        proof {
            use_type_invariant(&*self);
            use_type_invariant(&*other);
        }
        if self.nrows != other.nrows || self.ncols != other.ncols {
            return None;
        }
        let rows = self.nrows;
        let cols = self.ncols;
        let mut out: Vec<Vec<i64>> = Vec::new();
        let mut i: usize = 0;
        while i < rows
            invariant
                i <= rows,
                self.wf(),
                other.wf(),
                self.nrows == rows,
                self.ncols == cols,
                other.nrows == rows,
                other.ncols == cols,
                out@.len() == i,
                forall|k: int, t: int|
                    0 <= k < i && 0 <= t < cols ==> fits_i64(self@[k][t] + other@[k][t]),
                forall|k: int| 0 <= k < i ==> (#[trigger] out@[k])@.len() == cols,
                forall|k: int, t: int|
                    0 <= k < i && 0 <= t < cols ==> (#[trigger] out@[k]@[t]) as int == self@[k][t]
                        + other@[k][t],
            decreases rows - i,
        {
            let mut row: Vec<i64> = Vec::new();
            let mut j: usize = 0;
            while j < cols
                invariant
                    j <= cols,
                    i < rows,
                    self.wf(),
                    other.wf(),
                    self.nrows == rows,
                    self.ncols == cols,
                    other.nrows == rows,
                    other.ncols == cols,
                    row@.len() == j,
                    forall|t: int| 0 <= t < j ==> fits_i64(self@[i as int][t] + other@[i as int][t]),
                    forall|t: int|
                        0 <= t < j ==> (#[trigger] row@[t]) as int == self@[i as int][t]
                            + other@[i as int][t],
                decreases cols - j,
            {
                match self.data[i][j].checked_add(other.data[i][j]) {
                    Some(s) => {
                        row.push(s);
                    },
                    None => {
                        proof {
                            assert(!fits_i64(self@[i as int][j as int] + other@[i as int][j as int]));
                            assert(!add_ok(self@, other@));
                        }
                        return None;
                    },
                }
                j += 1;
            }
            out.push(row);
            i += 1;
        }
        let r = Matrix { data: out, nrows: rows, ncols: cols };
        proof {
            assert(r@ =~~= mat_add(self@, other@));
        }
        Some(r)
    }

    /// Matrix product as a checked operation: `None` exactly when the
    /// inner dimensions differ or some intermediate product or partial
    /// sum overflows an `i64`, and otherwise the same result as `mul`.
    pub fn checked_mul(&self, rhs: &Matrix) -> (r: Option<Matrix>)
        ensures
            r is Some <==> (self.spec_cols() == rhs.spec_rows() && mul_ok(
                self@,
                rhs@,
                rhs.spec_cols(),
            )),
            r matches Some(m) ==> m.spec_rows() == self.spec_rows() && m.spec_cols()
                == rhs.spec_cols() && is_grid(m@, m.spec_rows() as int, m.spec_cols() as int)
                && m@ == mat_mul(self@, rhs@, rhs.spec_cols()),
    {
        proof {
            use_type_invariant(&*self);
            use_type_invariant(&*rhs);
        }
        if self.ncols != rhs.nrows {
            return None;
        }
        let rows = self.nrows;
        let mid = self.ncols;
        let cols = rhs.ncols;
        let mut out: Vec<Vec<i64>> = Vec::new();
        let mut i: usize = 0;
        while i < rows
            invariant
                i <= rows,
                self.wf(),
                rhs.wf(),
                self.nrows == rows,
                self.ncols == mid,
                rhs.nrows == mid,
                rhs.ncols == cols,
                forall|k: int, t: int|
                    0 <= k < i && 0 <= t < cols ==> #[trigger] dot_ok(self@[k], col(rhs@, t)),
                out@.len() == i,
                forall|k: int| 0 <= k < i ==> (#[trigger] out@[k])@.len() == cols,
                forall|k: int, t: int|
                    0 <= k < i && 0 <= t < cols ==> (#[trigger] out@[k]@[t]) as int == dot(
                        self@[k],
                        col(rhs@, t),
                    ),
            decreases rows - i,
        {
            let mut row: Vec<i64> = Vec::new();
            let mut j: usize = 0;
            while j < cols
                invariant
                    j <= cols,
                    i < rows,
                    self.wf(),
                    rhs.wf(),
                    self.nrows == rows,
                    self.ncols == mid,
                    rhs.nrows == mid,
                    rhs.ncols == cols,
                    forall|t: int| 0 <= t < j ==> #[trigger] dot_ok(self@[i as int], col(rhs@, t)),
                    row@.len() == j,
                    forall|t: int|
                        0 <= t < j ==> (#[trigger] row@[t]) as int == dot(
                            self@[i as int],
                            col(rhs@, t),
                        ),
                decreases cols - j,
            {
                let ghost rvec = self@[i as int];
                let ghost cvec = col(rhs@, j as int);
                let mut entry: i64 = 0;
                let mut k: usize = 0;
                while k < mid
                    invariant
                        k <= mid,
                        i < rows,
                        j < cols,
                        self.wf(),
                        rhs.wf(),
                        self.nrows == rows,
                        self.ncols == mid,
                        rhs.nrows == mid,
                        rhs.ncols == cols,
                        rvec == self@[i as int],
                        cvec == col(rhs@, j as int),
                        rvec.len() == mid,
                        forall|t: int|
                            0 <= t < k ==> fits_i64((#[trigger] rvec[t]) * cvec[t]) && fits_i64(
                                dot_prefix(rvec, cvec, t + 1),
                            ),
                        entry as int == dot_prefix(rvec, cvec, k as int),
                    decreases mid - k,
                {
                    proof {
                        assert(rvec[k as int] == self.data@[i as int]@[k as int] as int);
                        assert(cvec[k as int] == rhs.data@[k as int]@[j as int] as int);
                    }
                    let prod = match self.data[i][k].checked_mul(rhs.data[k][j]) {
                        Some(p) => p,
                        None => {
                            proof {
                                assert(!fits_i64(rvec[k as int] * cvec[k as int]));
                                assert(!dot_ok(self@[i as int], col(rhs@, j as int)));
                                assert(!mul_ok(self@, rhs@, rhs.spec_cols()));
                            }
                            return None;
                        },
                    };
                    entry = match entry.checked_add(prod) {
                        Some(s) => s,
                        None => {
                            proof {
                                assert(!fits_i64(dot_prefix(rvec, cvec, k as int + 1)));
                                assert(!dot_ok(self@[i as int], col(rhs@, j as int)));
                                assert(!mul_ok(self@, rhs@, rhs.spec_cols()));
                            }
                            return None;
                        },
                    };
                    k += 1;
                }
                proof {
                    assert(dot_ok(rvec, cvec));
                }
                row.push(entry);
                j += 1;
            }
            out.push(row);
            i += 1;
        }
        let r = Matrix { data: out, nrows: rows, ncols: cols };
        proof {
            assert(mul_ok(self@, rhs@, rhs.spec_cols()));
            assert(r@ =~~= mat_mul(self@, rhs@, rhs.spec_cols()));
        }
        Some(r)
    }

    /// Hands the backing row-major storage back to the caller.
    pub fn into_rows(self) -> (r: Vec<Vec<i64>>)
        ensures
            r@.len() == self@.len(),
            forall|i: int| 0 <= i < r@.len() ==> row_to_ints((#[trigger] r@[i])@) == self@[i],
    {
        let Matrix { data, .. } = self;
        data
    }
}

impl PartialEq for Matrix {
    /// Two matrices are equal when they share a shape and agree
    /// elementwise.
    fn eq(&self, other: &Matrix) -> (r: bool) {
        proof {
            use_type_invariant(&*self);
            use_type_invariant(&*other);
        }
        if self.nrows != other.nrows || self.ncols != other.ncols {
            return false;
        }
        let rows = self.nrows;
        let cols = self.ncols;
        let mut i: usize = 0;
        while i < rows
            invariant
                i <= rows,
                self.wf(),
                other.wf(),
                self.nrows == rows,
                self.ncols == cols,
                other.nrows == rows,
                other.ncols == cols,
                forall|k: int, t: int|
                    0 <= k < i && 0 <= t < cols ==> (#[trigger] self.data@[k]@[t])
                        == other.data@[k]@[t],
            decreases rows - i,
        {
            let mut j: usize = 0;
            while j < cols
                invariant
                    j <= cols,
                    i < rows,
                    self.wf(),
                    other.wf(),
                    self.nrows == rows,
                    self.ncols == cols,
                    other.nrows == rows,
                    other.ncols == cols,
                    forall|t: int|
                        0 <= t < j ==> (#[trigger] self.data@[i as int]@[t])
                            == other.data@[i as int]@[t],
                decreases cols - j,
            {
                if self.data[i][j] != other.data[i][j] {
                    proof {
                        assert(self@[i as int][j as int] != other@[i as int][j as int]);
                    }
                    return false;
                }
                j += 1;
            }
            i += 1;
        }
        proof {
            assert(self@ =~~= other@);
        }
        true
    }
}

impl vstd::std_specs::cmp::PartialEqSpecImpl for Matrix {
    open spec fn obeys_eq_spec() -> bool {
        true
    }

    open spec fn eq_spec(&self, other: &Matrix) -> bool {
        self.spec_rows() == other.spec_rows() && self.spec_cols() == other.spec_cols() && self@
            == other@
    }
}

/// Copies one row of elements.
fn copy_row(v: &Vec<i64>) -> (r: Vec<i64>)
    ensures
        r@ == v@,
{
    let mut r: Vec<i64> = Vec::new();
    let mut j: usize = 0;
    while j < v.len()
        invariant
            j <= v@.len(),
            r@.len() == j,
            forall|t: int| 0 <= t < j ==> r@[t] == v@[t],
        decreases v@.len() - j,
    {
        r.push(v[j]);
        j += 1;
    }
    proof {
        assert(r@ =~= v@);
    }
    r
}

} // verus!
