//! The mathematical model: matrices as sequences of rows of unbounded
//! integers, and the operations on them that the executable code is
//! proved against.

use vstd::prelude::*;

verus! {

/// Holds when `x` fits in an `i64`.
pub open spec fn fits_i64(x: int) -> bool {
    i64::MIN <= x && x <= i64::MAX
}

/// A row of machine integers, read as a row of unbounded integers.
pub open spec fn row_to_ints(v: Seq<i64>) -> Seq<int> {
    v.map_values(|x: i64| x as int)
}

/// `m` is a grid of `r` rows, each of exactly `c` columns.
pub open spec fn is_grid(m: Seq<Seq<int>>, r: int, c: int) -> bool {
    m.len() == r && forall|i: int| 0 <= i < m.len() ==> (#[trigger] m[i]).len() == c
}

/// The all-zero matrix of `r` rows and `c` columns.
pub open spec fn mat_zero(r: nat, c: nat) -> Seq<Seq<int>> {
    Seq::new(r, |i: int| Seq::new(c, |j: int| 0int))
}

/// Elementwise sum; shaped like `a`.
pub open spec fn mat_add(a: Seq<Seq<int>>, b: Seq<Seq<int>>) -> Seq<Seq<int>> {
    Seq::new(a.len(), |i: int| Seq::new(a[i].len(), |j: int| a[i][j] + b[i][j]))
}

/// The transpose of `m`, where `c` is the column count of `m`
/// (the sequence itself cannot show it when `m` has no rows).
pub open spec fn mat_transpose(m: Seq<Seq<int>>, c: nat) -> Seq<Seq<int>> {
    Seq::new(c, |i: int| Seq::new(m.len(), |j: int| m[j][i]))
}

/// Column `j` of `m`.
pub open spec fn col(m: Seq<Seq<int>>, j: int) -> Seq<int> {
    Seq::new(m.len(), |k: int| m[k][j])
}

/// Sum of the first `k` pairwise products of `r` and `c`.
pub open spec fn dot_prefix(r: Seq<int>, c: Seq<int>, k: int) -> int
    decreases k,
{
    if k <= 0 {
        0
    } else {
        dot_prefix(r, c, k - 1) + r[k - 1] * c[k - 1]
    }
}

/// Dot product of `r` and `c` (over the length of `r`).
pub open spec fn dot(r: Seq<int>, c: Seq<int>) -> int {
    dot_prefix(r, c, r.len() as int)
}

/// Product of `a` and `b`, where `p` is the column count of `b`:
/// entry `(i, j)` is the dot product of row `i` of `a` and column `j` of `b`.
pub open spec fn mat_mul(a: Seq<Seq<int>>, b: Seq<Seq<int>>, p: nat) -> Seq<Seq<int>> {
    Seq::new(a.len(), |i: int| Seq::new(p, |j: int| dot(a[i], col(b, j))))
}

/// Every entry of the elementwise sum of `a` and `b` fits in an `i64`.
pub open spec fn add_ok(a: Seq<Seq<int>>, b: Seq<Seq<int>>) -> bool {
    forall|i: int, j: int|
        0 <= i < a.len() && 0 <= j < a[i].len() ==> fits_i64((#[trigger] a[i][j]) + b[i][j])
}

/// Every product and every partial sum of the dot product of `r` and `c`
/// fits in an `i64`.
pub open spec fn dot_ok(r: Seq<int>, c: Seq<int>) -> bool {
    forall|k: int|
        0 <= k < r.len() ==> fits_i64((#[trigger] r[k]) * c[k]) && fits_i64(
            dot_prefix(r, c, k + 1),
        )
}

/// Every dot product in the product of `a` and `b` (of `p` columns) stays
/// within `i64` bounds, partial sums included.
pub open spec fn mul_ok(a: Seq<Seq<int>>, b: Seq<Seq<int>>, p: nat) -> bool {
    forall|i: int, j: int| 0 <= i < a.len() && 0 <= j < p ==> #[trigger] dot_ok(a[i], col(b, j))
}

} // verus!
