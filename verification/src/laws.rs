//! The algebraic laws of the matrix operations, stated and proved over
//! the model in `model`.

use crate::model::{col, dot, dot_prefix, is_grid, mat_add, mat_mul, mat_transpose, mat_zero};
use vstd::prelude::*;

verus! {

/// Transposing a matrix twice gives the matrix back.
pub proof fn lemma_transpose_involution(m: Seq<Seq<int>>, r: nat, c: nat)
    requires
        is_grid(m, r as int, c as int),
    ensures
        mat_transpose(mat_transpose(m, c), r) == m,
{
    assert(mat_transpose(mat_transpose(m, c), r) =~~= m);
}

/// Matrix addition is commutative on matrices of one shape.
pub proof fn lemma_add_comm(a: Seq<Seq<int>>, b: Seq<Seq<int>>, r: nat, c: nat)
    requires
        is_grid(a, r as int, c as int),
        is_grid(b, r as int, c as int),
    ensures
        mat_add(a, b) == mat_add(b, a),
{
    assert(mat_add(a, b) =~~= mat_add(b, a));
}

/// The all-zero matrix is an identity for addition.
pub proof fn lemma_add_zero(a: Seq<Seq<int>>, r: nat, c: nat)
    requires
        is_grid(a, r as int, c as int),
    ensures
        mat_add(a, mat_zero(r, c)) == a,
{
    assert(mat_add(a, mat_zero(r, c)) =~~= a);
}

/// The all-zero row of length `n`.
spec fn zero_vec(n: nat) -> Seq<int> {
    Seq::new(n, |l: int| 0int)
}

/// Pointwise sum of two rows; shaped like `x`.
spec fn vec_add(x: Seq<int>, y: Seq<int>) -> Seq<int> {
    Seq::new(x.len(), |l: int| x[l] + y[l])
}

/// Column `k` of `b`, scaled by `x`.
spec fn scaled_col(b: Seq<Seq<int>>, k: int, x: int) -> Seq<int> {
    Seq::new(b.len(), |l: int| b[l][k] * x)
}

/// Sum of the first `t` columns of `b`, column `k` scaled by `c[k][j]`.
spec fn sum_scaled_prefix(b: Seq<Seq<int>>, c: Seq<Seq<int>>, j: int, t: int) -> Seq<int>
    decreases t,
{
    if t <= 0 {
        zero_vec(b.len())
    } else {
        vec_add(sum_scaled_prefix(b, c, j, t - 1), scaled_col(b, t - 1, c[t - 1][j]))
    }
}

/// A dot product against a row of zeroes is zero.
proof fn lemma_dot_prefix_zero(r: Seq<int>, z: Seq<int>, k: int)
    requires
        forall|l: int| 0 <= l < k ==> #[trigger] z[l] == 0,
    ensures
        dot_prefix(r, z, k) == 0,
    decreases k,
{
    if k > 0 {
        lemma_dot_prefix_zero(r, z, k - 1);
    }
}

/// Scaling the second row scales the dot product.
proof fn lemma_dot_prefix_scale(r: Seq<int>, c: Seq<int>, x: int, sc: Seq<int>, k: int)
    requires
        forall|l: int| 0 <= l < k ==> #[trigger] sc[l] == c[l] * x,
    ensures
        dot_prefix(r, sc, k) == dot_prefix(r, c, k) * x,
    decreases k,
{
    if k <= 0 {
        assert(dot_prefix(r, c, k) * x == 0) by (nonlinear_arith)
            requires dot_prefix(r, c, k) == 0;
    } else {
        lemma_dot_prefix_scale(r, c, x, sc, k - 1);
        assert((dot_prefix(r, c, k - 1) + r[k - 1] * c[k - 1]) * x == dot_prefix(r, c, k - 1) * x
            + r[k - 1] * (c[k - 1] * x)) by (nonlinear_arith);
    }
}

/// The dot product distributes over a pointwise sum in its second row.
proof fn lemma_dot_prefix_add(r: Seq<int>, a: Seq<int>, b: Seq<int>, s: Seq<int>, k: int)
    requires
        forall|l: int| 0 <= l < k ==> #[trigger] s[l] == a[l] + b[l],
    ensures
        dot_prefix(r, s, k) == dot_prefix(r, a, k) + dot_prefix(r, b, k),
    decreases k,
{
    if k > 0 {
        lemma_dot_prefix_add(r, a, b, s, k - 1);
        assert(r[k - 1] * (a[k - 1] + b[k - 1]) == r[k - 1] * a[k - 1] + r[k - 1] * b[k - 1])
            by (nonlinear_arith);
    }
}

/// A dot product depends only on the entries the prefix reads.
proof fn lemma_dot_prefix_congruence(r: Seq<int>, c1: Seq<int>, c2: Seq<int>, k: int)
    requires
        forall|l: int| 0 <= l < k ==> #[trigger] c1[l] == c2[l],
    ensures
        dot_prefix(r, c1, k) == dot_prefix(r, c2, k),
    decreases k,
{
    if k > 0 {
        lemma_dot_prefix_congruence(r, c1, c2, k - 1);
    }
}

/// `sum_scaled_prefix` keeps the width of `b`.
proof fn lemma_ssp_len(b: Seq<Seq<int>>, c: Seq<Seq<int>>, j: int, t: int)
    ensures
        sum_scaled_prefix(b, c, j, t).len() == b.len(),
    decreases t,
{
    if t > 0 {
        lemma_ssp_len(b, c, j, t - 1);
    }
}

/// Entry `l` of the first `t` scaled columns of `b` summed up is the
/// `t`-step partial dot product of row `l` of `b` with column `j` of `c`.
proof fn lemma_ssp_entry(b: Seq<Seq<int>>, c: Seq<Seq<int>>, j: int, t: int, l: int)
    requires
        0 <= l < b.len(),
        t <= c.len(),
    ensures
        sum_scaled_prefix(b, c, j, t)[l] == dot_prefix(b[l], col(c, j), t),
    decreases t,
{
    lemma_ssp_len(b, c, j, t);
    if t > 0 {
        lemma_ssp_len(b, c, j, t - 1);
        lemma_ssp_entry(b, c, j, t - 1, l);
    }
}

/// Folding one more column of the product into the running dot product:
/// the partial dot product of row `r` (of length `n`) of the left factor
/// against the column of per-column dot products equals the dot product
/// of `r` against the summed scaled columns.
proof fn lemma_assoc_entry(
    r: Seq<int>,
    b: Seq<Seq<int>>,
    c: Seq<Seq<int>>,
    j: int,
    t: int,
    n: nat,
    p: nat,
    q: nat,
)
    requires
        is_grid(b, n as int, p as int),
        is_grid(c, p as int, q as int),
        0 <= j < q,
        r.len() == n,
        0 <= t <= p,
    ensures
        dot_prefix(Seq::new(p, |k: int| dot(r, col(b, k))), col(c, j), t) == dot_prefix(
            r,
            sum_scaled_prefix(b, c, j, t),
            n as int,
        ),
    decreases t,
{
    lemma_ssp_len(b, c, j, t);
    if t <= 0 {
        lemma_dot_prefix_zero(r, zero_vec(b.len()), n as int);
    } else {
        lemma_assoc_entry(r, b, c, j, t - 1, n, p, q);
        lemma_ssp_len(b, c, j, t - 1);
        let prods = Seq::new(p, |k: int| dot(r, col(b, k)));
        let sc = scaled_col(b, t - 1, c[t - 1][j]);
        // prods[t - 1] * c[t - 1][j] == dot(r, sc)
        assert(col(b, t - 1).len() == n);
        lemma_dot_prefix_scale(r, col(b, t - 1), c[t - 1][j], sc, n as int);
        // dot(r, previous sum) + dot(r, sc) == dot(r, new sum)
        lemma_dot_prefix_add(
            r,
            sum_scaled_prefix(b, c, j, t - 1),
            sc,
            sum_scaled_prefix(b, c, j, t),
            n as int,
        );
    }
}

/// Matrix multiplication is associative on compatibly shaped matrices:
/// with `a` of shape `m` by `n`, `b` of `n` by `p` and `c` of `p` by `q`,
/// multiplying `a` by `b` and then by `c` equals multiplying `a` by the
/// product of `b` and `c`.
pub proof fn lemma_mul_assoc(
    a: Seq<Seq<int>>,
    b: Seq<Seq<int>>,
    c: Seq<Seq<int>>,
    m: nat,
    n: nat,
    p: nat,
    q: nat,
)
    requires
        is_grid(a, m as int, n as int),
        is_grid(b, n as int, p as int),
        is_grid(c, p as int, q as int),
    ensures
        mat_mul(mat_mul(a, b, p), c, q) == mat_mul(a, mat_mul(b, c, q), q),
{
    let ab = mat_mul(a, b, p);
    let bc = mat_mul(b, c, q);
    assert forall|i: int, j: int| 0 <= i < m && 0 <= j < q implies dot(ab[i], col(c, j)) == dot(
        a[i],
        col(bc, j),
    ) by {
        let s = sum_scaled_prefix(b, c, j, p as int);
        assert(ab[i] =~= Seq::new(p, |k: int| dot(a[i], col(b, k))));
        lemma_assoc_entry(a[i], b, c, j, p as int, n, p, q);
        assert(dot(ab[i], col(c, j)) == dot_prefix(a[i], s, n as int));
        lemma_ssp_len(b, c, j, p as int);
        assert forall|l: int| 0 <= l < n implies col(bc, j)[l] == s[l] by {
            lemma_ssp_entry(b, c, j, p as int, l);
            assert(col(bc, j)[l] == dot(b[l], col(c, j)));
        }
        lemma_dot_prefix_congruence(a[i], s, col(bc, j), n as int);
    }
    assert(mat_mul(ab, c, q) =~~= mat_mul(a, bc, q));
}

} // verus!
