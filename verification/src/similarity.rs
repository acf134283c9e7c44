//! Cosine-similarity decisions over fixed-point embedding vectors.
//!
//! An embedding is a vector of scaled integer coordinates (a fixed-point
//! representation chosen by the caller). The clustering algorithm never needs
//! the cosine similarity `dot(a, b) / (‖a‖·‖b‖)` as a number; it only needs to
//! *compare* similarities against each other and against a rational threshold.
//! Both comparisons can be carried out exactly in integer arithmetic by
//! squaring away the square roots:
//!
//! * `cos(e, c) >= tn / td`  (with `0 < tn <= td`) holds exactly when
//!   `dot(e, c) >= 0` and `dot(e, c)^2 · td^2 >= tn^2 · ‖e‖^2 · ‖c‖^2`,
//!   and the similarity with a zero vector is defined to be `0`, which lies
//!   below every positive threshold.
//! * `cos(e, c1) > cos(e, c2)` reduces, by the same squaring with care for
//!   signs, to a comparison of `dot(e, c1)^2 · ‖c2‖^2` with
//!   `dot(e, c2)^2 · ‖c1‖^2`.
//!
//! The spec functions below are therefore exact renderings of the real-valued
//! definitions, with no rounding anywhere.

use vstd::prelude::*;

verus! {

/// Largest magnitude a single embedding coordinate may have.
pub const COORD_LIMIT: i64 = 65536;

/// Largest embedding dimensionality the engine accepts.
pub const DIM_MAX: usize = 1024;

/// Largest denominator (and hence numerator) of the similarity threshold.
pub const THRESHOLD_DEN_MAX: i64 = 1000;

/// Every coordinate of `s` has magnitude at most `m`.
pub open spec fn bounded(s: Seq<i64>, m: int) -> bool {
    forall|i: int| 0 <= i < s.len() ==> -m <= #[trigger] s[i] <= m
}

/// An embedding the engine accepts: nonempty, of dimensionality at most
/// [`DIM_MAX`], with every coordinate's magnitude at most [`COORD_LIMIT`].
pub open spec fn valid_embedding(e: Seq<i64>) -> bool {
    1 <= e.len() <= DIM_MAX && bounded(e, COORD_LIMIT as int)
}

/// The dot product of the first `n` coordinates of `a` and `b`.
pub open spec fn dot_prefix(a: Seq<i64>, b: Seq<i64>, n: int) -> int
    decreases n,
{
    if n <= 0 {
        0
    } else {
        dot_prefix(a, b, n - 1) + a[n - 1] * b[n - 1]
    }
}

/// The dot product of `a` and `b` (meaningful when they have equal length).
pub open spec fn dot(a: Seq<i64>, b: Seq<i64>) -> int {
    dot_prefix(a, b, a.len() as int)
}

/// The squared Euclidean norm of `a`.
pub open spec fn norm_sq(a: Seq<i64>) -> int {
    dot(a, a)
}

/// `cos(e, c) >= tn / td`, rendered exactly in integers (see module comment).
/// The similarity involving a zero vector is `0`, which is below every
/// positive threshold, so both norms must be nonzero for this to hold.
pub open spec fn meets_threshold(e: Seq<i64>, c: Seq<i64>, tn: int, td: int) -> bool {
    &&& norm_sq(e) != 0
    &&& norm_sq(c) != 0
    &&& dot(e, c) >= 0
    &&& dot(e, c) * dot(e, c) * td * td >= tn * tn * norm_sq(e) * norm_sq(c)
}

/// `cos(e, c1) > cos(e, c2)`, rendered exactly in integers (see module
/// comment). A similarity with a zero vector on either side is `0`; for two
/// nonzero similarities the common positive factor `‖e‖` cancels, and the
/// squared comparison is oriented by the signs of the two dot products.
pub open spec fn sim_gt(e: Seq<i64>, c1: Seq<i64>, c2: Seq<i64>) -> bool {
    let d1 = dot(e, c1);
    let d2 = dot(e, c2);
    let z1 = norm_sq(e) == 0 || norm_sq(c1) == 0;
    let z2 = norm_sq(e) == 0 || norm_sq(c2) == 0;
    if z1 && z2 {
        false
    } else if z1 {
        d2 < 0
    } else if z2 {
        d1 > 0
    } else if d1 > 0 {
        d2 <= 0 || d1 * d1 * norm_sq(c2) > d2 * d2 * norm_sq(c1)
    } else if d1 == 0 {
        d2 < 0
    } else {
        d2 < 0 && d1 * d1 * norm_sq(c2) < d2 * d2 * norm_sq(c1)
    }
}

/// A prefix of a squared norm is nonnegative.
pub proof fn lemma_norm_sq_prefix_nonneg(a: Seq<i64>, n: int)
    requires
        0 <= n <= a.len(),
    ensures
        dot_prefix(a, a, n) >= 0,
    decreases n,
{
    if n > 0 {
        lemma_norm_sq_prefix_nonneg(a, n - 1);
        assert(a[n - 1] * a[n - 1] >= 0) by (nonlinear_arith);
    }
}

/// Squared norms are nonnegative.
pub proof fn lemma_norm_sq_nonneg(a: Seq<i64>)
    ensures
        norm_sq(a) >= 0,
{
    lemma_norm_sq_prefix_nonneg(a, a.len() as int);
}

/// A squared norm is zero exactly when the vector is all zero.
pub proof fn lemma_norm_sq_zero_iff(a: Seq<i64>)
    ensures
        (norm_sq(a) == 0) <==> (forall|i: int| 0 <= i < a.len() ==> #[trigger] a[i] == 0),
{
    lemma_norm_sq_prefix_zero_iff(a, a.len() as int);
}

proof fn lemma_norm_sq_prefix_zero_iff(a: Seq<i64>, n: int)
    requires
        0 <= n <= a.len(),
    ensures
        (dot_prefix(a, a, n) == 0) <==> (forall|i: int| 0 <= i < n ==> #[trigger] a[i] == 0),
    decreases n,
{
    if n > 0 {
        lemma_norm_sq_prefix_zero_iff(a, n - 1);
        lemma_norm_sq_prefix_nonneg(a, n - 1);
        assert(a[n - 1] * a[n - 1] >= 0) by (nonlinear_arith);
        assert((a[n - 1] * a[n - 1] == 0) <==> (a[n - 1] == 0)) by (nonlinear_arith);
    }
}

/// Computes the dot product of two equal-length, coordinate-bounded vectors
/// exactly, in wide integer arithmetic.
pub fn dot_product(a: &Vec<i64>, b: &Vec<i64>) -> (r: i128)
    requires
        a@.len() == b@.len(),
        a@.len() <= DIM_MAX,
        bounded(a@, COORD_LIMIT as int),
        bounded(b@, COORD_LIMIT as int),
    ensures
        r == dot(a@, b@),
        -(a@.len() * (COORD_LIMIT as int) * (COORD_LIMIT as int)) <= r
            <= a@.len() * (COORD_LIMIT as int) * (COORD_LIMIT as int),
{
    let n = a.len();
    let mut acc: i128 = 0;
    let mut i: usize = 0;
    proof {
        assert(0 * (COORD_LIMIT as int) * (COORD_LIMIT as int) == 0) by (nonlinear_arith);
    }
    while i < n
        invariant
            n == a@.len(),
            n == b@.len(),
            n <= DIM_MAX,
            bounded(a@, COORD_LIMIT as int),
            bounded(b@, COORD_LIMIT as int),
            0 <= i <= n,
            acc == dot_prefix(a@, b@, i as int),
            -((i as int) * (COORD_LIMIT as int) * (COORD_LIMIT as int)) <= acc
                <= (i as int) * (COORD_LIMIT as int) * (COORD_LIMIT as int),
        decreases n - i,
    {
        proof {
            let m = COORD_LIMIT as int;
            assert(-(m * m) <= (a@[i as int] as int) * (b@[i as int] as int) <= m * m)
                by (nonlinear_arith)
                requires
                    -m <= a@[i as int] <= m,
                    -m <= b@[i as int] <= m,
                    m >= 0,
            ;
            assert((i as int) * m * m + m * m == (i + 1) as int * m * m) by (nonlinear_arith);
            assert((i + 1) as int * m * m <= DIM_MAX * m * m) by (nonlinear_arith)
                requires
                    (i + 1) as int <= DIM_MAX as int,
                    m >= 0,
            ;
        }
        let p: i128 = (a[i] as i128) * (b[i] as i128);
        acc = acc + p;
        i = i + 1;
    }
    acc
}

/// Checks at run time that `e` is an embedding the engine accepts.
pub fn is_valid_embedding(e: &Vec<i64>) -> (r: bool)
    ensures
        r == valid_embedding(e@),
{
    if e.len() < 1 || e.len() > DIM_MAX {
        return false;
    }
    let mut i: usize = 0;
    while i < e.len()
        invariant
            0 <= i <= e@.len(),
            forall|j: int| 0 <= j < i ==> -(COORD_LIMIT as int) <= #[trigger] e@[j] <= COORD_LIMIT as int,
        decreases e@.len() - i,
    {
        if e[i] < -COORD_LIMIT || e[i] > COORD_LIMIT {
            return false;
        }
        i = i + 1;
    }
    true
}

/// The magnitude of a product is bounded by the product of the magnitudes.
proof fn lemma_mul_bound(x: int, y: int, bx: int, by: int)
    by (nonlinear_arith)
    requires
        -bx <= x <= bx,
        -by <= y <= by,
        bx >= 0,
        by >= 0,
    ensures
        -(bx * by) <= x * y <= bx * by,
{
}

/// The largest magnitude a dot product of accepted vectors can have.
pub open spec fn dot_cap() -> int {
    (DIM_MAX as int) * (COORD_LIMIT as int) * (COORD_LIMIT as int)
}

/// Dot products of accepted vectors stay within `dot_cap()`.
proof fn lemma_dot_within_cap(n: int, r: int)
    by (nonlinear_arith)
    requires
        0 <= n <= DIM_MAX as int,
        -(n * (COORD_LIMIT as int) * (COORD_LIMIT as int)) <= r
            <= n * (COORD_LIMIT as int) * (COORD_LIMIT as int),
    ensures
        -dot_cap() <= r <= dot_cap(),
{
}

/// Decides `cos(e, c) >= tn / td` exactly (see [`meets_threshold`]).
pub fn similarity_meets_threshold(e: &Vec<i64>, c: &Vec<i64>, tn: i64, td: i64) -> (r: bool)
    requires
        e@.len() == c@.len(),
        e@.len() <= DIM_MAX,
        bounded(e@, COORD_LIMIT as int),
        bounded(c@, COORD_LIMIT as int),
        1 <= tn <= td <= THRESHOLD_DEN_MAX,
    ensures
        r == meets_threshold(e@, c@, tn as int, td as int),
{
    let d = dot_product(e, c);
    let ne = dot_product(e, e);
    let nc = dot_product(c, c);
    proof {
        lemma_dot_within_cap(e@.len() as int, d as int);
        lemma_dot_within_cap(e@.len() as int, ne as int);
        lemma_dot_within_cap(c@.len() as int, nc as int);
    }
    if ne == 0 || nc == 0 {
        false
    } else if d < 0 {
        false
    } else {
        proof {
            assert(dot_cap() * dot_cap() * 1000 * 1000 < i128::MAX) by (nonlinear_arith);
            assert(dot_cap() * dot_cap() * 1000 < i128::MAX) by (nonlinear_arith);
            assert(dot_cap() * dot_cap() < i128::MAX) by (nonlinear_arith);
            assert(1000int * 1000 * dot_cap() < i128::MAX) by (nonlinear_arith);
            assert(1000int * 1000 * dot_cap() * dot_cap() < i128::MAX) by (nonlinear_arith);
            lemma_mul_bound(d as int, d as int, dot_cap(), dot_cap());
            lemma_mul_bound(d as int * d as int, td as int, dot_cap() * dot_cap(), 1000);
            lemma_mul_bound(
                d as int * d as int * td as int,
                td as int,
                dot_cap() * dot_cap() * 1000,
                1000,
            );
            lemma_mul_bound(tn as int, tn as int, 1000, 1000);
            lemma_mul_bound(tn as int * tn as int, ne as int, 1000int * 1000, dot_cap());
            lemma_mul_bound(
                tn as int * tn as int * ne as int,
                nc as int,
                1000int * 1000 * dot_cap(),
                dot_cap(),
            );
        }
        let lhs: i128 = d * d * (td as i128) * (td as i128);
        let rhs: i128 = (tn as i128) * (tn as i128) * ne * nc;
        lhs >= rhs
    }
}

/// Decides `cos(e, c1) > cos(e, c2)` exactly (see [`sim_gt`]).
pub fn similarity_gt(e: &Vec<i64>, c1: &Vec<i64>, c2: &Vec<i64>) -> (r: bool)
    requires
        e@.len() == c1@.len(),
        e@.len() == c2@.len(),
        e@.len() <= DIM_MAX,
        bounded(e@, COORD_LIMIT as int),
        bounded(c1@, COORD_LIMIT as int),
        bounded(c2@, COORD_LIMIT as int),
    ensures
        r == sim_gt(e@, c1@, c2@),
{
    let d1 = dot_product(e, c1);
    let d2 = dot_product(e, c2);
    let ne = dot_product(e, e);
    let n1 = dot_product(c1, c1);
    let n2 = dot_product(c2, c2);
    proof {
        lemma_dot_within_cap(e@.len() as int, d1 as int);
        lemma_dot_within_cap(e@.len() as int, d2 as int);
        lemma_norm_sq_nonneg(c1@);
        lemma_norm_sq_nonneg(c2@);
        lemma_dot_within_cap(c1@.len() as int, n1 as int);
        lemma_dot_within_cap(c2@.len() as int, n2 as int);
    }
    let z1 = ne == 0 || n1 == 0;
    let z2 = ne == 0 || n2 == 0;
    if z1 && z2 {
        false
    } else if z1 {
        d2 < 0
    } else if z2 {
        d1 > 0
    } else {
        proof {
            assert(dot_cap() * dot_cap() < i128::MAX) by (nonlinear_arith);
            assert(dot_cap() * dot_cap() * dot_cap() < i128::MAX) by (nonlinear_arith);
            lemma_mul_bound(d1 as int, d1 as int, dot_cap(), dot_cap());
            lemma_mul_bound(d2 as int, d2 as int, dot_cap(), dot_cap());
            lemma_mul_bound(d1 as int * d1 as int, n2 as int, dot_cap() * dot_cap(), dot_cap());
            lemma_mul_bound(d2 as int * d2 as int, n1 as int, dot_cap() * dot_cap(), dot_cap());
        }
        let lhs: i128 = d1 * d1 * n2;
        let rhs: i128 = d2 * d2 * n1;
        if d1 > 0 {
            d2 <= 0 || lhs > rhs
        } else if d1 == 0 {
            d2 < 0
        } else {
            d2 < 0 && lhs < rhs
        }
    }
}

/// The Cauchy–Schwarz inequality on prefixes:
/// `(Σ aᵢbᵢ)² <= (Σ aᵢ²)(Σ bᵢ²)`.
proof fn lemma_cauchy_schwarz_prefix(a: Seq<i64>, b: Seq<i64>, n: int)
    requires
        0 <= n <= a.len(),
        n <= b.len(),
    ensures
        dot_prefix(a, b, n) * dot_prefix(a, b, n) <= dot_prefix(a, a, n) * dot_prefix(b, b, n),
    decreases n,
{
    if n > 0 {
        lemma_cauchy_schwarz_prefix(a, b, n - 1);
        lemma_norm_sq_prefix_nonneg(a, n - 1);
        lemma_norm_sq_prefix_nonneg(b, n - 1);
        let d = dot_prefix(a, b, n - 1);
        let p = dot_prefix(a, a, n - 1);
        let q = dot_prefix(b, b, n - 1);
        let x = a[n - 1] as int;
        let y = b[n - 1] as int;
        assert((d + x * y) * (d + x * y) <= (p + x * x) * (q + y * y)) by (nonlinear_arith)
            requires
                d * d <= p * q,
                p >= 0,
                q >= 0,
        ;
    }
}

/// The Cauchy–Schwarz inequality: `dot(a, b)² <= ‖a‖²·‖b‖²`. In real terms,
/// no cosine similarity exceeds `1` in magnitude.
pub proof fn lemma_cauchy_schwarz(a: Seq<i64>, b: Seq<i64>)
    requires
        a.len() == b.len(),
    ensures
        dot(a, b) * dot(a, b) <= norm_sq(a) * norm_sq(b),
{
    lemma_cauchy_schwarz_prefix(a, b, a.len() as int);
}

/// A nonzero vector meets every threshold `tn / td <= 1` against itself: its
/// self-similarity is exactly `1` (see also [`lemma_self_is_most_similar`]).
pub proof fn lemma_self_similarity(v: Seq<i64>, tn: int, td: int)
    requires
        norm_sq(v) != 0,
        1 <= tn <= td,
    ensures
        meets_threshold(v, v, tn, td),
{
    lemma_norm_sq_nonneg(v);
    let ns = norm_sq(v);
    assert(ns * ns * td * td >= tn * tn * ns * ns) by (nonlinear_arith)
        requires
            ns >= 0,
            1 <= tn <= td,
    ;
}

/// No centroid is strictly more similar to a nonzero vector than the vector
/// itself: the self-similarity `1` is the maximum of the similarity scale.
pub proof fn lemma_self_is_most_similar(v: Seq<i64>, c: Seq<i64>)
    requires
        norm_sq(v) != 0,
        v.len() == c.len(),
    ensures
        !sim_gt(v, c, v),
{
    lemma_norm_sq_nonneg(v);
    lemma_norm_sq_nonneg(c);
    lemma_cauchy_schwarz(v, c);
    let d1 = dot(v, c);
    let nv = norm_sq(v);
    let nc = norm_sq(c);
    if nc != 0 && d1 > 0 {
        assert(d1 * d1 * nv <= nv * nv * nc) by (nonlinear_arith)
            requires
                d1 * d1 <= nv * nc,
                nv >= 0,
        ;
    }
}

/// Orthogonal vectors have similarity `0`, which is below every positive
/// threshold.
pub proof fn lemma_orthogonal_below_threshold(v: Seq<i64>, w: Seq<i64>, tn: int, td: int)
    requires
        dot(v, w) == 0,
        tn >= 1,
    ensures
        !meets_threshold(v, w, tn, td),
{
    lemma_norm_sq_nonneg(v);
    lemma_norm_sq_nonneg(w);
    if norm_sq(v) != 0 && norm_sq(w) != 0 {
        assert(tn * tn * norm_sq(v) * norm_sq(w) > 0) by (nonlinear_arith)
            requires
                tn >= 1,
                norm_sq(v) > 0,
                norm_sq(w) > 0,
        ;
        assert(dot(v, w) * dot(v, w) * td * td == 0) by (nonlinear_arith)
            requires
                dot(v, w) == 0,
        ;
    }
}

/// An all-zero vector has similarity `0` to everything — a defined value, not
/// an error — and so never meets a positive threshold, on either side.
pub proof fn lemma_zero_vector_below_threshold(v: Seq<i64>, w: Seq<i64>, tn: int, td: int)
    requires
        forall|i: int| 0 <= i < v.len() ==> #[trigger] v[i] == 0,
    ensures
        !meets_threshold(v, w, tn, td),
        !meets_threshold(w, v, tn, td),
{
    lemma_norm_sq_zero_iff(v);
}

} // verus!
