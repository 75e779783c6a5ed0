//! Embedding vectors and their similarity score.
//!
//! Vectors are sequences of fixed-point components (`i64`). The cosine
//! similarity of two vectors is computed exactly, as an integer number of
//! millionths: `score_micros(a, b)` is `floor(10^6 * |dot|/ceil(sqrt(n_a *
//! n_b)))` with the sign of the dot product, and `0` when either norm is `0`
//! or the dimensions differ. Bounded components and lengths keep every
//! intermediate value inside `i128`/`u128`.

use vstd::prelude::*;

verus! {

broadcast use vstd::std_specs::vec::group_vec_axioms;

/// Largest magnitude a stored vector component may have (one unit, in
/// millionths).
pub const COMP_MAX: i64 = 1000000;

/// Largest number of components a stored vector may have.
pub const DIM_MAX: usize = 1048576;

/// The number of components every synthesized embedding has.
pub const EMBED_DIM: usize = 384;

/// A well-formed stored vector: bounded length and components.
pub open spec fn emb_ok(v: Seq<i64>) -> bool {
    &&& v.len() <= DIM_MAX
    &&& forall|i: int| 0 <= i < v.len() ==> -COMP_MAX <= #[trigger] v[i] <= COMP_MAX
}

/// The dot product of the first `n` components.
pub open spec fn dot_prefix(a: Seq<i64>, b: Seq<i64>, n: int) -> int
    decreases n,
{
    if n <= 0 {
        0
    } else {
        dot_prefix(a, b, n - 1) + a[n - 1] * b[n - 1]
    }
}

/// The dot product of two vectors of equal length.
pub open spec fn dot(a: Seq<i64>, b: Seq<i64>) -> int {
    dot_prefix(a, b, a.len() as int)
}

/// The squared Euclidean norm.
pub open spec fn norm2(a: Seq<i64>) -> int {
    dot(a, a)
}

/// `r` is the floor square root of `n`.
pub open spec fn is_fsqrt(n: int, r: int) -> bool {
    &&& 0 <= r
    &&& r * r <= n
    &&& n < (r + 1) * (r + 1)
}

/// The floor square root of a nonnegative integer.
pub open spec fn fsqrt(n: int) -> int {
    choose|r: int| is_fsqrt(n, r)
}

/// The ceiling square root: least `r` with `r * r >= n`.
pub open spec fn csqrt(n: int) -> int {
    if fsqrt(n) * fsqrt(n) == n {
        fsqrt(n)
    } else {
        fsqrt(n) + 1
    }
}

/// Floor square roots exist and are unique.
pub proof fn lemma_fsqrt(n: int)
    requires
        n >= 0,
    ensures
        is_fsqrt(n, fsqrt(n)),
        forall|r: int| is_fsqrt(n, r) ==> r == fsqrt(n),
    decreases n,
{
    if n == 0 {
        assert(is_fsqrt(0, 0));
    } else {
        lemma_fsqrt(n - 1);
        let p = fsqrt(n - 1);
        if (p + 1) * (p + 1) == n {
            assert(is_fsqrt(n, p + 1)) by (nonlinear_arith)
                requires
                    is_fsqrt(n - 1, p),
                    (p + 1) * (p + 1) == n,
            ;
        } else {
            assert(is_fsqrt(n, p)) by (nonlinear_arith)
                requires
                    is_fsqrt(n - 1, p),
                    (p + 1) * (p + 1) != n,
            ;
        }
        assert(exists|r: int| is_fsqrt(n, r));
    }
    assert forall|r: int| is_fsqrt(n, r) implies r == fsqrt(n) by {
        let f = fsqrt(n);
        assert(is_fsqrt(n, f));
        assert(r == f) by (nonlinear_arith)
            requires
                is_fsqrt(n, r),
                is_fsqrt(n, f),
        ;
    }
}

/// What `csqrt` means, stated directly.
pub proof fn lemma_csqrt(n: int)
    requires
        n >= 0,
    ensures
        csqrt(n) >= 0,
        csqrt(n) * csqrt(n) >= n,
        csqrt(n) >= 1 ==> (csqrt(n) - 1) * (csqrt(n) - 1) < n,
        csqrt(n) == 0 ==> n == 0,
{
    lemma_fsqrt(n);
    let f = fsqrt(n);
    if f * f == n {
        if f >= 1 {
            assert((f - 1) * (f - 1) < f * f) by (nonlinear_arith)
                requires
                    f >= 1,
            ;
        }
    } else {
        assert(f * f < n);
    }
}

/// Any `r` with the defining properties of the ceiling square root is the
/// ceiling square root.
pub proof fn lemma_csqrt_unique(n: int, r: int)
    requires
        n >= 0,
        r >= 0,
        r * r >= n,
        r >= 1 ==> (r - 1) * (r - 1) < n,
        r == 0 ==> n == 0,
    ensures
        r == csqrt(n),
{
    lemma_fsqrt(n);
    if r == 0 {
        assert(is_fsqrt(0, 0));
        assert(fsqrt(0) == 0);
    } else if r * r == n {
        assert(r * r < (r + 1) * (r + 1)) by (nonlinear_arith)
            requires
                r >= 0,
        ;
        assert(is_fsqrt(n, r));
        assert(fsqrt(n) == r);
    } else {
        assert(is_fsqrt(n, r - 1));
        assert(fsqrt(n) == r - 1);
        assert((r - 1) * (r - 1) != n);
    }
}

/// The similarity of `a` and `b` in millionths: zero when the dimensions
/// differ or either vector has zero norm, otherwise the dot product scaled
/// by the ceiling square root of the product of the squared norms.
pub open spec fn score_micros(a: Seq<i64>, b: Seq<i64>) -> int {
    if a.len() != b.len() {
        0
    } else {
        let dp = dot(a, b);
        let nn = norm2(a) * norm2(b);
        if nn == 0 {
            0
        } else if dp >= 0 {
            (1000000 * dp) / csqrt(nn)
        } else {
            -((1000000 * (-dp)) / csqrt(nn))
        }
    }
}

/// Dot products over bounded vectors are bounded: `|dot_prefix| <= n * 10^12`.
pub proof fn lemma_dot_prefix_bound(a: Seq<i64>, b: Seq<i64>, n: int)
    requires
        0 <= n <= a.len(),
        n <= b.len(),
        emb_ok(a),
        emb_ok(b),
    ensures
        -n * 1000000000000 <= dot_prefix(a, b, n) <= n * 1000000000000,
    decreases n,
{
    if n > 0 {
        lemma_dot_prefix_bound(a, b, n - 1);
        assert(-1000000000000 <= a[n - 1] * b[n - 1] <= 1000000000000) by (nonlinear_arith)
            requires
                -COMP_MAX <= a[n - 1] <= COMP_MAX,
                -COMP_MAX <= b[n - 1] <= COMP_MAX,
        ;
        assert(-(n - 1) * 1000000000000 - 1000000000000 == -n * 1000000000000) by (nonlinear_arith);
        assert((n - 1) * 1000000000000 + 1000000000000 == n * 1000000000000) by (nonlinear_arith);
    } else {
        assert(-n * 1000000000000 == 0) by (nonlinear_arith)
            requires
                n == 0,
        ;
        assert(n * 1000000000000 == 0) by (nonlinear_arith)
            requires
                n == 0,
        ;
    }
}

/// Squared norms are nonnegative.
pub proof fn lemma_norm2_nonneg(a: Seq<i64>, n: int)
    requires
        0 <= n <= a.len(),
    ensures
        dot_prefix(a, a, n) >= 0,
    decreases n,
{
    if n > 0 {
        lemma_norm2_nonneg(a, n - 1);
        assert(a[n - 1] * a[n - 1] >= 0) by (nonlinear_arith);
    }
}

/// Computes the dot product of two equal-length bounded vectors.
pub fn dot_exec(a: &Vec<i64>, b: &Vec<i64>) -> (r: i128)
    requires
        a@.len() == b@.len(),
        emb_ok(a@),
        emb_ok(b@),
    ensures
        r == dot(a@, b@),
{
    let n = a.len();
    let mut acc: i128 = 0;
    let mut i: usize = 0;
    while i < n
        invariant
            i <= n,
            n == a.len(),
            a@.len() == b@.len(),
            emb_ok(a@),
            emb_ok(b@),
            acc == dot_prefix(a@, b@, i as int),
            -(i as int) * 1000000000000 <= acc <= (i as int) * 1000000000000,
        decreases n - i,
    {
        proof {
            assert(-1000000000000 <= a@[i as int] * b@[i as int] <= 1000000000000)
                by (nonlinear_arith)
                requires
                    -COMP_MAX <= a@[i as int] <= COMP_MAX,
                    -COMP_MAX <= b@[i as int] <= COMP_MAX,
            ;
            assert((i as int) * 1000000000000 + 1000000000000 == (i + 1) as int
                * 1000000000000) by (nonlinear_arith);
            assert(-((i + 1) as int) * 1000000000000 == -(i as int) * 1000000000000
                - 1000000000000) by (nonlinear_arith);
            assert((i as int) * 1000000000000 <= (DIM_MAX as int) * 1000000000000)
                by (nonlinear_arith)
                requires
                    0 <= i <= DIM_MAX,
            ;
        }
        acc = acc + (a[i] as i128) * (b[i] as i128);
        i = i + 1;
    }
    acc
}

/// The arithmetic-geometric mean inequality in square form.
proof fn lemma_amgm(a: int, b: int)
    ensures
        (a + b) * (a + b) >= 4 * (a * b),
{
    assert((a + b) * (a + b) - 4 * (a * b) == (a - b) * (a - b)) by (nonlinear_arith);
    assert((a - b) * (a - b) >= 0) by (nonlinear_arith);
}

/// If a square is bounded by the square of a nonnegative number, so is the
/// value itself.
proof fn lemma_sqrt_le(u: int, v: int)
    requires
        u * u <= v * v,
        v >= 0,
    ensures
        u <= v,
{
    assert(u <= v) by (nonlinear_arith)
        requires
            u * u <= v * v,
            v >= 0,
    ;
}

/// One step of the Cauchy-Schwarz induction: extending both vectors by one
/// component preserves `dot^2 <= norm2 * norm2`.
proof fn lemma_cs_step(d: int, na: int, nb: int, x: int, y: int)
    requires
        d * d <= na * nb,
        na >= 0,
        nb >= 0,
    ensures
        (d + x * y) * (d + x * y) <= (na + x * x) * (nb + y * y),
{
    lemma_amgm(na * (y * y), nb * (x * x));
    assert(4 * ((na * (y * y)) * (nb * (x * x))) == 4 * ((na * nb) * ((x * y) * (x * y))))
        by (nonlinear_arith);
    assert(na * (y * y) + nb * (x * x) >= 0) by (nonlinear_arith)
        requires
            na >= 0,
            nb >= 0,
    ;
    assert(4 * ((na * nb) * ((x * y) * (x * y))) >= 4 * ((d * d) * ((x * y) * (x * y))))
        by (nonlinear_arith)
        requires
            d * d <= na * nb,
    ;
    assert((2 * d * (x * y)) * (2 * d * (x * y)) == 4 * ((d * d) * ((x * y) * (x * y))))
        by (nonlinear_arith);
    lemma_sqrt_le(2 * d * (x * y), na * (y * y) + nb * (x * x));
    assert((d + x * y) * (d + x * y) == d * d + 2 * d * (x * y) + (x * y) * (x * y))
        by (nonlinear_arith);
    assert((na + x * x) * (nb + y * y) == na * nb + (na * (y * y) + nb * (x * x)) + (x * x)
        * (y * y)) by (nonlinear_arith);
    assert((x * y) * (x * y) == (x * x) * (y * y)) by (nonlinear_arith);
}

/// The Cauchy-Schwarz inequality over integer vectors: the square of a dot
/// product never exceeds the product of the squared norms.
pub proof fn lemma_cauchy_schwarz(a: Seq<i64>, b: Seq<i64>, n: int)
    requires
        0 <= n <= a.len(),
        n <= b.len(),
    ensures
        dot_prefix(a, b, n) * dot_prefix(a, b, n) <= dot_prefix(a, a, n) * dot_prefix(b, b, n),
    decreases n,
{
    if n == 0 {
    } else {
        lemma_cauchy_schwarz(a, b, n - 1);
        lemma_norm2_nonneg(a, n - 1);
        lemma_norm2_nonneg(b, n - 1);
        lemma_cs_step(
            dot_prefix(a, b, n - 1),
            dot_prefix(a, a, n - 1),
            dot_prefix(b, b, n - 1),
            a[n - 1] as int,
            b[n - 1] as int,
        );
        assert(a[n - 1] * a[n - 1] == (a[n - 1] as int) * (a[n - 1] as int));
    }
}

/// Computes the similarity score of two bounded vectors, in millionths.
pub fn score_micros_exec(a: &Vec<i64>, b: &Vec<i64>) -> (r: i64)
    requires
        emb_ok(a@),
        emb_ok(b@),
    ensures
        r == score_micros(a@, b@),
        -1000000 <= r <= 1000000,
{
    if a.len() != b.len() {
        return 0;
    }
    let dp: i128 = dot_exec(a, b);
    let na: i128 = dot_exec(a, a);
    let nb: i128 = dot_exec(b, b);
    proof {
        lemma_dot_prefix_bound(a@, b@, a@.len() as int);
        lemma_dot_prefix_bound(a@, a@, a@.len() as int);
        lemma_dot_prefix_bound(b@, b@, b@.len() as int);
        lemma_norm2_nonneg(a@, a@.len() as int);
        lemma_norm2_nonneg(b@, b@.len() as int);
        assert(0 <= na * nb <= (0x100000 * 1000000000000) * (0x100000 * 1000000000000))
            by (nonlinear_arith)
            requires
                0 <= na as int <= 0x100000 * 1000000000000,
                0 <= nb as int <= 0x100000 * 1000000000000,
        ;
    }
    let nn: u128 = (na as u128) * (nb as u128);
    if nn == 0 {
        proof {
            assert(na * nb == 0) by (nonlinear_arith)
                requires
                    na >= 0,
                    nb >= 0,
                    (na as u128) * (nb as u128) == 0,
                    na * nb == (na as u128) * (nb as u128),
            ;
        }
        return 0;
    }
    let cs: u128 = crate::num::ceil_sqrt_u128(nn);
    proof {
        lemma_csqrt_unique(nn as int, cs as int);
        assert(cs >= 1);
    }
    let mag: u128 = if dp >= 0 {
        dp as u128
    } else {
        (-dp) as u128
    };
    proof {
        // Cauchy-Schwarz bounds the magnitude of the dot product by the
        // floor square root of nn, hence by cs.
        lemma_cauchy_schwarz(a@, b@, a@.len() as int);
        if dp >= 0 {
            assert(mag as int == dot(a@, b@));
        } else {
            assert(mag as int == -dot(a@, b@));
        }
        assert((mag as int) * (mag as int) == dot(a@, b@) * dot(a@, b@)) by (nonlinear_arith)
            requires
                mag as int == dot(a@, b@) || mag as int == -dot(a@, b@),
        ;
        assert((mag as int) * (mag as int) <= nn as int) by (nonlinear_arith)
            requires
                (mag as int) * (mag as int) == dot(a@, b@) * dot(a@, b@),
                dot(a@, b@) * dot(a@, b@) <= norm2(a@) * norm2(b@),
                norm2(a@) * norm2(b@) == nn as int,
        ;
        assert(mag as int <= cs as int) by (nonlinear_arith)
            requires
                (mag as int) * (mag as int) <= nn as int,
                nn as int <= (cs as int) * (cs as int),
                mag >= 0,
                cs >= 0,
        ;
        assert(1000000 * (mag as int) < 0x100000000000000000000000000000000)
            by (nonlinear_arith)
            requires
                mag as int <= 0x100000 * 1000000000000,
        ;
    }
    let scaled: u128 = (1000000u128 * mag) / cs;
    proof {
        vstd::arithmetic::div_mod::lemma_fundamental_div_mod(
            1000000 * (mag as int),
            cs as int,
        );
        assert(scaled <= 1000000) by (nonlinear_arith)
            requires
                1000000 * (mag as int) == (cs as int) * (scaled as int) + (1000000 * (mag
                    as int)) % (cs as int),
                0 <= (1000000 * (mag as int)) % (cs as int),
                mag as int <= cs as int,
                cs as int >= 1,
                scaled as int >= 0,
        ;
    }
    let r: i64 = if dp >= 0 {
        scaled as i64
    } else {
        -(scaled as i64)
    };
    r
}

/// Similarity scores always lie between minus one and one (in millionths):
/// the Cauchy-Schwarz inequality bounds the scaled quotient.
pub proof fn lemma_score_range(a: Seq<i64>, b: Seq<i64>)
    ensures
        -1000000 <= score_micros(a, b) <= 1000000,
{
    if a.len() == b.len() {
        let dp = dot(a, b);
        let na = norm2(a);
        let nb = norm2(b);
        lemma_norm2_nonneg(a, a.len() as int);
        lemma_norm2_nonneg(b, b.len() as int);
        let nn = na * nb;
        assert(nn >= 0) by (nonlinear_arith)
            requires
                nn == na * nb,
                na >= 0,
                nb >= 0,
        ;
        if nn != 0 {
            lemma_cauchy_schwarz(a, b, a.len() as int);
            lemma_csqrt(nn);
            let cs = csqrt(nn);
            assert(cs >= 1);
            let mag = if dp >= 0 {
                dp
            } else {
                -dp
            };
            assert(mag * mag <= nn) by (nonlinear_arith)
                requires
                    mag == dp || mag == -dp,
                    dp * dp <= nn,
            ;
            assert(mag <= cs) by (nonlinear_arith)
                requires
                    mag * mag <= nn,
                    nn <= cs * cs,
                    mag >= 0,
                    cs >= 0,
            ;
            vstd::arithmetic::div_mod::lemma_fundamental_div_mod(1000000 * mag, cs);
            assert((1000000 * mag) / cs <= 1000000) by (nonlinear_arith)
                requires
                    1000000 * mag == cs * ((1000000 * mag) / cs) + (1000000 * mag) % cs,
                    0 <= (1000000 * mag) % cs,
                    mag <= cs,
                    cs >= 1,
                    (1000000 * mag) / cs >= 0,
            ;
            assert((1000000 * mag) / cs >= 0) by (nonlinear_arith)
                requires
                    mag >= 0,
                    cs >= 1,
            ;
        }
    }
}

/// The similarity of a vector with itself is exactly one (a million
/// millionths) whenever its norm is not zero.
pub proof fn lemma_self_score(a: Seq<i64>)
    requires
        norm2(a) != 0,
    ensures
        score_micros(a, a) == 1000000,
{
    lemma_norm2_nonneg(a, a.len() as int);
    let n = norm2(a);
    assert(n > 0);
    assert(n * n > 0) by (nonlinear_arith)
        requires
            n > 0,
    ;
    lemma_fsqrt(n * n);
    assert(is_fsqrt(n * n, n)) by (nonlinear_arith)
        requires
            n > 0,
    ;
    assert(fsqrt(n * n) == n);
    assert(csqrt(n * n) == n);
    vstd::arithmetic::div_mod::lemma_fundamental_div_mod_converse(1000000 * n, n, 1000000, 0);
    assert(n * 1000000 + 0 == 1000000 * n) by (nonlinear_arith);
}

} // verus!
