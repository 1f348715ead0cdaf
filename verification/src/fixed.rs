//! Fixed-point arithmetic. Every continuous quantity of the simulation
//! (world coordinates, angles in radians, scent intensities, elapsed
//! seconds) is an `i64` holding the real value times `SCALE`.

use vstd::prelude::*;

verus! {

/// Number of raw units in 1.0.
pub const SCALE: i64 = 65536;

/// Largest magnitude accepted by `mul_fp`; products of two such
/// arguments stay well inside `i64`.
pub const FP_ARG_MAX: i64 = 0x8000_0000;

/// Magnitude of an integer.
pub open spec fn abs_i(x: int) -> int {
    if x >= 0 {
        x
    } else {
        -x
    }
}

/// Fixed-point product: the real product of `a` and `b`, rescaled,
/// truncated toward zero.
pub open spec fn mul_fp_s(a: int, b: int) -> int {
    if a * b >= 0 {
        (a * b) / (SCALE as int)
    } else {
        -((-(a * b)) / (SCALE as int))
    }
}

/// The fixed-point product is no larger in magnitude than the integer
/// product scaled down, which keeps every later overflow check linear.
pub proof fn lemma_mul_fp_s_bound(a: int, b: int, m: int, n: int)
    requires
        abs_i(a) <= m,
        abs_i(b) <= n,
        0 <= m,
        0 <= n,
    ensures
        abs_i(mul_fp_s(a, b)) <= m * n / (SCALE as int),
{
    let p = a * b;
    assert(-m <= a <= m && -n <= b <= n);
    assert(-(m * n) <= p <= m * n) by (nonlinear_arith)
        requires
            p == a * b,
            -m <= a <= m,
            -n <= b <= n,
            0 <= m,
            0 <= n,
    ;
    if p >= 0 {
        vstd::arithmetic::div_mod::lemma_div_is_ordered(p, m * n, SCALE as int);
    } else {
        vstd::arithmetic::div_mod::lemma_div_is_ordered(-p, m * n, SCALE as int);
        vstd::arithmetic::div_mod::lemma_div_pos_is_pos(-p, SCALE as int);
    }
}

/// Multiplies two fixed-point values.
pub fn mul_fp(a: i64, b: i64) -> (r: i64)
    requires
        -FP_ARG_MAX <= a <= FP_ARG_MAX,
        -FP_ARG_MAX <= b <= FP_ARG_MAX,
    ensures
        r == mul_fp_s(a as int, b as int),
{
    let am: i64 = if a < 0 { -a } else { a };
    let bm: i64 = if b < 0 { -b } else { b };
    proof {
        assert(am * bm <= 0x4000_0000_0000_0000 && 0 <= am * bm) by (nonlinear_arith)
            requires
                0 <= am <= FP_ARG_MAX,
                0 <= bm <= FP_ARG_MAX,
        ;
        if a >= 0 && b >= 0 {
            assert(a * b >= 0 && am * bm == a * b) by (nonlinear_arith)
                requires
                    a >= 0 && b >= 0 && am == a && bm == b,
            ;
        } else if a < 0 && b < 0 {
            assert(a * b >= 0 && am * bm == a * b) by (nonlinear_arith)
                requires
                    a < 0 && b < 0 && am == -a && bm == -b,
            ;
        } else if a < 0 {
            assert(a * b <= 0 && am * bm == -(a * b)) by (nonlinear_arith)
                requires
                    a < 0 && b >= 0 && am == -a && bm == b,
            ;
        } else {
            assert(a * b <= 0 && am * bm == -(a * b)) by (nonlinear_arith)
                requires
                    a >= 0 && b < 0 && am == a && bm == -b,
            ;
        }
    }
    let prod: i64 = am * bm;
    let q: i64 = prod / SCALE;
    proof {
        vstd::arithmetic::div_mod::lemma_div_pos_is_pos(prod as int, SCALE as int);
    }
    if (a < 0) != (b < 0) {
        -q
    } else {
        q
    }
}

/// Scaling a nonnegative value by a factor of at most one never raises it
/// and never makes it negative.
pub proof fn lemma_mul_fp_s_scale_down(i: int, f: int)
    requires
        0 <= i,
        0 <= f <= SCALE,
    ensures
        0 <= mul_fp_s(i, f) <= i,
{
    let prod = i * f;
    assert(0 <= prod <= i * SCALE) by (nonlinear_arith)
        requires
            0 <= i,
            0 <= f <= SCALE,
            prod == i * f,
    ;
    vstd::arithmetic::div_mod::lemma_div_pos_is_pos(prod, SCALE as int);
    vstd::arithmetic::div_mod::lemma_div_is_ordered(prod, i * (SCALE as int), SCALE as int);
    vstd::arithmetic::div_mod::lemma_div_multiples_vanish(i, SCALE as int);
    assert((SCALE as int) * i == i * SCALE) by (nonlinear_arith);
}

/// Whether `r` is the integer square root of `n`, rounded down.
pub open spec fn is_sqrt_floor(n: int, r: int) -> bool {
    &&& 0 <= r
    &&& r * r <= n
    &&& n < (r + 1) * (r + 1)
}

/// Integer square root, rounded down.
pub fn isqrt(n: i64) -> (r: i64)
    requires
        0 <= n,
    ensures
        0 <= r <= 0x1_0000_0000,
        r * r <= n,
        n < (r + 1) * (r + 1),
        is_sqrt_floor(n as int, r as int),
{
    let mut lo: i64 = 0;
    let mut hi: i64 = 3037000500;
    proof {
        assert(0x7fff_ffff_ffff_ffffi64 < 3037000500i64 * 3037000500i64) by (nonlinear_arith);
    }
    while lo + 1 < hi
        invariant
            0 <= lo < hi <= 3037000500,
            lo * lo <= n,
            n < hi * hi,
        decreases hi - lo,
    {
        let mid: i64 = lo + (hi - lo) / 2;
        proof {
            assert(mid * mid <= 3037000499i64 * 3037000499i64) by (nonlinear_arith)
                requires
                    0 <= mid <= 3037000499,
            ;
        }
        if mid * mid <= n {
            lo = mid;
        } else {
            hi = mid;
        }
    }
    lo
}

} // verus!
