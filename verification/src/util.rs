//! Angles and axis-aligned rectangles. Angles are radians in fixed point
//! (`fixed::SCALE` units); rectangles live in fixed-point world coordinates.

use vstd::prelude::*;
use crate::fixed::{SCALE, mul_fp_s, abs_i};

verus! {

/// The angle pi in fixed point (`3.14159... * SCALE`, rounded down).
pub const PI_FP: i64 = 205887;

/// Half of pi in fixed point.
pub const HALF_PI_FP: i64 = 102943;

/// A quarter of pi in fixed point.
pub const QUARTER_PI_FP: i64 = 51471;

/// Polynomial correction used by the arctangent approximation
/// (`0.273 * SCALE`).
pub const ATAN_ADJUST_FP: i64 = 17891;

/// An angle in the normalized range `[-PI_FP, PI_FP]`.
pub open spec fn angle_in_range(a: int) -> bool {
    -PI_FP <= a <= PI_FP
}

/// The normalized representative of an angle: shifted by whole turns
/// until it lies within `[-PI_FP, PI_FP]`.
pub open spec fn norm_angle(a: int) -> int
    decreases abs_i(a),
{
    if a < -PI_FP {
        norm_angle(a + 2 * PI_FP)
    } else if a > PI_FP {
        norm_angle(a - 2 * PI_FP)
    } else {
        a
    }
}

/// Normalization always lands in the normalized range.
pub proof fn lemma_norm_angle_in_range(a: int)
    ensures
        angle_in_range(norm_angle(a)),
    decreases abs_i(a),
{
    if a < -PI_FP {
        lemma_norm_angle_in_range(a + 2 * PI_FP);
    } else if a > PI_FP {
        lemma_norm_angle_in_range(a - 2 * PI_FP);
    }
}

/// An already normalized angle is its own representative.
pub proof fn lemma_norm_angle_fixpoint(a: int)
    requires
        angle_in_range(a),
    ensures
        norm_angle(a) == a,
{
}

/// Normalization is invariant under whole turns: shifting the argument by
/// any number of full circles leaves the result unchanged, for every angle
/// whose representative does not fall exactly on the boundary of the
/// normalized range (a boundary angle flips between `-PI_FP` and `PI_FP`
/// under a whole turn).
pub proof fn lemma_norm_angle_periodic(a: int, k: int)
    requires
        -PI_FP < norm_angle(a) < PI_FP,
    ensures
        norm_angle(a + 2 * PI_FP * k) == norm_angle(a),
    decreases abs_i(k),
{
    if k > 0 {
        lemma_norm_angle_periodic(a, k - 1);
        lemma_norm_angle_shift_up(a + 2 * PI_FP * (k - 1));
        assert(2 * PI_FP * k == 2 * PI_FP * (k - 1) + 2 * PI_FP) by (nonlinear_arith);
    } else if k < 0 {
        lemma_norm_angle_periodic(a, k + 1);
        lemma_norm_angle_shift_down(a + 2 * PI_FP * (k + 1));
        assert(2 * PI_FP * k == 2 * PI_FP * (k + 1) - 2 * PI_FP) by (nonlinear_arith);
    } else {
        assert(2 * PI_FP * k == 0) by (nonlinear_arith)
            requires
                k == 0,
        ;
    }
}

/// One full upward turn does not change the normalized angle, except out
/// of the lower boundary.
proof fn lemma_norm_angle_shift_up(a: int)
    requires
        norm_angle(a) != -PI_FP,
    ensures
        norm_angle(a + 2 * PI_FP) == norm_angle(a),
    decreases abs_i(a),
{
    if a < -PI_FP {
    } else if a > PI_FP {
        lemma_norm_angle_shift_up(a - 2 * PI_FP);
    } else {
        assert(a > -PI_FP);
    }
}

/// One full downward turn does not change the normalized angle, except out
/// of the upper boundary.
proof fn lemma_norm_angle_shift_down(a: int)
    requires
        norm_angle(a) != PI_FP,
    ensures
        norm_angle(a - 2 * PI_FP) == norm_angle(a),
    decreases abs_i(a),
{
    if a < -PI_FP {
        lemma_norm_angle_shift_down(a + 2 * PI_FP);
    } else if a > PI_FP {
    } else {
        assert(a < PI_FP);
    }
}

/// Clamps the angle to range -PI_FP to PI_FP by whole turns.
pub fn normalize_angle(angle: i64) -> (r: i64)
    ensures
        angle_in_range(r as int),
        r == norm_angle(angle as int),
{
    let mut new_angle = angle;
    while new_angle < -PI_FP
        invariant
            norm_angle(new_angle as int) == norm_angle(angle as int),
        decreases if new_angle < -PI_FP { -(new_angle as int) } else { 0 },
    {
        new_angle = new_angle + 2 * PI_FP;
    }
    while new_angle > PI_FP
        invariant
            new_angle >= -PI_FP,
            norm_angle(new_angle as int) == norm_angle(angle as int),
        decreases if new_angle > PI_FP { new_angle as int } else { 0 },
    {
        new_angle = new_angle - 2 * PI_FP;
    }
    new_angle
}

/// An axis-aligned rectangle in fixed-point world coordinates.
#[derive(Copy, Clone, PartialEq, Eq, Structural, Debug)]
pub struct Rect {
    pub x: i64,
    pub y: i64,
    pub w: i64,
    pub h: i64,
}

/// The x coordinate of a rectangle's center.
pub open spec fn rect_center_x(r: Rect) -> int {
    r.x + r.w / 2
}

/// The y coordinate of a rectangle's center.
pub open spec fn rect_center_y(r: Rect) -> int {
    r.y + r.h / 2
}

impl Rect {
    /// Builds a rectangle from its top-left corner and extent.
    pub fn new(x: i64, y: i64, w: i64, h: i64) -> (r: Rect)
        ensures
            r == (Rect { x, y, w, h }),
    {
        Rect { x, y, w, h }
    }

    /// The center point of the rectangle.
    pub fn center(&self) -> (c: (i64, i64))
        requires
            0 <= self.w,
            0 <= self.h,
            self.x + self.w <= 0x4000_0000_0000_0000,
            self.y + self.h <= 0x4000_0000_0000_0000,
            -0x4000_0000_0000_0000 <= self.x,
            -0x4000_0000_0000_0000 <= self.y,
        ensures
            c.0 == rect_center_x(*self),
            c.1 == rect_center_y(*self),
    {
        (self.x + self.w / 2, self.y + self.h / 2)
    }
}

/// The arctangent of `t / SCALE` for `t` in `[0, SCALE]`: a linear term
/// plus a small polynomial correction.
pub open spec fn atan_unit_approx(t: int) -> int {
    (t * QUARTER_PI_FP) / (SCALE as int) + mul_fp_s(mul_fp_s(t, SCALE - t), ATAN_ADJUST_FP as int)
}

/// The approximate angle of the vector `(x, y)`, in `[-PI_FP, PI_FP]`,
/// by octant reduction to `atan_unit_approx`.
pub open spec fn atan2_approx(y: int, x: int) -> int {
    let ax = abs_i(x);
    let ay = abs_i(y);
    if ax == 0 && ay == 0 {
        0
    } else if ax >= ay {
        let base = atan_unit_approx(ay * SCALE / ax);
        if x > 0 {
            if y >= 0 {
                base
            } else {
                -base
            }
        } else {
            if y >= 0 {
                PI_FP - base
            } else {
                -(PI_FP - base)
            }
        }
    } else {
        let base = atan_unit_approx(ax * SCALE / ay);
        let inner = if (x >= 0) == (y >= 0) {
            HALF_PI_FP - base
        } else {
            HALF_PI_FP + base
        };
        if y >= 0 {
            inner
        } else {
            -inner
        }
    }
}

/// Arctangent of `t / SCALE` on the first octant.
fn atan_unit(t: i64) -> (r: i64)
    requires
        0 <= t <= SCALE,
    ensures
        r == atan_unit_approx(t as int),
        0 <= r <= HALF_PI_FP,
{
    let lin: i64 = (t * QUARTER_PI_FP) / SCALE;
    proof {
        vstd::arithmetic::div_mod::lemma_div_pos_is_pos(t as int * QUARTER_PI_FP, SCALE as int);
        vstd::arithmetic::div_mod::lemma_div_is_ordered(
            t as int * QUARTER_PI_FP,
            SCALE as int * QUARTER_PI_FP,
            SCALE as int,
        );
        vstd::arithmetic::div_mod::lemma_div_multiples_vanish(QUARTER_PI_FP as int, SCALE as int);
        crate::fixed::lemma_mul_fp_s_bound(t as int, SCALE - t as int, SCALE as int, SCALE as int);
        crate::fixed::lemma_mul_fp_s_bound(
            mul_fp_s(t as int, SCALE - t as int),
            ATAN_ADJUST_FP as int,
            SCALE as int,
            ATAN_ADJUST_FP as int,
        );
    }
    let ts: i64 = crate::fixed::mul_fp(t, SCALE - t);
    let adj: i64 = crate::fixed::mul_fp(ts, ATAN_ADJUST_FP);
    proof {
        assert(0 <= ts) by (nonlinear_arith)
            requires
                ts == mul_fp_s(t as int, SCALE - t as int),
                0 <= t <= SCALE,
        ;
        assert(0 <= adj) by (nonlinear_arith)
            requires
                adj == mul_fp_s(ts as int, ATAN_ADJUST_FP as int),
                0 <= ts,
        ;
    }
    lin + adj
}

/// The approximate angle of the vector `(x, y)`: which way `(x, y)` points,
/// as a normalized fixed-point angle.
pub fn atan2_fp(y: i64, x: i64) -> (r: i64)
    requires
        -crate::fixed::FP_ARG_MAX <= y <= crate::fixed::FP_ARG_MAX,
        -crate::fixed::FP_ARG_MAX <= x <= crate::fixed::FP_ARG_MAX,
    ensures
        r == atan2_approx(y as int, x as int),
        angle_in_range(r as int),
{
    let ax: i64 = if x < 0 { -x } else { x };
    let ay: i64 = if y < 0 { -y } else { y };
    if ax == 0 && ay == 0 {
        return 0;
    }
    if ax >= ay {
        proof {
            vstd::arithmetic::div_mod::lemma_div_pos_is_pos(ay as int * SCALE, ax as int);
            assert(ay as int * SCALE <= ax as int * SCALE) by (nonlinear_arith)
                requires
                    0 <= ay <= ax,
            ;
            vstd::arithmetic::div_mod::lemma_div_is_ordered(
                ay as int * SCALE,
                ax as int * SCALE,
                ax as int,
            );
            vstd::arithmetic::div_mod::lemma_div_multiples_vanish(SCALE as int, ax as int);
        }
        let t: i64 = ay * SCALE / ax;
        let base = atan_unit(t);
        if x > 0 {
            if y >= 0 {
                base
            } else {
                -base
            }
        } else {
            if y >= 0 {
                PI_FP - base
            } else {
                -(PI_FP - base)
            }
        }
    } else {
        proof {
            vstd::arithmetic::div_mod::lemma_div_pos_is_pos(ax as int * SCALE, ay as int);
            assert(ax as int * SCALE <= ay as int * SCALE) by (nonlinear_arith)
                requires
                    0 <= ax <= ay,
            ;
            vstd::arithmetic::div_mod::lemma_div_is_ordered(
                ax as int * SCALE,
                ay as int * SCALE,
                ay as int,
            );
            vstd::arithmetic::div_mod::lemma_div_multiples_vanish(SCALE as int, ay as int);
        }
        let t: i64 = ax * SCALE / ay;
        let base = atan_unit(t);
        let inner: i64 = if (x >= 0) == (y >= 0) {
            HALF_PI_FP - base
        } else {
            HALF_PI_FP + base
        };
        if y >= 0 {
            inner
        } else {
            -inner
        }
    }
}

/// Bhaskara's rational approximation of the sine on `[0, PI_FP]`.
pub open spec fn sin_half_approx(x: int) -> int {
    let q = x * (PI_FP - x);
    (16 * q * SCALE) / (5 * PI_FP * PI_FP - 4 * q)
}

/// The approximate sine of a normalized fixed-point angle.
pub open spec fn sin_approx(a: int) -> int {
    if a >= 0 {
        sin_half_approx(a)
    } else {
        -sin_half_approx(-a)
    }
}

/// The approximate cosine of a normalized fixed-point angle.
pub open spec fn cos_approx(a: int) -> int {
    sin_approx(norm_angle(a + HALF_PI_FP))
}

/// Sine on the upper half circle.
fn sin_half(x: i64) -> (r: i64)
    requires
        0 <= x <= PI_FP,
    ensures
        r == sin_half_approx(x as int),
        0 <= r <= SCALE,
{
    proof {
        assert(0 <= x as int * (PI_FP - x as int) && 4 * (x as int * (PI_FP - x as int))
            <= PI_FP as int * PI_FP) by (nonlinear_arith)
            requires
                0 <= x <= PI_FP,
        ;
    }
    let q: i64 = x * (PI_FP - x);
    let num: i64 = 16 * q * SCALE;
    let den: i64 = 5 * PI_FP * PI_FP - 4 * q;
    proof {
        assert(num <= den as int * SCALE) by (nonlinear_arith)
            requires
                num == 16 * (q as int) * SCALE,
                den == 5 * (PI_FP as int) * PI_FP - 4 * q,
                0 <= q,
                4 * q <= PI_FP as int * PI_FP,
        ;
        vstd::arithmetic::div_mod::lemma_div_pos_is_pos(num as int, den as int);
        vstd::arithmetic::div_mod::lemma_div_is_ordered(num as int, den as int * SCALE, den as int);
        vstd::arithmetic::div_mod::lemma_div_multiples_vanish(SCALE as int, den as int);
    }
    num / den
}

/// The sine of a normalized fixed-point angle, in `[-SCALE, SCALE]`.
pub fn sin_fp(a: i64) -> (r: i64)
    requires
        angle_in_range(a as int),
    ensures
        r == sin_approx(a as int),
        -SCALE <= r <= SCALE,
{
    if a >= 0 {
        sin_half(a)
    } else {
        -sin_half(-a)
    }
}

/// The cosine of a normalized fixed-point angle, in `[-SCALE, SCALE]`.
pub fn cos_fp(a: i64) -> (r: i64)
    requires
        angle_in_range(a as int),
    ensures
        r == cos_approx(a as int),
        -SCALE <= r <= SCALE,
{
    sin_fp(normalize_angle(a + HALF_PI_FP))
}

} // verus!
