//! Fixed-point trigonometric approximations.
//!
//! The sine uses Bhaskara's rational approximation on a range-reduced
//! argument (error under 0.002) and is clamped to sine's exact range;
//! `fx_atan2` reduces to one octant and uses a quadratic approximation of
//! arctangent (error under 0.005 radians).  Each contract states the exact
//! fixed-point value computed, as a mirrored spec function, together with
//! the range and anchor facts callers (checker texture, rotations, camera,
//! sphere surface coordinates) rely on.

use vstd::prelude::*;

use crate::fx::{mul_i128, Fx};

verus! {

/// Pi in raw fixed-point units.
pub const PI_RAW: i64 = 205887;

/// Two pi in raw fixed-point units.
pub const TWO_PI_RAW: i64 = 411775;

/// Half pi in raw fixed-point units.
pub const HALF_PI_RAW: i64 = 102944;

/// Bhaskara's rational sine on `[0, pi]`, in fixed point:
/// `16 t (pi - t) / (5 pi^2 - 4 t (pi - t))`.
pub open spec fn sin_core_spec(t: int) -> int {
    (16 * (t * (205887 - t)) * 65536) / (211947283845 - 4 * (t * (205887 - t)))
}

/// The sine approximation on any argument: reduce modulo two pi, then apply
/// the core on either half-turn.
pub open spec fn sin_spec(x: int) -> int {
    let m = x % 411775;
    if m <= 205887 {
        sin_core_spec(m)
    } else {
        -sin_core_spec(m - 205887)
    }
}

/// Bhaskara's sine on `[0, pi]`: `16 t (pi - t) / (5 pi^2 - 4 t (pi - t))`.
fn sin_core(t: i64) -> (r: i64)
    requires
        0 <= t <= 205887,
    ensures
        0 <= r <= 65536,
        2000 <= t <= 203887 ==> r >= 1,
        r == sin_core_spec(t as int),
{
    proof {
        assert(0 <= t * (205887 - t) && 4 * (t * (205887 - t)) <= 205887 * 205887)
            by (nonlinear_arith)
            requires 0 <= t <= 205887,
        ;
        assert(205887 * 205887 == 42389456769) by (nonlinear_arith);
    }
    let a = t * (PI_RAW - t);
    let num = mul_i128(16 * a, 65536);
    let den = 5 * (PI_RAW as i128) * (PI_RAW as i128) - 4 * (a as i128);
    proof {
        let d: int = 5 * 42389456769 - 4 * (a as int);
        // num <= den * 65536 exactly when 4 a <= pi^2, shown above.
        assert(16 * (a as int) * 65536 <= d * 65536) by (nonlinear_arith)
            requires 0 <= 4 * (a as int) <= 42389456769 && d == 5 * 42389456769 - 4 * (a as int),
        ;
        crate::fx::lemma_div_bound_by_dividend(16 * (a as int) * 65536, d);
        vstd::arithmetic::div_mod::lemma_mod_multiples_basic(65536, d);
        lemma_div_le(16 * (a as int) * 65536, 65536 * d, d);
        vstd::arithmetic::div_mod::lemma_div_multiples_vanish(65536, d);
        if 2000 <= t <= 203887 {
            assert((a as int) >= 2000 * 2000) by (nonlinear_arith)
                requires 2000 <= t <= 203887 && a == t * (205887 - t),
            ;
            assert(16 * (a as int) * 65536 >= 5 * 42389456769 - 4 * (a as int))
                by (nonlinear_arith)
                requires (a as int) >= 2000 * 2000,
            ;
            vstd::arithmetic::div_mod::lemma_div_non_zero(
                16 * (a as int) * 65536,
                5 * 42389456769 - 4 * (a as int),
            );
        }
    }
    let q = crate::fx::div_euclid_i128(num, den);
    q as i64
}

/// `a <= m * b` and `b > 0` give `a / b <= m`.
proof fn lemma_div_le(a: int, mb: int, b: int)
    requires
        b > 0,
        a <= mb,
        mb % b == 0,
    ensures
        a / b <= mb / b,
{
    vstd::arithmetic::div_mod::lemma_div_is_ordered(a, mb, b);
}

impl Fx {
    /// Approximate sine, exact range `[-1, 1]`; strictly positive in the
    /// comfortable interior of `(0, pi)`.
    pub fn sin(self) -> (r: Fx)
        requires
            -0x4000_0000_0000_0000 <= self@ <= 0x4000_0000_0000_0000,
        ensures
            -65536 <= r@ <= 65536,
            2000 <= self@ <= 203887 ==> r@ >= 1,
            r@ == sin_spec(self@),
    {
        let q = crate::fx::div_euclid_i128(self.raw as i128, TWO_PI_RAW as i128);
        proof {
            crate::fx::lemma_div_bound_by_dividend(self@, 411775);
            vstd::arithmetic::div_mod::lemma_fundamental_div_mod(self@, 411775);
        }
        let m = self.raw - (q as i64) * TWO_PI_RAW;
        proof {
            assert(self@ - (self@ / 411775) * 411775 == self@ % 411775) by (nonlinear_arith)
                requires self@ == 411775 * (self@ / 411775) + self@ % 411775,
            ;
            if 0 <= self@ < 411775 {
                vstd::arithmetic::div_mod::lemma_small_mod(self@ as nat, 411775);
            }
        }
        if m <= PI_RAW {
            Fx { raw: sin_core(m) }
        } else {
            Fx { raw: -sin_core(m - PI_RAW) }
        }
    }

    /// Approximate cosine: `sin(x + pi/2)`, exact range `[-1, 1]`; strictly
    /// positive for arguments comfortably inside `(-pi/2, pi/2)`.
    pub fn cos(self) -> (r: Fx)
        requires
            -0x4000_0000_0000 <= self@ <= 0x4000_0000_0000,
        ensures
            -65536 <= r@ <= 65536,
            -100944 <= self@ <= 100943 ==> r@ >= 1,
            r@ == sin_spec(self@ + 102944),
    {
        Fx { raw: self.raw + HALF_PI_RAW }.sin()
    }
}

/// The quadratic arctangent approximation on the unit interval, in raw
/// angle units: `z * (pi/4 + 0.273 * (1 - z))`, capped.
pub open spec fn atan_unit_spec(z: int) -> int {
    let c = 51472 + ((65536 - z) * 17891) / 65536;
    let r = (z * c) / 65536;
    if r > 55000 {
        55000
    } else {
        r
    }
}

/// The full arctangent approximation: octant reduction over the quadratic
/// core, folded into the right quadrant and capped at pi.
pub open spec fn atan2_spec(y: int, x: int) -> int {
    let ax = if x >= 0 {
        x
    } else {
        -x
    };
    let ay = if y >= 0 {
        y
    } else {
        -y
    };
    let base = if ay <= ax {
        if ax == 0 {
            0
        } else {
            atan_unit_spec((ay * 65536) / ax)
        }
    } else {
        102944 - atan_unit_spec((ax * 65536) / ay)
    };
    let quad = if x >= 0 {
        base
    } else {
        205887 - base
    };
    let capped = if quad > 205887 {
        205887
    } else {
        quad
    };
    if y >= 0 {
        capped
    } else {
        -capped
    }
}

/// Quadratic arctangent approximation on `[0, 1]`, in raw angle units:
/// `z * (pi/4 + 0.273 * (1 - z))`.
fn atan_unit(z: i64) -> (r: i64)
    requires
        0 <= z <= 65536,
    ensures
        0 <= r <= 55000,
        z == 0 ==> r == 0,
        r == atan_unit_spec(z as int),
{
    let c = 51472 + (((65536 - z) as i128 * 17891) / 65536) as i64;
    proof {
        assert(0 <= ((65536 - z) as int) * 17891 <= 1172504576) by (nonlinear_arith)
            requires 0 <= 65536 - z <= 65536,
        ;
        vstd::arithmetic::div_mod::lemma_div_pos_is_pos(((65536 - z) as int) * 17891, 65536);
        vstd::arithmetic::div_mod::lemma_div_is_ordered(
            ((65536 - z) as int) * 17891,
            (1172504576) as int,
            65536,
        );
        vstd::arithmetic::div_mod::lemma_div_multiples_vanish(17891, 65536);
    }
    let p = mul_i128(z, c);
    proof {
        assert(0 <= (z as int) * (c as int) <= 4545773568) by (nonlinear_arith)
            requires 0 <= z <= 65536 && 51472 <= c <= 69363,
        ;
        vstd::arithmetic::div_mod::lemma_div_pos_is_pos((z as int) * (c as int), 65536);
        vstd::arithmetic::div_mod::lemma_div_is_ordered(
            (z as int) * (c as int),
            (4545773568) as int,
            65536,
        );
        vstd::arithmetic::div_mod::lemma_div_multiples_vanish(69363, 65536);
    }
    proof {
        if z == 0 {
            assert((z as int) * (c as int) == 0) by (nonlinear_arith)
                requires z == 0,
            ;
        }
    }
    let r = (p / 65536) as i64;
    if r > 55000 { 55000 } else { r }
}

/// Approximate `atan2(y, x)` in raw angle units, in `[-pi, pi]`.
/// On the positive x axis the result is exactly zero.
pub fn fx_atan2(y: Fx, x: Fx) -> (r: Fx)
    requires
        -0x1000_0000_0000 <= y@ <= 0x1000_0000_0000,
        -0x1000_0000_0000 <= x@ <= 0x1000_0000_0000,
    ensures
        -205887 <= r@ <= 205887,
        y@ == 0 && x@ >= 0 ==> r@ == 0,
        x@ == 0 && y@ > 0 ==> r@ == 102944,
        r@ == atan2_spec(y@, x@),
{
    let ax = if x.raw >= 0 { x.raw } else { -x.raw };
    let ay = if y.raw >= 0 { y.raw } else { -y.raw };
    let base: i64 = if ay <= ax {
        if ax == 0 {
            0
        } else {
            proof {
                lemma_unit_ratio(ay as int, ax as int);
                if ay == 0 {
                    vstd::arithmetic::div_mod::lemma_div_of0(ax as int);
                }
            }
            let z = crate::fx::div_euclid_i128(mul_i128(ay, 65536), ax as i128) as i64;
            atan_unit(z)
        }
    } else {
        proof {
            lemma_unit_ratio(ax as int, ay as int);
            if ax == 0 {
                vstd::arithmetic::div_mod::lemma_div_of0(ay as int);
            }
        }
        let z = crate::fx::div_euclid_i128(mul_i128(ax, 65536), ay as i128) as i64;
        HALF_PI_RAW - atan_unit(z)
    };
    // base is in [0, pi/2 + slack]; fold into the right quadrant.
    let quad: i64 = if x.raw >= 0 {
        base
    } else {
        PI_RAW - base
    };
    if y.raw >= 0 {
        Fx { raw: if quad > 205887 { 205887 } else { quad } }
    } else {
        Fx { raw: if quad > 205887 { -205887 } else { -quad } }
    }
}

/// `0 <= a <= b`, `b > 0`: the scaled ratio `a * 65536 / b` lies in `[0, 65536]`.
proof fn lemma_unit_ratio(a: int, b: int)
    requires
        0 <= a <= b,
        b > 0,
    ensures
        0 <= (a * 65536) / b <= 65536,
        crate::fx::fits128((a * 65536) / b),
{
    assert(0 <= a * 65536 <= b * 65536) by (nonlinear_arith)
        requires 0 <= a <= b,
    ;
    vstd::arithmetic::div_mod::lemma_div_pos_is_pos(a * 65536, b);
    vstd::arithmetic::div_mod::lemma_div_is_ordered(a * 65536, b * 65536, b);
    vstd::arithmetic::div_mod::lemma_div_multiples_vanish(65536, b);
}

} // verus!
