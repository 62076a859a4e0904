//! Three-component fixed-point vectors, reused for positions, directions and
//! colors.  All operations are component-wise except `dot`, `cross` and the
//! length family; each carries an exact contract over the raw values.

use vstd::prelude::*;

use crate::fx::{fdiv, fits64, fmul, mul_i128, sqz, Fx};
use crate::fx::div_euclid_i128;

verus! {

#[derive(Clone, Copy, PartialEq, Eq, Structural, Debug)]
pub struct Vec3 {
    pub x: Fx,
    pub y: Fx,
    pub z: Fx,
}

pub type Point3 = Vec3;

pub type Color = Vec3;

/// `x` forced into `[-m, m]`.
pub open spec fn clamp_val(x: int, m: int) -> int {
    if x > m {
        m
    } else if x < -m {
        -m
    } else {
        x
    }
}

/// Every component of `v` lies in `[-m, m]`.
pub open spec fn bounded(v: Vec3, m: int) -> bool {
    -m <= v.x@ <= m && -m <= v.y@ <= m && -m <= v.z@ <= m
}

/// Fixed-point dot product: the exact integer sum of raw products, floored
/// once by the scale.
pub open spec fn sdot(a: Vec3, b: Vec3) -> int {
    (a.x@ * b.x@ + a.y@ * b.y@ + a.z@ * b.z@) / 65536
}

/// Raw (unscaled) dot product: exact, no rounding at all.
pub open spec fn rdot(a: Vec3, b: Vec3) -> int {
    a.x@ * b.x@ + a.y@ * b.y@ + a.z@ * b.z@
}

/// Component `a` (0, 1 or 2) of `v`.
pub open spec fn axis(v: Vec3, a: int) -> int {
    if a == 0 {
        v.x@
    } else if a == 1 {
        v.y@
    } else {
        v.z@
    }
}

/// Mirror of `Vec3::normalize`: each component divided by the fixed-point
/// length.
pub open spec fn normalize_spec(v: Vec3) -> Vec3 {
    Vec3 {
        x: Fx { raw: fdiv(v.x@, sqz(sdot(v, v) * 65536)) as i64 },
        y: Fx { raw: fdiv(v.y@, sqz(sdot(v, v) * 65536)) as i64 },
        z: Fx { raw: fdiv(v.z@, sqz(sdot(v, v) * 65536)) as i64 },
    }
}

/// Mirror of `Vec3::reflect`: `v - 2 * dot(v, n) * n`, component-wise.
pub open spec fn reflect_spec(v: Vec3, n: Vec3) -> Vec3 {
    Vec3 {
        x: Fx { raw: (v.x@ - fmul(2 * sdot(v, n), n.x@)) as i64 },
        y: Fx { raw: (v.y@ - fmul(2 * sdot(v, n), n.y@)) as i64 },
        z: Fx { raw: (v.z@ - fmul(2 * sdot(v, n), n.z@)) as i64 },
    }
}

pub proof fn lemma_prod_bound(a: int, b: int, m1: int, m2: int)
    requires
        -m1 <= a <= m1,
        -m2 <= b <= m2,
        0 <= m1,
        0 <= m2,
    ensures
        -(m1 * m2) <= a * b <= m1 * m2,
{
    assert(-(m1 * m2) <= a * b <= m1 * m2) by (nonlinear_arith)
        requires -m1 <= a <= m1 && -m2 <= b <= m2 && 0 <= m1 && 0 <= m2,
    ;
}

impl Vec3 {
    pub fn new(x: Fx, y: Fx, z: Fx) -> (r: Vec3)
        ensures
            r == (Vec3 { x, y, z }),
    {
        Vec3 { x, y, z }
    }

    /// The zero vector (also the color black).
    pub fn zero() -> (r: Vec3)
        ensures
            r.x@ == 0 && r.y@ == 0 && r.z@ == 0,
    {
        Vec3 { x: Fx { raw: 0 }, y: Fx { raw: 0 }, z: Fx { raw: 0 } }
    }

    /// A vector with all three components equal to `s`.
    pub fn splat(s: Fx) -> (r: Vec3)
        ensures
            r.x == s && r.y == s && r.z == s,
    {
        Vec3 { x: s, y: s, z: s }
    }

    pub fn add(self, o: Vec3) -> (r: Vec3)
        requires
            fits64(self.x@ + o.x@),
            fits64(self.y@ + o.y@),
            fits64(self.z@ + o.z@),
        ensures
            r.x@ == self.x@ + o.x@,
            r.y@ == self.y@ + o.y@,
            r.z@ == self.z@ + o.z@,
    {
        Vec3 { x: self.x.add(o.x), y: self.y.add(o.y), z: self.z.add(o.z) }
    }

    pub fn sub(self, o: Vec3) -> (r: Vec3)
        requires
            fits64(self.x@ - o.x@),
            fits64(self.y@ - o.y@),
            fits64(self.z@ - o.z@),
        ensures
            r.x@ == self.x@ - o.x@,
            r.y@ == self.y@ - o.y@,
            r.z@ == self.z@ - o.z@,
    {
        Vec3 { x: self.x.sub(o.x), y: self.y.sub(o.y), z: self.z.sub(o.z) }
    }

    pub fn neg(self) -> (r: Vec3)
        requires
            fits64(-self.x@),
            fits64(-self.y@),
            fits64(-self.z@),
        ensures
            r.x@ == -self.x@,
            r.y@ == -self.y@,
            r.z@ == -self.z@,
    {
        Vec3 { x: self.x.neg(), y: self.y.neg(), z: self.z.neg() }
    }

    /// Scale every component by the scalar `s`.
    pub fn scale(self, s: Fx) -> (r: Vec3)
        requires
            bounded(self, 0x40_0000_0000),
            -0x40_0000_0000 <= s@ <= 0x40_0000_0000,
        ensures
            r.x@ == fmul(s@, self.x@),
            r.y@ == fmul(s@, self.y@),
            r.z@ == fmul(s@, self.z@),
    {
        proof {
            lemma_prod_bound(s@, self.x@, 0x40_0000_0000, 0x40_0000_0000);
            lemma_prod_bound(s@, self.y@, 0x40_0000_0000, 0x40_0000_0000);
            lemma_prod_bound(s@, self.z@, 0x40_0000_0000, 0x40_0000_0000);
            crate::fx::lemma_div_bound_by_dividend(s@ * self.x@, 65536);
            crate::fx::lemma_div_bound_by_dividend(s@ * self.y@, 65536);
            crate::fx::lemma_div_bound_by_dividend(s@ * self.z@, 65536);
        }
        Vec3 { x: s.mul(self.x), y: s.mul(self.y), z: s.mul(self.z) }
    }

    /// Component-wise product (used to attenuate a color by a color).
    pub fn cmul(self, o: Vec3) -> (r: Vec3)
        requires
            bounded(self, 0x40_0000_0000),
            bounded(o, 0x40_0000_0000),
        ensures
            r.x@ == fmul(self.x@, o.x@),
            r.y@ == fmul(self.y@, o.y@),
            r.z@ == fmul(self.z@, o.z@),
    {
        proof {
            lemma_prod_bound(self.x@, o.x@, 0x40_0000_0000, 0x40_0000_0000);
            lemma_prod_bound(self.y@, o.y@, 0x40_0000_0000, 0x40_0000_0000);
            lemma_prod_bound(self.z@, o.z@, 0x40_0000_0000, 0x40_0000_0000);
            crate::fx::lemma_div_bound_by_dividend(self.x@ * o.x@, 65536);
            crate::fx::lemma_div_bound_by_dividend(self.y@ * o.y@, 65536);
            crate::fx::lemma_div_bound_by_dividend(self.z@ * o.z@, 65536);
        }
        Vec3 { x: self.x.mul(o.x), y: self.y.mul(o.y), z: self.z.mul(o.z) }
    }

    /// Fixed-point dot product, floored once by the scale.
    pub fn dot(self, o: Vec3) -> (r: Fx)
        requires
            bounded(self, 0x40_0000_0000),
            bounded(o, 0x40_0000_0000),
        ensures
            r@ == sdot(self, o),
    {
        proof {
            lemma_prod_bound(self.x@, o.x@, 0x40_0000_0000, 0x40_0000_0000);
            lemma_prod_bound(self.y@, o.y@, 0x40_0000_0000, 0x40_0000_0000);
            lemma_prod_bound(self.z@, o.z@, 0x40_0000_0000, 0x40_0000_0000);
            crate::fx::lemma_div_bound_by_dividend(rdot(self, o), 65536);
        }
        let px = mul_i128(self.x.raw, o.x.raw);
        let py = mul_i128(self.y.raw, o.y.raw);
        let pz = mul_i128(self.z.raw, o.z.raw);
        let q = div_euclid_i128(px + py + pz, 65536);
        Fx { raw: q as i64 }
    }

    /// Cross product, each component floored once by the scale.
    pub fn cross(self, o: Vec3) -> (r: Vec3)
        requires
            bounded(self, 0x40_0000_0000),
            bounded(o, 0x40_0000_0000),
        ensures
            r.x@ == fmul(self.y@, o.z@) - fmul(self.z@, o.y@),
            r.y@ == fmul(self.z@, o.x@) - fmul(self.x@, o.z@),
            r.z@ == fmul(self.x@, o.y@) - fmul(self.y@, o.x@),
    {
        proof {
            lemma_prod_bound(self.y@, o.z@, 0x40_0000_0000, 0x40_0000_0000);
            lemma_prod_bound(self.z@, o.y@, 0x40_0000_0000, 0x40_0000_0000);
            lemma_prod_bound(self.z@, o.x@, 0x40_0000_0000, 0x40_0000_0000);
            lemma_prod_bound(self.x@, o.z@, 0x40_0000_0000, 0x40_0000_0000);
            lemma_prod_bound(self.x@, o.y@, 0x40_0000_0000, 0x40_0000_0000);
            lemma_prod_bound(self.y@, o.x@, 0x40_0000_0000, 0x40_0000_0000);
            crate::fx::lemma_div_bound_by_dividend(self.y@ * o.z@, 65536);
            crate::fx::lemma_div_bound_by_dividend(self.z@ * o.y@, 65536);
            crate::fx::lemma_div_bound_by_dividend(self.z@ * o.x@, 65536);
            crate::fx::lemma_div_bound_by_dividend(self.x@ * o.z@, 65536);
            crate::fx::lemma_div_bound_by_dividend(self.x@ * o.y@, 65536);
            crate::fx::lemma_div_bound_by_dividend(self.y@ * o.x@, 65536);
        }
        Vec3 {
            x: self.y.mul(o.z).sub(self.z.mul(o.y)),
            y: self.z.mul(o.x).sub(self.x.mul(o.z)),
            z: self.x.mul(o.y).sub(self.y.mul(o.x)),
        }
    }

    /// Squared length: `sdot(v, v)`, which is never negative.
    pub fn length_squared(self) -> (r: Fx)
        requires
            bounded(self, 0x40_0000_0000),
        ensures
            r@ == sdot(self, self),
            r@ >= 0,
    {
        proof {
            lemma_sdot_self_nonneg(self);
        }
        self.dot(self)
    }

    /// Length: the fixed-point square root of the squared length.
    pub fn length(self) -> (r: Fx)
        requires
            bounded(self, 0x40_0000_0000),
        ensures
            r@ == sqz(sdot(self, self) * 65536),
            r@ >= 0,
    {
        self.length_squared().fsqrt()
    }

    /// Divide every component by the length.  Requires a squared length of at
    /// least a quarter unit, which keeps the divisor positive; the result's
    /// components are then bounded by one unit plus four raw units of slack.
    pub fn normalize(self) -> (r: Vec3)
        requires
            bounded(self, 0x40_0000_0000),
            sdot(self, self) >= 16384,
        ensures
            r == normalize_spec(self),
            r.x@ == fdiv(self.x@, sqz(sdot(self, self) * 65536)),
            r.y@ == fdiv(self.y@, sqz(sdot(self, self) * 65536)),
            r.z@ == fdiv(self.z@, sqz(sdot(self, self) * 65536)),
            bounded(r, 65540),
    {
        let len = self.length();
        proof {
            crate::fx::lemma_sqz(sdot(self, self) * 65536);
            assert(32768 * 32768 <= sdot(self, self) * 65536) by (nonlinear_arith)
                requires sdot(self, self) >= 16384,
            ;
            assert(len@ >= 32768) by (nonlinear_arith)
                requires
                    len@ >= 0,
                    32768 * 32768 <= sdot(self, self) * 65536,
                    sdot(self, self) * 65536 < (len@ + 1) * (len@ + 1),
            ;
            lemma_normalize_component(self.x@, self, len@);
            lemma_normalize_component(self.y@, self, len@);
            lemma_normalize_component(self.z@, self, len@);
        }
        Vec3 { x: self.x.div(len), y: self.y.div(len), z: self.z.div(len) }
    }

    /// All components at most 16 raw units (about 2.4e-4) in magnitude: the
    /// degenerate-scatter-direction test.
    pub fn near_zero(self) -> (r: bool)
        requires
            bounded(self, 0x40_0000_0000),
        ensures
            r == (-16 <= self.x@ <= 16 && -16 <= self.y@ <= 16 && -16 <= self.z@ <= 16),
    {
        let e: i64 = 16;
        -e <= self.x.raw && self.x.raw <= e && -e <= self.y.raw && self.y.raw <= e && -e
            <= self.z.raw && self.z.raw <= e
    }

    /// Mirror `v` about the unit normal `n`: `v - 2 * dot(v, n) * n`.
    pub fn reflect(v: Vec3, n: Vec3) -> (r: Vec3)
        requires
            bounded(v, 0x2_0000),
            bounded(n, 0x2_0000),
        ensures
            r == reflect_spec(v, n),
            bounded(r, 0x80_0000),
    {
        proof {
            lemma_prod_bound(v.x@, n.x@, 0x2_0000, 0x2_0000);
            lemma_prod_bound(v.y@, n.y@, 0x2_0000, 0x2_0000);
            lemma_prod_bound(v.z@, n.z@, 0x2_0000, 0x2_0000);
            crate::fx::lemma_div_bound_by_dividend(rdot(v, n), 65536);
            lemma_sdot_bound(v, n, 0x2_0000, 0x2_0000);
        }
        let d = v.dot(n);
        let dd = d.add(d);
        proof {
            lemma_prod_bound(2 * sdot(v, n), n.x@, 0x30_0000, 0x2_0000);
            lemma_prod_bound(2 * sdot(v, n), n.y@, 0x30_0000, 0x2_0000);
            lemma_prod_bound(2 * sdot(v, n), n.z@, 0x30_0000, 0x2_0000);
            lemma_div_within(2 * sdot(v, n) * n.x@, 65536, 6291456);
            lemma_div_within(2 * sdot(v, n) * n.y@, 65536, 6291456);
            lemma_div_within(2 * sdot(v, n) * n.z@, 65536, 6291456);
        }
        let r = v.sub(n.scale(dd));
        r
    }

    /// Clamp every component into `[-m, m]`: a numerical guard that is the
    /// identity on values already in range.
    pub fn clamp_components(self, m: i64) -> (r: Vec3)
        requires
            m > 0,
        ensures
            bounded(r, m as int),
            bounded(self, m as int) ==> r == self,
            r.x@ == clamp_val(self.x@, m as int),
            r.y@ == clamp_val(self.y@, m as int),
            r.z@ == clamp_val(self.z@, m as int),
    {
        let cl = |c: Fx| -> (o: Fx)
            ensures
                o@ == clamp_val(c@, m as int),
                -m <= c@ <= m ==> o == c,
            {
                if c.raw > m {
                    Fx { raw: m }
                } else if c.raw < -m {
                    Fx { raw: -m }
                } else {
                    c
                }
            };
        let r = Vec3 { x: cl(self.x), y: cl(self.y), z: cl(self.z) };
        r
    }

    /// Test whether every component lies in `[-m, m]`.
    pub fn check_bounded(&self, m: i64) -> (r: bool)
        requires
            m > 0,
        ensures
            r == bounded(*self, m as int),
    {
        -m <= self.x.raw && self.x.raw <= m && -m <= self.y.raw && self.y.raw <= m && -m
            <= self.z.raw && self.z.raw <= m
    }

    /// Component 0, 1 or 2, selected by index.
    pub fn get(self, a: usize) -> (r: Fx)
        requires
            a < 3,
        ensures
            r@ == axis(self, a as int),
    {
        if a == 0 {
            self.x
        } else if a == 1 {
            self.y
        } else {
            self.z
        }
    }
}

/// A raw dot product of bounded vectors is bounded by three times the
/// product of the bounds.
pub proof fn lemma_rdot_bound(a: Vec3, b: Vec3, m1: int, m2: int)
    requires
        bounded(a, m1),
        bounded(b, m2),
        0 <= m1,
        0 <= m2,
    ensures
        -(3 * (m1 * m2)) <= rdot(a, b) <= 3 * (m1 * m2),
{
    lemma_prod_bound(a.x@, b.x@, m1, m2);
    lemma_prod_bound(a.y@, b.y@, m1, m2);
    lemma_prod_bound(a.z@, b.z@, m1, m2);
}

/// A dot product of bounded vectors is bounded.
pub proof fn lemma_sdot_bound(a: Vec3, b: Vec3, m1: int, m2: int)
    requires
        bounded(a, m1),
        bounded(b, m2),
        0 <= m1,
        0 <= m2,
    ensures
        (-(3 * m1 * m2)) / 65536 <= sdot(a, b) <= (3 * m1 * m2) / 65536,
{
    lemma_prod_bound(a.x@, b.x@, m1, m2);
    lemma_prod_bound(a.y@, b.y@, m1, m2);
    lemma_prod_bound(a.z@, b.z@, m1, m2);
    assert(m1 * m2 + m1 * m2 + m1 * m2 == 3 * m1 * m2) by (nonlinear_arith);
    vstd::arithmetic::div_mod::lemma_div_is_ordered(rdot(a, b), 3 * m1 * m2, 65536);
    vstd::arithmetic::div_mod::lemma_div_is_ordered(-(3 * m1 * m2), rdot(a, b), 65536);
}

/// The squared length is never negative.
pub proof fn lemma_sdot_self_nonneg(v: Vec3)
    ensures
        sdot(v, v) >= 0,
{
    assert(v.x@ * v.x@ >= 0 && v.y@ * v.y@ >= 0 && v.z@ * v.z@ >= 0) by (nonlinear_arith);
    vstd::arithmetic::div_mod::lemma_div_pos_is_pos(rdot(v, v), 65536);
}

/// Dividing a component bounded by the vector's length by that length gives a
/// result within about one unit.
proof fn lemma_normalize_component(c: int, v: Vec3, len: int)
    requires
        c == v.x@ || c == v.y@ || c == v.z@,
        bounded(v, 0x40_0000_0000),
        len >= 32768,
        sdot(v, v) * 65536 < (len + 1) * (len + 1),
    ensures
        fits64(fdiv(c, len)),
        -65540 <= fdiv(c, len) <= 65540,
{
    // c^2 <= rdot(v, v), and sdot floors rdot / 65536, so
    // c^2 <= (len + 1)^2 + 65536^2, which bounds |c| by len + 2.
    assert(c * c <= rdot(v, v)) by (nonlinear_arith)
        requires c == v.x@ || c == v.y@ || c == v.z@,
    ;
    vstd::arithmetic::div_mod::lemma_fundamental_div_mod(rdot(v, v), 65536);
    assert(rdot(v, v) <= sdot(v, v) * 65536 + 65535);
    assert(c * c <= (len + 1) * (len + 1) + 65535);
    assert(-(len + 2) <= c <= len + 2) by (nonlinear_arith)
        requires c * c <= (len + 1) * (len + 1) + 65535 && len >= 32768,
    ;
    // |c * 65536 / len| <= (len + 2) * 65536 / len <= 65540.
    let m: int = 65540;
    assert(-(m * len) <= c * 65536 <= m * len) by (nonlinear_arith)
        requires
            -(len + 2) <= c <= len + 2,
            len >= 32768,
            m == 65540,
    ;
    lemma_div_within(c * 65536, len, m);
}

/// If `|a| <= m * b` then `|a / b| <= m`.
proof fn lemma_div_within(a: int, b: int, m: int)
    requires
        b > 0,
        m >= 0,
        -(m * b) <= a <= m * b,
    ensures
        -m <= a / b <= m,
{
    vstd::arithmetic::div_mod::lemma_fundamental_div_mod(a, b);
    assert(-m <= a / b <= m) by (nonlinear_arith)
        requires
            a == b * (a / b) + a % b,
            0 <= a % b < b,
            -(m * b) <= a <= m * b,
            b > 0,
            m >= 0,
    ;
}

} // verus!
