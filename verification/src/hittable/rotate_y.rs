//! Rotation of a primitive about the y axis: the incoming ray is rotated
//! into object space, the wrapped primitive is intersected there, and the
//! hit point and normal are rotated back into world space.  The world-space
//! bounding box is precomputed from the eight rotated corners of the wrapped
//! primitive's box.

use vstd::prelude::*;

use crate::aabb::Aabb;
use crate::fx::{fmul, Fx};
use crate::trig::PI_RAW;
use crate::vec3::{bounded, Vec3};

verus! {

pub struct RotateY {
    pub obj: Box<crate::hittable::Surface>,
    pub sin_theta: Fx,
    pub cos_theta: Fx,
    pub bbox: Aabb,
}

/// The smaller / larger of two values.
pub open spec fn imin(a: int, b: int) -> int {
    if a <= b {
        a
    } else {
        b
    }
}

pub open spec fn imax(a: int, b: int) -> int {
    if a >= b {
        a
    } else {
        b
    }
}

/// One corner of `inner`, rotated about the y axis by the stored sine and
/// cosine and clamped into the box range.
pub open spec fn rot_corner(inner: Aabb, s: int, c: int, i: int, j: int, k: int) -> Vec3 {
    let x = if i == 1 {
        inner.max.x@
    } else {
        inner.min.x@
    };
    let y = if j == 1 {
        inner.max.y
    } else {
        inner.min.y
    };
    let z = if k == 1 {
        inner.max.z@
    } else {
        inner.min.z@
    };
    crate::hittable::clampv(
        Vec3 {
            x: Fx { raw: (fmul(c, x) + fmul(s, z)) as i64 },
            y: y,
            z: Fx { raw: (-fmul(s, x) + fmul(c, z)) as i64 },
        },
        0x20_0000_0000,
    )
}

/// The componentwise extrema of the eight rotated corners of `inner`, padded
/// by a few raw units of slack against rotation rounding.
pub open spec fn rotate_box_spec(inner: Aabb, s: int, c: int) -> Aabb {
    let c000 = rot_corner(inner, s, c, 0, 0, 0);
    let c001 = rot_corner(inner, s, c, 0, 0, 1);
    let c010 = rot_corner(inner, s, c, 0, 1, 0);
    let c011 = rot_corner(inner, s, c, 0, 1, 1);
    let c100 = rot_corner(inner, s, c, 1, 0, 0);
    let c101 = rot_corner(inner, s, c, 1, 0, 1);
    let c110 = rot_corner(inner, s, c, 1, 1, 0);
    let c111 = rot_corner(inner, s, c, 1, 1, 1);
    Aabb {
        min: Vec3 {
            x: Fx {
                raw: (imin(
                    imin(imin(imin(imin(imin(imin(c000.x@, c001.x@), c010.x@), c011.x@), c100.x@),
                    c101.x@), c110.x@),
                    c111.x@,
                ) - crate::hittable::rect::RECT_PAD as int) as i64,
            },
            y: Fx {
                raw: (imin(
                    imin(imin(imin(imin(imin(imin(c000.y@, c001.y@), c010.y@), c011.y@), c100.y@),
                    c101.y@), c110.y@),
                    c111.y@,
                ) - crate::hittable::rect::RECT_PAD as int) as i64,
            },
            z: Fx {
                raw: (imin(
                    imin(imin(imin(imin(imin(imin(c000.z@, c001.z@), c010.z@), c011.z@), c100.z@),
                    c101.z@), c110.z@),
                    c111.z@,
                ) - crate::hittable::rect::RECT_PAD as int) as i64,
            },
        },
        max: Vec3 {
            x: Fx {
                raw: (imax(
                    imax(imax(imax(imax(imax(imax(c000.x@, c001.x@), c010.x@), c011.x@), c100.x@),
                    c101.x@), c110.x@),
                    c111.x@,
                ) + crate::hittable::rect::RECT_PAD as int) as i64,
            },
            y: Fx {
                raw: (imax(
                    imax(imax(imax(imax(imax(imax(c000.y@, c001.y@), c010.y@), c011.y@), c100.y@),
                    c101.y@), c110.y@),
                    c111.y@,
                ) + crate::hittable::rect::RECT_PAD as int) as i64,
            },
            z: Fx {
                raw: (imax(
                    imax(imax(imax(imax(imax(imax(c000.z@, c001.z@), c010.z@), c011.z@), c100.z@),
                    c101.z@), c110.z@),
                    c111.z@,
                ) + crate::hittable::rect::RECT_PAD as int) as i64,
            },
        },
    }
}

/// One corner rotated into world space, clamped into the box range.
fn rot_corner_exec(st: Fx, ct: Fx, x: Fx, y: Fx, z: Fx) -> (r: Vec3)
    requires
        -65536 <= st@ <= 65536,
        -65536 <= ct@ <= 65536,
        -0x40_0000_0000 <= x@ <= 0x40_0000_0000,
        -0x40_0000_0000 <= z@ <= 0x40_0000_0000,
    ensures
        r == crate::hittable::clampv(
            Vec3 {
                x: Fx { raw: (fmul(ct@, x@) + fmul(st@, z@)) as i64 },
                y: y,
                z: Fx { raw: (-fmul(st@, x@) + fmul(ct@, z@)) as i64 },
            },
            0x20_0000_0000,
        ),
        bounded(r, 0x20_0000_0000),
{
    proof {
        crate::hittable::lemma_sym_weight_mul(ct@, x@, 0x40_0000_0000);
        crate::hittable::lemma_sym_weight_mul(st@, z@, 0x40_0000_0000);
        crate::hittable::lemma_sym_weight_mul(st@, x@, 0x40_0000_0000);
        crate::hittable::lemma_sym_weight_mul(ct@, z@, 0x40_0000_0000);
    }
    Vec3::new(ct.mul(x).add(st.mul(z)), y, st.mul(x).neg().add(ct.mul(z))).clamp_components(
        0x20_0000_0000,
    )
}

impl RotateY {
    /// Precompute the rotation's sine and cosine from the angle in degrees,
    /// and a world-space box from the eight rotated corners of the wrapped
    /// primitive's box over the unit shutter window.
    #[verifier::rlimit(60)]
    pub fn new(obj: Box<crate::hittable::Surface>, angle: Fx) -> (r: RotateY)
        requires
            crate::hittable::surf_wf(*obj),
            -0x1000_0000 <= angle@ <= 0x1000_0000,
        ensures
            r.obj == obj,
            -65536 <= r.sin_theta@ <= 65536,
            -65536 <= r.cos_theta@ <= 65536,
            r.sin_theta@ == crate::trig::sin_spec(
                crate::fx::fdiv(fmul(angle@, 205887), 11796480),
            ),
            r.cos_theta@ == crate::trig::sin_spec(
                crate::fx::fdiv(fmul(angle@, 205887), 11796480) + 102944,
            ),
            crate::aabb::aabb_wf(r.bbox),
            crate::aabb::aabb_ordered(r.bbox),
            r.bbox == rotate_box_spec(
                crate::hittable::surf_box(*obj, 0, 65536),
                r.sin_theta@,
                r.cos_theta@,
            ),
    {
        proof {
            crate::vec3::lemma_prod_bound(angle@, 205887, 0x1000_0000, 205887);
            // |angle * pi| <= 0x1000_0000 * 205887 = 843313152 * 65536.
            vstd::arithmetic::div_mod::lemma_div_is_ordered(
                angle@ * 205887,
                55267370729472,
                65536,
            );
            vstd::arithmetic::div_mod::lemma_div_is_ordered(
                -55267370729472,
                angle@ * 205887,
                65536,
            );
            vstd::arithmetic::div_mod::lemma_div_multiples_vanish(843313152, 65536);
            vstd::arithmetic::div_mod::lemma_div_multiples_vanish(-843313152, 65536);
            // Dividing the product by 180 in fixed point keeps the radians
            // well inside the trigonometric range.
            assert(-98956046499840 <= fmul(angle@, 205887) * 65536 <= 98956046499840)
                by (nonlinear_arith)
                requires -843313152 <= fmul(angle@, 205887) <= 843313152,
            ;
            vstd::arithmetic::div_mod::lemma_div_is_ordered(
                fmul(angle@, 205887) * 65536,
                98956046499840,
                11796480,
            );
            vstd::arithmetic::div_mod::lemma_div_is_ordered(
                -98956046499840,
                fmul(angle@, 205887) * 65536,
                11796480,
            );
            vstd::arithmetic::div_mod::lemma_div_multiples_vanish(0x80_0000, 11796480);
            vstd::arithmetic::div_mod::lemma_div_multiples_vanish(-0x80_0000, 11796480);
        }
        let radians = angle.mul(Fx { raw: PI_RAW }).div(Fx { raw: 180 * 65536 });
        let sin_theta = radians.sin();
        let cos_theta = radians.cos();
        let inner = match obj.bounding_box(Fx { raw: 0 }, Fx { raw: 65536 }) {
            Some(b) => b,
            None => Aabb::new(Vec3::zero(), Vec3::zero()),
        };
        // Rotate all eight corners and take component-wise extrema; each
        // corner is clamped into the box arithmetic's range as a guard.
        let c000 = rot_corner_exec(sin_theta, cos_theta, inner.min.x, inner.min.y, inner.min.z);
        let c001 = rot_corner_exec(sin_theta, cos_theta, inner.min.x, inner.min.y, inner.max.z);
        let c010 = rot_corner_exec(sin_theta, cos_theta, inner.min.x, inner.max.y, inner.min.z);
        let c011 = rot_corner_exec(sin_theta, cos_theta, inner.min.x, inner.max.y, inner.max.z);
        let c100 = rot_corner_exec(sin_theta, cos_theta, inner.max.x, inner.min.y, inner.min.z);
        let c101 = rot_corner_exec(sin_theta, cos_theta, inner.max.x, inner.min.y, inner.max.z);
        let c110 = rot_corner_exec(sin_theta, cos_theta, inner.max.x, inner.max.y, inner.min.z);
        let c111 = rot_corner_exec(sin_theta, cos_theta, inner.max.x, inner.max.y, inner.max.z);
        let mn = Vec3::new(
            c000.x.min(c001.x).min(c010.x).min(c011.x).min(c100.x).min(c101.x).min(c110.x).min(
                c111.x,
            ),
            c000.y.min(c001.y).min(c010.y).min(c011.y).min(c100.y).min(c101.y).min(c110.y).min(
                c111.y,
            ),
            c000.z.min(c001.z).min(c010.z).min(c011.z).min(c100.z).min(c101.z).min(c110.z).min(
                c111.z,
            ),
        );
        let mx = Vec3::new(
            c000.x.max(c001.x).max(c010.x).max(c011.x).max(c100.x).max(c101.x).max(c110.x).max(
                c111.x,
            ),
            c000.y.max(c001.y).max(c010.y).max(c011.y).max(c100.y).max(c101.y).max(c110.y).max(
                c111.y,
            ),
            c000.z.max(c001.z).max(c010.z).max(c011.z).max(c100.z).max(c101.z).max(c110.z).max(
                c111.z,
            ),
        );
        let pad = crate::vec3::Vec3::splat(Fx { raw: crate::hittable::rect::RECT_PAD });
        RotateY { obj, sin_theta, cos_theta, bbox: Aabb::new(mn.sub(pad), mx.add(pad)) }
    }
}

} // verus!
