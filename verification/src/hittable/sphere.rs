//! Spheres, and the quadratic root finder shared with moving spheres.
//!
//! The intersection works on the exact integer quadratic: with raw origin
//! offset `oc`, direction `d` and radius `rad`, the ray meets the sphere
//! where `A t^2 + 2 HB t + C == 0` for `A = d.d`, `HB = oc.d`,
//! `C = oc.oc - rad^2` (all exact integer products).  The returned parameter
//! is the floor of the exact rational root, preferring the nearer root if it
//! lies within the window; `quad_root_t` is the complete functional model.

use std::sync::Arc;

use vstd::prelude::*;

use crate::aabb::Aabb;
use crate::fx::{fdiv, mul_i128, sqz, Fx};
use crate::hittable::HitRecord;
use crate::material::Material;
use crate::ray::{at_axis, Ray};
use crate::fx::fmul;
use crate::trig::{fx_atan2, PI_RAW, TWO_PI_RAW};
use crate::vec3::{bounded, rdot, Point3, Vec3};

verus! {

pub struct Sphere {
    pub centre: Point3,
    pub radius: Fx,
    pub material: Arc<Material>,
}

/// Centre and radius within the intersection arithmetic's range; a negative
/// radius is allowed (it flips the outward normal, the hollow-glass trick),
/// but not a magnitude under 16 raw units.
pub open spec fn sphere_wf(s: Sphere) -> bool {
    &&& bounded(s.centre, 0x10_0000_0000)
    &&& (16 <= s.radius@ <= 0x10_0000_0000 || -0x10_0000_0000 <= s.radius@ <= -16)
    &&& crate::material::mat_wf(*s.material)
}

/// The functional model of the quadratic intersection: `None` when the
/// direction is zero, the discriminant is negative, or no root lies in the
/// window; otherwise the floor of the nearer in-window root.
pub open spec fn quad_root_t(
    ocx: int,
    ocy: int,
    ocz: int,
    dx: int,
    dy: int,
    dz: int,
    radius: int,
    tmin: int,
    tmax: int,
) -> Option<int> {
    let a = dx * dx + dy * dy + dz * dz;
    let hb = ocx * dx + ocy * dy + ocz * dz;
    let c = ocx * ocx + ocy * ocy + ocz * ocz - radius * radius;
    if a == 0 {
        None
    } else {
        let disc = hb * hb - a * c;
        if disc < 0 {
            None
        } else {
            let sq = sqz(disc);
            let r1 = (65536 * (-hb - sq)) / a;
            let r2 = (65536 * (-hb + sq)) / a;
            if tmin <= r1 && r1 <= tmax {
                Some(r1)
            } else if tmin <= r2 && r2 <= tmax {
                Some(r2)
            } else {
                None
            }
        }
    }
}

/// `sphere_hit_t` is `quad_root_t` at the sphere's centre offset.
pub open spec fn sphere_hit_t(s: Sphere, r: Ray, tmin: int, tmax: int) -> Option<int> {
    quad_root_t(
        r.origin.x@ - s.centre.x@,
        r.origin.y@ - s.centre.y@,
        r.origin.z@ - s.centre.z@,
        r.direction.x@,
        r.direction.y@,
        r.direction.z@,
        s.radius@,
        tmin,
        tmax,
    )
}

/// The outward normal stored for a hit at parameter `t`: the offset of the
/// walked point from the centre, divided by the (signed) radius, with each
/// component clamped into the record range.
pub open spec fn sphere_outward(cx: int, cy: int, cz: int, radius: int, r: Ray, t: int) -> Vec3 {
    Vec3 {
        x: Fx {
            raw: crate::vec3::clamp_val(fdiv(at_axis(r, t, 0) - cx, radius), 0x100_0000_0000) as i64,
        },
        y: Fx {
            raw: crate::vec3::clamp_val(fdiv(at_axis(r, t, 1) - cy, radius), 0x100_0000_0000) as i64,
        },
        z: Fx {
            raw: crate::vec3::clamp_val(fdiv(at_axis(r, t, 2) - cz, radius), 0x100_0000_0000) as i64,
        },
    }
}

/// The sphere's bounding box: centre plus and minus the radius magnitude,
/// padded by a few raw units of slack against intersection rounding.
pub open spec fn sphere_box(s: Sphere) -> Aabb {
    let ra = (if s.radius@ >= 0 {
        s.radius@
    } else {
        -s.radius@
    }) + crate::hittable::rect::RECT_PAD;
    Aabb {
        min: Vec3 {
            x: Fx { raw: (s.centre.x@ - ra) as i64 },
            y: Fx { raw: (s.centre.y@ - ra) as i64 },
            z: Fx { raw: (s.centre.z@ - ra) as i64 },
        },
        max: Vec3 {
            x: Fx { raw: (s.centre.x@ + ra) as i64 },
            y: Fx { raw: (s.centre.y@ + ra) as i64 },
            z: Fx { raw: (s.centre.z@ + ra) as i64 },
        },
    }
}

/// Exact raw dot product, widened.
pub fn rdot_i128(a: Vec3, b: Vec3) -> (r: i128)
    requires
        bounded(a, 0x40_0000_0000),
        bounded(b, 0x40_0000_0000),
    ensures
        r == rdot(a, b),
{
    proof {
        crate::vec3::lemma_prod_bound(a.x@, b.x@, 0x40_0000_0000, 0x40_0000_0000);
        crate::vec3::lemma_prod_bound(a.y@, b.y@, 0x40_0000_0000, 0x40_0000_0000);
        crate::vec3::lemma_prod_bound(a.z@, b.z@, 0x40_0000_0000, 0x40_0000_0000);
    }
    mul_i128(a.x.raw, b.x.raw) + mul_i128(a.y.raw, b.y.raw) + mul_i128(a.z.raw, b.z.raw)
}

/// The executable quadratic solver, exactly `quad_root_t`.
pub fn quad_root(oc: Vec3, d: Vec3, radius: Fx, t_min: Fx, t_max: Fx) -> (res: Option<i64>)
    requires
        bounded(oc, 0x40_0000_0000),
        bounded(d, 0x80_0000),
        16 <= radius@ <= 0x10_0000_0000 || -0x10_0000_0000 <= radius@ <= -16,
        -0x100_0000_0000 <= t_min@ <= 0x100_0000_0000,
        -0x100_0000_0000 <= t_max@ <= 0x100_0000_0000,
    ensures
        match res {
            None => quad_root_t(oc.x@, oc.y@, oc.z@, d.x@, d.y@, d.z@, radius@, t_min@, t_max@)
                is None,
            Some(t) => quad_root_t(oc.x@, oc.y@, oc.z@, d.x@, d.y@, d.z@, radius@, t_min@, t_max@)
                == Some(t as int) && t_min@ <= t <= t_max@,
        },
{
    proof {
        crate::vec3::lemma_rdot_bound(d, d, 0x80_0000, 0x80_0000);
        crate::vec3::lemma_rdot_bound(oc, d, 0x40_0000_0000, 0x80_0000);
        crate::vec3::lemma_rdot_bound(oc, oc, 0x40_0000_0000, 0x40_0000_0000);
        crate::vec3::lemma_prod_bound(radius@, radius@, 0x10_0000_0000, 0x10_0000_0000);
    }
    let a = rdot_i128(d, d);
    let hb = rdot_i128(oc, d);
    let rr = mul_i128(radius.raw, radius.raw);
    let c = rdot_i128(oc, oc) - rr;
    if a == 0 {
        return None;
    }
    proof {
        assert(a > 0) by (nonlinear_arith)
            requires
                a == d.x@ * d.x@ + d.y@ * d.y@ + d.z@ * d.z@,
                a != 0,
        ;
        assert((hb as int) * (hb as int) <= 47852207848256971424537054170092404736)
            by (nonlinear_arith)
            requires -0x6000_0000_0000_0000 <= hb as int <= 0x6000_0000_0000_0000,
        ;
        assert((hb as int) * (hb as int) >= 0) by (nonlinear_arith)
            requires -0x6000_0000_0000_0000 <= hb as int <= 0x6000_0000_0000_0000,
        ;
        assert(-63802943797675961899382738893456539648 <= (a as int) * (c as int)
            <= 63802943797675961899382738893456539648) by (nonlinear_arith)
            requires
                0 <= a as int <= 211106232532992,
                -302231454903657293676544 <= c as int <= 302231454903657293676544,
        ;
    }
    let disc = hb * hb - a * c;
    if disc < 0 {
        return None;
    }
    let sq128 = crate::fx::isqrt_u128(disc as u128) as i128;
    proof {
        crate::fx::lemma_sqz_unique(disc as int, sq128 as int);
        assert(sq128 < 0xb000_0000_0000_0000) by (nonlinear_arith)
            requires
                0 <= sq128,
                (sq128 as int) * (sq128 as int) <= disc as int,
                (disc as int) < 0x6000_0000_0000_0000_0000_0000_0000_0000,
        ;
    }
    let num1 = 65536 * (-hb - sq128);
    proof {
        crate::fx::lemma_div_bound_by_dividend(num1 as int, a as int);
    }
    let r1 = crate::fx::div_euclid_i128(num1, a);
    let tmin128 = t_min.raw as i128;
    let tmax128 = t_max.raw as i128;
    if tmin128 <= r1 && r1 <= tmax128 {
        return Some(r1 as i64);
    }
    let num2 = 65536 * (-hb + sq128);
    proof {
        crate::fx::lemma_div_bound_by_dividend(num2 as int, a as int);
    }
    let r2 = crate::fx::div_euclid_i128(num2, a);
    if tmin128 <= r2 && r2 <= tmax128 {
        return Some(r2 as i64);
    }
    None
}

/// The surface coordinates as computed: the longitude from the arctangent
/// approximation shifted by pi over two pi, the latitude from the
/// complementary arctangent over pi (inputs clamped into range first).
pub open spec fn sphere_uv_spec(p: Vec3) -> (int, int) {
    let px = crate::vec3::clamp_val(p.x@, 0x1000_0000_0000);
    let py = crate::vec3::clamp_val(p.y@, 65536);
    let pz = crate::vec3::clamp_val(p.z@, 0x1000_0000_0000);
    let phi = crate::trig::atan2_spec(-pz, px);
    let u = fdiv(phi + 205887, 411775);
    let yy = fmul(-py, -py);
    let sy = sqz((65536 - yy) * 65536);
    let theta = crate::trig::atan2_spec(sy, -py);
    let tc = if theta < 0 {
        0
    } else {
        theta
    };
    let v = fdiv(tc, 205887);
    (u, v)
}

/// Spherical surface coordinates of a near-unit outward normal, both in
/// `[0, 1]`: the longitude from an arctangent approximation and the latitude
/// from the complementary one.
pub fn get_sphere_uv(p: Vec3) -> (r: (Fx, Fx))
    ensures
        0 <= r.0@ <= 65536,
        0 <= r.1@ <= 65536,
        p.z@ == 0 && p.x@ > 0 ==> r.0@ == 32767,
        p.y@ == 0 ==> r.1@ == 32768,
        (r.0@, r.1@) == sphere_uv_spec(p),
{
    let px = p.x.min(Fx { raw: 0x1000_0000_0000 }).max(Fx { raw: -0x1000_0000_0000 });
    let py = p.y.min(Fx { raw: 65536 }).max(Fx { raw: -65536 });
    let pz = p.z.min(Fx { raw: 0x1000_0000_0000 }).max(Fx { raw: -0x1000_0000_0000 });
    let phi = fx_atan2(pz.neg(), px);
    let usum = Fx { raw: phi.raw + PI_RAW };
    proof {
        crate::fx::lemma_div_bound_by_dividend((phi@ + 205887) * 65536, 411775);
        vstd::arithmetic::div_mod::lemma_div_pos_is_pos((phi@ + 205887) * 65536, 411775);
        assert(26986020864int / 411775 <= 65536) by (nonlinear_arith);
        vstd::arithmetic::div_mod::lemma_div_is_ordered(
            (phi@ + 205887) * 65536,
            26986020864,
            411775,
        );
        assert(0 <= (phi@ + 205887) * 65536) by (nonlinear_arith)
            requires phi@ >= -205887,
        ;
    }
    let u = usum.div(Fx { raw: TWO_PI_RAW });
    // Latitude: acos(-y) as atan2 of the complementary leg, then divided by pi.
    let ny = py.neg();
    proof {
        assert(0 <= ny@ * ny@ <= 4294967296) by (nonlinear_arith)
            requires -65536 <= ny@ <= 65536,
        ;
        crate::fx::lemma_div_bound_by_dividend(ny@ * ny@, 65536);
        vstd::arithmetic::div_mod::lemma_div_pos_is_pos(ny@ * ny@, 65536);
        vstd::arithmetic::div_mod::lemma_div_is_ordered(ny@ * ny@, (4294967296) as int, 65536);
        vstd::arithmetic::div_mod::lemma_div_multiples_vanish(65536, 65536);
    }
    let yy = ny.mul(ny);
    let sy = Fx { raw: 65536 - yy.raw }.fsqrt();
    proof {
        crate::fx::lemma_sqz((65536 - yy@) * 65536);
        assert(sy@ * sy@ <= 4294967296);
        assert(sy@ <= 65536) by (nonlinear_arith)
            requires sy@ >= 0 && sy@ * sy@ <= 4294967296,
        ;
    }
    let theta = fx_atan2(sy, ny);
    let tc = if theta.raw < 0 {
        Fx { raw: 0 }
    } else {
        theta
    };
    proof {
        crate::fx::lemma_div_bound_by_dividend(tc@ * 65536, 205887);
        vstd::arithmetic::div_mod::lemma_div_pos_is_pos(tc@ * 65536, 205887);
        assert(13493010432int / 205887 == 65536) by (nonlinear_arith);
        vstd::arithmetic::div_mod::lemma_div_is_ordered(tc@ * 65536, 13493010432, 205887);
    }
    let v = tc.div(Fx { raw: PI_RAW });
    proof {
        if p.y@ == 0 {
            assert(ny@ == 0);
            vstd::arithmetic::div_mod::lemma_div_of0(65536);
            assert(fmul(0, 0) == 0) by {
                assert(0int * 0 == 0) by (nonlinear_arith);
            }
            assert(yy@ == 0);
            assert(65536 * 65536 == 4294967296) by (nonlinear_arith);
            assert(65537 * 65537 == 4295098369) by (nonlinear_arith);
            crate::fx::lemma_sqz_unique(4294967296, 65536);
            assert(sy@ == 65536);
            assert(theta@ == 102944);
            assert(tc@ == 102944);
            assert(6746537984int / 205887 == 32768);
        }
    }
    (u, v)
}

impl Sphere {
    pub fn new(centre: Point3, radius: Fx, material: Arc<Material>) -> (r: Sphere)
        ensures
            r.centre == centre && r.radius == radius && r.material == material,
    {
        Sphere { centre, radius, material }
    }

    /// Closed-form quadratic intersection; the record's point is the ray
    /// walked to the found parameter and the outward normal is the offset
    /// from the centre divided by the (signed) radius.
    pub fn hit(&self, ray: &Ray, t_min: Fx, t_max: Fx) -> (res: Option<HitRecord>)
        requires
            sphere_wf(*self),
            bounded(ray.origin, 0x20_0000_0000),
            bounded(ray.direction, 0x80_0000),
            0 <= ray.time@ <= 65536,
            -0x100_0000_0000 <= t_min@ <= 0x100_0000_0000,
            -0x100_0000_0000 <= t_max@ <= 0x100_0000_0000,
        ensures
            match res {
                None => sphere_hit_t(*self, *ray, t_min@, t_max@) is None,
                Some(rec) => {
                    &&& sphere_hit_t(*self, *ray, t_min@, t_max@) == Some(rec.t@)
                    &&& t_min@ <= rec.t@ <= t_max@
                    &&& crate::hittable::rec_bounds(rec)
                    &&& rec.point.x@ == at_axis(*ray, rec.t@, 0)
                    &&& rec.point.y@ == at_axis(*ray, rec.t@, 1)
                    &&& rec.point.z@ == at_axis(*ray, rec.t@, 2)
                    &&& rec.material == self.material
                    &&& rec.front_face == (crate::vec3::rdot(
                        ray.direction,
                        sphere_outward(
                            self.centre.x@,
                            self.centre.y@,
                            self.centre.z@,
                            self.radius@,
                            *ray,
                            rec.t@,
                        ),
                    ) <= 0)
                    &&& rec.normal == crate::hittable::oriented(
                        sphere_outward(
                            self.centre.x@,
                            self.centre.y@,
                            self.centre.z@,
                            self.radius@,
                            *ray,
                            rec.t@,
                        ),
                        ray.direction,
                    )
                    &&& (rec.u@, rec.v@) == sphere_uv_spec(
                        sphere_outward(
                            self.centre.x@,
                            self.centre.y@,
                            self.centre.z@,
                            self.radius@,
                            *ray,
                            rec.t@,
                        ),
                    )
                },
            },
    {
        let oc = ray.origin.sub(self.centre);
        match quad_root(oc, ray.direction, self.radius, t_min, t_max) {
            None => None,
            Some(t) => {
                let tfx = Fx { raw: t };
                let point = ray.at(tfx);
                proof {
                    lemma_normal_div(point.x@ - self.centre.x@, self.radius@);
                    lemma_normal_div(point.y@ - self.centre.y@, self.radius@);
                    lemma_normal_div(point.z@ - self.centre.z@, self.radius@);
                }
                let outward = Vec3::new(
                    point.x.sub(self.centre.x).div(self.radius),
                    point.y.sub(self.centre.y).div(self.radius),
                    point.z.sub(self.centre.z).div(self.radius),
                ).clamp_components(0x100_0000_0000);
                let (u, v) = get_sphere_uv(outward);
                Some(
                    HitRecord::new(point, tfx, ray, outward, Arc::clone(&self.material), u, v),
                )
            },
        }
    }

    pub fn bounding_box(&self, _time0: Fx, _time1: Fx) -> (res: Option<Aabb>)
        requires
            sphere_wf(*self),
        ensures
            res == Some(sphere_box(*self)),
            crate::aabb::aabb_wf(sphere_box(*self)),
            crate::aabb::aabb_ordered(sphere_box(*self)),
    {
        let ra = self.radius.abs();
        let rv = Vec3::splat(Fx { raw: ra.raw + crate::hittable::rect::RECT_PAD });
        Some(Aabb::new(self.centre.sub(rv), self.centre.add(rv)))
    }
}

/// Dividing by a radius of magnitude at least 16 keeps the quotient within
/// `i64` for any point in range.
proof fn lemma_normal_div(x: int, radius: int)
    requires
        -0x2_0000_0000_0000 <= x <= 0x2_0000_0000_0000,
        16 <= radius <= 0x10_0000_0000 || -0x10_0000_0000 <= radius <= -16,
    ensures
        crate::fx::fits64(fdiv(x, radius)),
{
    assert(-(16 * 0x2000_0000_0000_0000) <= x * 65536 <= 16 * 0x2000_0000_0000_0000)
        by (nonlinear_arith)
        requires -0x2_0000_0000_0000 <= x <= 0x2_0000_0000_0000,
    ;
    crate::fx::lemma_div_shrink(x * 65536, radius, 0x2000_0000_0000_0000);
}

/// The sphere round-trip law: a ray starting `s` whole units from the
/// centre of a sphere of whole-unit radius `r`, aimed straight at the centre
/// with a unit direction, hits at parameter exactly `s - r`, the hit point
/// lies exactly `r` units from the centre, the outward normal points
/// straight back along the ray, and the hit is a front face.  (Stated for
/// the axis family, where the fixed-point arithmetic is exact; off-axis
/// rays round.)
pub proof fn lemma_axial_sphere_round_trip(sp: Sphere, ray: Ray, s: int, tmax: int)
    requires
        0 < sp.radius@,
        sp.radius@ % 65536 == 0,
        s * 65536 > sp.radius@,
        s <= 30000,
        ray.origin.x == sp.centre.x,
        ray.origin.y == sp.centre.y,
        ray.origin.z@ == sp.centre.z@ - s * 65536,
        ray.direction.x@ == 0,
        ray.direction.y@ == 0,
        ray.direction.z@ == 65536,
        tmax >= s * 65536 - sp.radius@,
    ensures
        sphere_hit_t(sp, ray, 0, tmax) == Some(s * 65536 - sp.radius@),
        at_axis(ray, s * 65536 - sp.radius@, 0) == sp.centre.x@,
        at_axis(ray, s * 65536 - sp.radius@, 1) == sp.centre.y@,
        at_axis(ray, s * 65536 - sp.radius@, 2) == sp.centre.z@ - sp.radius@,
        sphere_outward(
            sp.centre.x@,
            sp.centre.y@,
            sp.centre.z@,
            sp.radius@,
            ray,
            s * 65536 - sp.radius@,
        ) == (Vec3 { x: Fx { raw: 0 }, y: Fx { raw: 0 }, z: Fx { raw: (-65536) as i64 } }),
        rdot(
            ray.direction,
            sphere_outward(
                sp.centre.x@,
                sp.centre.y@,
                sp.centre.z@,
                sp.radius@,
                ray,
                s * 65536 - sp.radius@,
            ),
        ) < 0,
{
    let rr = sp.radius@;
    let a: int = 4294967296;
    let hb = (-(s * 65536)) * 65536;
    let c = (s * 65536) * (s * 65536) - rr * rr;
    let disc = hb * hb - a * c;
    assert(disc == rr * rr * 4294967296) by (nonlinear_arith)
        requires
            hb == (-(s * 65536)) * 65536,
            a == 4294967296,
            c == (s * 65536) * (s * 65536) - rr * rr,
            disc == hb * hb - a * c,
    ;
    assert(disc >= 0) by (nonlinear_arith)
        requires disc == rr * rr * 4294967296 && rr > 0,
    ;
    let w = rr * 65536;
    assert(w * w == disc && 0 <= w && disc < (w + 1) * (w + 1)) by (nonlinear_arith)
        requires disc == rr * rr * 4294967296 && w == rr * 65536 && 0 < rr,
    ;
    crate::fx::lemma_sqz_unique(disc, w);
    let num1 = 65536 * (-hb - w);
    assert(num1 == a * (s * 65536 - rr)) by (nonlinear_arith)
        requires
            num1 == 65536 * (-hb - w),
            hb == (-(s * 65536)) * 65536,
            w == rr * 65536,
            a == 4294967296,
    ;
    vstd::arithmetic::div_mod::lemma_div_multiples_vanish(s * 65536 - rr, a);
    assert((ray.origin.z@ - sp.centre.z@) * (ray.origin.z@ - sp.centre.z@) == (s * 65536) * (s
        * 65536)) by (nonlinear_arith)
        requires ray.origin.z@ - sp.centre.z@ == -(s * 65536),
    ;
    assert((ray.origin.z@ - sp.centre.z@) * 65536 == hb) by (nonlinear_arith)
        requires
            ray.origin.z@ - sp.centre.z@ == -(s * 65536),
            hb == (-(s * 65536)) * 65536,
    ;
    assert((ray.origin.x@ - sp.centre.x@) * (ray.origin.x@ - sp.centre.x@) == 0
        && (ray.origin.x@ - sp.centre.x@) * 0 == 0 && (ray.origin.y@ - sp.centre.y@) * (
    ray.origin.y@ - sp.centre.y@) == 0 && (ray.origin.y@ - sp.centre.y@) * 0 == 0)
        by (nonlinear_arith)
        requires
            ray.origin.x@ - sp.centre.x@ == 0,
            ray.origin.y@ - sp.centre.y@ == 0,
    ;
    assert(65536 * (-hb - w) == a * (s * 65536 - rr)) by (nonlinear_arith)
        requires
            hb == (-(s * 65536)) * 65536,
            w == rr * 65536,
            a == 4294967296,
    ;
    assert(sphere_hit_t(sp, ray, 0, tmax) == Some(s * 65536 - rr));
    vstd::arithmetic::div_mod::lemma_div_multiples_vanish(65536, 65536);
    assert(((s * 65536 - rr) * 65536) / 65536 == s * 65536 - rr) by {
        vstd::arithmetic::div_mod::lemma_div_multiples_vanish(s * 65536 - rr, 65536);
        assert((s * 65536 - rr) * 65536 == 65536 * (s * 65536 - rr)) by (nonlinear_arith);
    }
    assert(fmul(s * 65536 - rr, 65536) == s * 65536 - rr);
    assert(fmul(s * 65536 - rr, 0) == 0) by {
        assert((s * 65536 - rr) * 0 == 0) by (nonlinear_arith);
        vstd::arithmetic::div_mod::lemma_div_of0(65536);
    }
    // The outward normal: the hit point offsets are (0, 0, -radius), and
    // dividing by the radius gives exactly (0, 0, -1).
    let t = s * 65536 - rr;
    vstd::arithmetic::div_mod::lemma_div_of0(rr);
    assert(0int * 65536 == 0) by (nonlinear_arith);
    assert(fdiv(0, rr) == 0);
    assert(fdiv(-rr, rr) == -65536) by {
        vstd::arithmetic::div_mod::lemma_div_multiples_vanish(-65536, rr);
        assert((-rr) * 65536 == rr * (-65536)) by (nonlinear_arith);
    }
    assert(at_axis(ray, t, 2) - sp.centre.z@ == -rr);
    assert(crate::vec3::clamp_val(-65536, 0x100_0000_0000) == -65536);
    assert(crate::vec3::clamp_val(0, 0x100_0000_0000) == 0);
    let outward = sphere_outward(sp.centre.x@, sp.centre.y@, sp.centre.z@, rr, ray, t);
    assert(outward.z@ == -65536 && outward.x@ == 0 && outward.y@ == 0);
    assert(rdot(ray.direction, outward) == 65536 * (-65536)) by (nonlinear_arith)
        requires
            ray.direction.x@ == 0,
            ray.direction.y@ == 0,
            ray.direction.z@ == 65536,
            outward.x@ == 0,
            outward.y@ == 0,
            outward.z@ == -65536,
    ;
}

} // verus!
