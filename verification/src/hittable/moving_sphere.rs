//! A sphere whose centre moves linearly between two keyframes over the
//! shutter interval; intersection uses the same quadratic as `Sphere`, at
//! the centre interpolated to the ray's own time.

use std::sync::Arc;

use vstd::prelude::*;

use crate::aabb::Aabb;
use crate::fx::{fdiv, fmul, Fx};
use crate::hittable::sphere::{get_sphere_uv, quad_root, quad_root_t};
use crate::hittable::HitRecord;
use crate::material::Material;
use crate::ray::{at_axis, Ray};
use crate::vec3::{bounded, Point3, Vec3};

verus! {

pub struct MovingSphere {
    pub centre0: Point3,
    pub centre1: Point3,
    pub time0: Fx,
    pub time1: Fx,
    pub radius: Fx,
    pub material: Arc<Material>,
}

/// Both keyframe centres in range and a modest displacement between them.
/// The keyframe times need only be ordered and at least 1/16 of a unit
/// apart (the floor the fixed-point interpolation divisor needs); shutter
/// times outside `[time0, time1]` extrapolate, as the interpolation does.
pub open spec fn moving_sphere_wf(ms: MovingSphere) -> bool {
    &&& bounded(ms.centre0, 0x8_0000_0000)
    &&& bounded(ms.centre1, 0x8_0000_0000)
    &&& -0x40_0000 <= ms.centre1.x@ - ms.centre0.x@ <= 0x40_0000
    &&& -0x40_0000 <= ms.centre1.y@ - ms.centre0.y@ <= 0x40_0000
    &&& -0x40_0000 <= ms.centre1.z@ - ms.centre0.z@ <= 0x40_0000
    &&& -0x10_0000 <= ms.time0@ <= 0x10_0000
    &&& -0x10_0000 <= ms.time1@ <= 0x10_0000
    &&& ms.time1@ - ms.time0@ >= 4096
    &&& (16 <= ms.radius@ <= 0x8_0000_0000 || -0x8_0000_0000 <= ms.radius@ <= -16)
    &&& crate::material::mat_wf(*ms.material)
}

/// The interpolation fraction at `time`: `(time - time0) / (time1 - time0)`.
pub open spec fn ms_frac(ms: MovingSphere, time: int) -> int {
    fdiv(time - ms.time0@, ms.time1@ - ms.time0@)
}

/// One component of the interpolated centre.
pub open spec fn ms_centre_axis(ms: MovingSphere, time: int, a: int) -> int {
    crate::vec3::axis(ms.centre0, a) + fmul(
        ms_frac(ms, time),
        crate::vec3::axis(ms.centre1, a) - crate::vec3::axis(ms.centre0, a),
    )
}

pub open spec fn moving_sphere_hit_t(ms: MovingSphere, r: Ray, tmin: int, tmax: int) -> Option<
    int,
> {
    quad_root_t(
        r.origin.x@ - ms_centre_axis(ms, r.time@, 0),
        r.origin.y@ - ms_centre_axis(ms, r.time@, 1),
        r.origin.z@ - ms_centre_axis(ms, r.time@, 2),
        r.direction.x@,
        r.direction.y@,
        r.direction.z@,
        ms.radius@,
        tmin,
        tmax,
    )
}

/// The union of the boxes at the two endpoints of the query window.
pub open spec fn moving_sphere_box(ms: MovingSphere, time0: int, time1: int) -> Aabb {
    let ra = (if ms.radius@ >= 0 {
        ms.radius@
    } else {
        -ms.radius@
    }) + crate::hittable::rect::RECT_PAD;
    let c0x = ms_centre_axis(ms, time0, 0);
    let c0y = ms_centre_axis(ms, time0, 1);
    let c0z = ms_centre_axis(ms, time0, 2);
    let c1x = ms_centre_axis(ms, time1, 0);
    let c1y = ms_centre_axis(ms, time1, 1);
    let c1z = ms_centre_axis(ms, time1, 2);
    Aabb {
        min: Vec3 {
            x: Fx { raw: ((if c0x <= c1x { c0x } else { c1x }) - ra) as i64 },
            y: Fx { raw: ((if c0y <= c1y { c0y } else { c1y }) - ra) as i64 },
            z: Fx { raw: ((if c0z <= c1z { c0z } else { c1z }) - ra) as i64 },
        },
        max: Vec3 {
            x: Fx { raw: ((if c0x >= c1x { c0x } else { c1x }) + ra) as i64 },
            y: Fx { raw: ((if c0y >= c1y { c0y } else { c1y }) + ra) as i64 },
            z: Fx { raw: ((if c0z >= c1z { c0z } else { c1z }) + ra) as i64 },
        },
    }
}

/// The interpolation fraction is bounded even when the shutter time
/// extrapolates beyond the keyframes, because the keyframes are at least
/// 1/16 of a unit apart.
proof fn lemma_frac_range(ms: MovingSphere, time: int)
    requires
        moving_sphere_wf(ms),
        0 <= time <= 65536,
    ensures
        -0x110_0000 <= ms_frac(ms, time) <= 0x110_0000,
{
    let num = (time - ms.time0@) * 65536;
    let den = ms.time1@ - ms.time0@;
    assert(-73014444032 <= num <= 73014444032 && 73014444032 <= 0x110_0000 * den)
        by (nonlinear_arith)
        requires
            0 <= time <= 65536,
            -0x10_0000 <= ms.time0@ <= 0x10_0000,
            den >= 4096,
            num == (time - ms.time0@) * 65536,
    ;
    vstd::arithmetic::div_mod::lemma_div_is_ordered(num, 0x110_0000 * den, den);
    vstd::arithmetic::div_mod::lemma_div_is_ordered(-(0x110_0000 * den), num, den);
    vstd::arithmetic::div_mod::lemma_div_multiples_vanish(0x110_0000, den);
    vstd::arithmetic::div_mod::lemma_div_multiples_vanish(-0x110_0000, den);
}

/// A bounded fraction keeps the interpolated displacement bounded.
proof fn lemma_interp_bound(k: int, d: int)
    requires
        -0x110_0000 <= k <= 0x110_0000,
        -0x40_0000 <= d <= 0x40_0000,
    ensures
        -0x4400_0001 <= fmul(k, d) <= 0x4400_0001,
{
    assert(-(0x110_0000 * 0x40_0000) <= k * d <= 0x110_0000 * 0x40_0000) by (nonlinear_arith)
        requires -0x110_0000 <= k <= 0x110_0000 && -0x40_0000 <= d <= 0x40_0000,
    ;
    vstd::arithmetic::div_mod::lemma_fundamental_div_mod(k * d, 65536);
    assert(-0x4400_0001 <= (k * d) / 65536 <= 0x4400_0001) by (nonlinear_arith)
        requires
            k * d == 65536 * ((k * d) / 65536) + (k * d) % 65536,
            0 <= (k * d) % 65536 < 65536,
            -(0x110_0000 * 0x40_0000) <= k * d <= 0x110_0000 * 0x40_0000,
    ;
}

impl MovingSphere {
    pub fn new(
        centre0: Point3,
        centre1: Point3,
        time0: Fx,
        time1: Fx,
        radius: Fx,
        material: Arc<Material>,
    ) -> (r: MovingSphere)
        ensures
            r == (MovingSphere { centre0, centre1, time0, time1, radius, material }),
    {
        MovingSphere { centre0, centre1, time0, time1, radius, material }
    }

    /// The centre at `time`, by linear interpolation between the keyframes
    /// (extrapolating outside them, exactly as the formula does).
    pub fn centre(&self, time: Fx) -> (r: Point3)
        requires
            moving_sphere_wf(*self),
            0 <= time@ <= 65536,
        ensures
            r.x@ == ms_centre_axis(*self, time@, 0),
            r.y@ == ms_centre_axis(*self, time@, 1),
            r.z@ == ms_centre_axis(*self, time@, 2),
            bounded(r, 0xC_4400_0001),
    {
        proof {
            lemma_frac_range(*self, time@);
            lemma_interp_bound(ms_frac(*self, time@), self.centre1.x@ - self.centre0.x@);
            lemma_interp_bound(ms_frac(*self, time@), self.centre1.y@ - self.centre0.y@);
            lemma_interp_bound(ms_frac(*self, time@), self.centre1.z@ - self.centre0.z@);
        }
        let k = time.sub(self.time0).div(self.time1.sub(self.time0));
        let d = self.centre1.sub(self.centre0);
        Vec3::new(
            self.centre0.x.add(k.mul(d.x)),
            self.centre0.y.add(k.mul(d.y)),
            self.centre0.z.add(k.mul(d.z)),
        )
    }

    /// The same quadratic as a fixed sphere, at the time-interpolated centre.
    pub fn hit(&self, ray: &Ray, t_min: Fx, t_max: Fx) -> (res: Option<HitRecord>)
        requires
            moving_sphere_wf(*self),
            bounded(ray.origin, 0x20_0000_0000),
            bounded(ray.direction, 0x80_0000),
            0 <= ray.time@ <= 65536,
            -0x100_0000_0000 <= t_min@ <= 0x100_0000_0000,
            -0x100_0000_0000 <= t_max@ <= 0x100_0000_0000,
        ensures
            match res {
                None => moving_sphere_hit_t(*self, *ray, t_min@, t_max@) is None,
                Some(rec) => {
                    &&& moving_sphere_hit_t(*self, *ray, t_min@, t_max@) == Some(rec.t@)
                    &&& t_min@ <= rec.t@ <= t_max@
                    &&& crate::hittable::rec_bounds(rec)
                    &&& rec.point.x@ == at_axis(*ray, rec.t@, 0)
                    &&& rec.point.y@ == at_axis(*ray, rec.t@, 1)
                    &&& rec.point.z@ == at_axis(*ray, rec.t@, 2)
                    &&& rec.material == self.material
                    &&& rec.front_face == (crate::vec3::rdot(
                        ray.direction,
                        crate::hittable::sphere::sphere_outward(
                            ms_centre_axis(*self, ray.time@, 0),
                            ms_centre_axis(*self, ray.time@, 1),
                            ms_centre_axis(*self, ray.time@, 2),
                            self.radius@,
                            *ray,
                            rec.t@,
                        ),
                    ) <= 0)
                    &&& rec.normal == crate::hittable::oriented(
                        crate::hittable::sphere::sphere_outward(
                            ms_centre_axis(*self, ray.time@, 0),
                            ms_centre_axis(*self, ray.time@, 1),
                            ms_centre_axis(*self, ray.time@, 2),
                            self.radius@,
                            *ray,
                            rec.t@,
                        ),
                        ray.direction,
                    )
                    &&& (rec.u@, rec.v@) == crate::hittable::sphere::sphere_uv_spec(
                        crate::hittable::sphere::sphere_outward(
                            ms_centre_axis(*self, ray.time@, 0),
                            ms_centre_axis(*self, ray.time@, 1),
                            ms_centre_axis(*self, ray.time@, 2),
                            self.radius@,
                            *ray,
                            rec.t@,
                        ),
                    )
                },
            },
    {
        let c = self.centre(ray.time);
        let oc = ray.origin.sub(c);
        match quad_root(oc, ray.direction, self.radius, t_min, t_max) {
            None => None,
            Some(t) => {
                let tfx = Fx { raw: t };
                let point = ray.at(tfx);
                proof {
                    lemma_ms_normal_div(point.x@ - c.x@, self.radius@);
                    lemma_ms_normal_div(point.y@ - c.y@, self.radius@);
                    lemma_ms_normal_div(point.z@ - c.z@, self.radius@);
                }
                let outward = Vec3::new(
                    point.x.sub(c.x).div(self.radius),
                    point.y.sub(c.y).div(self.radius),
                    point.z.sub(c.z).div(self.radius),
                ).clamp_components(0x100_0000_0000);
                let (u, v) = get_sphere_uv(outward);
                Some(
                    HitRecord::new(point, tfx, ray, outward, Arc::clone(&self.material), u, v),
                )
            },
        }
    }

    /// The union of the endpoint boxes over the query window.
    pub fn bounding_box(&self, time0: Fx, time1: Fx) -> (res: Option<Aabb>)
        requires
            moving_sphere_wf(*self),
            0 <= time0@ <= time1@ <= 65536,
        ensures
            res == Some(moving_sphere_box(*self, time0@, time1@)),
            crate::aabb::aabb_wf(moving_sphere_box(*self, time0@, time1@)),
            crate::aabb::aabb_ordered(moving_sphere_box(*self, time0@, time1@)),
    {
        let ra = self.radius.abs();
        let rv = Vec3::splat(Fx { raw: ra.raw + crate::hittable::rect::RECT_PAD });
        let c0 = self.centre(time0);
        let c1 = self.centre(time1);
        let box0 = Aabb::new(c0.sub(rv), c0.add(rv));
        let box1 = Aabb::new(c1.sub(rv), c1.add(rv));
        Some(Aabb::surrounding_box(box0, box1))
    }
}

/// Division of an in-range offset by a radius of magnitude at least 16 fits.
proof fn lemma_ms_normal_div(x: int, radius: int)
    requires
        -0x2_0000_0000_0000 <= x <= 0x2_0000_0000_0000,
        16 <= radius <= 0x8_0000_0000 || -0x8_0000_0000 <= radius <= -16,
    ensures
        crate::fx::fits64(fdiv(x, radius)),
{
    assert(-(16 * 0x2000_0000_0000_0000) <= x * 65536 <= 16 * 0x2000_0000_0000_0000)
        by (nonlinear_arith)
        requires -0x2_0000_0000_0000 <= x <= 0x2_0000_0000_0000,
    ;
    crate::fx::lemma_div_shrink(x * 65536, radius, 0x2000_0000_0000_0000);
}

} // verus!
