//! The camera: field of view, aspect ratio, thin-lens aperture for depth of
//! field, and shutter interval for motion blur.  `get_ray` maps normalized
//! viewport coordinates to a ray; its contract guarantees the ray is within
//! the budgets every primitive accepts (`world_ray_ok`), whatever the lens
//! and shutter draws.  Out-of-range intermediate values, which no sane
//! configuration produces, are clamped rather than allowed to overflow.

use vstd::prelude::*;

use crate::fx::{fmul, Fx};
use crate::hittable::bvh::world_ray_ok;
use crate::ray::Ray;
use crate::rng::Rng;
use crate::trig::PI_RAW;
use crate::utils::{random_double, random_in_unit_disc};
use crate::vec3::{bounded, Point3, Vec3};

verus! {

pub struct Camera {
    pub origin: Point3,
    pub lower_left_corner: Point3,
    pub horizontal: Vec3,
    pub vertical: Vec3,
    pub u: Vec3,
    pub v: Vec3,
    pub lens_radius: Fx,
    pub time0: Fx,
    pub time1: Fx,
}

/// Field bounds under which `get_ray`'s arithmetic cannot overflow and its
/// rays stay within every primitive's budget.
pub open spec fn camera_wf(c: Camera) -> bool {
    &&& bounded(c.origin, 0x4000_0000)
    &&& bounded(c.lower_left_corner, 0x10_0000_0000)
    &&& bounded(c.horizontal, 0x10_0000_0000)
    &&& bounded(c.vertical, 0x10_0000_0000)
    &&& bounded(c.u, 65540)
    &&& bounded(c.v, 65540)
    &&& 0 <= c.lens_radius@ <= 0x20_0000
    &&& 0 <= c.time0@ <= c.time1@ <= 65536
}

impl Camera {
    /// Build a camera looking from `lookfrom` to `lookat` with up vector
    /// `vup`, a vertical field of view of `vfov` degrees, the given aspect
    /// ratio, lens aperture, focus distance and shutter interval.
    pub fn new(
        lookfrom: Point3,
        lookat: Point3,
        vup: Vec3,
        vfov: Fx,
        aspect_ratio: Fx,
        aperture: Fx,
        dist_to_focus: Fx,
        time0: Fx,
        time1: Fx,
    ) -> (r: Camera)
        requires
            bounded(lookfrom, 0x4000_0000),
            bounded(lookat, 0x4000_0000),
            bounded(vup, 0x10_0000),
            131072 <= vfov@ <= 0x96_0000,
            8192 <= aspect_ratio@ <= 0x40_0000,
            0 <= aperture@ <= 0x40_0000,
            4096 <= dist_to_focus@ <= 0x2000_0000,
            0 <= time0@ <= time1@ <= 65536,
        ensures
            camera_wf(r),
            r.origin == lookfrom,
            r.time0 == time0,
            r.time1 == time1,
    {
        // theta = vfov * pi / 180; h = tan(theta / 2), clamped to 16.
        proof {
            crate::vec3::lemma_prod_bound(vfov@, 205887, 0x96_0000, 205887);
            vstd::arithmetic::div_mod::lemma_div_is_ordered(vfov@ * 205887, 2061584302080, 65536);
            vstd::arithmetic::div_mod::lemma_div_multiples_vanish(31457280, 65536);
            vstd::arithmetic::div_mod::lemma_div_pos_is_pos(vfov@ * 205887, 65536);
            assert(fmul(vfov@, 205887) * 65536 <= 3092376453120) by (nonlinear_arith)
                requires 0 <= fmul(vfov@, 205887) <= 31457280,
            ;
            vstd::arithmetic::div_mod::lemma_div_is_ordered(
                fmul(vfov@, 205887) * 65536,
                3092376453120,
                23592960,
            );
            vstd::arithmetic::div_mod::lemma_div_pos_is_pos(fmul(vfov@, 205887) * 65536, 23592960);
            vstd::arithmetic::div_mod::lemma_div_multiples_vanish(131072, 23592960);
        }
        let half_theta = vfov.mul(Fx { raw: PI_RAW }).div(Fx { raw: 2 * 180 * 65536 });
        let st = half_theta.sin();
        let ct = half_theta.cos();
        let h = if ct.raw < 1 {
            // The half angle has reached a quarter turn: clamp the extent.
            Fx { raw: 16 * 65536 }
        } else {
            proof {
                crate::fx::lemma_div_bound_by_dividend(st@ * 65536, ct@);
            }
            st.div(ct).min(Fx { raw: 16 * 65536 }).max(Fx { raw: 0 })
        };
        let viewport_height = Fx { raw: 2 * h.raw };
        proof {
            crate::vec3::lemma_prod_bound(aspect_ratio@, viewport_height@, 0x40_0000, 0x20_0000);
            crate::fx::lemma_div_bound_by_dividend(aspect_ratio@ * viewport_height@, 65536);
        }
        let viewport_width = aspect_ratio.mul(viewport_height);
        let diff = lookfrom.sub(lookat);
        proof {
            crate::vec3::lemma_sdot_self_nonneg(diff);
        }
        let w = if diff.length_squared().raw >= 16384 {
            diff.normalize()
        } else {
            // Degenerate view direction: look down the negative z axis.
            Vec3::new(Fx { raw: 0 }, Fx { raw: 0 }, Fx { raw: 65536 })
        };
        let cu = vup.cross(w);
        proof {
            crate::vec3::lemma_sdot_self_nonneg(cu);
            lemma_cross_bounds(vup, w, 0x10_0000, 65540);
        }
        let u = if cu.length_squared().raw >= 16384 {
            cu.normalize()
        } else {
            // Degenerate up vector (parallel to the view direction).
            Vec3::new(Fx { raw: 65536 }, Fx { raw: 0 }, Fx { raw: 0 })
        };
        proof {
            lemma_cross_bounds(w, u, 65540, 65540);
        }
        let v = w.cross(u).clamp_components(65540);
        // horizontal = focus * viewport_width * u, and likewise vertically.
        proof {
            crate::vec3::lemma_prod_bound(dist_to_focus@, viewport_width@, 0x2000_0000,
                0x8000_0000);
            crate::fx::lemma_div_shrink(dist_to_focus@ * viewport_width@, 65536,
                0x1000_0000_0000_0000);
            crate::vec3::lemma_prod_bound(dist_to_focus@, viewport_height@, 0x2000_0000,
                0x8000_0000);
            crate::fx::lemma_div_shrink(dist_to_focus@ * viewport_height@, 65536,
                0x1000_0000_0000_0000);
        }
        let span_h = dist_to_focus.mul(viewport_width).min(Fx { raw: 0x10_0000_0000 }).max(
            Fx { raw: 0 },
        );
        let span_v = dist_to_focus.mul(viewport_height).min(Fx { raw: 0x10_0000_0000 }).max(
            Fx { raw: 0 },
        );
        let horizontal = u.scale(span_h).clamp_components(0x10_0000_0000);
        let vertical = v.scale(span_v).clamp_components(0x10_0000_0000);
        proof {
            crate::vec3::lemma_prod_bound(dist_to_focus@, w.x@, 0x2000_0000, 65540);
            crate::vec3::lemma_prod_bound(dist_to_focus@, w.y@, 0x2000_0000, 65540);
            crate::vec3::lemma_prod_bound(dist_to_focus@, w.z@, 0x2000_0000, 65540);
            crate::fx::lemma_div_bound_by_dividend(dist_to_focus@ * w.x@, 65536);
            crate::fx::lemma_div_bound_by_dividend(dist_to_focus@ * w.y@, 65536);
            crate::fx::lemma_div_bound_by_dividend(dist_to_focus@ * w.z@, 65536);
        }
        let wf = w.scale(dist_to_focus);
        let half = Fx { raw: 32768 };
        proof {
            crate::hittable::lemma_sym_weight_mul(32768, horizontal.x@, 0x10_0000_0000);
            crate::hittable::lemma_sym_weight_mul(32768, horizontal.y@, 0x10_0000_0000);
            crate::hittable::lemma_sym_weight_mul(32768, horizontal.z@, 0x10_0000_0000);
            crate::hittable::lemma_sym_weight_mul(32768, vertical.x@, 0x10_0000_0000);
            crate::hittable::lemma_sym_weight_mul(32768, vertical.y@, 0x10_0000_0000);
            crate::hittable::lemma_sym_weight_mul(32768, vertical.z@, 0x10_0000_0000);
        }
        let lower_left_corner = lookfrom.sub(horizontal.scale(half)).sub(vertical.scale(half)).sub(
            wf,
        ).clamp_components(0x10_0000_0000);
        proof {
            crate::fx::lemma_div_bound_by_dividend(aperture@, 2);
        }
        let lens_radius = Fx {
            raw: crate::fx::div_euclid_i128(aperture.raw as i128, 2) as i64,
        };
        Camera {
            origin: lookfrom,
            lower_left_corner,
            horizontal,
            vertical,
            u,
            v,
            lens_radius,
            time0,
            time1,
        }
    }

    /// The ray through viewport coordinates `(s, t)` in the unit square,
    /// jittered by the lens aperture and a shutter time drawn from the
    /// camera's interval.  Whatever the draws, the ray is acceptable to
    /// every well-formed primitive.
    pub fn get_ray(&self, s: Fx, t: Fx, rng: &mut Rng) -> (r: Ray)
        requires
            camera_wf(*self),
            0 <= s@ <= 65536,
            0 <= t@ <= 65536,
        ensures
            world_ray_ok(r),
            r.time@ >= self.time0@ && r.time@ <= self.time1@,
            (self.lens_radius@ == 0 && self.time0 == self.time1) ==> r == (Ray {
                origin: crate::hittable::clampv(self.origin, 0x8_0000_0000),
                direction: crate::hittable::clampv(
                    Vec3 {
                        x: Fx {
                            raw: (self.lower_left_corner.x@ + fmul(s@, self.horizontal.x@) + fmul(
                                t@,
                                self.vertical.x@,
                            ) - self.origin.x@) as i64,
                        },
                        y: Fx {
                            raw: (self.lower_left_corner.y@ + fmul(s@, self.horizontal.y@) + fmul(
                                t@,
                                self.vertical.y@,
                            ) - self.origin.y@) as i64,
                        },
                        z: Fx {
                            raw: (self.lower_left_corner.z@ + fmul(s@, self.horizontal.z@) + fmul(
                                t@,
                                self.vertical.z@,
                            ) - self.origin.z@) as i64,
                        },
                    },
                    0x3F_0000,
                ),
                time: self.time0,
            }),
    {
        let disc = random_in_unit_disc(rng);
        proof {
            crate::vec3::lemma_prod_bound(self.lens_radius@, disc.x@, 0x20_0000, 65536);
            crate::vec3::lemma_prod_bound(self.lens_radius@, disc.y@, 0x20_0000, 65536);
            crate::vec3::lemma_prod_bound(self.lens_radius@, disc.z@, 0x20_0000, 65536);
            crate::fx::lemma_div_bound_by_dividend(self.lens_radius@ * disc.x@, 65536);
            crate::fx::lemma_div_bound_by_dividend(self.lens_radius@ * disc.y@, 65536);
            crate::fx::lemma_div_bound_by_dividend(self.lens_radius@ * disc.z@, 65536);
        }
        let rd = disc.scale(self.lens_radius);
        proof {
            if self.lens_radius@ == 0 {
                assert(0int * disc.x@ == 0 && 0int * disc.y@ == 0 && 0int * disc.z@ == 0)
                    by (nonlinear_arith);
                vstd::arithmetic::div_mod::lemma_div_of0(65536);
                assert(rd.x@ == 0 && rd.y@ == 0 && rd.z@ == 0);
            }
            crate::vec3::lemma_prod_bound(rd.x@, self.u.x@, 0x20_0001, 65540);
            crate::vec3::lemma_prod_bound(rd.x@, self.u.y@, 0x20_0001, 65540);
            crate::vec3::lemma_prod_bound(rd.x@, self.u.z@, 0x20_0001, 65540);
            crate::vec3::lemma_prod_bound(rd.y@, self.v.x@, 0x20_0001, 65540);
            crate::vec3::lemma_prod_bound(rd.y@, self.v.y@, 0x20_0001, 65540);
            crate::vec3::lemma_prod_bound(rd.y@, self.v.z@, 0x20_0001, 65540);
            crate::fx::lemma_div_bound_by_dividend(rd.x@ * self.u.x@, 65536);
            crate::fx::lemma_div_bound_by_dividend(rd.x@ * self.u.y@, 65536);
            crate::fx::lemma_div_bound_by_dividend(rd.x@ * self.u.z@, 65536);
            crate::fx::lemma_div_bound_by_dividend(rd.y@ * self.v.x@, 65536);
            crate::fx::lemma_div_bound_by_dividend(rd.y@ * self.v.y@, 65536);
            crate::fx::lemma_div_bound_by_dividend(rd.y@ * self.v.z@, 65536);
        }
        let offset = self.u.scale(rd.x).add(self.v.scale(rd.y)).clamp_components(0x10_0000);
        proof {
            if self.lens_radius@ == 0 {
                assert(0int * self.u.x@ == 0 && 0int * self.u.y@ == 0 && 0int * self.u.z@ == 0)
                    by (nonlinear_arith);
                assert(0int * self.v.x@ == 0 && 0int * self.v.y@ == 0 && 0int * self.v.z@ == 0)
                    by (nonlinear_arith);
                assert(offset.x@ == 0 && offset.y@ == 0 && offset.z@ == 0);
            }
        }
        let origin = self.origin.add(offset);
        proof {
            lemma_span_step(s@, self.horizontal.x@);
            lemma_span_step(s@, self.horizontal.y@);
            lemma_span_step(s@, self.horizontal.z@);
            lemma_span_step(t@, self.vertical.x@);
            lemma_span_step(t@, self.vertical.y@);
            lemma_span_step(t@, self.vertical.z@);
        }
        let direction = self.lower_left_corner.add(self.horizontal.scale(s)).add(
            self.vertical.scale(t),
        ).sub(origin).clamp_components(0x3F_0000);
        let time = if self.time0.raw < self.time1.raw {
            random_double(rng, self.time0, self.time1)
        } else {
            self.time0
        };
        Ray::new(origin.clamp_components(0x8_0000_0000), direction, time)
    }
}

/// Walking a unit fraction of a viewport span stays within the span bound.
proof fn lemma_span_step(s: int, h: int)
    requires
        0 <= s <= 65536,
        -0x10_0000_0000 <= h <= 0x10_0000_0000,
    ensures
        -0x10_0000_0001 <= fmul(s, h) <= 0x10_0000_0001,
{
    crate::hittable::lemma_sym_weight_mul(s, h, 0x10_0000_0000);
}

/// Cross-product components of bounded vectors are bounded.
proof fn lemma_cross_bounds(a: Vec3, b: Vec3, m1: int, m2: int)
    requires
        bounded(a, m1),
        bounded(b, m2),
        0 <= m1,
        0 <= m2,
    ensures
        -(m1 * m2) <= a.y@ * b.z@ <= m1 * m2,
        -(m1 * m2) <= a.z@ * b.y@ <= m1 * m2,
        -(m1 * m2) <= a.z@ * b.x@ <= m1 * m2,
        -(m1 * m2) <= a.x@ * b.z@ <= m1 * m2,
        -(m1 * m2) <= a.x@ * b.y@ <= m1 * m2,
        -(m1 * m2) <= a.y@ * b.x@ <= m1 * m2,
        -(m1 * m2) - 1 <= fmul(a.y@, b.z@) <= m1 * m2,
        -(m1 * m2) - 1 <= fmul(a.z@, b.y@) <= m1 * m2,
        -(m1 * m2) - 1 <= fmul(a.z@, b.x@) <= m1 * m2,
        -(m1 * m2) - 1 <= fmul(a.x@, b.z@) <= m1 * m2,
        -(m1 * m2) - 1 <= fmul(a.x@, b.y@) <= m1 * m2,
        -(m1 * m2) - 1 <= fmul(a.y@, b.x@) <= m1 * m2,
{
    crate::vec3::lemma_prod_bound(a.y@, b.z@, m1, m2);
    crate::vec3::lemma_prod_bound(a.z@, b.y@, m1, m2);
    crate::vec3::lemma_prod_bound(a.z@, b.x@, m1, m2);
    crate::vec3::lemma_prod_bound(a.x@, b.z@, m1, m2);
    crate::vec3::lemma_prod_bound(a.x@, b.y@, m1, m2);
    crate::vec3::lemma_prod_bound(a.y@, b.x@, m1, m2);
    crate::fx::lemma_div_bound_by_dividend(a.y@ * b.z@, 65536);
    crate::fx::lemma_div_bound_by_dividend(a.z@ * b.y@, 65536);
    crate::fx::lemma_div_bound_by_dividend(a.z@ * b.x@, 65536);
    crate::fx::lemma_div_bound_by_dividend(a.x@ * b.z@, 65536);
    crate::fx::lemma_div_bound_by_dividend(a.x@ * b.y@, 65536);
    crate::fx::lemma_div_bound_by_dividend(a.y@ * b.x@, 65536);
}

} // verus!
