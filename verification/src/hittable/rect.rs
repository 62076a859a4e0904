//! Axis-aligned rectangles in the three coordinate planes.
//!
//! Each orientation delegates to one verified plane intersection: solve the
//! constant-coordinate axis for `t` (a ray parallel to the plane never
//! hits), check the window, then check the projected point against the 2D
//! extent; the surface coordinates are the normalized in-plane offsets.
//! `rect_hit_t` is the complete functional model, shared by all three.

use std::sync::Arc;

use vstd::prelude::*;

use crate::aabb::Aabb;
use crate::fx::{fdiv, fmul, Fx};
use crate::hittable::HitRecord;
use crate::material::Material;
use crate::ray::{at_axis, Ray};
use crate::vec3::{bounded, Point3, Vec3};

verus! {

/// Padding (in raw units) added to every axis of a rectangle's box: it
/// keeps the box non-degenerate and covers the fixed-point rounding of any
/// in-budget ray's hit, so a rectangle's hits always stay inside its box.
pub const RECT_PAD: i64 = 128;

/// The functional model of a plane-rectangle intersection.  `ok`/`dk` are
/// origin and direction on the flat axis, `oa`/`da` and `ob`/`db` on the two
/// in-plane axes, `[a0, a1] x [b0, b1]` the extent at coordinate `k`.
pub open spec fn rect_hit_t(
    ok: int,
    dk: int,
    oa: int,
    da: int,
    ob: int,
    db: int,
    k: int,
    a0: int,
    a1: int,
    b0: int,
    b1: int,
    tmin: int,
    tmax: int,
) -> Option<int> {
    if dk == 0 {
        None
    } else {
        let t = fdiv(k - ok, dk);
        if !(tmin <= t <= tmax) {
            None
        } else {
            let a = oa + fmul(t, da);
            let b = ob + fmul(t, db);
            if a < a0 || a > a1 || b < b0 || b > b1 {
                None
            } else {
                Some(t)
            }
        }
    }
}

/// Magnitude of a Euclidean quotient is at most the dividend's plus one.
proof fn lemma_div_mag(a: int, b: int, m: int)
    requires
        b != 0,
        -m <= a <= m,
        0 <= m,
    ensures
        -(m + 1) <= a / b <= m + 1,
{
    vstd::arithmetic::div_mod::lemma_fundamental_div_mod(a, b);
    if b > 0 {
        vstd::arithmetic::div_mod::lemma_mod_bound(a, b);
        assert(-(m + 1) <= a / b <= m + 1) by (nonlinear_arith)
            requires
                a == b * (a / b) + a % b,
                0 <= a % b < b,
                -m <= a <= m,
                0 <= m,
                b >= 1,
        ;
    } else {
        assert(0 <= a % b < -b) by (nonlinear_arith)
            requires b < 0,
        ;
        assert(-(m + 1) <= a / b <= m + 1) by (nonlinear_arith)
            requires
                a == b * (a / b) + a % b,
                0 <= a % b < -b,
                -m <= a <= m,
                0 <= m,
                b <= -1,
        ;
    }
}

/// Shared executable plane intersection: exactly `rect_hit_t`, and with the
/// normalized in-plane coordinates of the hit, each in `[0, 1]`.
#[verifier::rlimit(30)]
fn rect_root(
    ok: Fx,
    dk: Fx,
    oa: Fx,
    da: Fx,
    ob: Fx,
    db: Fx,
    k: Fx,
    a0: Fx,
    a1: Fx,
    b0: Fx,
    b1: Fx,
    t_min: Fx,
    t_max: Fx,
) -> (res: Option<(i64, Fx, Fx)>)
    requires
        -0x20_0000_0000 <= ok@ <= 0x20_0000_0000,
        -0x20_0000_0000 <= oa@ <= 0x20_0000_0000,
        -0x20_0000_0000 <= ob@ <= 0x20_0000_0000,
        -0x80_0000 <= dk@ <= 0x80_0000,
        -0x80_0000 <= da@ <= 0x80_0000,
        -0x80_0000 <= db@ <= 0x80_0000,
        -0x10_0000_0000 <= k@ <= 0x10_0000_0000,
        -0x10_0000_0000 <= a0@ <= 0x10_0000_0000,
        -0x10_0000_0000 <= b0@ <= 0x10_0000_0000,
        a0@ < a1@ <= 0x10_0000_0000,
        b0@ < b1@ <= 0x10_0000_0000,
        -0x100_0000_0000 <= t_min@ <= 0x100_0000_0000,
        -0x100_0000_0000 <= t_max@ <= 0x100_0000_0000,
    ensures
        match res {
            None => rect_hit_t(
                ok@, dk@, oa@, da@, ob@, db@, k@, a0@, a1@, b0@, b1@, t_min@, t_max@,
            ) is None,
            Some(huv) => {
                &&& rect_hit_t(ok@, dk@, oa@, da@, ob@, db@, k@, a0@, a1@, b0@, b1@, t_min@, t_max@)
                    == Some(huv.0 as int)
                &&& t_min@ <= huv.0 <= t_max@
                &&& 0 <= huv.1@ <= 65536
                &&& 0 <= huv.2@ <= 65536
                &&& huv.1@ == fdiv(oa@ + fmul(huv.0 as int, da@) - a0@, a1@ - a0@)
                &&& huv.2@ == fdiv(ob@ + fmul(huv.0 as int, db@) - b0@, b1@ - b0@)
            },
        },
{
    if dk.raw == 0 {
        return None;
    }
    let num = crate::fx::mul_i128(k.raw - ok.raw, 65536);
    proof {
        lemma_div_mag((k@ - ok@) * 65536, dk@, 13510798882111488);
    }
    let t128 = crate::fx::div_euclid_i128(num, dk.raw as i128);
    if !(t_min.raw as i128 <= t128 && t128 <= t_max.raw as i128) {
        return None;
    }
    let t = t128 as i64;
    let tfx = Fx { raw: t };
    proof {
        lemma_plane_step(t as int, da@);
        lemma_plane_step(t as int, db@);
    }
    let a = oa.add(tfx.mul(da));
    let b = ob.add(tfx.mul(db));
    if a.raw < a0.raw || a.raw > a1.raw || b.raw < b0.raw || b.raw > b1.raw {
        return None;
    }
    proof {
        lemma_unit_fraction(a@ - a0@, a1@ - a0@);
        lemma_unit_fraction(b@ - b0@, b1@ - b0@);
    }
    let u = a.sub(a0).div(a1.sub(a0));
    let v = b.sub(b0).div(b1.sub(b0));
    Some((t, u, v))
}

/// The in-plane advance of the ray at a window-bounded time fits easily.
proof fn lemma_plane_step(t: int, d: int)
    requires
        -0x100_0000_0000 <= t <= 0x100_0000_0000,
        -0x80_0000 <= d <= 0x80_0000,
    ensures
        -0x8000_0000_0000 <= fmul(t, d) <= 0x8000_0000_0000,
{
    assert(-(0x100_0000_0000 * 0x80_0000) <= t * d <= 0x100_0000_0000 * 0x80_0000)
        by (nonlinear_arith)
        requires -0x100_0000_0000 <= t <= 0x100_0000_0000 && -0x80_0000 <= d <= 0x80_0000,
    ;
    crate::fx::lemma_div_bound_by_dividend(t * d, 65536);
}

/// `0 <= x <= w` gives a normalized coordinate `fdiv(x, w)` in `[0, 1]`.
proof fn lemma_unit_fraction(x: int, w: int)
    requires
        0 <= x <= w,
        0 < w,
    ensures
        0 <= fdiv(x, w) <= 65536,
{
    assert(0 <= x * 65536 <= w * 65536) by (nonlinear_arith)
        requires 0 <= x <= w,
    ;
    vstd::arithmetic::div_mod::lemma_div_pos_is_pos(x * 65536, w);
    vstd::arithmetic::div_mod::lemma_div_is_ordered(x * 65536, w * 65536, w);
    vstd::arithmetic::div_mod::lemma_div_multiples_vanish(65536, w);
}

/// A rectangle in the plane `z == k`, spanning `[x0, x1] x [y0, y1]`.
pub struct XYRect {
    pub x0: Fx,
    pub x1: Fx,
    pub y0: Fx,
    pub y1: Fx,
    pub k: Fx,
    pub material: Arc<Material>,
}

/// Strictly positive extent on both in-plane axes: a zero-extent rectangle
/// is invisible to every ray and its surface coordinates would divide by
/// zero, so the degenerate configuration is excluded outright.
pub open spec fn xy_rect_wf(rc: XYRect) -> bool {
    &&& -0x10_0000_0000 <= rc.x0@ && rc.x0@ < rc.x1@ <= 0x10_0000_0000
    &&& -0x10_0000_0000 <= rc.y0@ && rc.y0@ < rc.y1@ <= 0x10_0000_0000
    &&& -0x10_0000_0000 <= rc.k@ <= 0x10_0000_0000
    &&& crate::material::mat_wf(*rc.material)
}

pub open spec fn xy_rect_hit_t(rc: XYRect, r: Ray, tmin: int, tmax: int) -> Option<int> {
    rect_hit_t(
        r.origin.z@,
        r.direction.z@,
        r.origin.x@,
        r.direction.x@,
        r.origin.y@,
        r.direction.y@,
        rc.k@,
        rc.x0@,
        rc.x1@,
        rc.y0@,
        rc.y1@,
        tmin,
        tmax,
    )
}

pub open spec fn xy_rect_box(rc: XYRect) -> Aabb {
    Aabb {
        min: Vec3 {
            x: Fx { raw: (rc.x0@ - 128) as i64 },
            y: Fx { raw: (rc.y0@ - 128) as i64 },
            z: Fx { raw: (rc.k@ - 128) as i64 },
        },
        max: Vec3 {
            x: Fx { raw: (rc.x1@ + 128) as i64 },
            y: Fx { raw: (rc.y1@ + 128) as i64 },
            z: Fx { raw: (rc.k@ + 128) as i64 },
        },
    }
}

impl XYRect {
    pub fn new(x0: Fx, x1: Fx, y0: Fx, y1: Fx, k: Fx, material: Arc<Material>) -> (r: XYRect)
        ensures
            r.x0 == x0 && r.x1 == x1 && r.y0 == y0 && r.y1 == y1 && r.k == k && r.material
                == material,
    {
        XYRect { x0, x1, y0, y1, k, material }
    }

    pub fn hit(&self, ray: &Ray, t_min: Fx, t_max: Fx) -> (res: Option<HitRecord>)
        requires
            xy_rect_wf(*self),
            bounded(ray.origin, 0x20_0000_0000),
            bounded(ray.direction, 0x80_0000),
            0 <= ray.time@ <= 65536,
            -0x100_0000_0000 <= t_min@ <= 0x100_0000_0000,
            -0x100_0000_0000 <= t_max@ <= 0x100_0000_0000,
        ensures
            match res {
                None => xy_rect_hit_t(*self, *ray, t_min@, t_max@) is None,
                Some(rec) => {
                    &&& xy_rect_hit_t(*self, *ray, t_min@, t_max@) == Some(rec.t@)
                    &&& t_min@ <= rec.t@ <= t_max@
                    &&& crate::hittable::rec_bounds(rec)
                    &&& rec.point.x@ == at_axis(*ray, rec.t@, 0)
                    &&& rec.point.y@ == at_axis(*ray, rec.t@, 1)
                    &&& rec.point.z@ == at_axis(*ray, rec.t@, 2)
                    &&& rec.material == self.material
                    &&& rec.u@ == fdiv(
                        ray.origin.x@ + fmul(rec.t@, ray.direction.x@) - self.x0@,
                        self.x1@ - self.x0@,
                    )
                    &&& rec.v@ == fdiv(
                        ray.origin.y@ + fmul(rec.t@, ray.direction.y@) - self.y0@,
                        self.y1@ - self.y0@,
                    )
                    &&& rec.front_face == (ray.direction.z@ <= 0)
                    &&& rec.normal == crate::hittable::oriented(
                        (Vec3 { x: Fx { raw: 0 }, y: Fx { raw: 0 }, z: Fx { raw: 65536 } }),
                        ray.direction,
                    )
                },
            },
    {
        match rect_root(
            ray.origin.z,
            ray.direction.z,
            ray.origin.x,
            ray.direction.x,
            ray.origin.y,
            ray.direction.y,
            self.k,
            self.x0,
            self.x1,
            self.y0,
            self.y1,
            t_min,
            t_max,
        ) {
            None => None,
            Some((t, u, v)) => {
                let tfx = Fx { raw: t };
                let point = ray.at(tfx);
                let outward = Vec3::new(Fx { raw: 0 }, Fx { raw: 0 }, Fx { raw: 65536 });
                Some(HitRecord::new(point, tfx, ray, outward, Arc::clone(&self.material), u, v))
            },
        }
    }

    pub fn bounding_box(&self, _time0: Fx, _time1: Fx) -> (res: Option<Aabb>)
        requires
            xy_rect_wf(*self),
        ensures
            res == Some(xy_rect_box(*self)),
            crate::aabb::aabb_wf(xy_rect_box(*self)),
            crate::aabb::aabb_ordered(xy_rect_box(*self)),
    {
        Some(
            Aabb::new(
                Point3::new(
                    Fx { raw: self.x0.raw - RECT_PAD },
                    Fx { raw: self.y0.raw - RECT_PAD },
                    Fx { raw: self.k.raw - RECT_PAD },
                ),
                Point3::new(
                    Fx { raw: self.x1.raw + RECT_PAD },
                    Fx { raw: self.y1.raw + RECT_PAD },
                    Fx { raw: self.k.raw + RECT_PAD },
                ),
            ),
        )
    }
}

/// A rectangle in the plane `y == k`, spanning `[x0, x1] x [z0, z1]`.
pub struct XZRect {
    pub x0: Fx,
    pub x1: Fx,
    pub z0: Fx,
    pub z1: Fx,
    pub k: Fx,
    pub material: Arc<Material>,
}

pub open spec fn xz_rect_wf(rc: XZRect) -> bool {
    &&& -0x10_0000_0000 <= rc.x0@ && rc.x0@ < rc.x1@ <= 0x10_0000_0000
    &&& -0x10_0000_0000 <= rc.z0@ && rc.z0@ < rc.z1@ <= 0x10_0000_0000
    &&& -0x10_0000_0000 <= rc.k@ <= 0x10_0000_0000
    &&& crate::material::mat_wf(*rc.material)
}

pub open spec fn xz_rect_hit_t(rc: XZRect, r: Ray, tmin: int, tmax: int) -> Option<int> {
    rect_hit_t(
        r.origin.y@,
        r.direction.y@,
        r.origin.x@,
        r.direction.x@,
        r.origin.z@,
        r.direction.z@,
        rc.k@,
        rc.x0@,
        rc.x1@,
        rc.z0@,
        rc.z1@,
        tmin,
        tmax,
    )
}

pub open spec fn xz_rect_box(rc: XZRect) -> Aabb {
    Aabb {
        min: Vec3 {
            x: Fx { raw: (rc.x0@ - 128) as i64 },
            y: Fx { raw: (rc.k@ - 128) as i64 },
            z: Fx { raw: (rc.z0@ - 128) as i64 },
        },
        max: Vec3 {
            x: Fx { raw: (rc.x1@ + 128) as i64 },
            y: Fx { raw: (rc.k@ + 128) as i64 },
            z: Fx { raw: (rc.z1@ + 128) as i64 },
        },
    }
}

impl XZRect {
    pub fn new(x0: Fx, x1: Fx, z0: Fx, z1: Fx, k: Fx, material: Arc<Material>) -> (r: XZRect)
        ensures
            r.x0 == x0 && r.x1 == x1 && r.z0 == z0 && r.z1 == z1 && r.k == k && r.material
                == material,
    {
        XZRect { x0, x1, z0, z1, k, material }
    }

    pub fn hit(&self, ray: &Ray, t_min: Fx, t_max: Fx) -> (res: Option<HitRecord>)
        requires
            xz_rect_wf(*self),
            bounded(ray.origin, 0x20_0000_0000),
            bounded(ray.direction, 0x80_0000),
            0 <= ray.time@ <= 65536,
            -0x100_0000_0000 <= t_min@ <= 0x100_0000_0000,
            -0x100_0000_0000 <= t_max@ <= 0x100_0000_0000,
        ensures
            match res {
                None => xz_rect_hit_t(*self, *ray, t_min@, t_max@) is None,
                Some(rec) => {
                    &&& xz_rect_hit_t(*self, *ray, t_min@, t_max@) == Some(rec.t@)
                    &&& t_min@ <= rec.t@ <= t_max@
                    &&& crate::hittable::rec_bounds(rec)
                    &&& rec.point.x@ == at_axis(*ray, rec.t@, 0)
                    &&& rec.point.y@ == at_axis(*ray, rec.t@, 1)
                    &&& rec.point.z@ == at_axis(*ray, rec.t@, 2)
                    &&& rec.material == self.material
                    &&& rec.u@ == fdiv(
                        ray.origin.x@ + fmul(rec.t@, ray.direction.x@) - self.x0@,
                        self.x1@ - self.x0@,
                    )
                    &&& rec.v@ == fdiv(
                        ray.origin.z@ + fmul(rec.t@, ray.direction.z@) - self.z0@,
                        self.z1@ - self.z0@,
                    )
                    &&& rec.front_face == (ray.direction.y@ <= 0)
                    &&& rec.normal == crate::hittable::oriented(
                        (Vec3 { x: Fx { raw: 0 }, y: Fx { raw: 65536 }, z: Fx { raw: 0 } }),
                        ray.direction,
                    )
                },
            },
    {
        match rect_root(
            ray.origin.y,
            ray.direction.y,
            ray.origin.x,
            ray.direction.x,
            ray.origin.z,
            ray.direction.z,
            self.k,
            self.x0,
            self.x1,
            self.z0,
            self.z1,
            t_min,
            t_max,
        ) {
            None => None,
            Some((t, u, v)) => {
                let tfx = Fx { raw: t };
                let point = ray.at(tfx);
                let outward = Vec3::new(Fx { raw: 0 }, Fx { raw: 65536 }, Fx { raw: 0 });
                Some(HitRecord::new(point, tfx, ray, outward, Arc::clone(&self.material), u, v))
            },
        }
    }

    pub fn bounding_box(&self, _time0: Fx, _time1: Fx) -> (res: Option<Aabb>)
        requires
            xz_rect_wf(*self),
        ensures
            res == Some(xz_rect_box(*self)),
            crate::aabb::aabb_wf(xz_rect_box(*self)),
            crate::aabb::aabb_ordered(xz_rect_box(*self)),
    {
        Some(
            Aabb::new(
                Point3::new(
                    Fx { raw: self.x0.raw - RECT_PAD },
                    Fx { raw: self.k.raw - RECT_PAD },
                    Fx { raw: self.z0.raw - RECT_PAD },
                ),
                Point3::new(
                    Fx { raw: self.x1.raw + RECT_PAD },
                    Fx { raw: self.k.raw + RECT_PAD },
                    Fx { raw: self.z1.raw + RECT_PAD },
                ),
            ),
        )
    }
}

/// A rectangle in the plane `x == k`, spanning `[y0, y1] x [z0, z1]`.
pub struct YZRect {
    pub y0: Fx,
    pub y1: Fx,
    pub z0: Fx,
    pub z1: Fx,
    pub k: Fx,
    pub material: Arc<Material>,
}

pub open spec fn yz_rect_wf(rc: YZRect) -> bool {
    &&& -0x10_0000_0000 <= rc.y0@ && rc.y0@ < rc.y1@ <= 0x10_0000_0000
    &&& -0x10_0000_0000 <= rc.z0@ && rc.z0@ < rc.z1@ <= 0x10_0000_0000
    &&& -0x10_0000_0000 <= rc.k@ <= 0x10_0000_0000
    &&& crate::material::mat_wf(*rc.material)
}

pub open spec fn yz_rect_hit_t(rc: YZRect, r: Ray, tmin: int, tmax: int) -> Option<int> {
    rect_hit_t(
        r.origin.x@,
        r.direction.x@,
        r.origin.y@,
        r.direction.y@,
        r.origin.z@,
        r.direction.z@,
        rc.k@,
        rc.y0@,
        rc.y1@,
        rc.z0@,
        rc.z1@,
        tmin,
        tmax,
    )
}

pub open spec fn yz_rect_box(rc: YZRect) -> Aabb {
    Aabb {
        min: Vec3 {
            x: Fx { raw: (rc.k@ - 128) as i64 },
            y: Fx { raw: (rc.y0@ - 128) as i64 },
            z: Fx { raw: (rc.z0@ - 128) as i64 },
        },
        max: Vec3 {
            x: Fx { raw: (rc.k@ + 128) as i64 },
            y: Fx { raw: (rc.y1@ + 128) as i64 },
            z: Fx { raw: (rc.z1@ + 128) as i64 },
        },
    }
}

impl YZRect {
    pub fn new(y0: Fx, y1: Fx, z0: Fx, z1: Fx, k: Fx, material: Arc<Material>) -> (r: YZRect)
        ensures
            r.y0 == y0 && r.y1 == y1 && r.z0 == z0 && r.z1 == z1 && r.k == k && r.material
                == material,
    {
        YZRect { y0, y1, z0, z1, k, material }
    }

    pub fn hit(&self, ray: &Ray, t_min: Fx, t_max: Fx) -> (res: Option<HitRecord>)
        requires
            yz_rect_wf(*self),
            bounded(ray.origin, 0x20_0000_0000),
            bounded(ray.direction, 0x80_0000),
            0 <= ray.time@ <= 65536,
            -0x100_0000_0000 <= t_min@ <= 0x100_0000_0000,
            -0x100_0000_0000 <= t_max@ <= 0x100_0000_0000,
        ensures
            match res {
                None => yz_rect_hit_t(*self, *ray, t_min@, t_max@) is None,
                Some(rec) => {
                    &&& yz_rect_hit_t(*self, *ray, t_min@, t_max@) == Some(rec.t@)
                    &&& t_min@ <= rec.t@ <= t_max@
                    &&& crate::hittable::rec_bounds(rec)
                    &&& rec.point.x@ == at_axis(*ray, rec.t@, 0)
                    &&& rec.point.y@ == at_axis(*ray, rec.t@, 1)
                    &&& rec.point.z@ == at_axis(*ray, rec.t@, 2)
                    &&& rec.material == self.material
                    &&& rec.u@ == fdiv(
                        ray.origin.y@ + fmul(rec.t@, ray.direction.y@) - self.y0@,
                        self.y1@ - self.y0@,
                    )
                    &&& rec.v@ == fdiv(
                        ray.origin.z@ + fmul(rec.t@, ray.direction.z@) - self.z0@,
                        self.z1@ - self.z0@,
                    )
                    &&& rec.front_face == (ray.direction.x@ <= 0)
                    &&& rec.normal == crate::hittable::oriented(
                        (Vec3 { x: Fx { raw: 65536 }, y: Fx { raw: 0 }, z: Fx { raw: 0 } }),
                        ray.direction,
                    )
                },
            },
    {
        match rect_root(
            ray.origin.x,
            ray.direction.x,
            ray.origin.y,
            ray.direction.y,
            ray.origin.z,
            ray.direction.z,
            self.k,
            self.y0,
            self.y1,
            self.z0,
            self.z1,
            t_min,
            t_max,
        ) {
            None => None,
            Some((t, u, v)) => {
                let tfx = Fx { raw: t };
                let point = ray.at(tfx);
                let outward = Vec3::new(Fx { raw: 65536 }, Fx { raw: 0 }, Fx { raw: 0 });
                Some(HitRecord::new(point, tfx, ray, outward, Arc::clone(&self.material), u, v))
            },
        }
    }

    pub fn bounding_box(&self, _time0: Fx, _time1: Fx) -> (res: Option<Aabb>)
        requires
            yz_rect_wf(*self),
        ensures
            res == Some(yz_rect_box(*self)),
            crate::aabb::aabb_wf(yz_rect_box(*self)),
            crate::aabb::aabb_ordered(yz_rect_box(*self)),
    {
        Some(
            Aabb::new(
                Point3::new(
                    Fx { raw: self.k.raw - RECT_PAD },
                    Fx { raw: self.y0.raw - RECT_PAD },
                    Fx { raw: self.z0.raw - RECT_PAD },
                ),
                Point3::new(
                    Fx { raw: self.k.raw + RECT_PAD },
                    Fx { raw: self.y1.raw + RECT_PAD },
                    Fx { raw: self.z1.raw + RECT_PAD },
                ),
            ),
        )
    }
}

} // verus!
