//! Geometric primitives and ray intersection.
//!
//! `Surface` is the closed family of deterministic primitives: spheres,
//! moving spheres, the three axis-aligned rectangles, boxes, and the
//! translate/rotate wrappers.  Its intersection behaviour has a full
//! functional model, `surf_hit_t`, giving the hit parameter returned for any
//! ray and time window; the per-shape methods state the hit record's fields
//! exactly.  The participating medium, whose interaction is sampled at
//! random, lives in `constant_medium` beside this family.

use std::sync::Arc;

use vstd::prelude::*;

use crate::aabb::Aabb;
use crate::fx::{fmul, Fx};
use crate::material::Material;
use crate::ray::Ray;
use crate::vec3::{bounded, rdot, Point3, Vec3};

pub mod box_rect;
pub mod bvh;
pub mod constant_medium;
pub mod moving_sphere;
pub mod rect;
pub mod rotate_y;
pub mod sphere;
pub mod world;

use box_rect::BoxRect;
use moving_sphere::MovingSphere;
use rect::{XYRect, XZRect, YZRect};
use rotate_y::RotateY;
use sphere::Sphere;

verus! {

/// Component-wise negation, as stored in a flipped normal.
pub open spec fn negv(n: Vec3) -> Vec3 {
    Vec3 {
        x: Fx { raw: (-n.x@) as i64 },
        y: Fx { raw: (-n.y@) as i64 },
        z: Fx { raw: (-n.z@) as i64 },
    }
}

/// The normal a record stores: the outward normal when the ray arrives from
/// outside, its negation otherwise.
pub open spec fn oriented(outward: Vec3, d: Vec3) -> Vec3 {
    if rdot(d, outward) <= 0 {
        outward
    } else {
        negv(outward)
    }
}

/// The payload of a successful intersection.
pub struct HitRecord {
    pub point: Point3,
    pub normal: Vec3,
    pub t: Fx,
    pub u: Fx,
    pub v: Fx,
    pub front_face: bool,
    pub material: Arc<Material>,
}

impl HitRecord {
    /// Orient the outward normal against the incoming ray: the record's
    /// normal is the outward normal when the ray arrives from outside
    /// (non-positive raw dot product), and its negation otherwise.
    pub fn new(
        point: Point3,
        t: Fx,
        ray: &Ray,
        outward_normal: Vec3,
        material: Arc<Material>,
        u: Fx,
        v: Fx,
    ) -> (r: HitRecord)
        requires
            bounded(outward_normal, 0x4000_0000_0000_0000),
            bounded(ray.direction, 0x80_0000),
        ensures
            r.point == point,
            r.t == t,
            r.u == u,
            r.v == v,
            r.material == material,
            r.front_face == (rdot(ray.direction, outward_normal) <= 0),
            r.normal == oriented(outward_normal, ray.direction),
    {
        let dx = crate::fx::mul_i128(ray.direction.x.raw, outward_normal.x.raw);
        let dy = crate::fx::mul_i128(ray.direction.y.raw, outward_normal.y.raw);
        let dz = crate::fx::mul_i128(ray.direction.z.raw, outward_normal.z.raw);
        proof {
            crate::vec3::lemma_prod_bound(ray.direction.x@, outward_normal.x@, 0x80_0000,
                0x4000_0000_0000_0000);
            crate::vec3::lemma_prod_bound(ray.direction.y@, outward_normal.y@, 0x80_0000,
                0x4000_0000_0000_0000);
            crate::vec3::lemma_prod_bound(ray.direction.z@, outward_normal.z@, 0x80_0000,
                0x4000_0000_0000_0000);
        }
        let front_face = dx + dy + dz <= 0;
        let normal = if front_face {
            outward_normal
        } else {
            outward_normal.neg()
        };
        HitRecord { point, normal, t, u, v, front_face, material }
    }
}

/// A deterministic geometric primitive.
pub enum Surface {
    Sphere(Sphere),
    MovingSphere(MovingSphere),
    XYRect(XYRect),
    XZRect(XZRect),
    YZRect(YZRect),
    BoxRect(BoxRect),
    Translate(Translate),
    RotateY(RotateY),
}

/// Wraps a primitive and shifts it by `offset`.
pub struct Translate {
    pub obj: Box<Surface>,
    pub offset: Vec3,
}

/// The largest ray-origin component magnitude the primitive's intersection
/// arithmetic supports: transforms spend some of the budget moving the ray.
pub open spec fn surf_ob(s: Surface) -> int
    decreases s,
{
    match s {
        Surface::Translate(t) => surf_ob(*t.obj) - 0x8000_0000,
        Surface::RotateY(ro) => (surf_ob(*ro.obj) - 2) / 2,
        _ => 0x20_0000_0000,
    }
}

/// The largest ray-direction component magnitude supported, likewise.
pub open spec fn surf_db(s: Surface) -> int
    decreases s,
{
    match s {
        Surface::Translate(t) => surf_db(*t.obj),
        Surface::RotateY(ro) => (surf_db(*ro.obj) - 2) / 2,
        _ => 0x80_0000,
    }
}

/// Shape parameters in range, and enough origin/direction budget left for a
/// well-formed external ray.
pub open spec fn surf_wf(s: Surface) -> bool
    decreases s,
{
    &&& match s {
        Surface::Sphere(sp) => sphere::sphere_wf(sp),
        Surface::MovingSphere(ms) => moving_sphere::moving_sphere_wf(ms),
        Surface::XYRect(rc) => rect::xy_rect_wf(rc),
        Surface::XZRect(rc) => rect::xz_rect_wf(rc),
        Surface::YZRect(rc) => rect::yz_rect_wf(rc),
        Surface::BoxRect(bx) => box_rect::box_rect_wf(bx),
        Surface::Translate(t) => surf_wf(*t.obj) && bounded(t.offset, 0x8000_0000),
        Surface::RotateY(ro) => surf_wf(*ro.obj) && -65536 <= ro.sin_theta@ <= 65536 && -65536
            <= ro.cos_theta@ <= 65536 && crate::aabb::aabb_wf(ro.bbox) && crate::aabb::aabb_ordered(
            ro.bbox,
        ),
    }
    &&& surf_ob(s) >= 0x8_0000_0000
    &&& surf_db(s) >= 0x3F_0000
}

/// The ray as seen by a translated primitive: origin shifted back.
pub open spec fn translate_ray(r: Ray, offset: Vec3) -> Ray {
    Ray {
        origin: Vec3 {
            x: Fx { raw: (r.origin.x@ - offset.x@) as i64 },
            y: Fx { raw: (r.origin.y@ - offset.y@) as i64 },
            z: Fx { raw: (r.origin.z@ - offset.z@) as i64 },
        },
        direction: r.direction,
        time: r.time,
    }
}

/// The ray rotated into a y-rotated primitive's object space.
pub open spec fn rotate_ray(r: Ray, sin_theta: int, cos_theta: int) -> Ray {
    Ray {
        origin: Vec3 {
            x: Fx { raw: (fmul(cos_theta, r.origin.x@) - fmul(sin_theta, r.origin.z@)) as i64 },
            y: r.origin.y,
            z: Fx { raw: (fmul(sin_theta, r.origin.x@) + fmul(cos_theta, r.origin.z@)) as i64 },
        },
        direction: Vec3 {
            x: Fx {
                raw: (fmul(cos_theta, r.direction.x@) - fmul(sin_theta, r.direction.z@)) as i64,
            },
            y: r.direction.y,
            z: Fx {
                raw: (fmul(sin_theta, r.direction.x@) + fmul(cos_theta, r.direction.z@)) as i64,
            },
        },
        time: r.time,
    }
}

/// The functional model of intersection: the hit parameter (if any) that
/// `Surface::hit` returns for this ray and closed time window.
pub open spec fn surf_hit_t(s: Surface, r: Ray, tmin: int, tmax: int) -> Option<int>
    decreases s,
{
    match s {
        Surface::Sphere(sp) => sphere::sphere_hit_t(sp, r, tmin, tmax),
        Surface::MovingSphere(ms) => moving_sphere::moving_sphere_hit_t(ms, r, tmin, tmax),
        Surface::XYRect(rc) => rect::xy_rect_hit_t(rc, r, tmin, tmax),
        Surface::XZRect(rc) => rect::xz_rect_hit_t(rc, r, tmin, tmax),
        Surface::YZRect(rc) => rect::yz_rect_hit_t(rc, r, tmin, tmax),
        Surface::BoxRect(bx) => box_rect::box_rect_hit_t(bx, r, tmin, tmax),
        Surface::Translate(t) => surf_hit_t(*t.obj, translate_ray(r, t.offset), tmin, tmax),
        Surface::RotateY(ro) => surf_hit_t(
            *ro.obj,
            rotate_ray(r, ro.sin_theta@, ro.cos_theta@),
            tmin,
            tmax,
        ),
    }
}

/// The primitive's bounding box over the shutter window `[time0, time1]`.
pub open spec fn surf_box(s: Surface, time0: int, time1: int) -> Aabb
    decreases s,
{
    match s {
        Surface::Sphere(sp) => sphere::sphere_box(sp),
        Surface::MovingSphere(ms) => moving_sphere::moving_sphere_box(ms, time0, time1),
        Surface::XYRect(rc) => rect::xy_rect_box(rc),
        Surface::XZRect(rc) => rect::xz_rect_box(rc),
        Surface::YZRect(rc) => rect::yz_rect_box(rc),
        Surface::BoxRect(bx) => box_rect::box_rect_box(bx),
        Surface::Translate(t) => {
            let inner = surf_box(*t.obj, time0, time1);
            Aabb {
                min: Vec3 {
                    x: Fx { raw: crate::vec3::clamp_val(inner.min.x@ + t.offset.x@, 0x20_0000_0000) as i64 },
                    y: Fx { raw: crate::vec3::clamp_val(inner.min.y@ + t.offset.y@, 0x20_0000_0000) as i64 },
                    z: Fx { raw: crate::vec3::clamp_val(inner.min.z@ + t.offset.z@, 0x20_0000_0000) as i64 },
                },
                max: Vec3 {
                    x: Fx { raw: crate::vec3::clamp_val(inner.max.x@ + t.offset.x@, 0x20_0000_0000) as i64 },
                    y: Fx { raw: crate::vec3::clamp_val(inner.max.y@ + t.offset.y@, 0x20_0000_0000) as i64 },
                    z: Fx { raw: crate::vec3::clamp_val(inner.max.z@ + t.offset.z@, 0x20_0000_0000) as i64 },
                },
            }
        },
        Surface::RotateY(ro) => ro.bbox,
    }
}

/// The point a record stores for a hit at parameter `t`: the ray walked to
/// `t`, with transform wrappers shifting or rotating it back into world
/// space (clamped into the record range).
pub open spec fn surf_point(s: Surface, r: Ray, t: int) -> Point3
    decreases s,
{
    match s {
        Surface::Translate(tr) => {
            let p = surf_point(*tr.obj, translate_ray(r, tr.offset), t);
            clampv(
                Vec3 {
                    x: Fx { raw: (p.x@ + tr.offset.x@) as i64 },
                    y: Fx { raw: (p.y@ + tr.offset.y@) as i64 },
                    z: Fx { raw: (p.z@ + tr.offset.z@) as i64 },
                },
                0x4_0000_0000_0000,
            )
        },
        Surface::RotateY(ro) => {
            let p = surf_point(*ro.obj, rotate_ray(r, ro.sin_theta@, ro.cos_theta@), t);
            clampv(
                Vec3 {
                    x: Fx {
                        raw: (fmul(ro.cos_theta@, p.x@) + fmul(ro.sin_theta@, p.z@)) as i64,
                    },
                    y: p.y,
                    z: Fx {
                        raw: (-fmul(ro.sin_theta@, p.x@) + fmul(ro.cos_theta@, p.z@)) as i64,
                    },
                },
                0x4_0000_0000_0000,
            )
        },
        _ => at_point(r, t),
    }
}

/// The ray walked to `t`, as a point value.
pub open spec fn at_point(r: Ray, t: int) -> Point3 {
    Vec3 {
        x: Fx { raw: crate::ray::at_axis(r, t, 0) as i64 },
        y: Fx { raw: crate::ray::at_axis(r, t, 1) as i64 },
        z: Fx { raw: crate::ray::at_axis(r, t, 2) as i64 },
    }
}

/// Component-wise clamping of a vector, as the guards store it.
pub open spec fn clampv(v: Vec3, m: int) -> Vec3 {
    Vec3 {
        x: Fx { raw: crate::vec3::clamp_val(v.x@, m) as i64 },
        y: Fx { raw: crate::vec3::clamp_val(v.y@, m) as i64 },
        z: Fx { raw: crate::vec3::clamp_val(v.z@, m) as i64 },
    }
}

/// The normal a record stores for a hit at parameter `t`: the shape's
/// oriented outward normal, rotated back into world space by the wrappers.
pub open spec fn surf_normal(s: Surface, r: Ray, t: int, tmin: int, tmax: int) -> Vec3
    decreases s,
{
    match s {
        Surface::Sphere(sp) => oriented(
            sphere::sphere_outward(sp.centre.x@, sp.centre.y@, sp.centre.z@, sp.radius@, r, t),
            r.direction,
        ),
        Surface::MovingSphere(ms) => oriented(
            sphere::sphere_outward(
                moving_sphere::ms_centre_axis(ms, r.time@, 0),
                moving_sphere::ms_centre_axis(ms, r.time@, 1),
                moving_sphere::ms_centre_axis(ms, r.time@, 2),
                ms.radius@,
                r,
                t,
            ),
            r.direction,
        ),
        Surface::XYRect(_) => oriented(
            Vec3 { x: Fx { raw: 0 }, y: Fx { raw: 0 }, z: Fx { raw: 65536 } },
            r.direction,
        ),
        Surface::XZRect(_) => oriented(
            Vec3 { x: Fx { raw: 0 }, y: Fx { raw: 65536 }, z: Fx { raw: 0 } },
            r.direction,
        ),
        Surface::YZRect(_) => oriented(
            Vec3 { x: Fx { raw: 65536 }, y: Fx { raw: 0 }, z: Fx { raw: 0 } },
            r.direction,
        ),
        Surface::BoxRect(bx) => oriented(
            box_rect::box_unit_normal(box_rect::box_rect_hit_side(bx, r, tmin, tmax)),
            r.direction,
        ),
        Surface::Translate(tr) => surf_normal(*tr.obj, translate_ray(r, tr.offset), t, tmin, tmax),
        Surface::RotateY(ro) => {
            let n = surf_normal(
                *ro.obj,
                rotate_ray(r, ro.sin_theta@, ro.cos_theta@),
                t,
                tmin,
                tmax,
            );
            clampv(
                Vec3 {
                    x: Fx {
                        raw: (fmul(ro.cos_theta@, n.x@) + fmul(ro.sin_theta@, n.z@)) as i64,
                    },
                    y: n.y,
                    z: Fx {
                        raw: (-fmul(ro.sin_theta@, n.x@) + fmul(ro.cos_theta@, n.z@)) as i64,
                    },
                },
                0x100_0000_0000,
            )
        },
    }
}

/// Whether a record stores a front-face hit at parameter `t`: the ray
/// direction opposes the shape's outward normal, judged on the ray as the
/// innermost shape sees it (the wrappers copy the flag unchanged).
pub open spec fn surf_front(s: Surface, r: Ray, t: int, tmin: int, tmax: int) -> bool
    decreases s,
{
    match s {
        Surface::Sphere(sp) => rdot(
            r.direction,
            sphere::sphere_outward(sp.centre.x@, sp.centre.y@, sp.centre.z@, sp.radius@, r, t),
        ) <= 0,
        Surface::MovingSphere(ms) => rdot(
            r.direction,
            sphere::sphere_outward(
                moving_sphere::ms_centre_axis(ms, r.time@, 0),
                moving_sphere::ms_centre_axis(ms, r.time@, 1),
                moving_sphere::ms_centre_axis(ms, r.time@, 2),
                ms.radius@,
                r,
                t,
            ),
        ) <= 0,
        Surface::XYRect(_) => r.direction.z@ <= 0,
        Surface::XZRect(_) => r.direction.y@ <= 0,
        Surface::YZRect(_) => r.direction.x@ <= 0,
        Surface::BoxRect(bx) => box_rect::box_side_front(
            r,
            box_rect::box_rect_hit_side(bx, r, tmin, tmax),
        ),
        Surface::Translate(tr) => surf_front(*tr.obj, translate_ray(r, tr.offset), t, tmin, tmax),
        Surface::RotateY(ro) => surf_front(
            *ro.obj,
            rotate_ray(r, ro.sin_theta@, ro.cos_theta@),
            t,
            tmin,
            tmax,
        ),
    }
}

/// The surface coordinates a record stores for a hit at parameter `t`:
/// the shape's own parameterization, judged on the ray as the innermost
/// shape sees it (the wrappers copy the pair unchanged).
pub open spec fn surf_uv(s: Surface, r: Ray, t: int, tmin: int, tmax: int) -> (int, int)
    decreases s,
{
    match s {
        Surface::Sphere(sp) => sphere::sphere_uv_spec(
            sphere::sphere_outward(sp.centre.x@, sp.centre.y@, sp.centre.z@, sp.radius@, r, t),
        ),
        Surface::MovingSphere(ms) => sphere::sphere_uv_spec(
            sphere::sphere_outward(
                moving_sphere::ms_centre_axis(ms, r.time@, 0),
                moving_sphere::ms_centre_axis(ms, r.time@, 1),
                moving_sphere::ms_centre_axis(ms, r.time@, 2),
                ms.radius@,
                r,
                t,
            ),
        ),
        Surface::XYRect(rc) => (
            crate::fx::fdiv(r.origin.x@ + fmul(t, r.direction.x@) - rc.x0@, rc.x1@ - rc.x0@),
            crate::fx::fdiv(r.origin.y@ + fmul(t, r.direction.y@) - rc.y0@, rc.y1@ - rc.y0@),
        ),
        Surface::XZRect(rc) => (
            crate::fx::fdiv(r.origin.x@ + fmul(t, r.direction.x@) - rc.x0@, rc.x1@ - rc.x0@),
            crate::fx::fdiv(r.origin.z@ + fmul(t, r.direction.z@) - rc.z0@, rc.z1@ - rc.z0@),
        ),
        Surface::YZRect(rc) => (
            crate::fx::fdiv(r.origin.y@ + fmul(t, r.direction.y@) - rc.y0@, rc.y1@ - rc.y0@),
            crate::fx::fdiv(r.origin.z@ + fmul(t, r.direction.z@) - rc.z0@, rc.z1@ - rc.z0@),
        ),
        Surface::BoxRect(bx) => box_rect::box_side_uv(
            bx,
            r,
            t,
            box_rect::box_rect_hit_side(bx, r, tmin, tmax),
        ),
        Surface::Translate(tr) => surf_uv(*tr.obj, translate_ray(r, tr.offset), t, tmin, tmax),
        Surface::RotateY(ro) => surf_uv(
            *ro.obj,
            rotate_ray(r, ro.sin_theta@, ro.cos_theta@),
            t,
            tmin,
            tmax,
        ),
    }
}

/// The material a record stores: the shape's own, with a box picking the
/// face that produced the nearest hit (the wrappers pass it through).
pub open spec fn surf_material(s: Surface, r: Ray, tmin: int, tmax: int) -> Material
    decreases s,
{
    match s {
        Surface::Sphere(sp) => *sp.material,
        Surface::MovingSphere(ms) => *ms.material,
        Surface::XYRect(rc) => *rc.material,
        Surface::XZRect(rc) => *rc.material,
        Surface::YZRect(rc) => *rc.material,
        Surface::BoxRect(bx) => box_rect::box_side_material(
            bx,
            box_rect::box_rect_hit_side(bx, r, tmin, tmax),
        ),
        Surface::Translate(tr) => surf_material(*tr.obj, translate_ray(r, tr.offset), tmin, tmax),
        Surface::RotateY(ro) => surf_material(
            *ro.obj,
            rotate_ray(r, ro.sin_theta@, ro.cos_theta@),
            tmin,
            tmax,
        ),
    }
}

/// A ray acceptable to this primitive's intersection arithmetic.
pub open spec fn ray_ok(s: Surface, r: Ray) -> bool {
    &&& bounded(r.origin, surf_ob(s))
    &&& bounded(r.direction, surf_db(s))
    &&& 0 <= r.time@ <= 65536
}

/// A hit record's fields are within the bounds the rest of the tracer
/// (materials, textures, the integrator) can consume.
pub open spec fn rec_bounds(rec: HitRecord) -> bool {
    &&& bounded(rec.point, 0x4_0000_0000_0000)
    &&& bounded(rec.normal, 0x100_0000_0000)
    &&& 0 <= rec.u@ <= 65536
    &&& 0 <= rec.v@ <= 65536
    &&& crate::material::mat_wf(*rec.material)
}

/// The record `rec`, returned for a hit on `s` that was queried with the
/// window `[tmin, w]`, carries exactly the modelled fields.
pub open spec fn rec_matches(s: Surface, w: int, rec: HitRecord, r: Ray, tmin: int) -> bool {
    &&& rec.point == surf_point(s, r, rec.t@)
    &&& rec.normal == surf_normal(s, r, rec.t@, tmin, w)
    &&& rec.front_face == surf_front(s, r, rec.t@, tmin, w)
    &&& (rec.u@, rec.v@) == surf_uv(s, r, rec.t@, tmin, w)
    &&& *rec.material == surf_material(s, r, tmin, w)
}

/// Two times the halved budget stays within the full budget minus the slack.
pub proof fn lemma_half_budget(ob: int)
    requires
        ob >= 2,
    ensures
        0 <= (ob - 2) / 2,
        2 * ((ob - 2) / 2) <= ob - 2,
{
    vstd::arithmetic::div_mod::lemma_fundamental_div_mod(ob - 2, 2);
    vstd::arithmetic::div_mod::lemma_mod_bound(ob - 2, 2);
    vstd::arithmetic::div_mod::lemma_div_pos_is_pos(ob - 2, 2);
}

/// Multiplying by a factor within `[-1, 1]` keeps a bounded value bounded,
/// with one raw unit of slack for the floor.
pub proof fn lemma_sym_weight_mul(w: int, x: int, m: int)
    requires
        -65536 <= w <= 65536,
        -m <= x <= m,
        0 <= m,
    ensures
        -(m + 1) <= fmul(w, x) <= m + 1,
{
    crate::vec3::lemma_prod_bound(w, x, 65536, m);
    vstd::arithmetic::div_mod::lemma_fundamental_div_mod(w * x, 65536);
    assert(-(m + 1) <= (w * x) / 65536 <= m + 1) by (nonlinear_arith)
        requires
            w * x == 65536 * ((w * x) / 65536) + (w * x) % 65536,
            0 <= (w * x) % 65536 < 65536,
            -(65536 * m) <= w * x <= 65536 * m,
    ;
}

/// The ray budgets never exceed the budgets of an untransformed primitive.
pub proof fn lemma_surf_budgets(s: Surface)
    ensures
        surf_ob(s) <= 0x20_0000_0000,
        surf_db(s) <= 0x80_0000,
    decreases s,
{
    match s {
        Surface::Translate(t) => lemma_surf_budgets(*t.obj),
        Surface::RotateY(ro) => lemma_surf_budgets(*ro.obj),
        _ => {},
    }
}

impl Surface {
    /// Nearest intersection within the closed window `[t_min, t_max]`,
    /// exactly as the functional model `surf_hit_t` decides it.
    pub fn hit(&self, ray: &Ray, t_min: Fx, t_max: Fx) -> (res: Option<HitRecord>)
        requires
            surf_wf(*self),
            ray_ok(*self, *ray),
            -0x100_0000_0000 <= t_min@ <= 0x100_0000_0000,
            -0x100_0000_0000 <= t_max@ <= 0x100_0000_0000,
        ensures
            match res {
                None => surf_hit_t(*self, *ray, t_min@, t_max@) is None,
                Some(rec) => surf_hit_t(*self, *ray, t_min@, t_max@) == Some(rec.t@) && t_min@
                    <= rec.t@ <= t_max@ && rec_bounds(rec) && rec.point == surf_point(
                    *self,
                    *ray,
                    rec.t@,
                ) && rec.normal == surf_normal(*self, *ray, rec.t@, t_min@, t_max@)
                    && rec.front_face == surf_front(*self, *ray, rec.t@, t_min@, t_max@) && (
                rec.u@,
                rec.v@,
                ) == surf_uv(*self, *ray, rec.t@, t_min@, t_max@) && *rec.material == surf_material(
                    *self,
                    *ray,
                    t_min@,
                    t_max@,
                ),
            },
        decreases *self,
    {
        proof {
            lemma_surf_budgets(*self);
        }
        match self {
            Surface::Sphere(sp) => sp.hit(ray, t_min, t_max),
            Surface::MovingSphere(ms) => ms.hit(ray, t_min, t_max),
            Surface::XYRect(rc) => rc.hit(ray, t_min, t_max),
            Surface::XZRect(rc) => rc.hit(ray, t_min, t_max),
            Surface::YZRect(rc) => rc.hit(ray, t_min, t_max),
            Surface::BoxRect(bx) => bx.hit(ray, t_min, t_max),
            Surface::Translate(t) => {
                let moved = Ray::new(ray.origin.sub(t.offset), ray.direction, ray.time);
                proof {
                    assert(moved == translate_ray(*ray, t.offset));
                }
                match t.obj.hit(&moved, t_min, t_max) {
                    None => None,
                    Some(rec) => {
                        let shifted = rec.point.add(t.offset).clamp_components(0x4_0000_0000_0000);
                        Some(
                            HitRecord {
                                point: shifted,
                                normal: rec.normal,
                                t: rec.t,
                                u: rec.u,
                                v: rec.v,
                                front_face: rec.front_face,
                                material: rec.material,
                            },
                        )
                    },
                }
            },
            Surface::RotateY(ro) => {
                let obb = Ghost(surf_ob(*self));
                let dbb = Ghost(surf_db(*self));
                proof {
                    lemma_half_budget(surf_ob(*ro.obj));
                    lemma_half_budget(surf_db(*ro.obj));
                    lemma_sym_weight_mul(ro.cos_theta@, ray.origin.x@, obb@);
                    lemma_sym_weight_mul(ro.sin_theta@, ray.origin.z@, obb@);
                    lemma_sym_weight_mul(ro.sin_theta@, ray.origin.x@, obb@);
                    lemma_sym_weight_mul(ro.cos_theta@, ray.origin.z@, obb@);
                    lemma_sym_weight_mul(ro.cos_theta@, ray.direction.x@, dbb@);
                    lemma_sym_weight_mul(ro.sin_theta@, ray.direction.z@, dbb@);
                    lemma_sym_weight_mul(ro.sin_theta@, ray.direction.x@, dbb@);
                    lemma_sym_weight_mul(ro.cos_theta@, ray.direction.z@, dbb@);
                }
                let origin = Vec3::new(
                    ro.cos_theta.mul(ray.origin.x).sub(ro.sin_theta.mul(ray.origin.z)),
                    ray.origin.y,
                    ro.sin_theta.mul(ray.origin.x).add(ro.cos_theta.mul(ray.origin.z)),
                );
                let direction = Vec3::new(
                    ro.cos_theta.mul(ray.direction.x).sub(ro.sin_theta.mul(ray.direction.z)),
                    ray.direction.y,
                    ro.sin_theta.mul(ray.direction.x).add(ro.cos_theta.mul(ray.direction.z)),
                );
                let rotated = Ray::new(origin, direction, ray.time);
                proof {
                    assert(rotated == rotate_ray(*ray, ro.sin_theta@, ro.cos_theta@));
                }
                match ro.obj.hit(&rotated, t_min, t_max) {
                    None => None,
                    Some(rec) => {
                        proof {
                            lemma_sym_weight_mul(ro.cos_theta@, rec.point.x@, 0x4_0000_0000_0000);
                            lemma_sym_weight_mul(ro.sin_theta@, rec.point.z@, 0x4_0000_0000_0000);
                            lemma_sym_weight_mul(ro.sin_theta@, rec.point.x@, 0x4_0000_0000_0000);
                            lemma_sym_weight_mul(ro.cos_theta@, rec.point.z@, 0x4_0000_0000_0000);
                            lemma_sym_weight_mul(ro.cos_theta@, rec.normal.x@, 0x100_0000_0000);
                            lemma_sym_weight_mul(ro.sin_theta@, rec.normal.z@, 0x100_0000_0000);
                            lemma_sym_weight_mul(ro.sin_theta@, rec.normal.x@, 0x100_0000_0000);
                            lemma_sym_weight_mul(ro.cos_theta@, rec.normal.z@, 0x100_0000_0000);
                        }
                        let p = Vec3::new(
                            ro.cos_theta.mul(rec.point.x).add(ro.sin_theta.mul(rec.point.z)),
                            rec.point.y,
                            ro.sin_theta.mul(rec.point.x).neg().add(
                                ro.cos_theta.mul(rec.point.z),
                            ),
                        ).clamp_components(0x4_0000_0000_0000);
                        let n = Vec3::new(
                            ro.cos_theta.mul(rec.normal.x).add(ro.sin_theta.mul(rec.normal.z)),
                            rec.normal.y,
                            ro.sin_theta.mul(rec.normal.x).neg().add(
                                ro.cos_theta.mul(rec.normal.z),
                            ),
                        ).clamp_components(0x100_0000_0000);
                        Some(
                            HitRecord {
                                point: p,
                                normal: n,
                                t: rec.t,
                                u: rec.u,
                                v: rec.v,
                                front_face: rec.front_face,
                                material: rec.material,
                            },
                        )
                    },
                }
            },
        }
    }

    /// The primitive's bounding box; every primitive in this family has one.
    pub fn bounding_box(&self, time0: Fx, time1: Fx) -> (res: Option<Aabb>)
        requires
            surf_wf(*self),
            0 <= time0@ <= time1@ <= 65536,
        ensures
            res == Some(surf_box(*self, time0@, time1@)),
            crate::aabb::aabb_wf(surf_box(*self, time0@, time1@)),
            crate::aabb::aabb_ordered(surf_box(*self, time0@, time1@)),
        decreases *self,
    {
        match self {
            Surface::Sphere(sp) => sp.bounding_box(time0, time1),
            Surface::MovingSphere(ms) => ms.bounding_box(time0, time1),
            Surface::XYRect(rc) => rc.bounding_box(time0, time1),
            Surface::XZRect(rc) => rc.bounding_box(time0, time1),
            Surface::YZRect(rc) => rc.bounding_box(time0, time1),
            Surface::BoxRect(bx) => bx.bounding_box(time0, time1),
            Surface::Translate(t) => {
                match t.obj.bounding_box(time0, time1) {
                    None => None,
                    Some(inner) => Some(
                        Aabb::new(
                            inner.min.add(t.offset).clamp_components(0x20_0000_0000),
                            inner.max.add(t.offset).clamp_components(0x20_0000_0000),
                        ),
                    ),
                }
            },
            Surface::RotateY(ro) => Some(ro.bbox),
        }
    }
}

} // verus!
