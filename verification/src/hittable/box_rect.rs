//! An axis-aligned box: exactly six rectangles, one per face.  Its hit is the
//! nearest hit among the sides, found by narrowing the window as the sides
//! are tried in a fixed order; `box_rect_hit_t` models that fold exactly.

use std::sync::Arc;

use vstd::prelude::*;

use crate::aabb::Aabb;
use crate::fx::Fx;
use crate::hittable::rect::{
    xy_rect_hit_t, xy_rect_wf, xz_rect_hit_t, xz_rect_wf, yz_rect_hit_t, yz_rect_wf, XYRect,
    XZRect, YZRect,
};
use crate::hittable::HitRecord;
use crate::material::Material;
use crate::ray::Ray;
use crate::vec3::{bounded, Point3, Vec3};

verus! {

pub struct BoxRect {
    pub box_min: Point3,
    pub box_max: Point3,
    pub side_z0: XYRect,
    pub side_z1: XYRect,
    pub side_y0: XZRect,
    pub side_y1: XZRect,
    pub side_x0: YZRect,
    pub side_x1: YZRect,
}

pub open spec fn box_rect_wf(bx: BoxRect) -> bool {
    &&& bounded(bx.box_min, 0x10_0000_0000)
    &&& bounded(bx.box_max, 0x10_0000_0000)
    &&& bx.box_min.x@ <= bx.box_max.x@
    &&& bx.box_min.y@ <= bx.box_max.y@
    &&& bx.box_min.z@ <= bx.box_max.z@
    &&& xy_rect_wf(bx.side_z0)
    &&& xy_rect_wf(bx.side_z1)
    &&& xz_rect_wf(bx.side_y0)
    &&& xz_rect_wf(bx.side_y1)
    &&& yz_rect_wf(bx.side_x0)
    &&& yz_rect_wf(bx.side_x1)
}

/// Fold a side's result into the best so far.
pub open spec fn upd_best(best: Option<int>, nxt: Option<int>) -> Option<int> {
    match nxt {
        Some(t) => Some(t),
        None => best,
    }
}

/// The window ceiling after a partial fold.
pub open spec fn win_of(best: Option<int>, tmax: int) -> int {
    match best {
        Some(t) => t,
        None => tmax,
    }
}

/// The nearest hit over the six sides, tried in construction order with the
/// narrowed window.
pub open spec fn box_rect_hit_t(bx: BoxRect, r: Ray, tmin: int, tmax: int) -> Option<int> {
    let b1 = upd_best(None, xy_rect_hit_t(bx.side_z0, r, tmin, tmax));
    let b2 = upd_best(b1, xy_rect_hit_t(bx.side_z1, r, tmin, win_of(b1, tmax)));
    let b3 = upd_best(b2, xz_rect_hit_t(bx.side_y0, r, tmin, win_of(b2, tmax)));
    let b4 = upd_best(b3, xz_rect_hit_t(bx.side_y1, r, tmin, win_of(b3, tmax)));
    let b5 = upd_best(b4, yz_rect_hit_t(bx.side_x0, r, tmin, win_of(b4, tmax)));
    upd_best(b5, yz_rect_hit_t(bx.side_x1, r, tmin, win_of(b5, tmax)))
}

/// Which face produced the nearest hit, numbered in construction order:
/// 1 and 2 the XY faces at the low and high z plane, 3 and 4 the XZ faces,
/// 5 and 6 the YZ faces (the later-tried face wins a tie, matching the
/// fold).
pub open spec fn box_rect_hit_side(bx: BoxRect, r: Ray, tmin: int, tmax: int) -> int {
    let b1 = upd_best(None, xy_rect_hit_t(bx.side_z0, r, tmin, tmax));
    let b2 = upd_best(b1, xy_rect_hit_t(bx.side_z1, r, tmin, win_of(b1, tmax)));
    let b3 = upd_best(b2, xz_rect_hit_t(bx.side_y0, r, tmin, win_of(b2, tmax)));
    let b4 = upd_best(b3, xz_rect_hit_t(bx.side_y1, r, tmin, win_of(b3, tmax)));
    let b5 = upd_best(b4, yz_rect_hit_t(bx.side_x0, r, tmin, win_of(b4, tmax)));
    if yz_rect_hit_t(bx.side_x1, r, tmin, win_of(b5, tmax)) is Some {
        6
    } else if yz_rect_hit_t(bx.side_x0, r, tmin, win_of(b4, tmax)) is Some {
        5
    } else if xz_rect_hit_t(bx.side_y1, r, tmin, win_of(b3, tmax)) is Some {
        4
    } else if xz_rect_hit_t(bx.side_y0, r, tmin, win_of(b2, tmax)) is Some {
        3
    } else if xy_rect_hit_t(bx.side_z1, r, tmin, win_of(b1, tmax)) is Some {
        2
    } else {
        1
    }
}

/// The outward unit normal of a face.
pub open spec fn box_unit_normal(side: int) -> Vec3 {
    if side >= 5 {
        Vec3 { x: Fx { raw: 65536 }, y: Fx { raw: 0 }, z: Fx { raw: 0 } }
    } else if side >= 3 {
        Vec3 { x: Fx { raw: 0 }, y: Fx { raw: 65536 }, z: Fx { raw: 0 } }
    } else {
        Vec3 { x: Fx { raw: 0 }, y: Fx { raw: 0 }, z: Fx { raw: 65536 } }
    }
}

/// Whether a hit on a face is front-facing: the ray direction opposes the
/// face family's outward axis.
pub open spec fn box_side_front(r: Ray, side: int) -> bool {
    if side >= 5 {
        r.direction.x@ <= 0
    } else if side >= 3 {
        r.direction.y@ <= 0
    } else {
        r.direction.z@ <= 0
    }
}

/// The material of a face, by its number.
pub open spec fn box_side_material(bx: BoxRect, side: int) -> crate::material::Material {
    if side == 6 {
        *bx.side_x1.material
    } else if side == 5 {
        *bx.side_x0.material
    } else if side == 4 {
        *bx.side_y1.material
    } else if side == 3 {
        *bx.side_y0.material
    } else if side == 2 {
        *bx.side_z1.material
    } else {
        *bx.side_z0.material
    }
}

/// The surface coordinates of a hit at parameter `t` on a face: the face's
/// normalized in-plane offsets.
pub open spec fn box_side_uv(bx: BoxRect, r: Ray, t: int, side: int) -> (int, int) {
    if side >= 5 {
        let rc = if side == 6 {
            bx.side_x1
        } else {
            bx.side_x0
        };
        (
            crate::fx::fdiv(r.origin.y@ + crate::fx::fmul(t, r.direction.y@) - rc.y0@, rc.y1@
                - rc.y0@),
            crate::fx::fdiv(r.origin.z@ + crate::fx::fmul(t, r.direction.z@) - rc.z0@, rc.z1@
                - rc.z0@),
        )
    } else if side >= 3 {
        let rc = if side == 4 {
            bx.side_y1
        } else {
            bx.side_y0
        };
        (
            crate::fx::fdiv(r.origin.x@ + crate::fx::fmul(t, r.direction.x@) - rc.x0@, rc.x1@
                - rc.x0@),
            crate::fx::fdiv(r.origin.z@ + crate::fx::fmul(t, r.direction.z@) - rc.z0@, rc.z1@
                - rc.z0@),
        )
    } else {
        let rc = if side == 2 {
            bx.side_z1
        } else {
            bx.side_z0
        };
        (
            crate::fx::fdiv(r.origin.x@ + crate::fx::fmul(t, r.direction.x@) - rc.x0@, rc.x1@
                - rc.x0@),
            crate::fx::fdiv(r.origin.y@ + crate::fx::fmul(t, r.direction.y@) - rc.y0@, rc.y1@
                - rc.y0@),
        )
    }
}

/// The exact corner-to-corner box.
pub open spec fn box_rect_box(bx: BoxRect) -> Aabb {
    let pad = crate::hittable::rect::RECT_PAD as int;
    Aabb {
        min: Vec3 {
            x: Fx { raw: (bx.box_min.x@ - pad) as i64 },
            y: Fx { raw: (bx.box_min.y@ - pad) as i64 },
            z: Fx { raw: (bx.box_min.z@ - pad) as i64 },
        },
        max: Vec3 {
            x: Fx { raw: (bx.box_max.x@ + pad) as i64 },
            y: Fx { raw: (bx.box_max.y@ + pad) as i64 },
            z: Fx { raw: (bx.box_max.z@ + pad) as i64 },
        },
    }
}

impl BoxRect {
    /// Six faces, one per side of the corner pair, all sharing one material.
    pub fn new(box_min: Point3, box_max: Point3, material: Arc<Material>) -> (r: BoxRect)
        requires
            bounded(box_min, 0x10_0000_0000),
            bounded(box_max, 0x10_0000_0000),
            box_min.x@ < box_max.x@,
            box_min.y@ < box_max.y@,
            box_min.z@ < box_max.z@,
            crate::material::mat_wf(*material),
        ensures
            box_rect_wf(r),
            r.box_min == box_min && r.box_max == box_max,
            r.side_z0 == (XYRect {
                x0: box_min.x,
                x1: box_max.x,
                y0: box_min.y,
                y1: box_max.y,
                k: box_min.z,
                material: material,
            }),
            r.side_z1 == (XYRect {
                x0: box_min.x,
                x1: box_max.x,
                y0: box_min.y,
                y1: box_max.y,
                k: box_max.z,
                material: material,
            }),
            r.side_y0 == (XZRect {
                x0: box_min.x,
                x1: box_max.x,
                z0: box_min.z,
                z1: box_max.z,
                k: box_min.y,
                material: material,
            }),
            r.side_y1 == (XZRect {
                x0: box_min.x,
                x1: box_max.x,
                z0: box_min.z,
                z1: box_max.z,
                k: box_max.y,
                material: material,
            }),
            r.side_x0 == (YZRect {
                y0: box_min.y,
                y1: box_max.y,
                z0: box_min.z,
                z1: box_max.z,
                k: box_min.x,
                material: material,
            }),
            r.side_x1 == (YZRect {
                y0: box_min.y,
                y1: box_max.y,
                z0: box_min.z,
                z1: box_max.z,
                k: box_max.x,
                material: material,
            }),
    {
        let side_z0 = XYRect::new(
            box_min.x,
            box_max.x,
            box_min.y,
            box_max.y,
            box_min.z,
            Arc::clone(&material),
        );
        let side_z1 = XYRect::new(
            box_min.x,
            box_max.x,
            box_min.y,
            box_max.y,
            box_max.z,
            Arc::clone(&material),
        );
        let side_y0 = XZRect::new(
            box_min.x,
            box_max.x,
            box_min.z,
            box_max.z,
            box_min.y,
            Arc::clone(&material),
        );
        let side_y1 = XZRect::new(
            box_min.x,
            box_max.x,
            box_min.z,
            box_max.z,
            box_max.y,
            Arc::clone(&material),
        );
        let side_x0 = YZRect::new(
            box_min.y,
            box_max.y,
            box_min.z,
            box_max.z,
            box_min.x,
            Arc::clone(&material),
        );
        let side_x1 = YZRect::new(
            box_min.y,
            box_max.y,
            box_min.z,
            box_max.z,
            box_max.x,
            material,
        );
        BoxRect { box_min, box_max, side_z0, side_z1, side_y0, side_y1, side_x0, side_x1 }
    }

    /// The nearest of the six face hits.
    pub fn hit(&self, ray: &Ray, t_min: Fx, t_max: Fx) -> (res: Option<HitRecord>)
        requires
            box_rect_wf(*self),
            bounded(ray.origin, 0x20_0000_0000),
            bounded(ray.direction, 0x80_0000),
            0 <= ray.time@ <= 65536,
            -0x100_0000_0000 <= t_min@ <= 0x100_0000_0000,
            -0x100_0000_0000 <= t_max@ <= 0x100_0000_0000,
        ensures
            match res {
                None => box_rect_hit_t(*self, *ray, t_min@, t_max@) is None,
                Some(rec) => box_rect_hit_t(*self, *ray, t_min@, t_max@) == Some(rec.t@) && t_min@
                    <= rec.t@ <= t_max@ && crate::hittable::rec_bounds(rec) && rec.point.x@
                    == crate::ray::at_axis(*ray, rec.t@, 0) && rec.point.y@ == crate::ray::at_axis(
                    *ray,
                    rec.t@,
                    1,
                ) && rec.point.z@ == crate::ray::at_axis(*ray, rec.t@, 2) && rec.normal
                    == crate::hittable::oriented(
                    box_unit_normal(box_rect_hit_side(*self, *ray, t_min@, t_max@)),
                    ray.direction,
                ) && rec.front_face == box_side_front(
                    *ray,
                    box_rect_hit_side(*self, *ray, t_min@, t_max@),
                ) && *rec.material == box_side_material(
                    *self,
                    box_rect_hit_side(*self, *ray, t_min@, t_max@),
                ) && (rec.u@, rec.v@) == box_side_uv(
                    *self,
                    *ray,
                    rec.t@,
                    box_rect_hit_side(*self, *ray, t_min@, t_max@),
                ),
            },
    {
        let mut best: Option<HitRecord> = None;
        let mut closest = t_max;
        match self.side_z0.hit(ray, t_min, closest) {
            Some(rec) => {
                closest = rec.t;
                best = Some(rec);
            },
            None => {},
        }
        match self.side_z1.hit(ray, t_min, closest) {
            Some(rec) => {
                closest = rec.t;
                best = Some(rec);
            },
            None => {},
        }
        match self.side_y0.hit(ray, t_min, closest) {
            Some(rec) => {
                closest = rec.t;
                best = Some(rec);
            },
            None => {},
        }
        match self.side_y1.hit(ray, t_min, closest) {
            Some(rec) => {
                closest = rec.t;
                best = Some(rec);
            },
            None => {},
        }
        match self.side_x0.hit(ray, t_min, closest) {
            Some(rec) => {
                closest = rec.t;
                best = Some(rec);
            },
            None => {},
        }
        match self.side_x1.hit(ray, t_min, closest) {
            Some(rec) => {
                closest = rec.t;
                best = Some(rec);
            },
            None => {},
        }
        best
    }

    pub fn bounding_box(&self, _time0: Fx, _time1: Fx) -> (res: Option<Aabb>)
        requires
            box_rect_wf(*self),
        ensures
            res == Some(box_rect_box(*self)),
            crate::aabb::aabb_wf(box_rect_box(*self)),
            crate::aabb::aabb_ordered(box_rect_box(*self)),
    {
        let pad = Vec3::splat(Fx { raw: crate::hittable::rect::RECT_PAD });
        Some(Aabb::new(self.box_min.sub(pad), self.box_max.add(pad)))
    }
}

} // verus!
