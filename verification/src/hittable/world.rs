//! The scene container: a flat list of objects (primitives, media and BVH
//! trees) scanned linearly for the nearest hit, narrowing the window to the
//! best hit found so far.  For a fully deterministic list the result's
//! parameter is exactly the fold `nearest_t`; the equivalence of that fold
//! with BVH traversal is this module's main law, `lemma_bvh_matches_scan`.

use vstd::prelude::*;

use crate::aabb::Aabb;
use crate::fx::Fx;
use crate::hittable::box_rect::{upd_best, win_of};
use crate::hittable::bvh::{
    box_contains, bvh_bound, bvh_hit_t, bvh_objs, bvh_wf, world_ray_ok, Bvh,
};
use crate::hittable::constant_medium::{medium_wf, ConstantMedium};
use crate::hittable::{rec_bounds, surf_box, surf_hit_t, surf_wf, HitRecord, Surface};
use crate::ray::Ray;
use crate::rng::Rng;

verus! {

/// Anything a scene can hold.
pub enum Object {
    Surface(Surface),
    Medium(ConstantMedium),
    Tree(Bvh),
}

pub open spec fn object_wf(o: Object, time0: int, time1: int) -> bool {
    match o {
        Object::Surface(s) => surf_wf(s),
        Object::Medium(m) => medium_wf(m),
        Object::Tree(b) => bvh_wf(b, time0, time1),
    }
}

/// Media interact at random; everything else is deterministic.
pub open spec fn object_det(o: Object) -> bool {
    !(o is Medium)
}

/// The deterministic hit parameter of a surface or tree.
pub open spec fn object_hit_t(o: Object, r: Ray, tmin: int, tmax: int) -> Option<int> {
    match o {
        Object::Surface(s) => surf_hit_t(s, r, tmin, tmax),
        Object::Medium(_) => None,
        Object::Tree(b) => bvh_hit_t(b, r, tmin, tmax),
    }
}

/// The linear scan over a deterministic list: each object is tried with the
/// window narrowed to the best hit so far, in order.
pub open spec fn nearest_t(objs: Seq<Object>, r: Ray, tmin: int, tmax: int) -> Option<int>
    decreases objs.len(),
{
    if objs.len() == 0 {
        None
    } else {
        let prefix = nearest_t(objs.drop_last(), r, tmin, tmax);
        upd_best(prefix, object_hit_t(objs.last(), r, tmin, win_of(prefix, tmax)))
    }
}

/// The primitive whose record a hit on `o` returns, with the upper window
/// bound its intersection was queried with; a medium's record is sampled at
/// random and has no deterministic winner.
pub open spec fn object_winner(o: Object, r: Ray, tmin: int, tmax: int) -> Option<(Surface, int)> {
    match o {
        Object::Surface(s) => if surf_hit_t(s, r, tmin, tmax) is Some {
            Some((s, tmax))
        } else {
            None
        },
        Object::Medium(_) => None,
        Object::Tree(b) => crate::hittable::bvh::bvh_winner(b, r, tmin, tmax),
    }
}

/// The primitive whose record the linear scan returns, with the window bound
/// of the call that produced it: the last object whose narrowed query hits.
pub open spec fn scan_winner(objs: Seq<Object>, r: Ray, tmin: int, tmax: int) -> Option<
    (Surface, int),
>
    decreases objs.len(),
{
    if objs.len() == 0 {
        None
    } else {
        let prefix = nearest_t(objs.drop_last(), r, tmin, tmax);
        let w = win_of(prefix, tmax);
        if object_hit_t(objs.last(), r, tmin, w) is Some {
            object_winner(objs.last(), r, tmin, w)
        } else {
            scan_winner(objs.drop_last(), r, tmin, tmax)
        }
    }
}

pub struct World {
    pub objects: Vec<Object>,
}

pub open spec fn world_wf(w: World, time0: int, time1: int) -> bool {
    forall|i: int| 0 <= i < w.objects@.len() ==> object_wf(#[trigger] w.objects@[i], time0, time1)
}

/// The bounding box an object reports: a surface's own box, a medium's
/// boundary box, a tree's stored bound.
pub open spec fn object_box(o: Object, time0: int, time1: int) -> Aabb {
    match o {
        Object::Surface(s) => surf_box(s, time0, time1),
        Object::Medium(m) => surf_box(*m.boundary, time0, time1),
        Object::Tree(b) => bvh_bound(b),
    }
}

/// Containment is reflexive and transitive (component-wise).
proof fn lemma_box_contains_trans(a: Aabb, b: Aabb, c: Aabb)
    requires
        box_contains(a, b),
        box_contains(b, c),
    ensures
        box_contains(a, c),
{
    assert forall|ax: int|
        #![trigger crate::vec3::axis(a.min, ax)]
        #![trigger crate::vec3::axis(a.max, ax)]
        #![trigger crate::vec3::axis(c.min, ax)]
        #![trigger crate::vec3::axis(c.max, ax)]
        0 <= ax < 3 implies crate::vec3::axis(a.min, ax) <= crate::vec3::axis(c.min, ax)
        && crate::vec3::axis(c.max, ax) <= crate::vec3::axis(a.max, ax) by {
        assert(crate::vec3::axis(a.min, ax) <= crate::vec3::axis(b.min, ax));
        assert(crate::vec3::axis(b.min, ax) <= crate::vec3::axis(c.min, ax));
        assert(crate::vec3::axis(c.max, ax) <= crate::vec3::axis(b.max, ax));
        assert(crate::vec3::axis(b.max, ax) <= crate::vec3::axis(a.max, ax));
    }
}

/// A union contains both of its arguments.
proof fn lemma_union_contains(a: Aabb, b: Aabb)
    ensures
        box_contains(crate::aabb::box_union(a, b), a),
        box_contains(crate::aabb::box_union(a, b), b),
{
    let u = crate::aabb::box_union(a, b);
    assert forall|ax: int|
        #![trigger crate::vec3::axis(u.min, ax)]
        #![trigger crate::vec3::axis(u.max, ax)]
        0 <= ax < 3 implies crate::vec3::axis(u.min, ax) <= crate::vec3::axis(a.min, ax)
        && crate::vec3::axis(a.max, ax) <= crate::vec3::axis(u.max, ax) && crate::vec3::axis(
        u.min,
        ax,
    ) <= crate::vec3::axis(b.min, ax) && crate::vec3::axis(b.max, ax) <= crate::vec3::axis(
        u.max,
        ax,
    ) by {
        if ax == 0 {
        } else if ax == 1 {
        } else {
        }
    }
}

/// Every box contains itself.
proof fn lemma_box_contains_refl(a: Aabb)
    ensures
        box_contains(a, a),
{
}

/// Every object in the list is deterministic.
pub open spec fn world_det(w: World) -> bool {
    forall|i: int| 0 <= i < w.objects@.len() ==> object_det(#[trigger] w.objects@[i])
}

impl World {
    pub fn new() -> (r: World)
        ensures
            r.objects@ =~= Seq::<Object>::empty(),
    {
        World { objects: Vec::new() }
    }

    pub fn push(&mut self, o: Object) -> (r: ())
        ensures
            final(self).objects@ == old(self).objects@.push(o),
    {
        self.objects.push(o);
    }

    pub fn len(&self) -> (r: usize)
        ensures
            r == self.objects@.len(),
    {
        self.objects.len()
    }

    /// Scan every object for the nearest hit.  A returned record lies in the
    /// window; when the list is deterministic its parameter is exactly the
    /// fold `nearest_t`.
    pub fn hit(&self, rng: &mut Rng, ray: &Ray, t_min: Fx, t_max: Fx) -> (res: Option<HitRecord>)
        requires
            exists|t0: int, t1: int| world_wf(*self, t0, t1),
            world_ray_ok(*ray),
            -0x100_0000_0000 <= t_min@ <= 0x100_0000_0000,
            -0x100_0000_0000 <= t_max@ <= 0x100_0000_0000,
        ensures
            match res {
                None => world_det(*self) ==> nearest_t(self.objects@, *ray, t_min@, t_max@)
                    is None,
                Some(rec) => t_min@ <= rec.t@ <= t_max@ && rec_bounds(rec) && (world_det(*self)
                    ==> nearest_t(self.objects@, *ray, t_min@, t_max@) == Some(rec.t@) && (
                scan_winner(self.objects@, *ray, t_min@, t_max@) matches Some(sw)
                    && crate::hittable::rec_matches(sw.0, sw.1, rec, *ray, t_min@))),
            },
    {
        let ghost (gt0, gt1) = choose|t0: int, t1: int| world_wf(*self, t0, t1);
        let mut closest: Option<HitRecord> = None;
        let mut closest_so_far = t_max;
        let mut i: usize = 0;
        while i < self.objects.len()
            invariant
                world_wf(*self, gt0, gt1),
                world_ray_ok(*ray),
                -0x100_0000_0000 <= t_min@ <= 0x100_0000_0000,
                -0x100_0000_0000 <= t_max@ <= 0x100_0000_0000,
                i <= self.objects@.len(),
                match closest {
                    None => closest_so_far == t_max && ((forall|k: int|
                        0 <= k < i ==> object_det(#[trigger] self.objects@[k])) ==> nearest_t(
                        self.objects@.subrange(0, i as int),
                        *ray,
                        t_min@,
                        t_max@,
                    ) is None),
                    Some(rec) => t_min@ <= rec.t@ <= t_max@ && rec_bounds(rec) && closest_so_far
                        == rec.t && ((forall|k: int|
                        0 <= k < i ==> object_det(#[trigger] self.objects@[k])) ==> nearest_t(
                        self.objects@.subrange(0, i as int),
                        *ray,
                        t_min@,
                        t_max@,
                    ) == Some(rec.t@) && (scan_winner(
                        self.objects@.subrange(0, i as int),
                        *ray,
                        t_min@,
                        t_max@,
                    ) matches Some(sw) && crate::hittable::rec_matches(
                        sw.0,
                        sw.1,
                        rec,
                        *ray,
                        t_min@,
                    ))),
                },
            decreases self.objects@.len() - i,
        {
            proof {
                assert(object_wf(self.objects@[i as int], gt0, gt1));
            }
            let nxt = match &self.objects[i] {
                Object::Surface(s) => s.hit(ray, t_min, closest_so_far),
                Object::Medium(m) => m.hit(rng, ray, t_min, closest_so_far),
                Object::Tree(b) => b.hit(ray, t_min, closest_so_far),
            };
            proof {
                assert(self.objects@.subrange(0, i + 1).drop_last() =~= self.objects@.subrange(
                    0,
                    i as int,
                ));
                assert(self.objects@.subrange(0, i + 1).last() == self.objects@[i as int]);
            }
            match nxt {
                Some(rec) => {
                    closest_so_far = rec.t;
                    closest = Some(rec);
                },
                None => {},
            }
            i = i + 1;
        }
        proof {
            assert(self.objects@.subrange(0, self.objects@.len() as int) =~= self.objects@);
        }
        closest
    }

    /// The union of the objects' boxes, or nothing for an empty list: a
    /// returned box contains every member's box over the window.
    pub fn bounding_box(&self, time0: Fx, time1: Fx) -> (res: Option<Aabb>)
        requires
            exists|t0: int, t1: int| world_wf(*self, t0, t1),
            0 <= time0@ <= time1@ <= 65536,
        ensures
            res is Some <==> self.objects@.len() > 0,
            res matches Some(b) ==> forall|i: int|
                0 <= i < self.objects@.len() ==> box_contains(
                    b,
                    object_box(#[trigger] self.objects@[i], time0@, time1@),
                ),
    {
        let ghost (gt0, gt1) = choose|t0: int, t1: int| world_wf(*self, t0, t1);
        if self.objects.len() == 0 {
            return None;
        }
        let mut output: Option<Aabb> = None;
        let mut i: usize = 0;
        while i < self.objects.len()
            invariant
                world_wf(*self, gt0, gt1),
                0 <= time0@ <= time1@ <= 65536,
                i <= self.objects@.len(),
                output is Some <==> i > 0,
                output matches Some(b) ==> forall|k: int|
                    0 <= k < i ==> box_contains(
                        b,
                        object_box(#[trigger] self.objects@[k], time0@, time1@),
                    ),
            decreases self.objects@.len() - i,
        {
            proof {
                assert(object_wf(self.objects@[i as int], gt0, gt1));
            }
            let temp_box = match &self.objects[i] {
                Object::Surface(s) => s.bounding_box(time0, time1),
                Object::Medium(m) => m.bounding_box(time0, time1),
                Object::Tree(b) => b.bounding_box(time0, time1),
            };
            proof {
                assert(temp_box == Some(object_box(self.objects@[i as int], time0@, time1@)));
            }
            output = match (output, temp_box) {
                (None, tb) => {
                    proof {
                        if tb is Some {
                            lemma_box_contains_refl(tb->Some_0);
                        }
                    }
                    tb
                },
                (Some(ob), None) => Some(ob),
                (Some(ob), Some(tb)) => {
                    proof {
                        lemma_union_contains(tb, ob);
                        assert forall|k: int|
                            0 <= k < i implies box_contains(
                            crate::aabb::box_union(tb, ob),
                            object_box(#[trigger] self.objects@[k], time0@, time1@),
                        ) by {
                            lemma_box_contains_trans(
                                crate::aabb::box_union(tb, ob),
                                ob,
                                object_box(self.objects@[k], time0@, time1@),
                            );
                        }
                    }
                    Some(Aabb::surrounding_box(tb, ob))
                },
            };
            i = i + 1;
        }
        output
    }
}

/// Every hit of the primitive by an in-budget ray, in any window, stays
/// inside its box over the build window: the premise under which BVH
/// pruning is complete.  It is discharged below for the rectangle family.
pub open spec fn hits_boxed(s: Surface, time0: int, time1: int) -> bool {
    forall|r: Ray, tmin: int, tmax: int|
        world_ray_ok(r) && (#[trigger] surf_hit_t(s, r, tmin, tmax)) is Some
            ==> crate::aabb::hit_spec(surf_box(s, time0, time1), r, tmin, tmax)
}

/// The raw inequalities behind a rectangle hit: at the found parameter the
/// ray's coordinates lie within the padded extents on every axis, because
/// the flat-axis remainder is under the direction budget and the in-plane
/// rounding is under one raw unit.
proof fn lemma_rect_axis_bounds(
    ok: int,
    dk: int,
    oa: int,
    da: int,
    ob: int,
    db: int,
    k: int,
    a0: int,
    a1: int,
    b0: int,
    b1: int,
    tmin: int,
    tmax: int,
    t: int,
)
    requires
        crate::hittable::rect::rect_hit_t(ok, dk, oa, da, ob, db, k, a0, a1, b0, b1, tmin, tmax)
            == Some(t),
        -0x3F_0000 <= dk <= 0x3F_0000,
        -0x3F_0000 <= da <= 0x3F_0000,
        -0x3F_0000 <= db <= 0x3F_0000,
        -0x8_0000_0000 <= ok <= 0x8_0000_0000,
        -0x8_0000_0000 <= oa <= 0x8_0000_0000,
        -0x8_0000_0000 <= ob <= 0x8_0000_0000,
        -0x10_0000_0000 <= k <= 0x10_0000_0000,
    ensures
        (k - 128) * 65536 <= ok * 65536 + t * dk <= (k + 128) * 65536,
        (a0 - 128) * 65536 <= oa * 65536 + t * da <= (a1 + 128) * 65536,
        (b0 - 128) * 65536 <= ob * 65536 + t * db <= (b1 + 128) * 65536,
        crate::fx::fits64(t),
{
    let num = (k - ok) * 65536;
    vstd::arithmetic::div_mod::lemma_fundamental_div_mod(num, dk);
    if dk > 0 {
        vstd::arithmetic::div_mod::lemma_mod_bound(num, dk);
    } else {
        assert(0 <= num % dk < -dk) by (nonlinear_arith)
            requires dk < 0,
        ;
    }
    // ok * 65536 + t * dk == k * 65536 - (num % dk), and the remainder is
    // under the 128-unit pad.
    assert((k - 128) * 65536 <= ok * 65536 + t * dk <= (k + 128) * 65536 && crate::fx::fits64(t))
        by (nonlinear_arith)
        requires
            num == (k - ok) * 65536,
            num == dk * t + num % dk,
            0 <= num % dk < if dk > 0 { dk } else { -dk },
            -0x3F_0000 <= dk <= 0x3F_0000,
            dk != 0,
            -0x8_0000_0000 <= ok <= 0x8_0000_0000,
            -0x10_0000_0000 <= k <= 0x10_0000_0000,
    ;
    let fa = crate::fx::fmul(t, da);
    vstd::arithmetic::div_mod::lemma_fundamental_div_mod(t * da, 65536);
    vstd::arithmetic::div_mod::lemma_mod_bound(t * da, 65536);
    assert((a0 - 128) * 65536 <= oa * 65536 + t * da <= (a1 + 128) * 65536) by (nonlinear_arith)
        requires
            t * da == 65536 * fa + (t * da) % 65536,
            0 <= (t * da) % 65536 < 65536,
            a0 <= oa + fa <= a1,
    ;
    let fb = crate::fx::fmul(t, db);
    vstd::arithmetic::div_mod::lemma_fundamental_div_mod(t * db, 65536);
    vstd::arithmetic::div_mod::lemma_mod_bound(t * db, 65536);
    assert((b0 - 128) * 65536 <= ob * 65536 + t * db <= (b1 + 128) * 65536) by (nonlinear_arith)
        requires
            t * db == 65536 * fb + (t * db) % 65536,
            0 <= (t * db) % 65536 < 65536,
            b0 <= ob + fb <= b1,
    ;
}

/// A rectangle's hits stay inside its padded box: the BVH premise holds for
/// the whole rectangle family.
pub proof fn lemma_xy_rect_hits_boxed(rc: crate::hittable::rect::XYRect, time0: int, time1: int)
    requires
        crate::hittable::rect::xy_rect_wf(rc),
    ensures
        hits_boxed(Surface::XYRect(rc), time0, time1),
{
    let s = Surface::XYRect(rc);
    let bx = surf_box(s, time0, time1);
    assert forall|r: Ray, tmin: int, tmax: int|
        world_ray_ok(r) && (#[trigger] surf_hit_t(s, r, tmin, tmax)) is Some implies
        crate::aabb::hit_spec(bx, r, tmin, tmax) by {
        let t = surf_hit_t(s, r, tmin, tmax)->Some_0;
        lemma_rect_axis_bounds(r.origin.z@, r.direction.z@, r.origin.x@, r.direction.x@,
            r.origin.y@, r.direction.y@, rc.k@, rc.x0@, rc.x1@, rc.y0@, rc.y1@, tmin, tmax, t);
        let w = crate::aabb::Rat { n: t as i64, d: 1 };
        assert(crate::aabb::contact_at(bx, r, w));
        assert(tmin * w.d <= w.n && w.n <= tmax * w.d);
    }
}

/// The same, for rectangles in the xz plane.
pub proof fn lemma_xz_rect_hits_boxed(rc: crate::hittable::rect::XZRect, time0: int, time1: int)
    requires
        crate::hittable::rect::xz_rect_wf(rc),
    ensures
        hits_boxed(Surface::XZRect(rc), time0, time1),
{
    let s = Surface::XZRect(rc);
    let bx = surf_box(s, time0, time1);
    assert forall|r: Ray, tmin: int, tmax: int|
        world_ray_ok(r) && (#[trigger] surf_hit_t(s, r, tmin, tmax)) is Some implies
        crate::aabb::hit_spec(bx, r, tmin, tmax) by {
        let t = surf_hit_t(s, r, tmin, tmax)->Some_0;
        lemma_rect_axis_bounds(r.origin.y@, r.direction.y@, r.origin.x@, r.direction.x@,
            r.origin.z@, r.direction.z@, rc.k@, rc.x0@, rc.x1@, rc.z0@, rc.z1@, tmin, tmax, t);
        let w = crate::aabb::Rat { n: t as i64, d: 1 };
        assert(crate::aabb::contact_at(bx, r, w));
        assert(tmin * w.d <= w.n && w.n <= tmax * w.d);
    }
}

/// The same, for rectangles in the yz plane.
pub proof fn lemma_yz_rect_hits_boxed(rc: crate::hittable::rect::YZRect, time0: int, time1: int)
    requires
        crate::hittable::rect::yz_rect_wf(rc),
    ensures
        hits_boxed(Surface::YZRect(rc), time0, time1),
{
    let s = Surface::YZRect(rc);
    let bx = surf_box(s, time0, time1);
    assert forall|r: Ray, tmin: int, tmax: int|
        world_ray_ok(r) && (#[trigger] surf_hit_t(s, r, tmin, tmax)) is Some implies
        crate::aabb::hit_spec(bx, r, tmin, tmax) by {
        let t = surf_hit_t(s, r, tmin, tmax)->Some_0;
        lemma_rect_axis_bounds(r.origin.x@, r.direction.x@, r.origin.y@, r.direction.y@,
            r.origin.z@, r.direction.z@, rc.k@, rc.y0@, rc.y1@, rc.z0@, rc.z1@, tmin, tmax, t);
        let w = crate::aabb::Rat { n: t as i64, d: 1 };
        assert(crate::aabb::contact_at(bx, r, w));
        assert(tmin * w.d <= w.n && w.n <= tmax * w.d);
    }
}

/// Under a node whose box contains every descendant's box, a hit of any
/// descendant is a hit of the node's box.
proof fn lemma_prune_sound(b: Bvh, r: Ray, tmin: int, tmax: int, time0: int, time1: int)
    requires
        world_ray_ok(r),
        bvh_wf(b, time0, time1),
        forall|i: int| 0 <= i < bvh_objs(b).len() ==> hits_boxed(#[trigger] bvh_objs(b)[i], time0, time1),
        !crate::aabb::hit_spec(bvh_bound(b), r, tmin, tmax),
    ensures
        forall|i: int, m: int|
            0 <= i < bvh_objs(b).len() && m <= tmax ==> (#[trigger] surf_hit_t(
                bvh_objs(b)[i],
                r,
                tmin,
                m,
            )) is None,
    decreases b,
{
    match b {
        Bvh::SingNode { only, bound } => {
            assert forall|i: int, m: int|
                0 <= i < bvh_objs(b).len() && m <= tmax implies (#[trigger] surf_hit_t(
                bvh_objs(b)[i],
                r,
                tmin,
                m,
            )) is None by {
                if surf_hit_t(bvh_objs(b)[i], r, tmin, m) is Some {
                    assert(bvh_objs(b)[i] == *only);
                    assert(crate::aabb::hit_spec(surf_box(*only, time0, time1), r, tmin, m));
                    crate::aabb::lemma_hit_spec_window_mono(
                        surf_box(*only, time0, time1),
                        r,
                        tmin,
                        m,
                        tmin,
                        tmax,
                    );
                }
            }
        },
        Bvh::TwinNode { left, right, bound } => {
            assert forall|i: int, m: int|
                0 <= i < bvh_objs(b).len() && m <= tmax implies (#[trigger] surf_hit_t(
                bvh_objs(b)[i],
                r,
                tmin,
                m,
            )) is None by {
                if surf_hit_t(bvh_objs(b)[i], r, tmin, m) is Some {
                    let lo = bvh_objs(*left);
                    let ro = bvh_objs(*right);
                    if i < lo.len() {
                        assert(bvh_objs(b)[i] == lo[i]);
                        assert(hits_boxed(lo[i], time0, time1));
                        lemma_boxes_nest(*left, b, r, tmin, m, tmax, time0, time1, i);
                    } else {
                        assert(bvh_objs(b)[i] == ro[i - lo.len()]);
                        assert(hits_boxed(ro[i - lo.len()], time0, time1));
                        lemma_boxes_nest(*right, b, r, tmin, m, tmax, time0, time1, i - lo.len());
                    }
                }
            }
        },
    }
}

/// A hit of a descendant primitive in a narrowed window reaches the
/// ancestor's box in the full window.
proof fn lemma_boxes_nest(
    child: Bvh,
    parent: Bvh,
    r: Ray,
    tmin: int,
    m: int,
    tmax: int,
    time0: int,
    time1: int,
    i: int,
)
    requires
        world_ray_ok(r),
        bvh_wf(child, time0, time1),
        box_contains(bvh_bound(parent), bvh_bound(child)),
        crate::aabb::aabb_wf(bvh_bound(parent)),
        0 <= i < bvh_objs(child).len(),
        hits_boxed(bvh_objs(child)[i], time0, time1),
        surf_hit_t(bvh_objs(child)[i], r, tmin, m) is Some,
        m <= tmax,
    ensures
        crate::aabb::hit_spec(bvh_bound(parent), r, tmin, tmax),
    decreases child,
{
    lemma_obj_in_tree_box(child, r, tmin, m, time0, time1, i);
    assert(forall|a: int|
        #![trigger crate::vec3::axis(bvh_bound(parent).min, a)]
        #![trigger crate::vec3::axis(bvh_bound(parent).max, a)]
        #![trigger crate::vec3::axis(bvh_bound(child).min, a)]
        #![trigger crate::vec3::axis(bvh_bound(child).max, a)]
        0 <= a < 3 ==> crate::vec3::axis(bvh_bound(parent).min, a) <= crate::vec3::axis(
            bvh_bound(child).min,
            a,
        ) && crate::vec3::axis(bvh_bound(child).max, a) <= crate::vec3::axis(
            bvh_bound(parent).max,
            a,
        ));
    crate::aabb::lemma_hit_spec_box_mono(bvh_bound(child), bvh_bound(parent), r, tmin, m);
    crate::aabb::lemma_hit_spec_window_mono(bvh_bound(parent), r, tmin, m, tmin, tmax);
}

/// A hit of the `i`th primitive under a node reaches the node's own box.
proof fn lemma_obj_in_tree_box(b: Bvh, r: Ray, tmin: int, m: int, time0: int, time1: int, i: int)
    requires
        world_ray_ok(r),
        bvh_wf(b, time0, time1),
        0 <= i < bvh_objs(b).len(),
        hits_boxed(bvh_objs(b)[i], time0, time1),
        surf_hit_t(bvh_objs(b)[i], r, tmin, m) is Some,
    ensures
        crate::aabb::hit_spec(bvh_bound(b), r, tmin, m),
    decreases b,
{
    match b {
        Bvh::SingNode { only, bound } => {
            assert(bvh_objs(b)[i] == *only);
        },
        Bvh::TwinNode { left, right, bound } => {
            let lo = bvh_objs(*left);
            if i < lo.len() {
                assert(bvh_objs(b)[i] == lo[i]);
                lemma_obj_in_tree_box(*left, r, tmin, m, time0, time1, i);
                assert(forall|a: int|
                    #![trigger crate::vec3::axis(bound.min, a)]
                    #![trigger crate::vec3::axis(bound.max, a)]
                    #![trigger crate::vec3::axis(bvh_bound(*left).min, a)]
                    #![trigger crate::vec3::axis(bvh_bound(*left).max, a)]
                    0 <= a < 3 ==> crate::vec3::axis(bound.min, a) <= crate::vec3::axis(
                        bvh_bound(*left).min,
                        a,
                    ) && crate::vec3::axis(bvh_bound(*left).max, a) <= crate::vec3::axis(
                        bound.max,
                        a,
                    ));
                crate::aabb::lemma_hit_spec_box_mono(bvh_bound(*left), bound, r, tmin, m);
            } else {
                assert(bvh_objs(b)[i] == bvh_objs(*right)[i - lo.len()]);
                lemma_obj_in_tree_box(*right, r, tmin, m, time0, time1, i - lo.len());
                assert(forall|a: int|
                    #![trigger crate::vec3::axis(bound.min, a)]
                    #![trigger crate::vec3::axis(bound.max, a)]
                    #![trigger crate::vec3::axis(bvh_bound(*right).min, a)]
                    #![trigger crate::vec3::axis(bvh_bound(*right).max, a)]
                    0 <= a < 3 ==> crate::vec3::axis(bound.min, a) <= crate::vec3::axis(
                        bvh_bound(*right).min,
                        a,
                    ) && crate::vec3::axis(bvh_bound(*right).max, a) <= crate::vec3::axis(
                        bound.max,
                        a,
                    ));
                crate::aabb::lemma_hit_spec_box_mono(bvh_bound(*right), bound, r, tmin, m);
            }
        },
    }
}

/// Splitting a scan at any point: scanning a concatenation equals scanning
/// the first part, then the second with the window narrowed to the first's
/// best hit.
proof fn lemma_nearest_concat(s1: Seq<Object>, s2: Seq<Object>, r: Ray, tmin: int, tmax: int)
    ensures
        nearest_t(s1 + s2, r, tmin, tmax) == {
            let p = nearest_t(s1, r, tmin, tmax);
            upd_best(p, nearest_t(s2, r, tmin, win_of(p, tmax)))
        },
    decreases s2.len(),
{
    if s2.len() == 0 {
        assert(s1 + s2 =~= s1);
        assert(nearest_t(s2, r, tmin, win_of(nearest_t(s1, r, tmin, tmax), tmax)) is None);
    } else {
        let s2p = s2.drop_last();
        assert((s1 + s2).drop_last() =~= s1 + s2p);
        assert((s1 + s2).last() == s2.last());
        lemma_nearest_concat(s1, s2p, r, tmin, tmax);
    }
}

/// The surface list of a tree, as scene objects.
pub open spec fn tree_as_objects(b: Bvh) -> Seq<Object> {
    bvh_objs(b).map_values(|s: Surface| Object::Surface(s))
}

/// The BVH equivalence law: for any well-formed tree whose primitives'
/// hits stay inside their stored boxes, and any in-budget ray and window,
/// traversing the tree returns exactly the hit parameter of a linear scan
/// over the tree's primitives.  The boxed-hits premise is proved above for
/// the whole rectangle family; for spheres, boxes and transform wrappers it
/// remains an assumption on the scene, as the rounding analysis those
/// shapes need has not been formalized.
pub proof fn lemma_bvh_matches_scan(
    b: Bvh,
    r: Ray,
    tmin: int,
    tmax: int,
    time0: int,
    time1: int,
)
    requires
        world_ray_ok(r),
        bvh_wf(b, time0, time1),
        forall|i: int|
            0 <= i < bvh_objs(b).len() ==> hits_boxed(#[trigger] bvh_objs(b)[i], time0, time1),
    ensures
        bvh_hit_t(b, r, tmin, tmax) == nearest_t(tree_as_objects(b), r, tmin, tmax),
    decreases b,
{
    match b {
        Bvh::SingNode { only, bound } => {
            let objs = tree_as_objects(b);
            assert(bvh_objs(b) =~= seq![*only]);
            assert(objs.len() == 1);
            assert(objs[0] == Object::Surface(bvh_objs(b)[0]));
            assert(objs.last() == Object::Surface(*only));
            assert(objs.drop_last() =~= Seq::<Object>::empty());
            assert(nearest_t(objs.drop_last(), r, tmin, tmax) is None);
            assert(win_of(None, tmax) == tmax);
        },
        Bvh::TwinNode { left, right, bound } => {
            let lobjs = tree_as_objects(*left);
            let robjs = tree_as_objects(*right);
            assert(tree_as_objects(b) =~= lobjs + robjs);
            assert(forall|i: int|
                0 <= i < bvh_objs(*left).len() ==> bvh_objs(*left)[i] == bvh_objs(b)[i]);
            assert(forall|i: int|
                0 <= i < bvh_objs(*right).len() ==> bvh_objs(*right)[i] == bvh_objs(b)[i + bvh_objs(
                    *left,
                ).len()]);
            if !crate::aabb::hit_spec(bound, r, tmin, tmax) {
                // Pruned: no primitive below can hit in any narrowed window.
                lemma_prune_sound(b, r, tmin, tmax, time0, time1);
                lemma_all_miss(b, tree_as_objects(b), r, tmin, tmax);
            } else {
                lemma_bvh_matches_scan(*left, r, tmin, tmax, time0, time1);
                let lh = bvh_hit_t(*left, r, tmin, tmax);
                lemma_bvh_matches_scan(*right, r, tmin, win_of(lh, tmax), time0, time1);
                lemma_nearest_concat(lobjs, robjs, r, tmin, tmax);
            }
        },
    }
}

/// If every primitive misses in every window at most `tmax`, the scan over
/// them yields nothing.
proof fn lemma_all_miss(b: Bvh, objs: Seq<Object>, r: Ray, tmin: int, tmax: int)
    requires
        objs =~= tree_as_objects(b),
        forall|i: int, m: int|
            0 <= i < bvh_objs(b).len() && m <= tmax ==> (#[trigger] surf_hit_t(
                bvh_objs(b)[i],
                r,
                tmin,
                m,
            )) is None,
    ensures
        nearest_t(objs, r, tmin, tmax) is None,
{
    lemma_all_miss_seq(objs, bvh_objs(b), r, tmin, tmax, objs.len() as int);
    assert(objs.subrange(0, objs.len() as int) =~= objs);
}

proof fn lemma_all_miss_seq(
    objs: Seq<Object>,
    surfs: Seq<Surface>,
    r: Ray,
    tmin: int,
    tmax: int,
    n: int,
)
    requires
        objs == surfs.map_values(|s: Surface| Object::Surface(s)),
        0 <= n <= objs.len(),
        forall|i: int, m: int|
            0 <= i < surfs.len() && m <= tmax ==> (#[trigger] surf_hit_t(
                surfs[i],
                r,
                tmin,
                m,
            )) is None,
    ensures
        nearest_t(objs.subrange(0, n), r, tmin, tmax) is None,
    decreases n,
{
    if n > 0 {
        lemma_all_miss_seq(objs, surfs, r, tmin, tmax, n - 1);
        assert(objs.subrange(0, n).drop_last() =~= objs.subrange(0, n - 1));
        assert(objs.subrange(0, n).last() == objs[n - 1]);
        assert(objs[n - 1] == Object::Surface(surfs[n - 1]));
        assert(surf_hit_t(surfs[n - 1], r, tmin, win_of(None, tmax)) is None);
    } else {
        assert(objs.subrange(0, 0) =~= Seq::<Object>::empty());
    }
}

} // verus!
