//! Axis-aligned bounding boxes and the slab test.
//!
//! The test is done division-free, over exact rationals: the running entry and
//! exit times are kept as fractions with positive denominators and compared by
//! cross-multiplication.  Its contract is exact: `hit` returns true if and
//! only if some rational time `t` in `[t_min, t_max]` places the ray on or
//! inside all six faces (`hit_spec`).  A ray exactly tangent to a face
//! therefore counts as a hit: the face comparisons are all inclusive.

use vstd::prelude::*;

use crate::fx::{fmul, Fx, SCALE};
use crate::ray::{ray_wf, Ray};
use crate::vec3::{axis, bounded, Point3, Vec3};

verus! {

/// A rational time value `n / d`; all uses keep `d > 0`.
#[derive(Clone, Copy, PartialEq, Eq, Structural, Debug)]
pub struct Rat {
    pub n: i64,
    pub d: i64,
}

/// `a <= b` as fractions, by cross-multiplication (both denominators positive).
pub open spec fn rat_le(a: Rat, b: Rat) -> bool {
    a.n * b.d <= b.n * a.d
}

/// `t` lies in the closed rational interval `[a, b]`.
pub open spec fn between(a: Rat, t: Rat, b: Rat) -> bool {
    rat_le(a, t) && rat_le(t, b)
}

/// At rational time `t`, the ray coordinate `o + t * d / 65536` lies within
/// `[mn, mx]` on one axis; everything is scaled by `65536 * t.d` to stay in
/// the integers.
pub open spec fn axis_contact(t: Rat, o: int, d: int, mn: int, mx: int) -> bool {
    mn * t.d * 65536 <= o * t.d * 65536 + t.n * d && o * t.d * 65536 + t.n * d <= mx * t.d * 65536
}

#[derive(Clone, Copy, PartialEq, Eq, Structural, Debug)]
pub struct Aabb {
    pub min: Point3,
    pub max: Point3,
}

/// Box corners small enough for the intersection arithmetic.
pub open spec fn aabb_wf(b: Aabb) -> bool {
    bounded(b.min, 0x40_0000_0000) && bounded(b.max, 0x40_0000_0000)
}

/// The box's corners are ordered: the minimum never exceeds the maximum on
/// any axis.  Every primitive's reported box satisfies this.
pub open spec fn aabb_ordered(b: Aabb) -> bool {
    b.min.x@ <= b.max.x@ && b.min.y@ <= b.max.y@ && b.min.z@ <= b.max.z@
}

/// The ray touches or enters the box at rational time `t`.
pub open spec fn contact_at(b: Aabb, r: Ray, t: Rat) -> bool {
    &&& axis_contact(t, axis(r.origin, 0), axis(r.direction, 0), axis(b.min, 0), axis(b.max, 0))
    &&& axis_contact(t, axis(r.origin, 1), axis(r.direction, 1), axis(b.min, 1), axis(b.max, 1))
    &&& axis_contact(t, axis(r.origin, 2), axis(r.direction, 2), axis(b.min, 2), axis(b.max, 2))
}

/// What the slab test decides: some rational time in `[tmin, tmax]` touches
/// the box on all three axes.
pub open spec fn hit_spec(b: Aabb, r: Ray, tmin: int, tmax: int) -> bool {
    exists|t: Rat|
        t.d > 0 && tmin * t.d <= t.n && t.n <= tmax * t.d && #[trigger] contact_at(b, r, t)
}

/// Exact comparison of two rationals with positive denominators.
fn rat_le_exec(a: Rat, b: Rat) -> (r: bool)
    requires
        a.d > 0,
        b.d > 0,
    ensures
        r == rat_le(a, b),
{
    crate::fx::mul_i128(a.n, b.d) <= crate::fx::mul_i128(b.n, a.d)
}

/// `rat_le` is transitive over positive denominators.
proof fn lemma_rat_trans(a: Rat, b: Rat, c: Rat)
    requires
        a.d > 0,
        b.d > 0,
        c.d > 0,
        rat_le(a, b),
        rat_le(b, c),
    ensures
        rat_le(a, c),
{
    assert(a.n * c.d <= c.n * a.d) by (nonlinear_arith)
        requires
            a.d > 0,
            b.d > 0,
            c.d > 0,
            a.n * b.d <= b.n * a.d,
            b.n * c.d <= c.n * b.d,
    ;
}

/// One axis of contact is equivalent to lying between the two crossing
/// times of that axis's slabs, written as rationals with positive
/// denominators (`al`, `ah`).
proof fn lemma_axis_contact_iff(t: Rat, o: int, d: int, mn: int, mx: int, al: Rat, ah: Rat)
    requires
        t.d > 0,
        d != 0,
        d > 0 ==> al.n == 65536 * (mn - o) && al.d == d && ah.n == 65536 * (mx - o) && ah.d == d,
        d < 0 ==> al.n == -(65536 * (mx - o)) && al.d == -d && ah.n == -(65536 * (mn - o)) && ah.d
            == -d,
    ensures
        axis_contact(t, o, d, mn, mx) == (rat_le(al, t) && rat_le(t, ah)),
{
    if d > 0 {
        assert((mn * t.d * 65536 <= o * t.d * 65536 + t.n * d) == (al.n * t.d <= t.n * al.d))
            by (nonlinear_arith)
            requires t.d > 0 && d > 0 && al.n == 65536 * (mn - o) && al.d == d,
        ;
        assert((o * t.d * 65536 + t.n * d <= mx * t.d * 65536) == (t.n * ah.d <= ah.n * t.d))
            by (nonlinear_arith)
            requires t.d > 0 && d > 0 && ah.n == 65536 * (mx - o) && ah.d == d,
        ;
    } else {
        assert((mn * t.d * 65536 <= o * t.d * 65536 + t.n * d) == (t.n * ah.d <= ah.n * t.d))
            by (nonlinear_arith)
            requires t.d > 0 && d < 0 && ah.n == -(65536 * (mn - o)) && ah.d == -d,
        ;
        assert((o * t.d * 65536 + t.n * d <= mx * t.d * 65536) == (al.n * t.d <= t.n * al.d))
            by (nonlinear_arith)
            requires t.d > 0 && d < 0 && al.n == -(65536 * (mx - o)) && al.d == -d,
        ;
    }
}

/// Narrow the running interval `[lo, hi]` by one axis's slabs.  The returned
/// interval holds exactly the times that were in `[lo, hi]` and make contact
/// on this axis.
fn clip_axis(lo: Rat, hi: Rat, o: Fx, d: Fx, mn: Fx, mx: Fx) -> (r: (Rat, Rat))
    requires
        lo.d > 0,
        hi.d > 0,
        -0x40_0000_0000 <= o@ <= 0x40_0000_0000,
        -0x40_0000_0000 <= mn@ <= 0x40_0000_0000,
        -0x40_0000_0000 <= mx@ <= 0x40_0000_0000,
        -0x80_0000 <= d@ <= 0x80_0000,
    ensures
        r.0.d > 0,
        r.1.d > 0,
        forall|t: Rat|
            t.d > 0 ==> (#[trigger] between(r.0, t, r.1) <==> between(lo, t, hi) && axis_contact(
                t,
                o@,
                d@,
                mn@,
                mx@,
            )),
{
    if d.raw == 0 {
        if mn.raw <= o.raw && o.raw <= mx.raw {
            proof {
                assert forall|t: Rat| t.d > 0 implies axis_contact(t, o@, d@, mn@, mx@) by {
                    assert(mn@ * t.d * 65536 <= o@ * t.d * 65536 && o@ * t.d * 65536 <= mx@ * t.d
                        * 65536) by (nonlinear_arith)
                        requires t.d > 0 && mn@ <= o@ <= mx@,
                    ;
                }
            }
            (lo, hi)
        } else {
            // The ray runs parallel to this axis's slabs and outside them:
            // return an empty interval.
            let el = Rat { n: 1, d: 1 };
            let eh = Rat { n: 0, d: 1 };
            proof {
                assert forall|t: Rat| t.d > 0 implies !axis_contact(t, o@, d@, mn@, mx@)
                    && !between(el, t, eh) by {
                    assert(!(mn@ * t.d * 65536 <= o@ * t.d * 65536 + t.n * d@ && o@ * t.d * 65536
                        + t.n * d@ <= mx@ * t.d * 65536)) by (nonlinear_arith)
                        requires t.d > 0 && d@ == 0 && (o@ < mn@ || o@ > mx@),
                    ;
                    assert(!(el.n * t.d <= t.n * el.d && t.n * eh.d <= eh.n * t.d))
                        by (nonlinear_arith)
                        requires t.d > 0 && el.n == 1 && el.d == 1 && eh.n == 0 && eh.d == 1,
                    ;
                }
            }
            (el, eh)
        }
    } else {
        let (al, ah) = if d.raw > 0 {
            (
                Rat { n: (mn.raw - o.raw) * SCALE, d: d.raw },
                Rat { n: (mx.raw - o.raw) * SCALE, d: d.raw },
            )
        } else {
            (
                Rat { n: -((mx.raw - o.raw) * SCALE), d: -d.raw },
                Rat { n: -((mn.raw - o.raw) * SCALE), d: -d.raw },
            )
        };
        let lo2 = if rat_le_exec(lo, al) { al } else { lo };
        let hi2 = if rat_le_exec(ah, hi) { ah } else { hi };
        proof {
            assert forall|t: Rat| t.d > 0 implies (between(lo2, t, hi2) <==> between(lo, t, hi)
                && axis_contact(t, o@, d@, mn@, mx@)) by {
                lemma_axis_contact_iff(t, o@, d@, mn@, mx@, al, ah);
                if between(lo2, t, hi2) {
                    if rat_le(lo, al) {
                        lemma_rat_trans(lo, al, t);
                    } else {
                        assert(rat_le(al, lo)) by (nonlinear_arith)
                            requires lo.d > 0 && al.d > 0 && !(lo.n * al.d <= al.n * lo.d),
                        ;
                        lemma_rat_trans(al, lo, t);
                    }
                    if rat_le(ah, hi) {
                        lemma_rat_trans(t, ah, hi);
                    } else {
                        assert(rat_le(hi, ah)) by (nonlinear_arith)
                            requires hi.d > 0 && ah.d > 0 && !(ah.n * hi.d <= hi.n * ah.d),
                        ;
                        lemma_rat_trans(t, hi, ah);
                    }
                }
            }
        }
        (lo2, hi2)
    }
}

impl Aabb {
    pub fn new(min: Point3, max: Point3) -> (r: Aabb)
        ensures
            r == (Aabb { min, max }),
    {
        Aabb { min, max }
    }

    /// The slab test: exact over rational times.  Returns true if and only if
    /// some rational `t` in `[t_min, t_max]` touches the box on every axis.
    pub fn hit(&self, r: &Ray, t_min: Fx, t_max: Fx) -> (res: bool)
        requires
            aabb_wf(*self),
            ray_wf(*r),
        ensures
            res == hit_spec(*self, *r, t_min@, t_max@),
    {
        let lo0 = Rat { n: t_min.raw, d: 1 };
        let hi0 = Rat { n: t_max.raw, d: 1 };
        let (lo1, hi1) = clip_axis(lo0, hi0, r.origin.x, r.direction.x, self.min.x, self.max.x);
        let (lo2, hi2) = clip_axis(lo1, hi1, r.origin.y, r.direction.y, self.min.y, self.max.y);
        let (lo3, hi3) = clip_axis(lo2, hi2, r.origin.z, r.direction.z, self.min.z, self.max.z);
        let res = rat_le_exec(lo3, hi3);
        proof {
            let b = *self;
            let ray = *r;
            if res {
                let w = lo3;
                assert(between(lo3, w, hi3));
                assert(between(lo2, w, hi2));
                assert(between(lo1, w, hi1));
                assert(between(lo0, w, hi0));
                assert(t_min@ * w.d <= w.n * lo0.d && w.n * hi0.d <= t_max@ * w.d);
                assert(contact_at(b, ray, w));
                assert(hit_spec(b, ray, t_min@, t_max@));
            } else {
                assert forall|t: Rat|
                    !(t.d > 0 && t_min@ * t.d <= t.n && t.n <= t_max@ * t.d && #[trigger]
                    contact_at(b, ray, t)) by {
                    if t.d > 0 && t_min@ * t.d <= t.n && t.n <= t_max@ * t.d && contact_at(
                        b,
                        ray,
                        t,
                    ) {
                        assert(between(lo0, t, hi0));
                        assert(between(lo1, t, hi1));
                        assert(between(lo2, t, hi2));
                        assert(between(lo3, t, hi3));
                        lemma_rat_trans(lo3, t, hi3);
                        assert(false);
                    }
                }
            }
        }
        res
    }

    /// The smallest box containing both arguments: component-wise minima and
    /// maxima of the corners.
    pub fn surrounding_box(box0: Aabb, box1: Aabb) -> (r: Aabb)
        ensures
            r == box_union(box0, box1),
            r.min.x@ == if box0.min.x@ <= box1.min.x@ { box0.min.x@ } else { box1.min.x@ },
            r.min.y@ == if box0.min.y@ <= box1.min.y@ { box0.min.y@ } else { box1.min.y@ },
            r.min.z@ == if box0.min.z@ <= box1.min.z@ { box0.min.z@ } else { box1.min.z@ },
            r.max.x@ == if box0.max.x@ >= box1.max.x@ { box0.max.x@ } else { box1.max.x@ },
            r.max.y@ == if box0.max.y@ >= box1.max.y@ { box0.max.y@ } else { box1.max.y@ },
            r.max.z@ == if box0.max.z@ >= box1.max.z@ { box0.max.z@ } else { box1.max.z@ },
    {
        let small = Point3::new(
            box0.min.x.min(box1.min.x),
            box0.min.y.min(box1.min.y),
            box0.min.z.min(box1.min.z),
        );
        let big = Point3::new(
            box0.max.x.max(box1.max.x),
            box0.max.y.max(box1.max.y),
            box0.max.z.max(box1.max.z),
        );
        Aabb::new(small, big)
    }
}

/// The component-wise union of two boxes: minima of the minima, maxima of
/// the maxima.
pub open spec fn box_union(a: Aabb, b: Aabb) -> Aabb {
    Aabb {
        min: Vec3 {
            x: if a.min.x@ <= b.min.x@ { a.min.x } else { b.min.x },
            y: if a.min.y@ <= b.min.y@ { a.min.y } else { b.min.y },
            z: if a.min.z@ <= b.min.z@ { a.min.z } else { b.min.z },
        },
        max: Vec3 {
            x: if a.max.x@ >= b.max.x@ { a.max.x } else { b.max.x },
            y: if a.max.y@ >= b.max.y@ { a.max.y } else { b.max.y },
            z: if a.max.z@ >= b.max.z@ { a.max.z } else { b.max.z },
        },
    }
}

/// A ray strictly inside the box at some whole fixed-point time within the
/// window is reported as a hit.
pub proof fn lemma_interior_point_hits(b: Aabb, r: Ray, t: int, tmin: int, tmax: int)
    requires
        tmin <= t <= tmax,
        crate::fx::fits64(t),
        forall|a: int|
            0 <= a < 3 ==> axis(b.min, a) < axis(r.origin, a) + fmul(t, #[trigger] axis(r.direction, a))
                < axis(b.max, a),
    ensures
        hit_spec(b, r, tmin, tmax),
{
    let w = Rat { n: t as i64, d: 1i64 };
    assert(w.n == t);
    assert forall|a: int| 0 <= a < 3 implies axis_contact(
        w,
        axis(r.origin, a),
        axis(r.direction, a),
        axis(b.min, a),
        axis(b.max, a),
    ) by {
        let o = axis(r.origin, a);
        let d = axis(r.direction, a);
        let mn = axis(b.min, a);
        let mx = axis(b.max, a);
        vstd::arithmetic::div_mod::lemma_fundamental_div_mod(t * d, 65536);
        assert(mn * 65536 <= o * 65536 + t * d && o * 65536 + t * d <= mx * 65536)
            by (nonlinear_arith)
            requires
                mn < o + (t * d) / 65536 < mx,
                t * d == 65536 * ((t * d) / 65536) + (t * d) % 65536,
                0 <= (t * d) % 65536 < 65536,
        ;
        assert(mn * w.d * 65536 <= o * w.d * 65536 + w.n * d && o * w.d * 65536 + w.n * d <= mx
            * w.d * 65536) by (nonlinear_arith)
            requires
                w.n == t && w.d == 1,
                mn * 65536 <= o * 65536 + t * d && o * 65536 + t * d <= mx * 65536,
        ;
    }
    assert(contact_at(b, r, w));
    assert(tmin * w.d <= w.n && w.n <= tmax * w.d);
}

/// A ray whose line never touches the box is never reported as a hit,
/// whatever the time window.
pub proof fn lemma_never_touching_misses(b: Aabb, r: Ray, tmin: int, tmax: int)
    requires
        forall|t: Rat| t.d > 0 ==> !#[trigger] contact_at(b, r, t),
    ensures
        !hit_spec(b, r, tmin, tmax),
{
}

/// Widening the time window preserves a hit.
pub proof fn lemma_hit_spec_window_mono(b: Aabb, r: Ray, tmin1: int, tmax1: int, tmin2: int, tmax2: int)
    requires
        hit_spec(b, r, tmin1, tmax1),
        tmin2 <= tmin1,
        tmax1 <= tmax2,
    ensures
        hit_spec(b, r, tmin2, tmax2),
{
    let t = choose|t: Rat|
        t.d > 0 && tmin1 * t.d <= t.n && t.n <= tmax1 * t.d && #[trigger] contact_at(b, r, t);
    assert(tmin2 * t.d <= tmin1 * t.d && tmax1 * t.d <= tmax2 * t.d) by (nonlinear_arith)
        requires t.d > 0 && tmin2 <= tmin1 && tmax1 <= tmax2,
    ;
}

/// A box that contains another also reports every hit of the smaller one.
pub proof fn lemma_hit_spec_box_mono(b1: Aabb, b2: Aabb, r: Ray, tmin: int, tmax: int)
    requires
        hit_spec(b1, r, tmin, tmax),
        forall|a: int| 0 <= a < 3 ==> axis(b2.min, a) <= axis(b1.min, a),
        forall|a: int| 0 <= a < 3 ==> axis(b1.max, a) <= axis(b2.max, a),
    ensures
        hit_spec(b2, r, tmin, tmax),
{
    let t = choose|t: Rat|
        t.d > 0 && tmin * t.d <= t.n && t.n <= tmax * t.d && #[trigger] contact_at(b1, r, t);
    assert forall|a: int| 0 <= a < 3 implies axis_contact(
        t,
        axis(r.origin, a),
        axis(r.direction, a),
        axis(b2.min, a),
        axis(b2.max, a),
    ) by {
        assert(axis(b2.min, a) * t.d * 65536 <= axis(b1.min, a) * t.d * 65536 && axis(b1.max, a)
            * t.d * 65536 <= axis(b2.max, a) * t.d * 65536) by (nonlinear_arith)
            requires
                t.d > 0,
                axis(b2.min, a) <= axis(b1.min, a),
                axis(b1.max, a) <= axis(b2.max, a),
        ;
        assert(axis_contact(
            t,
            axis(r.origin, a),
            axis(r.direction, a),
            axis(b1.min, a),
            axis(b1.max, a),
        ));
    }
    assert(contact_at(b2, r, t));
}

} // verus!
