//! The bounding-volume hierarchy: a binary tree over primitives, built once
//! by recursive median splits along a randomly chosen axis, and traversed by
//! pruning subtrees whose boxes the ray misses and narrowing the window to
//! the nearest hit found so far.  `bvh_hit_t` is the exact functional model
//! of the traversal; `world::nearest_t` models a linear scan; the public
//! lemma in `world` proves them equal whenever every primitive's hits stay
//! inside its stored box.

use vstd::prelude::*;

use crate::aabb::{aabb_wf, hit_spec, Aabb};
use crate::fx::Fx;
use crate::hittable::box_rect::{upd_best, win_of};
use crate::hittable::{rec_bounds, surf_box, surf_hit_t, surf_wf, HitRecord, Surface};
use crate::ray::Ray;
use crate::rng::Rng;
use crate::vec3::axis;

verus! {

pub enum Bvh {
    SingNode { only: Box<Surface>, bound: Aabb },
    TwinNode { left: Box<Bvh>, right: Box<Bvh>, bound: Aabb },
}

/// A ray within the budget of every primitive this module accepts.
pub open spec fn world_ray_ok(r: Ray) -> bool {
    &&& crate::vec3::bounded(r.origin, 0x8_0000_0000)
    &&& crate::vec3::bounded(r.direction, 0x3F_0000)
    &&& 0 <= r.time@ <= 65536
}

/// A well-formed ray is acceptable to any well-formed primitive.
pub proof fn lemma_world_ray_ok(s: Surface, r: Ray)
    requires
        surf_wf(s),
        world_ray_ok(r),
    ensures
        crate::hittable::ray_ok(s, r),
{
}

/// The primitives under the node, in tree order.
pub open spec fn bvh_objs(b: Bvh) -> Seq<Surface>
    decreases b,
{
    match b {
        Bvh::SingNode { only, .. } => seq![*only],
        Bvh::TwinNode { left, right, .. } => bvh_objs(*left) + bvh_objs(*right),
    }
}

/// Structural well-formedness: leaf boxes are the primitives' own boxes over
/// the build window, inner boxes contain both children's boxes.
pub open spec fn bvh_wf(b: Bvh, time0: int, time1: int) -> bool
    decreases b,
{
    match b {
        Bvh::SingNode { only, bound } => surf_wf(*only) && bound == surf_box(*only, time0, time1)
            && aabb_wf(bound),
        Bvh::TwinNode { left, right, bound } => {
            &&& bvh_wf(*left, time0, time1)
            &&& bvh_wf(*right, time0, time1)
            &&& aabb_wf(bound)
            &&& bound == crate::aabb::box_union(bvh_bound(*left), bvh_bound(*right))
            &&& box_contains(bound, bvh_bound(*left))
            &&& box_contains(bound, bvh_bound(*right))
        },
    }
}

/// Component-wise box containment.
pub open spec fn box_contains(outer: Aabb, inner: Aabb) -> bool {
    forall|a: int|
        #![trigger axis(outer.min, a)]
        #![trigger axis(outer.max, a)]
        #![trigger axis(inner.min, a)]
        #![trigger axis(inner.max, a)]
        0 <= a < 3 ==> axis(outer.min, a) <= axis(inner.min, a) && axis(inner.max, a) <= axis(
            outer.max,
            a,
        )
}

/// The node's stored box.
pub open spec fn bvh_bound(b: Bvh) -> Aabb {
    match b {
        Bvh::SingNode { bound, .. } => bound,
        Bvh::TwinNode { bound, .. } => bound,
    }
}

/// The functional model of traversal: prune on the box, search the left
/// subtree, then the right restricted to the left's best hit, and prefer the
/// right's result.
pub open spec fn bvh_hit_t(b: Bvh, r: Ray, tmin: int, tmax: int) -> Option<int>
    decreases b,
{
    match b {
        Bvh::SingNode { only, .. } => surf_hit_t(*only, r, tmin, tmax),
        Bvh::TwinNode { left, right, bound } => {
            if !hit_spec(bound, r, tmin, tmax) {
                None
            } else {
                let lh = bvh_hit_t(*left, r, tmin, tmax);
                let rh = bvh_hit_t(*right, r, tmin, win_of(lh, tmax));
                upd_best(lh, rh)
            }
        },
    }
}

/// The primitive whose record the traversal returns, with the upper window
/// bound its intersection was queried with: mirrors the traversal, preferring
/// the right subtree's hit inside the window narrowed by the left's.
pub open spec fn bvh_winner(b: Bvh, r: Ray, tmin: int, tmax: int) -> Option<(Surface, int)>
    decreases b,
{
    match b {
        Bvh::SingNode { only, .. } => if surf_hit_t(*only, r, tmin, tmax) is Some {
            Some((*only, tmax))
        } else {
            None
        },
        Bvh::TwinNode { left, right, bound } => {
            if !hit_spec(bound, r, tmin, tmax) {
                None
            } else {
                let lh = bvh_hit_t(*left, r, tmin, tmax);
                let w = win_of(lh, tmax);
                if bvh_hit_t(*right, r, tmin, w) is Some {
                    bvh_winner(*right, r, tmin, w)
                } else {
                    bvh_winner(*left, r, tmin, tmax)
                }
            }
        },
    }
}

impl Bvh {
    /// The stored bounding box.
    pub fn bounding_box(&self, _time0: Fx, _time1: Fx) -> (res: Option<Aabb>)
        ensures
            res == Some(bvh_bound(*self)),
    {
        match self {
            Bvh::SingNode { bound, .. } => Some(*bound),
            Bvh::TwinNode { bound, .. } => Some(*bound),
        }
    }

    /// Traverse the tree: exactly the functional model `bvh_hit_t`.
    pub fn hit(&self, ray: &Ray, t_min: Fx, t_max: Fx) -> (res: Option<HitRecord>)
        requires
            exists|t0: int, t1: int| bvh_wf(*self, t0, t1),
            world_ray_ok(*ray),
            -0x100_0000_0000 <= t_min@ <= 0x100_0000_0000,
            -0x100_0000_0000 <= t_max@ <= 0x100_0000_0000,
        ensures
            match res {
                None => bvh_hit_t(*self, *ray, t_min@, t_max@) is None,
                Some(rec) => bvh_hit_t(*self, *ray, t_min@, t_max@) == Some(rec.t@) && t_min@
                    <= rec.t@ <= t_max@ && rec_bounds(rec) && (bvh_winner(
                    *self,
                    *ray,
                    t_min@,
                    t_max@,
                ) matches Some(sw) && crate::hittable::rec_matches(sw.0, sw.1, rec, *ray, t_min@)),
            },
        decreases *self,
    {
        match self {
            Bvh::SingNode { only, .. } => {
                proof {
                    let (t0, t1) = choose|t0: int, t1: int| bvh_wf(*self, t0, t1);
                    lemma_world_ray_ok(**only, *ray);
                }
                only.hit(ray, t_min, t_max)
            },
            Bvh::TwinNode { left, right, bound } => {
                proof {
                    let (t0, t1) = choose|t0: int, t1: int| bvh_wf(*self, t0, t1);
                    assert(bvh_wf(**left, t0, t1) && bvh_wf(**right, t0, t1));
                }
                if !bound.hit(ray, t_min, t_max) {
                    return None;
                }
                let left_hit = left.hit(ray, t_min, t_max);
                let new_t_max = match &left_hit {
                    Some(rec) => rec.t,
                    None => t_max,
                };
                let right_hit = right.hit(ray, t_min, new_t_max);
                match right_hit {
                    Some(rec) => Some(rec),
                    None => left_hit,
                }
            },
        }
    }

    /// Build the tree over `objects` for the shutter window
    /// `[time0, time1]`: with one object, a leaf holding its box; otherwise
    /// order the objects by box minimum along a random axis, split at the
    /// median and recurse, the node's box being the union of the children's.
    /// The sort's own contract states the ascending box-minimum order it
    /// establishes; which half an object lands in changes traversal speed
    /// only, never the nearest hit, so this contract states the collection
    /// of objects and the box structure.
    pub fn new(objects: Vec<Surface>, time0: Fx, time1: Fx, rng: &mut Rng) -> (res: Bvh)
        requires
            objects@.len() >= 1,
            forall|i: int| 0 <= i < objects@.len() ==> surf_wf(#[trigger] objects@[i]),
            0 <= time0@ <= time1@ <= 65536,
        ensures
            bvh_wf(res, time0@, time1@),
            bvh_objs(res).to_multiset() == objects@.to_multiset(),
        decreases objects@.len(),
    {
        broadcast use vstd::seq_lib::group_to_multiset_ensures;

        let ghost orig = objects@;
        let mut objects = objects;
        if objects.len() == 1 {
            proof {
                assert(surf_wf(orig[0]));
            }
            let only = match objects.pop() {
                Some(o) => o,
                None => unreached(),
            };
            let bound = match only.bounding_box(time0, time1) {
                Some(b) => b,
                None => unreached(),
            };
            proof {
                assert(orig =~= seq![only]);
            }
            return Bvh::SingNode { only: Box::new(only), bound };
        }
        let axis_pick = rng.gen_i64(0, 3) as usize;
        sort_by_box_min(&mut objects, axis_pick, time0, time1);
        let mid_index = objects.len() / 2;
        let ghost sorted = objects@;
        proof {
            assert(1 <= mid_index < objects@.len());
        }
        let right_half = objects.split_off(mid_index);
        let left_half = objects;
        proof {
            assert(left_half@ + right_half@ =~= sorted);
            vstd::seq_lib::lemma_multiset_commutative(left_half@, right_half@);
            assert(forall|k: int|
                0 <= k < left_half@.len() ==> surf_wf(#[trigger] left_half@[k]));
            assert(forall|k: int|
                0 <= k < right_half@.len() ==> surf_wf(#[trigger] right_half@[k]));
        }
        let left = Box::new(Bvh::new(left_half, time0, time1, rng));
        let right = Box::new(Bvh::new(right_half, time0, time1, rng));
        let left_box = match left.bounding_box(time0, time1) {
            Some(b) => b,
            None => unreached(),
        };
        let right_box = match right.bounding_box(time0, time1) {
            Some(b) => b,
            None => unreached(),
        };
        let bound = Aabb::surrounding_box(left_box, right_box);
        proof {
            vstd::seq_lib::lemma_multiset_commutative(bvh_objs(*left), bvh_objs(*right));
            assert forall|a: int| 0 <= a < 3 implies #[trigger] axis(bound.min, a) <= axis(
                bvh_bound(*left).min,
                a,
            ) && axis(bvh_bound(*left).max, a) <= axis(bound.max, a) by {
                if a == 0 {
                } else if a == 1 {
                } else {
                }
            }
            assert forall|a: int| 0 <= a < 3 implies #[trigger] axis(bound.min, a) <= axis(
                bvh_bound(*right).min,
                a,
            ) && axis(bvh_bound(*right).max, a) <= axis(bound.max, a) by {
                if a == 0 {
                } else if a == 1 {
                } else {
                }
            }
        }
        Bvh::TwinNode { left, right, bound }
    }
}

/// The box-minimum sort key of an object along `ax`, over the build window.
pub open spec fn box_min_key(s: Surface, ax: int, time0: int, time1: int) -> int {
    crate::vec3::axis(surf_box(s, time0, time1).min, ax)
}

/// The objects are in ascending box-minimum order along `ax`.
pub open spec fn sorted_by_box_min(objs: Seq<Surface>, ax: int, time0: int, time1: int) -> bool {
    forall|p: int, q: int|
        0 <= p < q < objs.len() ==> #[trigger] box_min_key(objs[p], ax, time0, time1)
            <= #[trigger] box_min_key(objs[q], ax, time0, time1)
}

/// Order the objects by the minimum corner of their boxes along `axis_pick`
/// (insertion sort); the collection of objects is unchanged and ends in
/// ascending key order.
fn sort_by_box_min(objects: &mut Vec<Surface>, axis_pick: usize, time0: Fx, time1: Fx) -> (r: ())
    requires
        axis_pick < 3,
        forall|k: int| 0 <= k < old(objects)@.len() ==> surf_wf(#[trigger] old(objects)@[k]),
        0 <= time0@ <= time1@ <= 65536,
    ensures
        final(objects)@.to_multiset() == old(objects)@.to_multiset(),
        final(objects)@.len() == old(objects)@.len(),
        forall|k: int| 0 <= k < final(objects)@.len() ==> surf_wf(#[trigger] final(objects)@[k]),
        sorted_by_box_min(final(objects)@, axis_pick as int, time0@, time1@),
{
    broadcast use vstd::seq_lib::group_to_multiset_ensures;

    let ghost orig = objects@;
    let mut i: usize = 1;
    while i < objects.len()
        invariant
            objects@.to_multiset() == orig.to_multiset(),
            objects@.len() == orig.len(),
            forall|k: int| 0 <= k < objects@.len() ==> surf_wf(#[trigger] objects@[k]),
            1 <= i,
            axis_pick < 3,
            0 <= time0@ <= time1@ <= 65536,
            forall|p: int, q: int|
                0 <= p < q < i as int && q < objects@.len() ==> #[trigger] box_min_key(
                    objects@[p],
                    axis_pick as int,
                    time0@,
                    time1@,
                ) <= #[trigger] box_min_key(objects@[q], axis_pick as int, time0@, time1@),
        decreases objects@.len() - i,
    {
        // Walk the element at position i leftwards while it is smaller than
        // its neighbour's box minimum.
        let mut j: usize = i;
        let mut walking = true;
        while j > 0 && walking
            invariant
                objects@.to_multiset() == orig.to_multiset(),
                objects@.len() == orig.len(),
                forall|k: int| 0 <= k < objects@.len() ==> surf_wf(#[trigger] objects@[k]),
                j <= i < objects@.len(),
                axis_pick < 3,
                0 <= time0@ <= time1@ <= 65536,
                forall|p: int, q: int|
                    0 <= p < q <= i as int && q != j as int ==> #[trigger] box_min_key(
                        objects@[p],
                        axis_pick as int,
                        time0@,
                        time1@,
                    ) <= #[trigger] box_min_key(objects@[q], axis_pick as int, time0@, time1@),
                !walking ==> j == 0 || box_min_key(
                    objects@[j - 1],
                    axis_pick as int,
                    time0@,
                    time1@,
                ) <= box_min_key(objects@[j as int], axis_pick as int, time0@, time1@),
            decreases j, (if walking { 1int } else { 0int }),
        {
            proof {
                assert(surf_wf(objects@[j - 1]));
                assert(surf_wf(objects@[j as int]));
            }
            let prev = match vec_ref(objects, j - 1).bounding_box(time0, time1) {
                Some(b) => b,
                None => unreached(),
            };
            let here = match vec_ref(objects, j).bounding_box(time0, time1) {
                Some(b) => b,
                None => unreached(),
            };
            if here.min.get(axis_pick).lt(prev.min.get(axis_pick)) {
                let ghost before = objects@;
                let ghost ax = axis_pick as int;
                proof {
                    assert(box_min_key(before[j as int], ax, time0@, time1@) < box_min_key(
                        before[j - 1],
                        ax,
                        time0@,
                        time1@,
                    ));
                }
                let x = objects.remove(j);
                objects.insert(j - 1, x);
                proof {
                    assert(before.contains(x)) by {
                        assert(before[j as int] == x);
                    }
                    vstd::seq_lib::to_multiset_contains(before, x);
                    vstd::seq_lib::to_multiset_remove(before, j as int);
                    vstd::seq_lib::to_multiset_insert(before.remove(j as int), j - 1, x);
                    assert(before.to_multiset().count(x) > 0);
                    assert(objects@.to_multiset() =~= before.to_multiset());
                    assert(objects@[j - 1] == x);
                    assert(objects@[j as int] == before[j - 1]);
                    assert forall|p: int, q: int|
                        0 <= p < q <= i as int && q != j - 1 implies #[trigger] box_min_key(
                        objects@[p],
                        ax,
                        time0@,
                        time1@,
                    ) <= #[trigger] box_min_key(objects@[q], ax, time0@, time1@) by {
                        if p != j - 1 && p != j as int {
                            assert(objects@[p] == before[p]);
                        }
                        if q != j - 1 && q != j as int {
                            assert(objects@[q] == before[q]);
                        }
                        if q == j as int {
                            if p != j - 1 {
                                assert(box_min_key(before[p], ax, time0@, time1@) <= box_min_key(
                                    before[j - 1],
                                    ax,
                                    time0@,
                                    time1@,
                                ));
                            }
                        } else if p == j - 1 {
                            assert(box_min_key(before[j - 1], ax, time0@, time1@) <= box_min_key(
                                before[q],
                                ax,
                                time0@,
                                time1@,
                            ));
                        } else if p == j as int {
                            assert(box_min_key(before[j - 1], ax, time0@, time1@) <= box_min_key(
                                before[q],
                                ax,
                                time0@,
                                time1@,
                            ));
                        } else {
                            assert(box_min_key(before[p], ax, time0@, time1@) <= box_min_key(
                                before[q],
                                ax,
                                time0@,
                                time1@,
                            ));
                        }
                    }
                }
                j = j - 1;
            } else {
                walking = false;
            }
        }
        proof {
            let ax = axis_pick as int;
            assert forall|p: int, q: int| 0 <= p < q <= i as int implies #[trigger] box_min_key(
                objects@[p],
                ax,
                time0@,
                time1@,
            ) <= #[trigger] box_min_key(objects@[q], ax, time0@, time1@) by {
                if q == j as int && j > 0 {
                    assert(box_min_key(objects@[j - 1], ax, time0@, time1@) <= box_min_key(
                        objects@[j as int],
                        ax,
                        time0@,
                        time1@,
                    ));
                    if p < j - 1 {
                        assert(box_min_key(objects@[p], ax, time0@, time1@) <= box_min_key(
                            objects@[j - 1],
                            ax,
                            time0@,
                            time1@,
                        ));
                    }
                }
            }
        }
        i = i + 1;
    }
}

/// A shared borrow of one vector element.
fn vec_ref(objects: &Vec<Surface>, i: usize) -> (r: &Surface)
    requires
        i < objects@.len(),
    ensures
        *r == objects@[i as int],
{
    &objects[i]
}

} // verus!
