//! A ray: origin, direction and the shutter time at which it was cast (for
//! motion blur).  `at(t)` walks `t` units of the direction from the origin.

use vstd::prelude::*;

use crate::fx::{fmul, Fx};
use crate::vec3::{axis, bounded, Point3, Vec3};

verus! {

/// Largest raw magnitude allowed for a ray origin component.
pub const ORIGIN_BOUND: i64 = 0x20_0000_0000;

/// Largest raw magnitude allowed for a ray direction component.
pub const DIR_BOUND: i64 = 0x80_0000;

/// Largest raw magnitude allowed for a hit parameter `t`.
pub const T_BOUND: i64 = 0x100_0000_0000;

#[derive(Clone, Copy, PartialEq, Eq, Structural, Debug)]
pub struct Ray {
    pub origin: Point3,
    pub direction: Vec3,
    pub time: Fx,
}

/// Origin and direction components small enough that every intersection
/// routine below is overflow-free.
pub open spec fn ray_wf(r: Ray) -> bool {
    &&& bounded(r.origin, ORIGIN_BOUND as int)
    &&& bounded(r.direction, DIR_BOUND as int)
    &&& 0 <= r.time@ <= 65536
}

/// Component `a` of the point `t` units along the ray.
pub open spec fn at_axis(r: Ray, t: int, a: int) -> int {
    axis(r.origin, a) + fmul(t, axis(r.direction, a))
}

impl Ray {
    pub fn new(origin: Point3, direction: Vec3, time: Fx) -> (r: Ray)
        ensures
            r == (Ray { origin, direction, time }),
    {
        Ray { origin, direction, time }
    }

    /// The point `s` units along the ray: `origin + s * direction`.
    pub fn at(&self, s: Fx) -> (r: Point3)
        requires
            ray_wf(*self),
            -0x100_0000_0000 <= s@ <= 0x100_0000_0000,
        ensures
            r.x@ == at_axis(*self, s@, 0),
            r.y@ == at_axis(*self, s@, 1),
            r.z@ == at_axis(*self, s@, 2),
            bounded(r, 0x1_0000_0000_0000),
    {
        proof {
            lemma_at_bound(s@, self.direction.x@);
            lemma_at_bound(s@, self.direction.y@);
            lemma_at_bound(s@, self.direction.z@);
        }
        Vec3::new(
            self.origin.x.add(s.mul(self.direction.x)),
            self.origin.y.add(s.mul(self.direction.y)),
            self.origin.z.add(s.mul(self.direction.z)),
        )
    }
}

proof fn lemma_at_bound(s: int, d: int)
    requires
        -0x100_0000_0000 <= s <= 0x100_0000_0000,
        -0x80_0000 <= d <= 0x80_0000,
    ensures
        -0x8000_0000_0000 <= fmul(s, d) <= 0x8000_0000_0000,
{
    assert(-(0x100_0000_0000 * 0x80_0000) <= s * d <= 0x100_0000_0000 * 0x80_0000)
        by (nonlinear_arith)
        requires -0x100_0000_0000 <= s <= 0x100_0000_0000 && -0x80_0000 <= d <= 0x80_0000,
    ;
    crate::fx::lemma_div_bound_by_dividend(s * d, 65536);
}

} // verus!
