//! Random sampling helpers.  Every distribution here is verified code over
//! the single trusted integer draw in `rng`; the contracts state what holds
//! of every possible outcome (ranges and bounds), never which value comes.

use vstd::prelude::*;

use crate::fx::Fx;
use crate::rng::Rng;
use crate::vec3::{bounded, sdot, Vec3};

verus! {

/// A scalar uniform in `[lower, upper)`.
pub fn random_double(rng: &mut Rng, lower: Fx, upper: Fx) -> (r: Fx)
    requires
        lower@ < upper@,
    ensures
        lower@ <= r@ < upper@,
{
    Fx { raw: rng.gen_i64(lower.raw, upper.raw) }
}

/// A vector with each component uniform in `[lower, upper)`.
pub fn random_vec(rng: &mut Rng, lower: Fx, upper: Fx) -> (r: Vec3)
    requires
        lower@ < upper@,
    ensures
        lower@ <= r.x@ < upper@,
        lower@ <= r.y@ < upper@,
        lower@ <= r.z@ < upper@,
{
    let x = random_double(rng, lower, upper);
    let y = random_double(rng, lower, upper);
    let z = random_double(rng, lower, upper);
    Vec3::new(x, y, z)
}

/// Rejection-sample a point of the unit ball.  Points of squared length under
/// a quarter unit are also rejected, so the result can always be normalized.
pub fn random_in_unit_sphere(rng: &mut Rng) -> (r: Vec3)
    ensures
        bounded(r, 65536),
        16384 <= sdot(r, r) < 65536,
{
    let mut tries: u64 = 0;
    while tries < 1000
        decreases 1000 - tries,
    {
        let p = random_vec(rng, Fx { raw: -65536 }, Fx { raw: 65536 });
        let ls = p.length_squared();
        if 16384 <= ls.raw && ls.raw < 65536 {
            return p;
        }
        tries = tries + 1;
    }
    // An astronomically unlikely run of rejections: fall back to a fixed
    // half-unit vector, which meets the same bounds.
    Vec3::new(Fx { raw: 32768 }, Fx { raw: 0 }, Fx { raw: 0 })
}

/// A vector of (nearly) unit length, uniformly distributed in direction.
pub fn random_unit_vector(rng: &mut Rng) -> (r: Vec3)
    ensures
        bounded(r, 65540),
{
    random_in_unit_sphere(rng).normalize()
}

/// A unit-ball point on the same side as `normal`.
pub fn random_in_hemisphere(rng: &mut Rng, normal: &Vec3) -> (r: Vec3)
    requires
        bounded(*normal, 0x40_0000_0000),
    ensures
        bounded(r, 65536),
{
    let in_unit_sphere = random_in_unit_sphere(rng);
    let d = in_unit_sphere.dot(*normal);
    if d.raw > 0 {
        // Same direction as the normal.
        in_unit_sphere
    } else {
        in_unit_sphere.neg()
    }
}

/// Rejection-sample a point of the unit disc in the xy plane.
pub fn random_in_unit_disc(rng: &mut Rng) -> (r: Vec3)
    ensures
        bounded(r, 65536),
        r.z@ == 0,
{
    let mut tries: u64 = 0;
    while tries < 1000
        decreases 1000 - tries,
    {
        let x = random_double(rng, Fx { raw: -65536 }, Fx { raw: 65536 });
        let y = random_double(rng, Fx { raw: -65536 }, Fx { raw: 65536 });
        let p = Vec3::new(x, y, Fx { raw: 0 });
        let ls = p.length_squared();
        if ls.raw <= 65536 {
            return p;
        }
        tries = tries + 1;
    }
    // An astronomically unlikely run of rejections: the disc centre.
    Vec3::zero()
}

} // verus!
