//! A homogeneous participating medium (fog or smoke) bounded by a wrapped
//! primitive: find the ray's entry and exit crossings, sample a random
//! free-flight distance with density `d`, and scatter isotropically inside
//! the medium if the flight ends before the exit.  The contract states what
//! holds of every outcome of the sampling: a reported interaction lies
//! within the window and between the two boundary crossings, and hands off
//! to the medium's phase-function material.

use std::sync::Arc;

use vstd::prelude::*;

use crate::fx::{fdiv, fmul, Fx};
use crate::hittable::{rec_bounds, surf_hit_t, surf_wf, HitRecord, Surface};
use crate::material::{Isotropic, Material};
use crate::texture::{SolidColor, Texture};
use crate::ray::Ray;
use crate::rng::Rng;
use crate::vec3::{bounded, sdot, Color, Vec3};

verus! {

pub struct ConstantMedium {
    pub boundary: Box<Surface>,
    pub phase_function: Arc<Material>,
    pub density: Fx,
}

/// The boundary's first crossing over the widest window.
pub open spec fn medium_entry(cm: ConstantMedium, r: Ray) -> Option<int> {
    surf_hit_t(*cm.boundary, r, -0x100_0000_0000, 0x100_0000_0000)
}

/// The boundary's next crossing just past the entry `t1`.
pub open spec fn medium_exit(cm: ConstantMedium, r: Ray, t1: int) -> Option<int> {
    surf_hit_t(
        *cm.boundary,
        r,
        if t1 < 0x100_0000_0000 - 7 {
            t1 + 7
        } else {
            0x100_0000_0000
        },
        0x100_0000_0000,
    )
}

/// The ray's chord through the medium, clamped to the query window and to
/// non-negative times: `Some((a, b))` when both crossings exist.
pub open spec fn chord_window(cm: ConstantMedium, r: Ray, tmin: int, tmax: int) -> Option<
    (int, int),
> {
    match medium_entry(cm, r) {
        None => None,
        Some(t1) => match medium_exit(cm, r, t1) {
            None => None,
            Some(t2) => {
                let a0 = if t1 >= tmin {
                    t1
                } else {
                    tmin
                };
                let a = if a0 >= 0 {
                    a0
                } else {
                    0
                };
                let b = if t2 <= tmax {
                    t2
                } else {
                    tmax
                };
                Some((a, b))
            },
        },
    }
}

/// The raw length of the ray's direction.
pub open spec fn ray_len_spec(r: Ray) -> int {
    crate::fx::sqz(sdot(r.direction, r.direction) * 65536)
}

/// The longest free flight any draw can produce: the largest value of
/// `-ln(u) / density` over the drawn range.
pub open spec fn max_flight(cm: ConstantMedium) -> int {
    fmul(800000, fdiv(65536, cm.density@))
}

pub open spec fn medium_wf(cm: ConstantMedium) -> bool {
    &&& surf_wf(*cm.boundary)
    &&& 1 <= cm.density@ <= 0x100_0000
    &&& crate::material::mat_wf(*cm.phase_function)
}

/// `-ln(u / 65536)` for `u` in `[1, 65536]`, by octave counting and a linear
/// correction: zero at one, about 11.1 at the smallest argument.
fn neg_ln_unit(u: Fx) -> (r: Fx)
    requires
        1 <= u@ <= 65536,
    ensures
        0 <= r@ <= 800000,
        u@ == 65536 ==> r@ == 0,
{
    let mut m = u.raw;
    let mut k: i64 = 0;
    proof {
        vstd::arithmetic::power2::lemma2_to64();
    }
    while m < 65536
        invariant
            1 <= m < 131072,
            0 <= k <= 16,
            vstd::arithmetic::power2::pow2(k as nat) <= m,
            k == 0 ==> m == u@,
            u@ == 65536 ==> k == 0 && m == 65536,
        decreases 131072 - m,
    {
        proof {
            vstd::arithmetic::power2::lemma2_to64();
            if k >= 16 {
                if k > 16 {
                    vstd::arithmetic::power2::lemma_pow2_strictly_increases(16, k as nat);
                }
                assert(vstd::arithmetic::power2::pow2(k as nat) >= 65536);
                assert(false);
            }
            vstd::arithmetic::power2::lemma_pow2_unfold((k + 1) as nat);
        }
        m = m * 2;
        k = k + 1;
    }
    // m is now in [65536, 131072); ln 2 is about 45426 raw.
    proof {
        vstd::arithmetic::div_mod::lemma_div_pos_is_pos((131072 - m) * 45426, 65536);
        vstd::arithmetic::div_mod::lemma_div_is_ordered(
            (131072 - m) * 45426,
            2977038336,
            65536,
        );
        vstd::arithmetic::div_mod::lemma_div_multiples_vanish(45426, 65536);
        assert(0 <= (131072 - m) * 45426 <= 2977038336) by (nonlinear_arith)
            requires 65536 <= m < 131072,
        ;
        if u@ == 65536 {
            assert((131072 - m) * 45426 == 2977038336);
        }
    }
    let frac = ((((131072 - m) as u64) * 45426) / 65536) as i64;
    Fx { raw: k * 45426 + frac - 45426 }
}

/// The reported parameter is the clamped entry plus a free flight of at
/// most the maximum, divided by the direction's length, and stays between
/// the two crossings.
pub open spec fn valid_interaction(t: int, a: int, b: int, cm: ConstantMedium, r: Ray) -> bool {
    &&& a <= t <= b
    &&& exists|hd: int|
        0 <= hd <= max_flight(cm) && #[trigger] fdiv(hd, ray_len_spec(r)) == t - a
}

/// Scaling a value within `[0, 800000]` by a non-negative factor never
/// exceeds scaling the bound itself.
proof fn lemma_fmul_mono(x: int, y: int, c: int)
    requires
        0 <= x <= y,
        0 <= c,
    ensures
        fmul(x, c) <= fmul(y, c),
        0 <= fmul(x, c),
{
    assert(x * c <= y * c && 0 <= x * c) by (nonlinear_arith)
        requires 0 <= x <= y && 0 <= c,
    ;
    vstd::arithmetic::div_mod::lemma_div_is_ordered(x * c, y * c, 65536);
    vstd::arithmetic::div_mod::lemma_div_pos_is_pos(x * c, 65536);
}

impl ConstantMedium {
    /// The boundary, the density and an isotropic phase function of the
    /// given albedo.
    pub fn new(b: Box<Surface>, d: Fx, albedo: Color) -> (r: ConstantMedium)
        ensures
            r.boundary == b,
            r.density == d,
            r.phase_function == Arc::new(
                Material::Isotropic(
                    Isotropic {
                        albedo: Box::new(
                            Texture::SolidColor(SolidColor { color: albedo }),
                        ),
                    },
                ),
            ),
    {
        ConstantMedium {
            boundary: b,
            phase_function: Arc::new(Material::Isotropic(Isotropic::new(albedo))),
            density: d,
        }
    }

    /// Sample an interaction.  Whatever the free-flight draw: a reported
    /// interaction lies within the window, carries the phase function, and
    /// only occurs if the boundary is crossed twice; if the boundary is
    /// never hit at all, there is no interaction.
    pub fn hit(&self, rng: &mut Rng, ray: &Ray, t_min: Fx, t_max: Fx) -> (res: Option<HitRecord>)
        requires
            medium_wf(*self),
            crate::hittable::bvh::world_ray_ok(*ray),
            -0x100_0000_0000 <= t_min@ <= 0x100_0000_0000,
            -0x100_0000_0000 <= t_max@ <= 0x100_0000_0000,
        ensures
            match res {
                None => true,
                Some(rec) => {
                    &&& t_min@ <= rec.t@ <= t_max@
                    &&& rec_bounds(rec)
                    &&& rec.material == self.phase_function
                },
            },
            chord_window(*self, *ray, t_min@, t_max@) is None ==> res is None,
            (chord_window(*self, *ray, t_min@, t_max@) matches Some(w) && (w.0 >= w.1
                || ray_len_spec(*ray) < 16)) ==> res is None,
            (chord_window(*self, *ray, t_min@, t_max@) matches Some(w) && w.0 < w.1
                && ray_len_spec(*ray) >= 16 && max_flight(*self) <= fmul(
                w.1 - w.0,
                ray_len_spec(*ray),
            )) ==> res is Some,
            (forall|w: (int, int)|
                (res is Some && chord_window(*self, *ray, t_min@, t_max@) == Some(w))
                    ==> #[trigger] valid_interaction(res->Some_0.t@, w.0, w.1, *self, *ray)),
    {
        proof {
            crate::hittable::bvh::lemma_world_ray_ok(*self.boundary, *ray);
        }
        let big = Fx { raw: 0x100_0000_0000 };
        let neg_big = Fx { raw: -0x100_0000_0000 };
        let rec1 = match self.boundary.hit(ray, neg_big, big) {
            Some(r) => r,
            None => {
                return None;
            },
        };
        proof {
            assert(medium_entry(*self, *ray) == Some(rec1.t@));
        }
        let past = Fx { raw: if rec1.t.raw < 0x100_0000_0000 - 7 {
            rec1.t.raw + 7
        } else {
            0x100_0000_0000
        } };
        let rec2 = match self.boundary.hit(ray, past, big) {
            Some(r) => r,
            None => {
                return None;
            },
        };
        proof {
            assert(medium_exit(*self, *ray, rec1.t@) == Some(rec2.t@));
        }
        let mut t1 = rec1.t.max(t_min);
        let t2 = rec2.t.min(t_max);
        if t1.raw >= t2.raw {
            return None;
        }
        t1 = t1.max(Fx { raw: 0 });
        proof {
            assert(chord_window(*self, *ray, t_min@, t_max@) == Some((t1@, t2@)));
        }
        if t1.raw >= t2.raw {
            return None;
        }
        let ray_length = ray.direction.length();
        if ray_length.raw < 16 {
            // Too slow a ray to measure a flight against.
            return None;
        }
        proof {
            crate::vec3::lemma_sdot_bound(ray.direction, ray.direction, 0x40_0000, 0x40_0000);
            assert(sdot(ray.direction, ray.direction) <= 0x3000_0000);
            crate::fx::lemma_sqz(sdot(ray.direction, ray.direction) * 65536);
            assert(ray_length@ <= 0x80_0000) by (nonlinear_arith)
                requires
                    ray_length@ >= 0,
                    ray_length@ * ray_length@ <= sdot(ray.direction, ray.direction) * 65536,
                    sdot(ray.direction, ray.direction) <= 0x3000_0000,
            ;
        }
        proof {
            crate::vec3::lemma_prod_bound(t2@ - t1@, ray_length@, 0x200_0000_0000, 0x80_0000);
            crate::fx::lemma_div_shrink((t2@ - t1@) * ray_length@, 65536,
                0x1000_0000_0000_0000);
        }
        let distance_inside_boundary = Fx { raw: t2.raw - t1.raw }.mul(ray_length);
        let u = crate::utils::random_double(rng, Fx { raw: 1 }, Fx { raw: 65537 });
        let nl = neg_ln_unit(u);
        proof {
            crate::fx::lemma_div_bound_by_dividend(4294967296, self.density@);
            vstd::arithmetic::div_mod::lemma_div_pos_is_pos(4294967296, self.density@);
            crate::vec3::lemma_prod_bound(nl@, fdiv(65536, self.density@), 800000,
                0x1_0000_0000);
            crate::fx::lemma_div_bound_by_dividend(nl@ * fdiv(65536, self.density@), 65536);
            assert(nl@ * fdiv(65536, self.density@) >= 0) by (nonlinear_arith)
                requires nl@ >= 0 && fdiv(65536, self.density@) >= 0,
            ;
            vstd::arithmetic::div_mod::lemma_div_pos_is_pos(
                nl@ * fdiv(65536, self.density@),
                65536,
            );
        }
        let inv_density = Fx { raw: 65536 }.div(self.density);
        let hit_distance = nl.mul(inv_density);
        proof {
            lemma_fmul_mono(nl@, 800000, fdiv(65536, self.density@));
            assert(hit_distance@ <= max_flight(*self));
            assert(ray_length@ == ray_len_spec(*ray));
        }
        if hit_distance.raw > distance_inside_boundary.raw {
            return None;
        }
        proof {
            lemma_flight_within(hit_distance@, distance_inside_boundary@, t1@, t2@, ray_length@);
        }
        let t = t1.add(hit_distance.div(ray_length));
        proof {
            assert(fdiv(hit_distance@, ray_len_spec(*ray)) == t@ - t1@);
        }
        let point = ray.at(t);
        let outward = Vec3::new(Fx { raw: 65536 }, Fx { raw: 0 }, Fx { raw: 0 });
        Some(
            HitRecord::new(
                point,
                t,
                ray,
                outward,
                Arc::clone(&self.phase_function),
                Fx { raw: 0 },
                Fx { raw: 0 },
            ),
        )
    }

    pub fn bounding_box(&self, time0: Fx, time1: Fx) -> (res: Option<crate::aabb::Aabb>)
        requires
            medium_wf(*self),
            0 <= time0@ <= time1@ <= 65536,
        ensures
            res == Some(crate::hittable::surf_box(*self.boundary, time0@, time1@)),
    {
        self.boundary.bounding_box(time0, time1)
    }
}

/// A flight no longer than the chord keeps the interaction between the two
/// crossings: `t1 + hd / len <= t2` when `hd <= (t2 - t1) * len / 65536`.
proof fn lemma_flight_within(hd: int, dib: int, t1: int, t2: int, len: int)
    requires
        0 <= hd <= dib,
        dib == fmul(t2 - t1, len),
        t1 < t2,
        len >= 16,
        -0x200_0000_0000 <= t1 <= 0x200_0000_0000,
        -0x200_0000_0000 <= t2 <= 0x200_0000_0000,
        len <= 0x100_0000_0000,
    ensures
        0 <= fdiv(hd, len),
        t1 + fdiv(hd, len) <= t2,
        crate::fx::fits64(fdiv(hd, len)),
{
    vstd::arithmetic::div_mod::lemma_div_pos_is_pos(hd * 65536, len);
    // hd * 65536 <= (t2 - t1) * len, since dib is the floor of the latter
    // over 65536.
    vstd::arithmetic::div_mod::lemma_fundamental_div_mod((t2 - t1) * len, 65536);
    assert(hd * 65536 <= (t2 - t1) * len) by (nonlinear_arith)
        requires
            hd <= dib,
            dib == ((t2 - t1) * len) / 65536,
            (t2 - t1) * len == 65536 * (((t2 - t1) * len) / 65536) + ((t2 - t1) * len) % 65536,
            0 <= ((t2 - t1) * len) % 65536 < 65536,
    ;
    vstd::arithmetic::div_mod::lemma_div_is_ordered(hd * 65536, (t2 - t1) * len, len);
    vstd::arithmetic::div_mod::lemma_div_multiples_vanish(t2 - t1, len);
    assert((t2 - t1) * len == len * (t2 - t1)) by (nonlinear_arith);
}

} // verus!
