//! The path-tracing integrator and the sampling loop.
//!
//! `ray_color` recursively estimates the radiance along a ray: on a miss it
//! returns the scene's background; on a hit it adds the surface's emission to
//! the scattered ray's attenuated recursive estimate; the recursion budget
//! bounds the depth.  Its contract guarantees a non-negative color, bounded
//! by the depth times the brightest emitter.  `render` averages jittered
//! samples per pixel, gamma-corrects with a square root, and packs rows of
//! 8-bit RGBA from the top row down.

use vstd::prelude::*;

use crate::camera::{camera_wf, Camera};
use crate::fx::{fdiv, fmul, sqz, Fx};
use crate::hittable::bvh::world_ray_ok;
use crate::hittable::world::{nearest_t, scan_winner, world_det, world_wf, World};
use crate::hittable::{surf_material, surf_normal, surf_point, surf_uv};
use crate::material::emitted_spec;
use crate::ray::Ray;
use crate::rng::Rng;
use crate::texture::color_in;
use crate::utils::random_double;
use crate::vec3::{bounded, Color, Vec3};

verus! {

/// The bound on one channel of a radiance estimate with the given remaining
/// depth: each bounce can add one full-brightness emitter and a rounding
/// unit.
pub open spec fn radiance_bound(depth: int) -> int {
    (0x100_0000 + 1) * depth + 0x100_0000
}

impl World {
    /// The radiance along `ray`: black once the depth budget is spent; the
    /// background on a miss; otherwise the hit material's emission plus the
    /// attenuated estimate along the scattered ray.  Never negative, and
    /// bounded by the depth times the brightest emitter.
    pub fn ray_color(
        &self,
        rng: &mut Rng,
        ray: &Ray,
        background: Color,
        depth: u32,
    ) -> (r: Color)
        requires
            exists|t0: int, t1: int| world_wf(*self, t0, t1),
            world_ray_ok(*ray),
            color_in(background, 0x100_0000),
            depth <= 64,
        ensures
            color_in(r, radiance_bound(depth as int)),
            depth == 0 ==> r == (Vec3 {
                x: Fx { raw: 0 },
                y: Fx { raw: 0 },
                z: Fx { raw: 0 },
            }),
            (depth > 0 && world_det(*self) && nearest_t(self.objects@, *ray, 66,
            0x100_0000_0000) is None) ==> r == background,
            (scan_winner(self.objects@, *ray, 66, 0x100_0000_0000) matches Some(sw) ==> (
            nearest_t(self.objects@, *ray, 66, 0x100_0000_0000) matches Some(ht) ==> ((depth > 0
                && world_det(*self) && bounded(surf_point(sw.0, *ray, ht), 0x8000_0000) && bounded(
                surf_normal(sw.0, *ray, ht, 66, sw.1),
                0x2_0000,
            )) ==> ({
                let uv = surf_uv(sw.0, *ray, ht, 66, sw.1);
                let em = emitted_spec(
                    surf_material(sw.0, *ray, 66, sw.1),
                    uv.0,
                    uv.1,
                    surf_point(sw.0, *ray, ht),
                );
                &&& em.x@ <= r.x@
                &&& em.y@ <= r.y@
                &&& em.z@ <= r.z@
                &&& (surf_material(sw.0, *ray, 66, sw.1) is DiffuseLight ==> r == em)
            })))),
        decreases depth,
    {
        proof {
            lemma_radiance_bound_small(depth as int);
        }
        if depth == 0 {
            return Vec3::zero();
        }
        // The lower bound of about 0.001 suppresses self-intersection.
        let hit = self.hit(rng, ray, Fx { raw: 66 }, Fx { raw: 0x100_0000_0000 });
        match hit {
            None => background,
            Some(rec) => {
                if !rec.point.check_bounded(0x8000_0000) || !rec.normal.check_bounded(0x2_0000) {
                    // A degenerate record from extreme geometry: treat the
                    // surface as out of view.
                    return background;
                }
                let emitted = rec.material.emitted(rec.u, rec.v, rec.point);
                match rec.material.scatter(rng, ray, &rec) {
                    None => emitted,
                    Some((attenuation, scattered)) => {
                        let inner = self.ray_color(rng, &scattered, background, depth - 1);
                        proof {
                            lemma_radiance_bound_small(depth as int - 1);
                            assert(radiance_bound(depth as int) == radiance_bound(depth as int - 1)
                                + 0x100_0001) by (nonlinear_arith)
                                requires depth >= 1,
                            ;
                            lemma_attenuate(attenuation.x@, inner.x@, radiance_bound(
                                depth as int - 1,
                            ));
                            lemma_attenuate(attenuation.y@, inner.y@, radiance_bound(
                                depth as int - 1,
                            ));
                            lemma_attenuate(attenuation.z@, inner.z@, radiance_bound(
                                depth as int - 1,
                            ));
                        }
                        emitted.add(attenuation.cmul(inner))
                    },
                }
            },
        }
    }
}

/// The radiance along `ray` in `world`: the free-function form of
/// `World::ray_color`, with the same contract.
pub fn ray_color(
    world: &World,
    rng: &mut Rng,
    ray: &Ray,
    background: Color,
    depth: u32,
) -> (r: Color)
    requires
        exists|t0: int, t1: int| world_wf(*world, t0, t1),
        world_ray_ok(*ray),
        color_in(background, 0x100_0000),
        depth <= 64,
    ensures
        color_in(r, radiance_bound(depth as int)),
        depth == 0 ==> r == (Vec3 { x: Fx { raw: 0 }, y: Fx { raw: 0 }, z: Fx { raw: 0 } }),
        (depth > 0 && world_det(*world) && nearest_t(world.objects@, *ray, 66,
        0x100_0000_0000) is None) ==> r == background,
            (scan_winner(world.objects@, *ray, 66, 0x100_0000_0000) matches Some(sw) ==> (
            nearest_t(world.objects@, *ray, 66, 0x100_0000_0000) matches Some(ht) ==> ((depth > 0
                && world_det(*world) && bounded(surf_point(sw.0, *ray, ht), 0x8000_0000) && bounded(
                surf_normal(sw.0, *ray, ht, 66, sw.1),
                0x2_0000,
            )) ==> ({
                let uv = surf_uv(sw.0, *ray, ht, 66, sw.1);
                let em = emitted_spec(
                    surf_material(sw.0, *ray, 66, sw.1),
                    uv.0,
                    uv.1,
                    surf_point(sw.0, *ray, ht),
                );
                &&& em.x@ <= r.x@
                &&& em.y@ <= r.y@
                &&& em.z@ <= r.z@
                &&& (surf_material(sw.0, *ray, 66, sw.1) is DiffuseLight ==> r == em)
            })))),
{
    world.ray_color(rng, ray, background, depth)
}

/// Attenuating a bounded, non-negative radiance by a unit factor keeps it
/// non-negative and adds at most one rounding unit.
proof fn lemma_attenuate(att: int, x: int, m: int)
    requires
        0 <= att <= 65536,
        0 <= x <= m,
    ensures
        0 <= fmul(att, x) <= m + 1,
{
    assert(0 <= att * x <= 65536 * m) by (nonlinear_arith)
        requires 0 <= att <= 65536 && 0 <= x <= m,
    ;
    vstd::arithmetic::div_mod::lemma_div_pos_is_pos(att * x, 65536);
    vstd::arithmetic::div_mod::lemma_fundamental_div_mod(att * x, 65536);
    assert((att * x) / 65536 <= m + 1) by (nonlinear_arith)
        requires
            att * x == 65536 * ((att * x) / 65536) + (att * x) % 65536,
            0 <= (att * x) % 65536 < 65536,
            att * x <= 65536 * m,
    ;
}

/// The four bytes at pixel slot `p` of the buffer: a gamma-corrected average
/// of some per-channel radiance sums within the sample budget, and full
/// alpha.
pub open spec fn pixel_bytes_ok(buf: Seq<u8>, p: int, samples: int, depth: int) -> bool {
    exists|sum: Color|
        #![trigger color_in(sum, samples * (radiance_bound(depth) + 1))]
        color_in(sum, samples * (radiance_bound(depth) + 1)) && buf[4 * p] as int == gamma_of(
            sum.x@,
            samples,
        ) && buf[4 * p + 1] as int == gamma_of(sum.y@, samples) && buf[4 * p + 2] as int
            == gamma_of(sum.z@, samples) && buf[4 * p + 3] == 255
}

/// One channel of the averaged, gamma-corrected pixel: the summed radiance
/// divided by the sample count, square-rooted, scaled to bytes and clamped.
pub open spec fn gamma_of(sum: int, samples: int) -> int {
    let g = sqz(fdiv(sum, samples * 65536) * 65536);
    if g / 256 < 255 {
        g / 256
    } else {
        255
    }
}

/// One channel of the averaged, gamma-corrected pixel: divide the summed
/// radiance by the sample count, take the square root, scale to bytes and
/// clamp.
pub fn gamma_byte(sum: Fx, samples: u32) -> (r: u8)
    requires
        0 <= sum@,
        1 <= samples <= 0x1_0000,
    ensures
        r as int == gamma_of(sum@, samples as int),
{
    proof {
        vstd::arithmetic::div_mod::lemma_div_pos_is_pos(sum@ * 65536, samples as int * 65536);
        vstd::arithmetic::div_mod::lemma_div_is_ordered_by_denominator(
            sum@ * 65536,
            65536,
            samples as int * 65536,
        );
        vstd::arithmetic::div_mod::lemma_div_multiples_vanish(sum@, 65536);
        assert(sum@ * 65536 == 65536 * sum@) by (nonlinear_arith);
    }
    let avg = sum.div(Fx { raw: (samples as i64) * 65536 });
    let g = avg.fsqrt();
    proof {
        crate::fx::lemma_div_bound_by_dividend(g@, 256);
        vstd::arithmetic::div_mod::lemma_div_pos_is_pos(g@, 256);
    }
    let scaled = crate::fx::div_euclid_i128(g.raw as i128, 256) as i64;
    if scaled < 255 {
        scaled as u8
    } else {
        255u8
    }
}

/// Render the scene to a top-down, row-major RGBA byte buffer: for every
/// pixel, average `samples` jittered camera rays traced to depth `depth`,
/// gamma-correct, and append four bytes with full alpha.
pub fn render(
    image_width: u32,
    image_height: u32,
    samples: u32,
    depth: u32,
    world: &World,
    background: Color,
    camera: &Camera,
    rng: &mut Rng,
) -> (r: Vec<u8>)
    requires
        2 <= image_width <= 4096,
        2 <= image_height <= 4096,
        1 <= samples <= 4096,
        depth <= 64,
        exists|t0: int, t1: int| world_wf(*world, t0, t1),
        camera_wf(*camera),
        color_in(background, 0x100_0000),
    ensures
        r@.len() == image_width * image_height * 4,
        forall|p: int| 0 <= p < image_width * image_height ==> #[trigger] r@[4 * p + 3] == 255,
        forall|p: int|
            0 <= p < image_width * image_height ==> #[trigger] pixel_bytes_ok(
                r@,
                p,
                samples as int,
                depth as int,
            ),
{
    let mut buffer: Vec<u8> = Vec::new();
    let mut j: u32 = image_height;
    while j > 0
        invariant
            2 <= image_width <= 4096,
            2 <= image_height <= 4096,
            1 <= samples <= 4096,
            depth <= 64,
            exists|t0: int, t1: int| world_wf(*world, t0, t1),
            camera_wf(*camera),
            color_in(background, 0x100_0000),
            j <= image_height,
            buffer@.len() == image_width * (image_height - j) * 4,
            forall|p: int|
                0 <= p < image_width * (image_height - j) ==> #[trigger] buffer@[4 * p + 3]
                    == 255,
            forall|p: int|
                0 <= p < image_width * (image_height - j) ==> #[trigger] pixel_bytes_ok(
                    buffer@,
                    p,
                    samples as int,
                    depth as int,
                ),
        decreases j,
    {
        j = j - 1;
        let mut i: u32 = 0;
        while i < image_width
            invariant
                2 <= image_width <= 4096,
                2 <= image_height <= 4096,
                1 <= samples <= 4096,
                depth <= 64,
                exists|t0: int, t1: int| world_wf(*world, t0, t1),
                camera_wf(*camera),
                color_in(background, 0x100_0000),
                j < image_height,
                i <= image_width,
                buffer@.len() == image_width * (image_height - j - 1) * 4 + i * 4,
                forall|p: int|
                    0 <= p < image_width * (image_height - j - 1) + i ==> #[trigger] buffer@[4 * p
                        + 3] == 255,
                forall|p: int|
                    0 <= p < image_width * (image_height - j - 1) + i ==> #[trigger] pixel_bytes_ok(
                        buffer@,
                        p,
                        samples as int,
                        depth as int,
                    ),
            decreases image_width - i,
        {
            let (pr, pg, pb) = render_pixel(
                i,
                j,
                image_width,
                image_height,
                samples,
                depth,
                world,
                background,
                camera,
                rng,
            );
            let ghost old_buf = buffer@;
            buffer.push(pr);
            buffer.push(pg);
            buffer.push(pb);
            buffer.push(255u8);
            proof {
                lemma_row_step(image_width as int, image_height as int, j as int, i as int);
                let a = image_width * (image_height - j - 1) as int;
                let m = samples as int * (radiance_bound(depth as int) + 1);
                assert forall|p: int| 0 <= p < a + i + 1 implies #[trigger] pixel_bytes_ok(
                    buffer@,
                    p,
                    samples as int,
                    depth as int,
                ) by {
                    if p < a + i {
                        assert(pixel_bytes_ok(old_buf, p, samples as int, depth as int));
                        let sum = choose|sum: Color|
                            color_in(sum, m) && old_buf[4 * p] as int == gamma_of(
                                sum.x@,
                                samples as int,
                            ) && old_buf[4 * p + 1] as int == gamma_of(sum.y@, samples as int)
                                && old_buf[4 * p + 2] as int == gamma_of(sum.z@, samples as int)
                                && old_buf[4 * p + 3] == 255;
                        assert(color_in(sum, m));
                        assert(4 * p + 3 < old_buf.len());
                        assert(buffer@[4 * p] == old_buf[4 * p]);
                        assert(buffer@[4 * p + 1] == old_buf[4 * p + 1]);
                        assert(buffer@[4 * p + 2] == old_buf[4 * p + 2]);
                        assert(buffer@[4 * p + 3] == old_buf[4 * p + 3]);
                    } else {
                        let sum = choose|sum: Color|
                            color_in(sum, m) && pr as int == gamma_of(sum.x@, samples as int)
                                && pg as int == gamma_of(sum.y@, samples as int) && pb as int
                                == gamma_of(sum.z@, samples as int);
                        assert(color_in(sum, m));
                        assert(4 * p == old_buf.len());
                        assert(buffer@[4 * p] == pr);
                        assert(buffer@[4 * p + 1] == pg);
                        assert(buffer@[4 * p + 2] == pb);
                        assert(buffer@[4 * p + 3] == 255u8);
                    }
                }
            }
            i = i + 1;
        }
        proof {
            lemma_row_end(image_width as int, image_height as int, j as int);
        }
    }
    proof {
        assert(image_width * (image_height - 0) * 4 == image_width * image_height * 4);
    }
    buffer
}

/// One pixel's averaged, gamma-corrected RGB bytes: `samples` jittered
/// camera rays through pixel `(i, j)` (`j` counted from the bottom row),
/// traced to `depth` and averaged.
pub fn render_pixel(
    i: u32,
    j: u32,
    image_width: u32,
    image_height: u32,
    samples: u32,
    depth: u32,
    world: &World,
    background: Color,
    camera: &Camera,
    rng: &mut Rng,
) -> (r: (u8, u8, u8))
    requires
        2 <= image_width <= 4096,
        2 <= image_height <= 4096,
        i < image_width,
        j < image_height,
        1 <= samples <= 4096,
        depth <= 64,
        exists|t0: int, t1: int| world_wf(*world, t0, t1),
        camera_wf(*camera),
        color_in(background, 0x100_0000),
    ensures
        exists|sum: Color|
            #![trigger color_in(sum, samples as int * (radiance_bound(depth as int) + 1))]
            color_in(sum, samples as int * (radiance_bound(depth as int) + 1)) && r.0 as int
                == gamma_of(sum.x@, samples as int) && r.1 as int == gamma_of(
                sum.y@,
                samples as int,
            ) && r.2 as int == gamma_of(sum.z@, samples as int),
{
    let mut sum = Vec3::zero();
    let mut s: u32 = 0;
    while s < samples
        invariant
            1 <= samples <= 4096,
            depth <= 64,
            exists|t0: int, t1: int| world_wf(*world, t0, t1),
            camera_wf(*camera),
            color_in(background, 0x100_0000),
            s <= samples,
            color_in(sum, s as int * (radiance_bound(depth as int) + 1)),
            j < image_height,
            i < image_width,
            2 <= image_width <= 4096,
            2 <= image_height <= 4096,
        decreases samples - s,
    {
        let ju = random_double(rng, Fx { raw: 0 }, Fx { raw: 65536 });
        let jv = random_double(rng, Fx { raw: 0 }, Fx { raw: 65536 });
        let u = pixel_coord(i, image_width, ju);
        let v = pixel_coord(j, image_height, jv);
        let ray = camera.get_ray(u, v, rng);
        let c = world.ray_color(rng, &ray, background, depth);
        proof {
            lemma_radiance_bound_small(depth as int);
            assert((s as int) * (radiance_bound(depth as int) + 1) + (radiance_bound(
                depth as int,
            ) + 1) == (s as int + 1) * (radiance_bound(depth as int) + 1)) by (nonlinear_arith);
            assert((s as int) * (radiance_bound(depth as int) + 1) <= 4096 * (radiance_bound(
                depth as int,
            ) + 1)) by (nonlinear_arith)
                requires 0 <= s as int <= 4096,
            ;
        }
        sum = sum.add(c);
        s = s + 1;
    }
    proof {
        assert(color_in(sum, samples as int * (radiance_bound(depth as int) + 1)));
    }
    (gamma_byte(sum.x, samples), gamma_byte(sum.y, samples), gamma_byte(sum.z, samples))
}

/// The normalized viewport coordinate of pixel `i` of `n`, jittered within
/// the pixel: `(i + jitter) / (n - 1)`, clamped into the unit interval.
fn pixel_coord(i: u32, n: u32, jitter: Fx) -> (r: Fx)
    requires
        2 <= n <= 4096,
        i < n,
        0 <= jitter@ <= 65536,
    ensures
        0 <= r@ <= 65536,
{
    let num = (i as i64) * 65536 + jitter.raw;
    let den = ((n - 1) as i64) * 65536;
    proof {
        vstd::arithmetic::div_mod::lemma_div_pos_is_pos((num as int) * 65536, den as int);
        vstd::arithmetic::div_mod::lemma_div_is_ordered_by_denominator(
            (num as int) * 65536,
            65536,
            den as int,
        );
        vstd::arithmetic::div_mod::lemma_div_multiples_vanish(num as int, 65536);
        assert((num as int) * 65536 == 65536 * (num as int)) by (nonlinear_arith);
    }
    Fx { raw: num }.div(Fx { raw: den }).min(Fx { raw: 65536 }).max(Fx { raw: 0 })
}

/// The radiance bound at any depth up to 64 stays well within range.
proof fn lemma_radiance_bound_small(depth: int)
    requires
        0 <= depth <= 64,
    ensures
        0x100_0000 <= radiance_bound(depth) <= 0x5000_0000,
        4097 * (radiance_bound(depth) + 1) <= 0x6000_0000_0000,
{
    assert(0x100_0000 <= radiance_bound(depth) <= 0x5000_0000) by (nonlinear_arith)
        requires 0 <= depth <= 64,
    ;
    assert(4097 * (radiance_bound(depth) + 1) <= 0x6000_0000_0000) by (nonlinear_arith)
        requires 0 <= depth <= 64,
    ;
}

/// Appending one pixel advances the flat index arithmetic by four.
proof fn lemma_row_step(w: int, h: int, j: int, i: int)
    requires
        0 <= j < h,
        0 <= i < w,
        2 <= w,
    ensures
        w * (h - j - 1) * 4 + i * 4 + 4 == w * (h - j - 1) * 4 + (i + 1) * 4,
        w * (h - j - 1) + i + 1 <= w * (h - j),
{
    assert(w * (h - j - 1) + w == w * (h - j)) by (nonlinear_arith);
}

/// Finishing a row re-expresses the flat length for the next row.
proof fn lemma_row_end(w: int, h: int, j: int)
    requires
        0 <= j < h,
        2 <= w,
    ensures
        w * (h - j - 1) * 4 + w * 4 == w * (h - j) * 4,
        w * (h - j - 1) + w == w * (h - j),
{
    assert(w * (h - j - 1) + w == w * (h - j)) by (nonlinear_arith);
    assert(w * (h - j - 1) * 4 + w * 4 == w * (h - j) * 4) by (nonlinear_arith);
}

} // verus!
