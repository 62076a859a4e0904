//! Exercises the acceleration structure, the materials, the noise tables and
//! the participating medium.

use std::sync::Arc;

use raytracer::fx::Fx;
use raytracer::hittable::bvh::Bvh;
use raytracer::hittable::constant_medium::ConstantMedium;
use raytracer::hittable::sphere::Sphere;
use raytracer::hittable::world::{Object, World};
use raytracer::hittable::Surface;
use raytracer::material::{Dielectric, Lambertian, Material, Metal};
use raytracer::perlin::Perlin;
use raytracer::ray::Ray;
use raytracer::rng::Rng;
use raytracer::texture::{SolidColor, Texture};
use raytracer::vec3::Vec3;

fn fxi(i: i64) -> Fx {
    Fx::of_int(i)
}

fn lamb(r: i64, g: i64, b: i64) -> Arc<Material> {
    Arc::new(Material::Lambertian(Lambertian::new(Box::new(Texture::SolidColor(
        SolidColor { color: Vec3::new(Fx::of_milli(r), Fx::of_milli(g), Fx::of_milli(b)) },
    )))))
}

fn sphere_grid() -> Vec<Surface> {
    let mut v = Vec::new();
    for x in 0..4i64 {
        for y in 0..4i64 {
            v.push(Surface::Sphere(Sphere::new(
                Vec3::new(fxi(x * 3), fxi(y * 3), fxi(-8 - x - y)),
                fxi(1),
                lamb(500, 500, 500),
            )));
        }
    }
    v
}

// The BVH equivalence: for every probe ray, traversing the tree returns the
// same nearest hit parameter as a linear scan over the same primitives.
#[test]
fn bvh_matches_linear_scan() {
    let mut rng = Rng::from_seed(7);
    let tree = Bvh::new(sphere_grid(), Fx::from_raw(0), Fx::from_raw(65536), &mut rng);
    let mut scan = World::new();
    for s in sphere_grid() {
        scan.push(Object::Surface(s));
    }
    let mut scan_rng = Rng::from_seed(8);
    for ox in -2..6i64 {
        for oy in -2..6i64 {
            let ray = Ray::new(
                Vec3::new(fxi(ox), fxi(oy), fxi(4)),
                Vec3::new(Fx::of_milli(50), Fx::of_milli(-30), fxi(-1)),
                Fx::from_raw(0),
            );
            let from_tree = tree.hit(&ray, Fx::from_raw(66), fxi(100000));
            let from_scan = scan.hit(&mut scan_rng, &ray, Fx::from_raw(66), fxi(100000));
            match (from_tree, from_scan) {
                (None, None) => {}
                (Some(a), Some(b)) => assert_eq!(a.t.raw, b.t.raw),
                (a, b) => panic!(
                    "tree and scan disagree at ({}, {}): {:?} vs {:?}",
                    ox,
                    oy,
                    a.map(|r| r.t.raw),
                    b.map(|r| r.t.raw)
                ),
            }
        }
    }
}

// Energy never increases: the attenuation of a Lambertian or metal scatter
// stays within one per channel, whatever the random draws.
#[test]
fn scatter_attenuation_at_most_one() {
    let mut rng = Rng::from_seed(11);
    let lam = lamb(900, 700, 400);
    let met = Arc::new(Material::Metal(Metal::new(
        Vec3::new(Fx::of_milli(800), Fx::of_milli(800), Fx::of_milli(900)),
        Fx::of_milli(300),
    )));
    for mat in [lam, met] {
        let sp = Sphere::new(Vec3::new(fxi(0), fxi(0), fxi(0)), fxi(2), mat);
        let ray = Ray::new(
            Vec3::new(fxi(0), fxi(0), fxi(-5)),
            Vec3::new(fxi(0), fxi(0), fxi(1)),
            Fx::from_raw(0),
        );
        let rec = sp.hit(&ray, Fx::from_raw(0), fxi(1000)).expect("must hit");
        for _ in 0..50 {
            if let Some((attenuation, scattered)) = rec.material.scatter(&mut rng, &ray, &rec) {
                assert!(attenuation.x.raw >= 0 && attenuation.x.raw <= 65536);
                assert!(attenuation.y.raw >= 0 && attenuation.y.raw <= 65536);
                assert!(attenuation.z.raw >= 0 && attenuation.z.raw <= 65536);
                assert_eq!(scattered.origin.x.raw, rec.point.x.raw);
            }
        }
    }
}

// A dielectric always scatters (reflecting or refracting) and attenuates by
// exactly white, across refraction indices including glass both ways.
#[test]
fn dielectric_always_scatters_white() {
    let mut rng = Rng::from_seed(13);
    for ir_milli in [1000i64, 1500, 2400] {
        let mat = Arc::new(Material::Dielectric(Dielectric::new(Fx::of_milli(ir_milli))));
        let sp = Sphere::new(Vec3::new(fxi(0), fxi(0), fxi(0)), fxi(2), mat);
        let ray = Ray::new(
            Vec3::new(fxi(0), fxi(0), fxi(-5)),
            Vec3::new(fxi(0), fxi(0), fxi(1)),
            Fx::from_raw(0),
        );
        let rec = sp.hit(&ray, Fx::from_raw(0), fxi(1000)).expect("must hit");
        for _ in 0..50 {
            let (attenuation, _scattered) = rec
                .material
                .scatter(&mut rng, &ray, &rec)
                .expect("a dielectric never absorbs");
            assert_eq!(attenuation.x.raw, 65536);
            assert_eq!(attenuation.y.raw, 65536);
            assert_eq!(attenuation.z.raw, 65536);
        }
    }
}

fn fixed_tables() -> Perlin {
    let mut vecs = Vec::new();
    for i in 0..256u32 {
        // A fixed ring of near-unit gradients.
        let a = (i % 4) as i64;
        let v = match a {
            0 => Vec3::new(fxi(1), Fx::from_raw(0), Fx::from_raw(0)),
            1 => Vec3::new(Fx::from_raw(0), fxi(1), Fx::from_raw(0)),
            2 => Vec3::new(Fx::from_raw(0), Fx::from_raw(0), fxi(-1)),
            _ => Vec3::new(fxi(-1), Fx::from_raw(0), Fx::from_raw(0)),
        };
        vecs.push(v);
    }
    let perm: Vec<u8> = (0..=255u8).rev().collect();
    Perlin::from_tables(vecs, perm.clone(), perm.clone(), perm)
}

// Perlin noise from fixed tables is deterministic and bounded; turbulence is
// never negative and bounded by its geometric series.
#[test]
fn perlin_deterministic_and_bounded() {
    let p1 = fixed_tables();
    let p2 = fixed_tables();
    for k in 0..40i64 {
        let pt = Vec3::new(
            Fx::from_raw(k * 23456 - 300000),
            Fx::from_raw(k * 7890),
            Fx::from_raw(150000 - k * 11111),
        );
        let n1 = p1.noise(pt);
        let n2 = p2.noise(pt);
        assert_eq!(n1.raw, n2.raw);
        assert!(n1.raw >= -raytracer::perlin::NOISE_BOUND && n1.raw <= raytracer::perlin::NOISE_BOUND);
        let t1 = p1.turb(pt, 7);
        let t2 = p2.turb(pt, 7);
        assert_eq!(t1.raw, t2.raw);
        assert!(t1.raw >= 0 && t1.raw <= raytracer::perlin::TURB_BOUND);
    }
}

#[test]
fn perlin_noise_varies() {
    let p = fixed_tables();
    let a = p.noise(Vec3::new(Fx::from_raw(11111), Fx::from_raw(22222), Fx::from_raw(33333)));
    let b = p.noise(Vec3::new(Fx::from_raw(99999), Fx::from_raw(5555), Fx::from_raw(77777)));
    assert_ne!(a.raw, b.raw);
}

// A medium whose boundary the ray never crosses reports no interaction.
#[test]
fn medium_requires_a_boundary_crossing() {
    let mut rng = Rng::from_seed(17);
    let boundary = Sphere::new(Vec3::new(fxi(0), fxi(0), fxi(-50)), fxi(2), lamb(500, 500, 500));
    let medium = ConstantMedium::new(
        Box::new(Surface::Sphere(boundary)),
        Fx::of_milli(500),
        Vec3::new(Fx::of_milli(500), Fx::of_milli(500), Fx::of_milli(500)),
    );
    let away = Ray::new(
        Vec3::new(fxi(0), fxi(0), fxi(5)),
        Vec3::new(fxi(0), fxi(0), fxi(1)),
        Fx::from_raw(0),
    );
    for _ in 0..20 {
        assert!(medium.hit(&mut rng, &away, Fx::from_raw(0), fxi(1000)).is_none());
    }
}

// The surface-coordinate anchors: the equator maps to v exactly one half,
// and the forward x axis maps to u just under one half.
#[test]
fn sphere_uv_anchors() {
    let (u, v) = raytracer::hittable::sphere::get_sphere_uv(Vec3::new(
        fxi(1),
        Fx::from_raw(0),
        Fx::from_raw(0),
    ));
    assert_eq!(u.raw, 32767);
    assert_eq!(v.raw, 32768);
    let (_, v2) = raytracer::hittable::sphere::get_sphere_uv(Vec3::new(
        Fx::from_raw(-20000),
        Fx::from_raw(0),
        Fx::from_raw(50000),
    ));
    assert_eq!(v2.raw, 32768);
}

#[test]
fn turbulence_of_zero_depth_is_zero() {
    let p = fixed_tables();
    let t = p.turb(Vec3::new(fxi(1), fxi(2), fxi(3)), 0);
    assert_eq!(t.raw, 0);
}

// The trusted integer draw stays in its half-open range.
#[test]
fn random_draws_stay_in_range() {
    let mut rng = Rng::from_seed(19);
    let mut seen_low = false;
    for _ in 0..2000 {
        let d = raytracer::utils::random_double(&mut rng, Fx::from_raw(10), Fx::from_raw(20));
        assert!(d.raw >= 10 && d.raw < 20);
        if d.raw == 10 {
            seen_low = true;
        }
    }
    assert!(seen_low);
}

#[test]
fn unit_sphere_samples_are_in_the_shell() {
    let mut rng = Rng::from_seed(23);
    for _ in 0..200 {
        let p = raytracer::utils::random_in_unit_sphere(&mut rng);
        let ls = p.length_squared();
        assert!(ls.raw >= 16384 && ls.raw < 65536);
        let u = raytracer::utils::random_unit_vector(&mut rng);
        assert!(u.x.raw.abs() <= 65540 && u.y.raw.abs() <= 65540 && u.z.raw.abs() <= 65540);
    }
}
