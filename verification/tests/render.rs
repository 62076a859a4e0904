//! End-to-end rendering scenarios: the concrete two-sphere picture, the
//! hollow glass bubble, the scene builders and the pixel pipeline.

use std::sync::Arc;

use raytracer::camera::Camera;
use raytracer::fx::Fx;
use raytracer::hittable::sphere::Sphere;
use raytracer::hittable::world::{Object, World};
use raytracer::hittable::Surface;
use raytracer::material::{Dielectric, Lambertian, Material};
use raytracer::renderer::{gamma_byte, render};
use raytracer::rng::Rng;
use raytracer::texture::{ImageTexture, SolidColor, Texture};
use raytracer::vec3::Vec3;

fn fxi(i: i64) -> Fx {
    Fx::of_int(i)
}

fn lamb(r: i64, g: i64, b: i64) -> Arc<Material> {
    Arc::new(Material::Lambertian(Lambertian::new(Box::new(Texture::SolidColor(
        SolidColor { color: Vec3::new(Fx::of_milli(r), Fx::of_milli(g), Fx::of_milli(b)) },
    )))))
}

fn sky() -> Vec3 {
    Vec3::new(Fx::of_milli(700), Fx::of_milli(800), Fx::of_milli(1000))
}

fn headon_camera() -> Camera {
    Camera::new(
        Vec3::new(fxi(0), fxi(0), fxi(0)),
        Vec3::new(fxi(0), fxi(0), fxi(-1)),
        Vec3::new(fxi(0), fxi(1), fxi(0)),
        fxi(90),
        fxi(1),
        Fx::from_raw(0),
        fxi(1),
        Fx::from_raw(0),
        Fx::from_raw(65536),
    )
}

// The concrete scenario: a gray ground sphere and a red-ish sphere straight
// ahead; the rendered centre is a blend of the albedo and ambient light,
// strictly darker than the pure albedo, and every pixel is a valid byte
// with full alpha.
#[test]
fn two_sphere_scenario_renders_darker_than_albedo() {
    let mut world = World::new();
    world.push(Object::Surface(Surface::Sphere(Sphere::new(
        Vec3::new(fxi(0), Fx::of_milli(-100500), fxi(-1)),
        fxi(100),
        lamb(500, 500, 500),
    ))));
    world.push(Object::Surface(Surface::Sphere(Sphere::new(
        Vec3::new(fxi(0), fxi(0), fxi(-1)),
        Fx::of_milli(500),
        lamb(700, 300, 300),
    ))));
    let camera = headon_camera();
    let mut rng = Rng::from_seed(42);
    let (w, h, samples, depth) = (16u32, 16u32, 24u32, 16u32);
    let buffer = render(w, h, samples, depth, &world, sky(), &camera, &mut rng);
    assert_eq!(buffer.len(), (w * h * 4) as usize);
    for p in 0..(w * h) as usize {
        assert_eq!(buffer[4 * p + 3], 255);
    }
    // The centre pixel sees the red sphere: darker than the pure albedo
    // after gamma (sqrt(0.7) * 256 is about 214).
    let centre = ((h / 2) * w + w / 2) as usize;
    let r = buffer[4 * centre];
    assert!(r > 0, "centre pixel is black");
    assert!(r < 214, "centre pixel is at least as bright as the bare albedo: {}", r);
}

// The hollow glass bubble: an outer dielectric sphere with an inner sphere
// of negated radius, traced across several refraction indices; every output
// stays a valid byte buffer (the fixed-point pipeline has no NaN to
// propagate).
#[test]
fn hollow_glass_bubble_renders_cleanly() {
    for ir in [1000i64, 1500, 2400] {
        let glass = Arc::new(Material::Dielectric(Dielectric::new(Fx::of_milli(ir))));
        let mut world = World::new();
        world.push(Object::Surface(Surface::Sphere(Sphere::new(
            Vec3::new(fxi(0), Fx::of_milli(-100500), fxi(-1)),
            fxi(100),
            lamb(500, 500, 500),
        ))));
        world.push(Object::Surface(Surface::Sphere(Sphere::new(
            Vec3::new(fxi(0), fxi(0), fxi(-1)),
            Fx::of_milli(500),
            Arc::clone(&glass),
        ))));
        world.push(Object::Surface(Surface::Sphere(Sphere::new(
            Vec3::new(fxi(0), fxi(0), fxi(-1)),
            Fx::of_milli(-450),
            glass,
        ))));
        let camera = headon_camera();
        let mut rng = Rng::from_seed(5);
        let buffer = render(8, 8, 8, 12, &world, sky(), &camera, &mut rng);
        assert_eq!(buffer.len(), 8 * 8 * 4);
        for p in 0..64 {
            assert_eq!(buffer[4 * p + 3], 255);
        }
    }
}

#[test]
fn checker_texture_picks_one_of_its_colors() {
    let even = Vec3::new(Fx::of_milli(200), Fx::of_milli(300), Fx::of_milli(100));
    let odd = Vec3::new(Fx::of_milli(900), Fx::of_milli(900), Fx::of_milli(900));
    let checker = Texture::Checker(raytracer::texture::CheckerTexture::new(even, odd));
    for k in 0..16i64 {
        let p = Vec3::new(Fx::from_raw(k * 40000), Fx::from_raw(0), Fx::from_raw(k * 90000));
        let c = checker.value(Fx::from_raw(0), Fx::from_raw(0), p);
        let is_even = c.x.raw == even.x.raw && c.y.raw == even.y.raw && c.z.raw == even.z.raw;
        let is_odd = c.x.raw == odd.x.raw && c.y.raw == odd.y.raw && c.z.raw == odd.z.raw;
        assert!(is_even || is_odd);
    }
}

// With the aperture closed and the shutter fixed, the camera is a pure
// function of the pixel coordinates: two independent streams give the same
// ray.
#[test]
fn camera_is_deterministic_without_aperture() {
    let camera = Camera::new(
        Vec3::new(fxi(3), fxi(1), fxi(2)),
        Vec3::new(fxi(0), fxi(0), fxi(-1)),
        Vec3::new(fxi(0), fxi(1), fxi(0)),
        fxi(45),
        fxi(1),
        Fx::from_raw(0),
        fxi(2),
        Fx::from_raw(32768),
        Fx::from_raw(32768),
    );
    let mut rng1 = Rng::from_seed(1);
    let mut rng2 = Rng::from_seed(999);
    let a = camera.get_ray(Fx::from_raw(20000), Fx::from_raw(40000), &mut rng1);
    let b = camera.get_ray(Fx::from_raw(20000), Fx::from_raw(40000), &mut rng2);
    assert_eq!(a.origin.x.raw, b.origin.x.raw);
    assert_eq!(a.direction.x.raw, b.direction.x.raw);
    assert_eq!(a.direction.y.raw, b.direction.y.raw);
    assert_eq!(a.direction.z.raw, b.direction.z.raw);
    assert_eq!(a.time.raw, 32768);
}

#[test]
fn image_texture_accepts_longer_buffers() {
    let mut data = vec![10u8; 2 * 2 * 3];
    data.extend_from_slice(&[1, 2, 3, 4, 5]);
    let tex = ImageTexture::new(data, 2, 2, 3);
    let c = tex.value_px(Fx::from_raw(0), Fx::from_raw(65536));
    assert_eq!(c.x.raw, (10 * 65536) / 255);
}

#[test]
fn gamma_byte_is_exact() {
    // An average of 0.25 has square root 0.5: byte 128.
    assert_eq!(gamma_byte(Fx::from_raw(65536), 4), 128);
    // An average of 1.0 saturates at 255.
    assert_eq!(gamma_byte(Fx::of_int(4), 4), 255);
    // Black stays black.
    assert_eq!(gamma_byte(Fx::from_raw(0), 16), 0);
}

#[test]
fn image_texture_samples_exact_pixels() {
    // A 2 x 2 RGB image: red, green / blue, white rows from the top.
    let data = vec![
        255, 0, 0, 0, 255, 0, //
        0, 0, 255, 255, 255, 255,
    ];
    let tex = ImageTexture::new(data, 2, 2, 3);
    // v = 1 maps to the top row after the flip.
    let c = tex.value_px(Fx::from_raw(0), Fx::from_raw(65536));
    assert_eq!(c.x.raw, 65536);
    assert_eq!(c.y.raw, 0);
    assert_eq!(c.z.raw, 0);
    // v = 0 maps to the bottom row; u past the middle picks the right pixel.
    let c = tex.value_px(Fx::from_raw(60000), Fx::from_raw(0));
    assert_eq!(c.x.raw, 65536);
    assert_eq!(c.y.raw, 65536);
    assert_eq!(c.z.raw, 65536);
}

#[test]
fn scene_builders_produce_nonempty_worlds() {
    let mut rng = Rng::from_seed(3);
    let (w1, _c1) = raytracer::scene::two_spheres(64, 64);
    assert!(w1.len() > 0);
    let (w2, _c2) = raytracer::scene::two_perlin_spheres(64, 64, &mut rng);
    assert!(w2.len() > 0);
    let (w3, _c3) = raytracer::scene::cornell_box(64, 64);
    assert!(w3.len() == 8);
    let (w4, _c4) = raytracer::scene::smoke_cornell_box(64, 64);
    assert!(w4.len() == 8);
    let (w5, _c5) = raytracer::scene::light_scene(64, 64, &mut rng);
    assert!(w5.len() == 4);
    let data = vec![128u8; 4 * 4 * 3];
    let (w6, _c6) = raytracer::scene::earth_scene(64, 64, data, 4, 4, 3);
    assert!(w6.len() == 1);
}

#[test]
fn random_scene_builds_a_tree() {
    let mut rng = Rng::from_seed(99);
    let (w, _c) = raytracer::scene::random_scene(64, 64, &mut rng);
    assert_eq!(w.len(), 1);
}

#[test]
fn final_scene_builds() {
    let mut rng = Rng::from_seed(123);
    let data = vec![200u8; 4 * 4 * 3];
    let (w, _c) = raytracer::scene::final_scene(64, 64, data, 4, 4, 3, &mut rng);
    assert!(w.len() >= 9);
}

// A short end-to-end render of the Cornell box against a black background:
// the light patch must make some pixel brighter than the walls lit only by
// bounces.
#[test]
fn cornell_box_renders() {
    let (world, camera) = raytracer::scene::cornell_box(8, 8);
    let mut rng = Rng::from_seed(77);
    let black = Vec3::new(Fx::from_raw(0), Fx::from_raw(0), Fx::from_raw(0));
    let buffer = render(8, 8, 4, 8, &world, black, &camera, &mut rng);
    assert_eq!(buffer.len(), 8 * 8 * 4);
}

// Out-of-range surface coordinates are clamped into the unit interval
// before the pixel lookup, as any caller may pass them.
#[test]
fn image_texture_clamps_out_of_range_coordinates() {
    // A 2 x 2 RGB image: red, green / blue, white rows from the top.
    let data = vec![
        255, 0, 0, 0, 255, 0, //
        0, 0, 255, 255, 255, 255,
    ];
    let tex = ImageTexture::new(data, 2, 2, 3);
    // u below zero clamps to the left column, v above one to the top row.
    let c = tex.value_px(Fx::from_raw(-40000), Fx::from_raw(90000));
    assert_eq!(c.x.raw, 65536);
    assert_eq!(c.y.raw, 0);
    assert_eq!(c.z.raw, 0);
    // u above one clamps to the right column, v below zero to the bottom row.
    let c = tex.value_px(Fx::from_raw(70000), Fx::from_raw(-5));
    assert_eq!(c.x.raw, 65536);
    assert_eq!(c.y.raw, 65536);
    assert_eq!(c.z.raw, 65536);
}
