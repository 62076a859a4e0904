//! Exercises the fixed-point scalar, vector, box and primitive layers on
//! concrete values with exactly predicted results.

use std::sync::Arc;

use raytracer::aabb::Aabb;
use raytracer::fx::Fx;
use raytracer::hittable::rect::XYRect;
use raytracer::hittable::sphere::Sphere;
use raytracer::hittable::Surface;
use raytracer::material::{Lambertian, Material};
use raytracer::ray::Ray;
use raytracer::texture::{SolidColor, Texture};
use raytracer::vec3::Vec3;

fn fxi(i: i64) -> Fx {
    Fx::of_int(i)
}

fn gray() -> Arc<Material> {
    Arc::new(Material::Lambertian(Lambertian::new(Box::new(Texture::SolidColor(
        SolidColor { color: Vec3::new(Fx::of_milli(500), Fx::of_milli(500), Fx::of_milli(500)) },
    )))))
}

#[test]
fn fx_arithmetic_is_exact() {
    assert_eq!(Fx::of_milli(500).raw, 32768);
    assert_eq!(fxi(3).mul(fxi(4)).raw, 12 * 65536);
    assert_eq!(fxi(9).fsqrt().raw, 3 * 65536);
    assert_eq!(fxi(10).div(fxi(4)).raw, 163840); // 2.5
    assert_eq!(fxi(-7).abs().raw, 7 * 65536);
    assert_eq!(fxi(2).min(fxi(5)).raw, 2 * 65536);
    assert_eq!(fxi(2).max(fxi(5)).raw, 5 * 65536);
}

#[test]
fn vec_dot_cross_and_length() {
    let a = Vec3::new(fxi(1), fxi(2), fxi(3));
    let b = Vec3::new(fxi(4), fxi(-5), fxi(6));
    assert_eq!(a.dot(b).raw, (4 - 10 + 18) * 65536);
    let c = a.cross(b);
    assert_eq!(c.x.raw, (2 * 6 - 3 * -5) * 65536);
    assert_eq!(c.y.raw, (3 * 4 - 1 * 6) * 65536);
    assert_eq!(c.z.raw, (1 * -5 - 2 * 4) * 65536);
    let v = Vec3::new(fxi(3), fxi(4), fxi(0));
    assert_eq!(v.length().raw, 5 * 65536);
    let u = v.normalize();
    // 3/5 and 4/5 exactly.
    assert_eq!(u.x.raw, 39321);
    assert_eq!(u.y.raw, 52428);
    assert_eq!(u.z.raw, 0);
}

#[test]
fn vec_reflect_mirrors_about_normal() {
    let v = Vec3::new(fxi(1), fxi(-1), fxi(0));
    let n = Vec3::new(fxi(0), fxi(1), fxi(0));
    let r = Vec3::reflect(v, n);
    assert_eq!(r.x.raw, 65536);
    assert_eq!(r.y.raw, 65536);
    assert_eq!(r.z.raw, 0);
}

// The box slab test: a ray through the interior hits, one that never
// enters misses, and one exactly tangent to a face still counts as a hit
// (the face comparisons are inclusive by design).
#[test]
fn aabb_slab_test() {
    let b = Aabb::new(
        Vec3::new(fxi(-1), fxi(-1), fxi(-1)),
        Vec3::new(fxi(1), fxi(1), fxi(1)),
    );
    let through = Ray::new(
        Vec3::new(fxi(-5), fxi(0), fxi(0)),
        Vec3::new(fxi(1), fxi(0), fxi(0)),
        Fx::from_raw(0),
    );
    assert!(b.hit(&through, fxi(-1000), fxi(1000)));
    let missing = Ray::new(
        Vec3::new(fxi(-5), fxi(3), fxi(0)),
        Vec3::new(fxi(1), fxi(0), fxi(0)),
        Fx::from_raw(0),
    );
    assert!(!b.hit(&missing, fxi(-1000), fxi(1000)));
    let tangent = Ray::new(
        Vec3::new(fxi(-5), fxi(1), fxi(0)),
        Vec3::new(fxi(1), fxi(0), fxi(0)),
        Fx::from_raw(0),
    );
    assert!(b.hit(&tangent, fxi(-1000), fxi(1000)));
    // The window matters: a box behind the allowed interval misses.
    assert!(!b.hit(&through, fxi(1000), fxi(2000)));
}

#[test]
fn aabb_union_covers_both() {
    let b0 = Aabb::new(Vec3::new(fxi(-2), fxi(0), fxi(0)), Vec3::new(fxi(1), fxi(1), fxi(1)));
    let b1 = Aabb::new(Vec3::new(fxi(0), fxi(-3), fxi(0)), Vec3::new(fxi(4), fxi(1), fxi(2)));
    let u = Aabb::surrounding_box(b0, b1);
    assert_eq!(u.min.x.raw, -2 * 65536);
    assert_eq!(u.min.y.raw, -3 * 65536);
    assert_eq!(u.min.z.raw, 0);
    assert_eq!(u.max.x.raw, 4 * 65536);
    assert_eq!(u.max.y.raw, 65536);
    assert_eq!(u.max.z.raw, 2 * 65536);
}

// The sphere round trip: from 5 units away, aimed at the centre of a
// unit-direction ray, a radius-2 sphere is hit at t = 3 exactly and the hit
// point is exactly 2 units from the centre.
#[test]
fn sphere_round_trip() {
    let sp = Sphere::new(Vec3::new(fxi(0), fxi(0), fxi(0)), fxi(2), gray());
    let ray = Ray::new(
        Vec3::new(fxi(0), fxi(0), fxi(-5)),
        Vec3::new(fxi(0), fxi(0), fxi(1)),
        Fx::from_raw(0),
    );
    let rec = sp.hit(&ray, Fx::from_raw(0), fxi(1000)).expect("must hit");
    assert_eq!(rec.t.raw, 3 * 65536);
    assert_eq!(rec.point.x.raw, 0);
    assert_eq!(rec.point.y.raw, 0);
    assert_eq!(rec.point.z.raw, -2 * 65536);
    assert!(rec.front_face);
    // Outward normal points back along the ray.
    assert_eq!(rec.normal.z.raw, -65536);
}

#[test]
fn sphere_miss_and_window() {
    let sp = Sphere::new(Vec3::new(fxi(0), fxi(0), fxi(0)), fxi(2), gray());
    let miss = Ray::new(
        Vec3::new(fxi(0), fxi(5), fxi(-5)),
        Vec3::new(fxi(0), fxi(0), fxi(1)),
        Fx::from_raw(0),
    );
    assert!(sp.hit(&miss, Fx::from_raw(0), fxi(1000)).is_none());
    let ray = Ray::new(
        Vec3::new(fxi(0), fxi(0), fxi(-5)),
        Vec3::new(fxi(0), fxi(0), fxi(1)),
        Fx::from_raw(0),
    );
    // Window past the near root picks the far root at t = 7.
    let rec = sp.hit(&ray, fxi(5), fxi(1000)).expect("far root");
    assert_eq!(rec.t.raw, 7 * 65536);
    // Window excluding both roots misses.
    assert!(sp.hit(&ray, fxi(8), fxi(1000)).is_none());
}

#[test]
fn rect_hit_gives_exact_surface_coordinates() {
    let rc = XYRect::new(fxi(0), fxi(2), fxi(0), fxi(2), fxi(0), gray());
    let ray = Ray::new(
        Vec3::new(Fx::of_milli(500), Fx::of_milli(1500), fxi(-1)),
        Vec3::new(fxi(0), fxi(0), fxi(1)),
        Fx::from_raw(0),
    );
    let rec = rc.hit(&ray, Fx::from_raw(0), fxi(1000)).expect("must hit");
    assert_eq!(rec.t.raw, 65536);
    assert_eq!(rec.u.raw, 16384); // 0.5 / 2
    assert_eq!(rec.v.raw, 49152); // 1.5 / 2
    // A parallel ray never hits the plane.
    let parallel = Ray::new(
        Vec3::new(fxi(1), fxi(1), fxi(-1)),
        Vec3::new(fxi(1), fxi(0), fxi(0)),
        Fx::from_raw(0),
    );
    assert!(rc.hit(&parallel, Fx::from_raw(0), fxi(1000)).is_none());
}

#[test]
fn translate_shifts_hits() {
    let sp = Sphere::new(Vec3::new(fxi(0), fxi(0), fxi(0)), fxi(2), gray());
    let moved = Surface::Translate(raytracer::hittable::Translate {
        obj: Box::new(Surface::Sphere(sp)),
        offset: Vec3::new(fxi(10), fxi(0), fxi(0)),
    });
    let ray = Ray::new(
        Vec3::new(fxi(10), fxi(0), fxi(-5)),
        Vec3::new(fxi(0), fxi(0), fxi(1)),
        Fx::from_raw(0),
    );
    let rec = moved.hit(&ray, Fx::from_raw(0), fxi(1000)).expect("must hit");
    assert_eq!(rec.t.raw, 3 * 65536);
    assert_eq!(rec.point.x.raw, 10 * 65536);
}

// A translated rectangle copies the inner hit's surface coordinates, facing
// flag and material through the wrapper unchanged.
#[test]
fn translate_preserves_uv_and_material() {
    let mat = gray();
    let rc = XYRect::new(fxi(0), fxi(2), fxi(0), fxi(2), fxi(0), Arc::clone(&mat));
    let moved = Surface::Translate(raytracer::hittable::Translate {
        obj: Box::new(Surface::XYRect(rc)),
        offset: Vec3::new(fxi(10), fxi(0), fxi(0)),
    });
    let ray = Ray::new(
        Vec3::new(Fx::of_milli(10500), Fx::of_milli(1500), fxi(-1)),
        Vec3::new(fxi(0), fxi(0), fxi(1)),
        Fx::from_raw(0),
    );
    let rec = moved.hit(&ray, Fx::from_raw(0), fxi(1000)).expect("must hit");
    assert_eq!(rec.u.raw, 16384); // 0.5 / 2, as the untranslated face sees it
    assert_eq!(rec.v.raw, 49152); // 1.5 / 2
    // The ray travels along +z, with the face's outward normal: a back face.
    assert!(!rec.front_face);
    assert!(Arc::ptr_eq(&rec.material, &mat));
}

// Each face of a box hands out its own surface coordinates and keeps the
// shared material; a ray along +z meets the low-z face from behind its
// outward normal, and the stored normal is flipped against the ray.
#[test]
fn box_face_uv_and_material() {
    let mat = gray();
    let bx = raytracer::hittable::box_rect::BoxRect::new(
        Vec3::new(fxi(0), fxi(0), fxi(0)),
        Vec3::new(fxi(2), fxi(2), fxi(2)),
        Arc::clone(&mat),
    );
    let ray = Ray::new(
        Vec3::new(Fx::of_milli(500), Fx::of_milli(1500), fxi(-3)),
        Vec3::new(fxi(0), fxi(0), fxi(1)),
        Fx::from_raw(0),
    );
    let rec = bx.hit(&ray, Fx::from_raw(0), fxi(1000)).expect("must hit");
    assert_eq!(rec.t.raw, 3 * 65536);
    assert_eq!(rec.u.raw, 16384); // 0.5 / 2 on the z = 0 face
    assert_eq!(rec.v.raw, 49152); // 1.5 / 2
    assert!(!rec.front_face);
    assert_eq!(rec.normal.z.raw, -65536); // oriented against the ray
    assert!(Arc::ptr_eq(&rec.material, &mat));
}
