//! Scene builders: the canonical arrangements of primitives, materials and
//! cameras.  Each returns a well-formed world and camera, ready for the
//! renderer; the construction itself is ordinary verified code, so every
//! scene is known to satisfy the invariants the intersection and scattering
//! routines rely on.

use std::sync::Arc;

use vstd::prelude::*;

use crate::camera::{camera_wf, Camera};
use crate::fx::Fx;
use crate::hittable::box_rect::BoxRect;
use crate::hittable::bvh::Bvh;
use crate::hittable::constant_medium::ConstantMedium;
use crate::hittable::moving_sphere::MovingSphere;
use crate::hittable::rect::{XYRect, XZRect, YZRect};
use crate::hittable::rotate_y::RotateY;
use crate::hittable::sphere::Sphere;
use crate::hittable::world::{world_wf, Object, World};
use crate::hittable::{surf_wf, Surface, Translate};
use crate::material::{mat_wf, Dielectric, DiffuseLight, Lambertian, Material, Metal};
use crate::perlin::Perlin;
use crate::rng::Rng;
use crate::texture::{CheckerTexture, ImageTexture, NoiseTexture, SolidColor, Texture};
use crate::utils::{random_double, random_vec};
use crate::vec3::{bounded, Color, Point3, Vec3};

verus! {

/// A color with channels given in thousandths, each at most one.
fn unit_color(r: i64, g: i64, b: i64) -> (c: Color)
    requires
        0 <= r <= 1000,
        0 <= g <= 1000,
        0 <= b <= 1000,
    ensures
        crate::texture::color_in(c, 65536),
{
    proof {
        crate::fx::lemma_div_bound_by_dividend(r * 65536, 1000);
        crate::fx::lemma_div_bound_by_dividend(g * 65536, 1000);
        crate::fx::lemma_div_bound_by_dividend(b * 65536, 1000);
        vstd::arithmetic::div_mod::lemma_div_pos_is_pos(r * 65536, 1000);
        vstd::arithmetic::div_mod::lemma_div_pos_is_pos(g * 65536, 1000);
        vstd::arithmetic::div_mod::lemma_div_pos_is_pos(b * 65536, 1000);
        vstd::arithmetic::div_mod::lemma_div_is_ordered(r * 65536, 65536000, 1000);
        vstd::arithmetic::div_mod::lemma_div_is_ordered(g * 65536, 65536000, 1000);
        vstd::arithmetic::div_mod::lemma_div_is_ordered(b * 65536, 65536000, 1000);
        vstd::arithmetic::div_mod::lemma_div_multiples_vanish(65536, 1000);
    }
    Vec3::new(Fx::of_milli(r), Fx::of_milli(g), Fx::of_milli(b))
}

/// A bright emission color with whole-unit channels, up to 255.
fn bright_color(r: i64, g: i64, b: i64) -> (c: Color)
    requires
        0 <= r <= 255,
        0 <= g <= 255,
        0 <= b <= 255,
    ensures
        crate::texture::color_in(c, 0x100_0000),
{
    Vec3::new(Fx::of_int(r), Fx::of_int(g), Fx::of_int(b))
}

/// A Lambertian material over a solid color given in thousandths.
fn lamb_solid(r: i64, g: i64, b: i64) -> (m: Arc<Material>)
    requires
        0 <= r <= 1000,
        0 <= g <= 1000,
        0 <= b <= 1000,
    ensures
        mat_wf(*m),
{
    let c = unit_color(r, g, b);
    Arc::new(
        Material::Lambertian(
            Lambertian::new(Box::new(Texture::SolidColor(SolidColor { color: c }))),
        ),
    )
}

/// A diffuse light of the given whole-unit emission color.
fn light_solid(r: i64, g: i64, b: i64) -> (m: Arc<Material>)
    requires
        0 <= r <= 255,
        0 <= g <= 255,
        0 <= b <= 255,
    ensures
        mat_wf(*m),
{
    let c = bright_color(r, g, b);
    Arc::new(
        Material::DiffuseLight(
            DiffuseLight::new(Box::new(Texture::SolidColor(SolidColor { color: c }))),
        ),
    )
}

/// A metal with albedo in thousandths and fuzz in thousandths.
fn metal_mat(r: i64, g: i64, b: i64, fuzz: i64) -> (m: Arc<Material>)
    requires
        0 <= r <= 1000,
        0 <= g <= 1000,
        0 <= b <= 1000,
        0 <= fuzz <= 1000,
    ensures
        mat_wf(*m),
{
    let c = unit_color(r, g, b);
    proof {
        crate::fx::lemma_div_bound_by_dividend(fuzz * 65536, 1000);
        vstd::arithmetic::div_mod::lemma_div_pos_is_pos(fuzz * 65536, 1000);
        vstd::arithmetic::div_mod::lemma_div_is_ordered(fuzz * 65536, 65536000, 1000);
        vstd::arithmetic::div_mod::lemma_div_multiples_vanish(65536, 1000);
    }
    Arc::new(Material::Metal(Metal::new(c, Fx::of_milli(fuzz))))
}

/// A dielectric with refraction index in thousandths (1500 is glass).
fn glass(ir: i64) -> (m: Arc<Material>)
    requires
        500 <= ir <= 16000,
    ensures
        mat_wf(*m),
{
    proof {
        vstd::arithmetic::div_mod::lemma_div_is_ordered(32768000, ir * 65536, 1000);
        vstd::arithmetic::div_mod::lemma_div_is_ordered(ir * 65536, 1048576000, 1000);
        vstd::arithmetic::div_mod::lemma_div_multiples_vanish(32768, 1000);
        vstd::arithmetic::div_mod::lemma_div_multiples_vanish(1048576, 1000);
        assert(32768000 <= ir * 65536 <= 1048576000) by (nonlinear_arith)
            requires 500 <= ir <= 16000,
        ;
    }
    Arc::new(Material::Dielectric(Dielectric::new(Fx::of_milli(ir))))
}

/// The shared camera recipe: up is the y axis, shutter open over the whole
/// unit interval, and the aspect ratio from the image dimensions (clamped
/// into the supported range).
fn scene_camera(
    lookfrom: Point3,
    lookat: Point3,
    vfov: Fx,
    aperture: Fx,
    dist_to_focus: Fx,
    image_width: u32,
    image_height: u32,
) -> (c: Camera)
    requires
        bounded(lookfrom, 0x4000_0000),
        bounded(lookat, 0x4000_0000),
        131072 <= vfov@ <= 0x96_0000,
        0 <= aperture@ <= 0x40_0000,
        4096 <= dist_to_focus@ <= 0x2000_0000,
        1 <= image_width <= 4096,
        1 <= image_height <= 4096,
    ensures
        camera_wf(c),
        c.time0@ == 0 && c.time1@ == 65536,
{
    let vup = Vec3::new(Fx { raw: 0 }, Fx { raw: 65536 }, Fx { raw: 0 });
    proof {
        crate::fx::lemma_div_bound_by_dividend((image_width as int) * 65536, image_height as int);
        vstd::arithmetic::div_mod::lemma_div_pos_is_pos(
            (image_width as int) * 65536,
            image_height as int,
        );
    }
    let aspect = Fx { raw: image_width as i64 }.div(Fx { raw: image_height as i64 }).min(
        Fx { raw: 0x40_0000 },
    ).max(Fx { raw: 8192 });
    Camera::new(
        lookfrom,
        lookat,
        vup,
        vfov,
        aspect,
        aperture,
        dist_to_focus,
        Fx { raw: 0 },
        Fx { raw: 65536 },
    )
}

/// Two big checkered spheres, one above and one below the origin.
pub fn two_spheres(image_width: u32, image_height: u32) -> (r: (World, Camera))
    requires
        1 <= image_width <= 4096,
        1 <= image_height <= 4096,
    ensures
        world_wf(r.0, 0, 65536),
        camera_wf(r.1),
        r.0.objects@.len() > 0,
{
    let camera = scene_camera(
        Vec3::new(Fx::of_int(13), Fx::of_int(2), Fx::of_int(3)),
        Vec3::zero(),
        Fx::of_int(20),
        Fx::of_milli(100),
        Fx::of_int(10),
        image_width,
        image_height,
    );
    let even_t = Texture::SolidColor(SolidColor { color: unit_color(200, 300, 100) });
    let odd_t = Texture::SolidColor(SolidColor { color: unit_color(900, 900, 900) });
    proof {
        assert(crate::texture::tex_wf(even_t) && crate::texture::tex_unit(even_t));
        assert(crate::texture::tex_wf(odd_t) && crate::texture::tex_unit(odd_t));
    }
    let checker = Texture::Checker(
        CheckerTexture { odd: Box::new(odd_t), even: Box::new(even_t) },
    );
    proof {
        assert(crate::texture::tex_wf(checker) && crate::texture::tex_unit(checker));
    }
    let checker_material = Arc::new(Material::Lambertian(Lambertian::new(Box::new(checker))));
    let mut objects = World::new();
    objects.push(
        Object::Surface(
            Surface::Sphere(
                Sphere::new(
                    Vec3::new(Fx { raw: 0 }, Fx::of_int(-10), Fx { raw: 0 }),
                    Fx::of_int(10),
                    Arc::clone(&checker_material),
                ),
            ),
        ),
    );
    objects.push(
        Object::Surface(
            Surface::Sphere(
                Sphere::new(
                    Vec3::new(Fx { raw: 0 }, Fx::of_int(10), Fx { raw: 0 }),
                    Fx::of_int(10),
                    checker_material,
                ),
            ),
        ),
    );
    (objects, camera)
}

/// Two spheres textured by Perlin noise: a huge ground sphere and a small one.
pub fn two_perlin_spheres(image_width: u32, image_height: u32, rng: &mut Rng) -> (r: (
    World,
    Camera,
))
    requires
        1 <= image_width <= 4096,
        1 <= image_height <= 4096,
    ensures
        world_wf(r.0, 0, 65536),
        camera_wf(r.1),
        r.0.objects@.len() > 0,
{
    let camera = scene_camera(
        Vec3::new(Fx::of_int(13), Fx::of_int(2), Fx::of_int(3)),
        Vec3::zero(),
        Fx::of_int(20),
        Fx::of_milli(100),
        Fx::of_int(10),
        image_width,
        image_height,
    );
    let perlin = Perlin::new(rng);
    let tex = NoiseTexture::new_box(perlin, Fx::of_int(4));
    let perlin_material = Arc::new(
        Material::Lambertian(Lambertian::new(Box::new(Texture::Noise(*tex)))),
    );
    let mut objects = World::new();
    objects.push(
        Object::Surface(
            Surface::Sphere(
                Sphere::new(
                    Vec3::new(Fx { raw: 0 }, Fx::of_int(-1000), Fx { raw: 0 }),
                    Fx::of_int(1000),
                    Arc::clone(&perlin_material),
                ),
            ),
        ),
    );
    objects.push(
        Object::Surface(
            Surface::Sphere(
                Sphere::new(
                    Vec3::new(Fx { raw: 0 }, Fx::of_int(2), Fx { raw: 0 }),
                    Fx::of_int(2),
                    perlin_material,
                ),
            ),
        ),
    );
    (objects, camera)
}

/// A single sphere mapped with a decoded image (the pixel bytes are supplied
/// by the caller, who does the file decoding).
pub fn earth_scene(
    image_width: u32,
    image_height: u32,
    data: Vec<u8>,
    tex_width: usize,
    tex_height: usize,
    bytes_per_pixel: usize,
) -> (r: (World, Camera))
    requires
        1 <= image_width <= 4096,
        1 <= image_height <= 4096,
        1 <= tex_width <= 4096,
        1 <= tex_height <= 4096,
        3 <= bytes_per_pixel <= 16,
        data@.len() == tex_width * tex_height * bytes_per_pixel,
    ensures
        world_wf(r.0, 0, 65536),
        camera_wf(r.1),
        r.0.objects@.len() > 0,
{
    let camera = scene_camera(
        Vec3::new(Fx::of_int(13), Fx::of_int(2), Fx::of_int(3)),
        Vec3::zero(),
        Fx::of_int(20),
        Fx::of_milli(100),
        Fx::of_int(10),
        image_width,
        image_height,
    );
    let earth_texture = ImageTexture::new(data, tex_width, tex_height, bytes_per_pixel);
    let earth_material = Arc::new(
        Material::Lambertian(Lambertian::new(Box::new(Texture::Image(earth_texture)))),
    );
    let mut objects = World::new();
    objects.push(
        Object::Surface(
            Surface::Sphere(Sphere::new(Vec3::zero(), Fx::of_int(2), earth_material)),
        ),
    );
    (objects, camera)
}

/// Perlin ground and sphere, lit by a rectangle light and a red glowing
/// sphere; rendered against a black background.
pub fn light_scene(image_width: u32, image_height: u32, rng: &mut Rng) -> (r: (World, Camera))
    requires
        1 <= image_width <= 4096,
        1 <= image_height <= 4096,
    ensures
        world_wf(r.0, 0, 65536),
        camera_wf(r.1),
        r.0.objects@.len() > 0,
{
    let camera = scene_camera(
        Vec3::new(Fx::of_int(26), Fx::of_int(3), Fx::of_int(6)),
        Vec3::new(Fx { raw: 0 }, Fx::of_int(2), Fx { raw: 0 }),
        Fx::of_int(20),
        Fx::of_milli(100),
        Fx::of_int(50),
        image_width,
        image_height,
    );
    let perlin = Perlin::new(rng);
    let tex = NoiseTexture::new_box(perlin, Fx::of_int(4));
    let perlin_material = Arc::new(
        Material::Lambertian(Lambertian::new(Box::new(Texture::Noise(*tex)))),
    );
    let mut objects = World::new();
    objects.push(
        Object::Surface(
            Surface::Sphere(
                Sphere::new(
                    Vec3::new(Fx { raw: 0 }, Fx::of_int(-1000), Fx { raw: 0 }),
                    Fx::of_int(1000),
                    Arc::clone(&perlin_material),
                ),
            ),
        ),
    );
    objects.push(
        Object::Surface(
            Surface::Sphere(
                Sphere::new(
                    Vec3::new(Fx { raw: 0 }, Fx::of_int(2), Fx { raw: 0 }),
                    Fx::of_int(2),
                    perlin_material,
                ),
            ),
        ),
    );
    let diffuse_light = light_solid(4, 4, 4);
    objects.push(
        Object::Surface(
            Surface::XYRect(
                XYRect::new(
                    Fx::of_int(3),
                    Fx::of_int(5),
                    Fx::of_int(1),
                    Fx::of_int(3),
                    Fx::of_int(-2),
                    diffuse_light,
                ),
            ),
        ),
    );
    let red_light = light_solid(4, 1, 0);
    objects.push(
        Object::Surface(
            Surface::Sphere(
                Sphere::new(
                    Vec3::new(Fx { raw: 0 }, Fx::of_int(8), Fx { raw: 0 }),
                    Fx::of_int(2),
                    red_light,
                ),
            ),
        ),
    );
    (objects, camera)
}

/// The classic Cornell box: colored walls, a ceiling light, and two rotated,
/// translated boxes.
pub fn cornell_box(image_width: u32, image_height: u32) -> (r: (World, Camera))
    requires
        1 <= image_width <= 4096,
        1 <= image_height <= 4096,
    ensures
        world_wf(r.0, 0, 65536),
        camera_wf(r.1),
        r.0.objects@.len() > 0,
{
    let camera = scene_camera(
        Vec3::new(Fx::of_int(278), Fx::of_int(278), Fx::of_int(-800)),
        Vec3::new(Fx::of_int(278), Fx::of_int(278), Fx { raw: 0 }),
        Fx::of_int(40),
        Fx { raw: 0 },
        Fx::of_int(10),
        image_width,
        image_height,
    );
    let red_material = lamb_solid(650, 50, 50);
    let white_material = lamb_solid(730, 730, 730);
    let green_material = lamb_solid(120, 450, 150);
    let light_material = light_solid(15, 15, 15);
    let z0 = Fx { raw: 0 };
    let k555 = Fx::of_int(555);
    let mut objects = World::new();
    objects.push(
        Object::Surface(
            Surface::YZRect(YZRect::new(z0, k555, z0, k555, k555, green_material)),
        ),
    );
    objects.push(
        Object::Surface(Surface::YZRect(YZRect::new(z0, k555, z0, k555, z0, red_material))),
    );
    objects.push(
        Object::Surface(
            Surface::XZRect(
                XZRect::new(
                    Fx::of_int(213),
                    Fx::of_int(343),
                    Fx::of_int(227),
                    Fx::of_int(332),
                    Fx::of_int(554),
                    light_material,
                ),
            ),
        ),
    );
    objects.push(
        Object::Surface(
            Surface::XZRect(
                XZRect::new(z0, k555, z0, k555, z0, Arc::clone(&white_material)),
            ),
        ),
    );
    objects.push(
        Object::Surface(
            Surface::XZRect(
                XZRect::new(z0, k555, z0, k555, k555, Arc::clone(&white_material)),
            ),
        ),
    );
    objects.push(
        Object::Surface(
            Surface::XYRect(
                XYRect::new(z0, k555, z0, k555, k555, Arc::clone(&white_material)),
            ),
        ),
    );
    let box1 = BoxRect::new(
        Vec3::zero(),
        Vec3::new(Fx::of_int(165), Fx::of_int(330), Fx::of_int(165)),
        Arc::clone(&white_material),
    );
    let sbox1 = Surface::BoxRect(box1);
    proof {
        assert(surf_wf(sbox1));
    }
    let rot1 = RotateY::new(Box::new(sbox1), Fx::of_int(15));
    let srot1 = Surface::RotateY(rot1);
    proof {
        assert(surf_wf(srot1));
    }
    let tr1 = Translate {
        obj: Box::new(srot1),
        offset: Vec3::new(Fx::of_int(265), Fx { raw: 0 }, Fx::of_int(295)),
    };
    proof {
        assert(surf_wf(Surface::Translate(tr1)));
    }
    objects.push(Object::Surface(Surface::Translate(tr1)));
    let box2 = BoxRect::new(
        Vec3::zero(),
        Vec3::new(Fx::of_int(165), Fx::of_int(165), Fx::of_int(165)),
        Arc::clone(&white_material),
    );
    let sbox2 = Surface::BoxRect(box2);
    proof {
        assert(surf_wf(sbox2));
    }
    let rot2 = RotateY::new(Box::new(sbox2), Fx::of_int(-18));
    let srot2 = Surface::RotateY(rot2);
    proof {
        assert(surf_wf(srot2));
    }
    let tr2 = Translate {
        obj: Box::new(srot2),
        offset: Vec3::new(Fx::of_int(130), Fx { raw: 0 }, Fx::of_int(65)),
    };
    proof {
        assert(surf_wf(Surface::Translate(tr2)));
    }
    objects.push(Object::Surface(Surface::Translate(tr2)));
    (objects, camera)
}

/// The Cornell box with the two boxes replaced by participating media: one
/// dark smoke, one white fog.
pub fn smoke_cornell_box(image_width: u32, image_height: u32) -> (r: (World, Camera))
    requires
        1 <= image_width <= 4096,
        1 <= image_height <= 4096,
    ensures
        world_wf(r.0, 0, 65536),
        camera_wf(r.1),
        r.0.objects@.len() > 0,
{
    let camera = scene_camera(
        Vec3::new(Fx::of_int(278), Fx::of_int(278), Fx::of_int(-800)),
        Vec3::new(Fx::of_int(278), Fx::of_int(278), Fx { raw: 0 }),
        Fx::of_int(40),
        Fx { raw: 0 },
        Fx::of_int(10),
        image_width,
        image_height,
    );
    let red_material = lamb_solid(650, 50, 50);
    let white_material = lamb_solid(730, 730, 730);
    let green_material = lamb_solid(120, 450, 150);
    let light_material = light_solid(7, 7, 7);
    let z0 = Fx { raw: 0 };
    let k555 = Fx::of_int(555);
    let mut objects = World::new();
    objects.push(
        Object::Surface(
            Surface::YZRect(YZRect::new(z0, k555, z0, k555, k555, green_material)),
        ),
    );
    objects.push(
        Object::Surface(Surface::YZRect(YZRect::new(z0, k555, z0, k555, z0, red_material))),
    );
    objects.push(
        Object::Surface(
            Surface::XZRect(
                XZRect::new(
                    Fx::of_int(113),
                    Fx::of_int(443),
                    Fx::of_int(127),
                    Fx::of_int(432),
                    Fx::of_int(554),
                    light_material,
                ),
            ),
        ),
    );
    objects.push(
        Object::Surface(
            Surface::XZRect(
                XZRect::new(z0, k555, z0, k555, z0, Arc::clone(&white_material)),
            ),
        ),
    );
    objects.push(
        Object::Surface(
            Surface::XZRect(
                XZRect::new(z0, k555, z0, k555, k555, Arc::clone(&white_material)),
            ),
        ),
    );
    objects.push(
        Object::Surface(
            Surface::XYRect(
                XYRect::new(z0, k555, z0, k555, k555, Arc::clone(&white_material)),
            ),
        ),
    );
    let box1 = BoxRect::new(
        Vec3::zero(),
        Vec3::new(Fx::of_int(165), Fx::of_int(330), Fx::of_int(165)),
        Arc::clone(&white_material),
    );
    let sbox1 = Surface::BoxRect(box1);
    proof {
        assert(surf_wf(sbox1));
    }
    let rot1 = RotateY::new(Box::new(sbox1), Fx::of_int(15));
    let srot1 = Surface::RotateY(rot1);
    proof {
        assert(surf_wf(srot1));
    }
    let tr1 = Translate {
        obj: Box::new(srot1),
        offset: Vec3::new(Fx::of_int(265), Fx { raw: 0 }, Fx::of_int(295)),
    };
    proof {
        assert(surf_wf(Surface::Translate(tr1)));
    }
    let smoke = ConstantMedium::new(
        Box::new(Surface::Translate(tr1)),
        Fx::of_milli(10),
        unit_color(0, 0, 0),
    );
    objects.push(Object::Medium(smoke));
    let box2 = BoxRect::new(
        Vec3::zero(),
        Vec3::new(Fx::of_int(165), Fx::of_int(165), Fx::of_int(165)),
        Arc::clone(&white_material),
    );
    let sbox2 = Surface::BoxRect(box2);
    proof {
        assert(surf_wf(sbox2));
    }
    let rot2 = RotateY::new(Box::new(sbox2), Fx::of_int(-18));
    let srot2 = Surface::RotateY(rot2);
    proof {
        assert(surf_wf(srot2));
    }
    let tr2 = Translate {
        obj: Box::new(srot2),
        offset: Vec3::new(Fx::of_int(130), Fx { raw: 0 }, Fx::of_int(65)),
    };
    proof {
        assert(surf_wf(Surface::Translate(tr2)));
    }
    let fog = ConstantMedium::new(
        Box::new(Surface::Translate(tr2)),
        Fx::of_milli(10),
        unit_color(1000, 1000, 1000),
    );
    objects.push(Object::Medium(fog));
    (objects, camera)
}

/// The showcase scene: a ground of random-height boxes under a BVH, a
/// ceiling light, a moving sphere, glass, metal, media, an image-mapped
/// sphere, a noise sphere, and a rotated, translated cluster of small
/// spheres under another BVH.
pub fn final_scene(
    image_width: u32,
    image_height: u32,
    data: Vec<u8>,
    tex_width: usize,
    tex_height: usize,
    bytes_per_pixel: usize,
    rng: &mut Rng,
) -> (r: (World, Camera))
    requires
        1 <= image_width <= 4096,
        1 <= image_height <= 4096,
        1 <= tex_width <= 4096,
        1 <= tex_height <= 4096,
        3 <= bytes_per_pixel <= 16,
        data@.len() == tex_width * tex_height * bytes_per_pixel,
    ensures
        world_wf(r.0, 0, 65536),
        camera_wf(r.1),
        r.0.objects@.len() > 0,
{
    let camera = scene_camera(
        Vec3::new(Fx::of_int(478), Fx::of_int(278), Fx::of_int(-600)),
        Vec3::new(Fx::of_int(278), Fx::of_int(278), Fx { raw: 0 }),
        Fx::of_int(40),
        Fx { raw: 0 },
        Fx::of_int(10),
        image_width,
        image_height,
    );
    let ground = lamb_solid(480, 830, 530);
    // The ground: a 20 x 20 grid of boxes with random heights.
    let mut boxes: Vec<Surface> = Vec::new();
    let mut i: i64 = 0;
    while i < 20
        invariant
            0 <= i <= 20,
            mat_wf(*ground),
            forall|k: int| 0 <= k < boxes@.len() ==> surf_wf(#[trigger] boxes@[k]),
            boxes@.len() == i * 20,
        decreases 20 - i,
    {
        let mut j: i64 = 0;
        while j < 20
            invariant
                0 <= i < 20,
                0 <= j <= 20,
                mat_wf(*ground),
                forall|k: int| 0 <= k < boxes@.len() ==> surf_wf(#[trigger] boxes@[k]),
                boxes@.len() == i * 20 + j,
            decreases 20 - j,
        {
            let x0 = Fx::of_int(-1000 + i * 100);
            let z0 = Fx::of_int(-1000 + j * 100);
            let y0 = Fx { raw: 0 };
            let x1 = Fx::of_int(-1000 + i * 100 + 100);
            let y1 = random_double(rng, Fx::of_int(1), Fx::of_int(101));
            let z1 = Fx::of_int(-1000 + j * 100 + 100);
            let b = BoxRect::new(Vec3::new(x0, y0, z0), Vec3::new(x1, y1, z1), Arc::clone(&ground));
            boxes.push(Surface::BoxRect(b));
            j = j + 1;
        }
        i = i + 1;
    }
    let ground_tree = Bvh::new(boxes, Fx { raw: 0 }, Fx { raw: 65536 }, rng);
    let mut objects = World::new();
    objects.push(Object::Tree(ground_tree));
    let light_material = light_solid(7, 7, 7);
    objects.push(
        Object::Surface(
            Surface::XZRect(
                XZRect::new(
                    Fx::of_int(123),
                    Fx::of_int(432),
                    Fx::of_int(147),
                    Fx::of_int(412),
                    Fx::of_int(554),
                    light_material,
                ),
            ),
        ),
    );
    let centre1 = Vec3::new(Fx::of_int(400), Fx::of_int(400), Fx::of_int(200));
    let centre2 = Vec3::new(Fx::of_int(430), Fx::of_int(400), Fx::of_int(200));
    let moving_material = lamb_solid(700, 300, 100);
    objects.push(
        Object::Surface(
            Surface::MovingSphere(
                MovingSphere::new(
                    centre1,
                    centre2,
                    Fx { raw: 0 },
                    Fx { raw: 65536 },
                    Fx::of_int(50),
                    moving_material,
                ),
            ),
        ),
    );
    objects.push(
        Object::Surface(
            Surface::Sphere(
                Sphere::new(
                    Vec3::new(Fx::of_int(260), Fx::of_int(150), Fx::of_int(45)),
                    Fx::of_int(50),
                    glass(1500),
                ),
            ),
        ),
    );
    objects.push(
        Object::Surface(
            Surface::Sphere(
                Sphere::new(
                    Vec3::new(Fx { raw: 0 }, Fx::of_int(150), Fx::of_int(145)),
                    Fx::of_int(50),
                    metal_mat(800, 800, 900, 1000),
                ),
            ),
        ),
    );
    let subsurface = Sphere::new(
        Vec3::new(Fx::of_int(360), Fx::of_int(150), Fx::of_int(145)),
        Fx::of_int(70),
        glass(1500),
    );
    objects.push(Object::Surface(Surface::Sphere(subsurface)));
    let inner_boundary = Sphere::new(
        Vec3::new(Fx::of_int(360), Fx::of_int(150), Fx::of_int(145)),
        Fx::of_int(70),
        glass(1500),
    );
    objects.push(
        Object::Medium(
            ConstantMedium::new(
                Box::new(Surface::Sphere(inner_boundary)),
                Fx::of_milli(200),
                unit_color(200, 400, 900),
            ),
        ),
    );
    // A thin global fog inside a huge boundary sphere.
    let fog_boundary = Sphere::new(Vec3::zero(), Fx::of_int(5000), glass(1500));
    objects.push(
        Object::Medium(
            ConstantMedium::new(
                Box::new(Surface::Sphere(fog_boundary)),
                Fx { raw: 7 },
                unit_color(1000, 1000, 1000),
            ),
        ),
    );
    let earth_texture = ImageTexture::new(data, tex_width, tex_height, bytes_per_pixel);
    let earth_material = Arc::new(
        Material::Lambertian(Lambertian::new(Box::new(Texture::Image(earth_texture)))),
    );
    objects.push(
        Object::Surface(
            Surface::Sphere(
                Sphere::new(
                    Vec3::new(Fx::of_int(400), Fx::of_int(200), Fx::of_int(400)),
                    Fx::of_int(100),
                    earth_material,
                ),
            ),
        ),
    );
    let perlin = Perlin::new(rng);
    let tex = NoiseTexture::new_box(perlin, Fx::of_milli(100));
    let perlin_material = Arc::new(
        Material::Lambertian(Lambertian::new(Box::new(Texture::Noise(*tex)))),
    );
    objects.push(
        Object::Surface(
            Surface::Sphere(
                Sphere::new(
                    Vec3::new(Fx::of_int(220), Fx::of_int(280), Fx::of_int(300)),
                    Fx::of_int(80),
                    perlin_material,
                ),
            ),
        ),
    );
    // A cluster of a thousand small spheres, rotated and shifted as a block:
    // rotating a sphere about the y axis rotates its centre, so the rotation
    // and translation are applied to the centres before building the tree.
    let white_material = lamb_solid(730, 730, 730);
    let rot = Fx::of_int(15).mul(Fx { raw: 205887 }).div(Fx { raw: 180 * 65536 });
    let s15 = rot.sin();
    let c15 = rot.cos();
    let mut cluster: Vec<Surface> = Vec::new();
    let mut n: u32 = 0;
    while n < 1000
        invariant
            n <= 1000,
            mat_wf(*white_material),
            -65536 <= s15@ <= 65536,
            -65536 <= c15@ <= 65536,
            forall|k: int| 0 <= k < cluster@.len() ==> surf_wf(#[trigger] cluster@[k]),
            cluster@.len() == n,
        decreases 1000 - n,
    {
        let p = random_vec(rng, Fx { raw: 0 }, Fx::of_int(165));
        proof {
            crate::hittable::lemma_sym_weight_mul(c15@, p.x@, 0x6_0000_0000);
            crate::hittable::lemma_sym_weight_mul(s15@, p.z@, 0x6_0000_0000);
            crate::hittable::lemma_sym_weight_mul(s15@, p.x@, 0x6_0000_0000);
            crate::hittable::lemma_sym_weight_mul(c15@, p.z@, 0x6_0000_0000);
        }
        let cx = c15.mul(p.x).add(s15.mul(p.z)).add(Fx::of_int(-100));
        let cz = s15.mul(p.x).neg().add(c15.mul(p.z)).add(Fx::of_int(395));
        let cy = p.y.add(Fx::of_int(270));
        let centre = Vec3::new(cx, cy, cz).clamp_components(0x10_0000_0000);
        cluster.push(
            Surface::Sphere(Sphere::new(centre, Fx::of_int(10), Arc::clone(&white_material))),
        );
        n = n + 1;
    }
    let cluster_tree = Bvh::new(cluster, Fx { raw: 0 }, Fx { raw: 65536 }, rng);
    objects.push(Object::Tree(cluster_tree));
    (objects, camera)
}

/// The random marble field: a checkered ground, a grid of small spheres with
/// randomly chosen materials, and three large feature spheres, all under a
/// BVH.
pub fn random_scene(image_width: u32, image_height: u32, rng: &mut Rng) -> (r: (World, Camera))
    requires
        1 <= image_width <= 4096,
        1 <= image_height <= 4096,
    ensures
        world_wf(r.0, 0, 65536),
        camera_wf(r.1),
        r.0.objects@.len() > 0,
{
    let camera = scene_camera(
        Vec3::new(Fx::of_int(13), Fx::of_int(2), Fx::of_int(3)),
        Vec3::zero(),
        Fx::of_int(40),
        Fx::of_milli(100),
        Fx::of_int(10),
        image_width,
        image_height,
    );
    let even_t = Texture::SolidColor(SolidColor { color: unit_color(200, 300, 100) });
    let odd_t = Texture::SolidColor(SolidColor { color: unit_color(900, 900, 900) });
    proof {
        assert(crate::texture::tex_wf(even_t) && crate::texture::tex_unit(even_t));
        assert(crate::texture::tex_wf(odd_t) && crate::texture::tex_unit(odd_t));
    }
    let checker = Texture::Checker(
        CheckerTexture { odd: Box::new(odd_t), even: Box::new(even_t) },
    );
    proof {
        assert(crate::texture::tex_wf(checker) && crate::texture::tex_unit(checker));
    }
    let ground_material = Arc::new(Material::Lambertian(Lambertian::new(Box::new(checker))));
    let mut world: Vec<Surface> = Vec::new();
    world.push(
        Surface::Sphere(
            Sphere::new(
                Vec3::new(Fx { raw: 0 }, Fx::of_int(-1000), Fx { raw: 0 }),
                Fx::of_int(1000),
                ground_material,
            ),
        ),
    );
    let mut a: i64 = -11;
    while a < 11
        invariant
            -11 <= a <= 11,
            forall|k: int| 0 <= k < world@.len() ==> surf_wf(#[trigger] world@[k]),
            world@.len() >= 1,
        decreases 11 - a,
    {
        let mut b: i64 = -11;
        while b < 11
            invariant
                -11 <= a < 11,
                -11 <= b <= 11,
                forall|k: int| 0 <= k < world@.len() ==> surf_wf(#[trigger] world@[k]),
                world@.len() >= 1,
            decreases 11 - b,
        {
            let choose_mat = random_double(rng, Fx { raw: 0 }, Fx { raw: 65536 });
            let jx = random_double(rng, Fx { raw: 0 }, Fx { raw: 58982 });
            let jz = random_double(rng, Fx { raw: 0 }, Fx { raw: 58982 });
            let centre = Vec3::new(
                Fx { raw: a * 65536 + jx.raw },
                Fx::of_milli(200),
                Fx { raw: b * 65536 + jz.raw },
            );
            // Keep clear of the large glass sphere's spot.
            let dx = centre.x.sub(Fx::of_int(4));
            let dz = centre.z;
            let far = dx.raw > 58982 || dx.raw < -58982 || dz.raw > 58982 || dz.raw < -58982;
            if far {
                if choose_mat.raw < 52429 {
                    let c1 = random_double(rng, Fx { raw: 0 }, Fx { raw: 65536 });
                    let c2 = random_double(rng, Fx { raw: 0 }, Fx { raw: 65536 });
                    let c3 = random_double(rng, Fx { raw: 0 }, Fx { raw: 65536 });
                    proof {
                        assert(0 <= c1@ * c1@ <= 4294967296 && 0 <= c2@ * c2@ <= 4294967296 && 0
                            <= c3@ * c3@ <= 4294967296) by (nonlinear_arith)
                            requires 0 <= c1@ < 65536 && 0 <= c2@ < 65536 && 0 <= c3@ < 65536,
                        ;
                        vstd::arithmetic::div_mod::lemma_div_pos_is_pos(c1@ * c1@, 65536);
                        vstd::arithmetic::div_mod::lemma_div_pos_is_pos(c2@ * c2@, 65536);
                        vstd::arithmetic::div_mod::lemma_div_pos_is_pos(c3@ * c3@, 65536);
                        vstd::arithmetic::div_mod::lemma_div_is_ordered(c1@ * c1@, 4294967296, 65536);
                        vstd::arithmetic::div_mod::lemma_div_is_ordered(c2@ * c2@, 4294967296, 65536);
                        vstd::arithmetic::div_mod::lemma_div_is_ordered(c3@ * c3@, 4294967296, 65536);
                        vstd::arithmetic::div_mod::lemma_div_multiples_vanish(65536, 65536);
                    }
                    let albedo = Vec3::new(c1.mul(c1), c2.mul(c2), c3.mul(c3));
                    let mat = Arc::new(
                        Material::Lambertian(
                            Lambertian::new(
                                Box::new(Texture::SolidColor(SolidColor { color: albedo })),
                            ),
                        ),
                    );
                    world.push(Surface::Sphere(Sphere::new(centre, Fx::of_milli(200), mat)));
                } else if choose_mat.raw < 62259 {
                    let c1 = random_double(rng, Fx { raw: 32768 }, Fx { raw: 65537 });
                    let c2 = random_double(rng, Fx { raw: 32768 }, Fx { raw: 65537 });
                    let c3 = random_double(rng, Fx { raw: 32768 }, Fx { raw: 65537 });
                    let fuzz = random_double(rng, Fx { raw: 0 }, Fx { raw: 32768 });
                    let mat = Arc::new(
                        Material::Metal(Metal::new(Vec3::new(c1, c2, c3), fuzz)),
                    );
                    world.push(Surface::Sphere(Sphere::new(centre, Fx::of_milli(200), mat)));
                } else {
                    world.push(
                        Surface::Sphere(Sphere::new(centre, Fx::of_milli(200), glass(1500))),
                    );
                }
            }
            b = b + 1;
        }
        a = a + 1;
    }
    world.push(
        Surface::Sphere(
            Sphere::new(
                Vec3::new(Fx { raw: 0 }, Fx::of_int(1), Fx { raw: 0 }),
                Fx::of_int(1),
                glass(1500),
            ),
        ),
    );
    world.push(
        Surface::Sphere(
            Sphere::new(
                Vec3::new(Fx::of_int(-4), Fx::of_int(1), Fx { raw: 0 }),
                Fx::of_int(1),
                lamb_solid(400, 200, 100),
            ),
        ),
    );
    world.push(
        Surface::Sphere(
            Sphere::new(
                Vec3::new(Fx::of_int(4), Fx::of_int(1), Fx { raw: 0 }),
                Fx::of_int(1),
                metal_mat(700, 600, 500, 0),
            ),
        ),
    );
    let tree = Bvh::new(world, Fx { raw: 0 }, Fx { raw: 65536 }, rng);
    let mut objects = World::new();
    objects.push(Object::Tree(tree));
    (objects, camera)
}

} // verus!
