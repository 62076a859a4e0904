//! Materials: how light scatters at a hit.  `scatter` returns the attenuation
//! and the scattered ray, or nothing when the ray is absorbed.  For the
//! reflective materials (Lambertian, metal, isotropic) the attenuation never
//! exceeds one per channel, so scattering never amplifies radiance; a
//! dielectric attenuates by exactly white.  `emitted` is black for everything
//! but a diffuse light.

use vstd::prelude::*;

use crate::fx::{fmul, Fx};
use crate::hittable::HitRecord;
use crate::ray::Ray;
use crate::rng::Rng;
use crate::texture::{color_in, tex_unit, tex_wf, SolidColor, Texture};
use crate::utils::{random_double, random_in_unit_sphere, random_unit_vector};
use crate::vec3::{bounded, Color, Point3, Vec3, sdot};

verus! {

pub enum Material {
    Lambertian(Lambertian),
    Metal(Metal),
    Dielectric(Dielectric),
    DiffuseLight(DiffuseLight),
    Isotropic(Isotropic),
}

pub struct Lambertian {
    pub albedo: Box<Texture>,
}

pub struct Metal {
    pub albedo: Color,
    pub fuzz: Fx,
}

pub struct Dielectric {
    pub ir: Fx,
}

pub struct DiffuseLight {
    pub emit: Box<Texture>,
}

pub struct Isotropic {
    pub albedo: Box<Texture>,
}

/// Albedo textures of scattering materials are unit textures; a metal's fuzz
/// is within `[0, 1]`; a dielectric's index is within `[1/4, 64]`.
pub open spec fn mat_wf(m: Material) -> bool {
    match m {
        Material::Lambertian(l) => tex_wf(*l.albedo) && tex_unit(*l.albedo),
        Material::Metal(mt) => color_in(mt.albedo, 65536) && 0 <= mt.fuzz@ <= 65536,
        Material::Dielectric(d) => 16384 <= d.ir@ <= 0x40_0000,
        Material::DiffuseLight(dl) => tex_wf(*dl.emit),
        Material::Isotropic(i) => tex_wf(*i.albedo) && tex_unit(*i.albedo),
    }
}

/// The unit incoming direction a dielectric works with: the normalized ray
/// direction, or the surface normal when the direction is too short to
/// normalize.
pub open spec fn dielectric_unit(r_in: Ray, rec: HitRecord) -> Vec3 {
    if sdot(r_in.direction, r_in.direction) >= 16384 {
        crate::vec3::normalize_spec(r_in.direction)
    } else {
        rec.normal
    }
}

/// The effective refraction ratio: inverted on a front face.
pub open spec fn dielectric_ratio(d: Dielectric, rec: HitRecord) -> int {
    if rec.front_face {
        crate::fx::fdiv(65536, d.ir@)
    } else {
        d.ir@
    }
}

/// Total internal reflection: the ratio times the incident sine exceeds one,
/// so no draw can make the ray refract.
pub open spec fn dielectric_tir(d: Dielectric, r_in: Ray, rec: HitRecord) -> bool {
    let u = dielectric_unit(r_in, rec);
    let ct0 = sdot(crate::hittable::negv(u), rec.normal);
    let ct = if (if ct0 <= 65536 {
        ct0
    } else {
        65536
    }) >= -65536 {
        (if ct0 <= 65536 {
            ct0
        } else {
            65536
        })
    } else {
        -65536
    };
    let s2 = 65536 - fmul(ct, ct);
    let st = if s2 >= 0 {
        crate::fx::sqz(s2 * 65536)
    } else {
        0
    };
    fmul(dielectric_ratio(d, rec), st) > 65536
}

/// Mirror of `reflectance`, Schlick's approximation in fixed point:
/// `r0 + (1 - r0) (1 - cos)^5` with `r0 = ((1 - ir) / (1 + ir))^2`.
pub open spec fn reflectance_spec(cosine: int, ref_idx: int) -> int {
    let r0a = crate::fx::fdiv(65536 - ref_idx, 65536 + ref_idx);
    let r0 = fmul(r0a, r0a);
    let omc = 65536 - cosine;
    let p2 = fmul(omc, omc);
    let p5 = fmul(fmul(p2, p2), omc);
    r0 + fmul(65536 - r0, p5)
}

/// Mirror of `refract`: the perpendicular part `ratio (uv + cos n)`,
/// clamped, plus the parallel part `-sqrt(|1 - |perp|^2|) n`, clamped.
pub open spec fn refract_spec(uv: Vec3, n: Vec3, ratio: int) -> Vec3 {
    let d = sdot(crate::hittable::negv(uv), n);
    let ct0 = if d <= 65536 {
        d
    } else {
        65536
    };
    let ct = if ct0 >= -0x8_0000 {
        ct0
    } else {
        -0x8_0000
    };
    let perp = crate::hittable::clampv(
        Vec3 {
            x: Fx { raw: fmul(ratio, uv.x@ + fmul(ct, n.x@)) as i64 },
            y: Fx { raw: fmul(ratio, uv.y@ + fmul(ct, n.y@)) as i64 },
            z: Fx { raw: fmul(ratio, uv.z@ + fmul(ct, n.z@)) as i64 },
        },
        0x40_0000,
    );
    let pls = sdot(perp, perp);
    let k = if 65536 - pls >= 0 {
        65536 - pls
    } else {
        -(65536 - pls)
    };
    let sq = crate::fx::sqz(k * 65536);
    crate::hittable::clampv(
        Vec3 {
            x: Fx { raw: (perp.x@ + fmul(-sq, n.x@)) as i64 },
            y: Fx { raw: (perp.y@ + fmul(-sq, n.y@)) as i64 },
            z: Fx { raw: (perp.z@ + fmul(-sq, n.z@)) as i64 },
        },
        0x80_0000,
    )
}

/// The light a material emits at surface coordinates `(u, v)` and point `p`:
/// the emission texture's value for a diffuse light, black for every other
/// material.
pub open spec fn emitted_spec(m: Material, u: int, v: int, p: Point3) -> Color {
    match m {
        Material::DiffuseLight(dl) => crate::texture::texture_value_spec(*dl.emit, u, v, p),
        _ => Vec3 { x: Fx { raw: 0 }, y: Fx { raw: 0 }, z: Fx { raw: 0 } },
    }
}

/// The fields of a hit record that `scatter` consumes, within range.
pub open spec fn scatter_rec_ok(rec: HitRecord) -> bool {
    &&& bounded(rec.point, 0x8000_0000)
    &&& bounded(rec.normal, 0x2_0000)
    &&& 0 <= rec.u@ <= 65536
    &&& 0 <= rec.v@ <= 65536
}

impl Material {
    /// Scatter the incoming ray at the hit.  Whatever the random draws:
    /// a scattered ray starts at the hit point and keeps the incoming time;
    /// the attenuation of a Lambertian, metal or isotropic material never
    /// exceeds one per channel; a dielectric's attenuation is exactly white;
    /// a diffuse light never scatters; a metal absorbs exactly when the
    /// fuzzed reflection would re-enter the surface.
    #[verifier::rlimit(60)]
    pub fn scatter(&self, rng: &mut Rng, r_in: &Ray, rec: &HitRecord) -> (res: Option<
        (Color, Ray),
    >)
        requires
            mat_wf(*self),
            scatter_rec_ok(*rec),
            crate::ray::ray_wf(*r_in),
        ensures
            match res {
                None => self is Metal || self is DiffuseLight,
                Some(ar) => {
                    &&& ar.1.origin == rec.point
                    &&& ar.1.time == r_in.time
                    &&& color_in(ar.0, 65536)
                    &&& bounded(ar.1.direction, 0x3F_0000)
                    &&& !(self is DiffuseLight)
                    &&& (self matches Material::Metal(mt) ==> ar.0 == mt.albedo)
                    &&& (self is Dielectric ==> ar.0 == (Vec3 {
                        x: Fx { raw: 65536 },
                        y: Fx { raw: 65536 },
                        z: Fx { raw: 65536 },
                    }))
                    &&& (forall|l: Lambertian|
                        self == Material::Lambertian(l) ==> ar.0
                            == crate::texture::texture_value_spec(
                            *l.albedo,
                            rec.u@,
                            rec.v@,
                            rec.point,
                        ))
                    &&& (forall|i: Isotropic|
                        self == Material::Isotropic(i) ==> ar.0
                            == crate::texture::texture_value_spec(
                            *i.albedo,
                            rec.u@,
                            rec.v@,
                            rec.point,
                        ))
                    &&& (self is Metal ==> sdot(ar.1.direction, rec.normal) > 0)
                    &&& (forall|mt: Metal|
                        self == Material::Metal(mt) ==> exists|s: Vec3|
                            #![trigger bounded(s, 65536)]
                            bounded(s, 65536) && ar.1.direction == crate::hittable::clampv(
                                Vec3 {
                                    x: Fx {
                                        raw: (crate::vec3::reflect_spec(
                                            crate::vec3::normalize_spec(r_in.direction),
                                            rec.normal,
                                        ).x@ + fmul(mt.fuzz@, s.x@)) as i64,
                                    },
                                    y: Fx {
                                        raw: (crate::vec3::reflect_spec(
                                            crate::vec3::normalize_spec(r_in.direction),
                                            rec.normal,
                                        ).y@ + fmul(mt.fuzz@, s.y@)) as i64,
                                    },
                                    z: Fx {
                                        raw: (crate::vec3::reflect_spec(
                                            crate::vec3::normalize_spec(r_in.direction),
                                            rec.normal,
                                        ).z@ + fmul(mt.fuzz@, s.z@)) as i64,
                                    },
                                },
                                0x3F_0000,
                            ))
                    &&& (forall|d: Dielectric|
                        self == Material::Dielectric(d) ==> ar.1.direction
                            == crate::hittable::clampv(
                            crate::vec3::reflect_spec(dielectric_unit(*r_in, *rec), rec.normal),
                            0x3F_0000,
                        ) || ar.1.direction == crate::hittable::clampv(
                            refract_spec(
                                dielectric_unit(*r_in, *rec),
                                rec.normal,
                                dielectric_ratio(d, *rec),
                            ),
                            0x3F_0000,
                        ))
                    &&& (forall|d: Dielectric|
                        (self == Material::Dielectric(d) && dielectric_tir(d, *r_in, *rec))
                            ==> ar.1.direction == crate::hittable::clampv(
                            crate::vec3::reflect_spec(dielectric_unit(*r_in, *rec), rec.normal),
                            0x3F_0000,
                        ))
                    &&& (self is Lambertian ==> exists|g: Vec3|
                        #![trigger bounded(g, 65540)]
                        bounded(g, 65540) && (ar.1.direction == crate::hittable::clampv(
                            Vec3 {
                                x: Fx { raw: (rec.normal.x@ + g.x@) as i64 },
                                y: Fx { raw: (rec.normal.y@ + g.y@) as i64 },
                                z: Fx { raw: (rec.normal.z@ + g.z@) as i64 },
                            },
                            0x3F_0000,
                        ) || ar.1.direction == rec.normal))
                },
            },
            (self matches Material::Metal(mt) && mt.fuzz@ == 0 && sdot(
                r_in.direction,
                r_in.direction,
            ) >= 16384 && sdot(
                crate::hittable::clampv(
                    crate::vec3::reflect_spec(
                        crate::vec3::normalize_spec(r_in.direction),
                        rec.normal,
                    ),
                    0x3F_0000,
                ),
                rec.normal,
            ) > 0) ==> res is Some,
    {
        match self {
            Material::Lambertian(l) => {
                let rv = random_unit_vector(rng);
                let base = rec.normal.add(rv).clamp_components(0x3F_0000);
                // A near-zero direction degenerates; fall back to the normal.
                let scatter_direction = if base.near_zero() {
                    rec.normal
                } else {
                    base
                };
                proof {
                    assert(bounded(rv, 65540));
                    assert(base == crate::hittable::clampv(
                        Vec3 {
                            x: Fx { raw: (rec.normal.x@ + rv.x@) as i64 },
                            y: Fx { raw: (rec.normal.y@ + rv.y@) as i64 },
                            z: Fx { raw: (rec.normal.z@ + rv.z@) as i64 },
                        },
                        0x3F_0000,
                    ));
                }
                let attenuation = l.albedo.value(rec.u, rec.v, rec.point);
                let scattered = Ray::new(rec.point, scatter_direction, r_in.time);
                Some((attenuation, scattered))
            },
            Material::Metal(mt) => {
                proof {
                    crate::vec3::lemma_sdot_self_nonneg(r_in.direction);
                }
                let d2 = r_in.direction.length_squared();
                if d2.raw < 16384 {
                    // Too short to normalize: absorb.
                    return None;
                }
                let unit = r_in.direction.normalize();
                let reflected = Vec3::reflect(unit, rec.normal);
                let sph = random_in_unit_sphere(rng);
                proof {
                    crate::hittable::lemma_sym_weight_mul(mt.fuzz@, sph.x@, 65536);
                    crate::hittable::lemma_sym_weight_mul(mt.fuzz@, sph.y@, 65536);
                    crate::hittable::lemma_sym_weight_mul(mt.fuzz@, sph.z@, 65536);
                }
                let fz = sph.scale(mt.fuzz);
                proof {
                    if mt.fuzz@ == 0 {
                        assert(0int * sph.x@ == 0 && 0int * sph.y@ == 0 && 0int * sph.z@ == 0)
                            by (nonlinear_arith);
                        vstd::arithmetic::div_mod::lemma_div_of0(65536);
                        assert(fz.x@ == 0 && fz.y@ == 0 && fz.z@ == 0);
                    }
                }
                let dir = reflected.add(fz).clamp_components(0x3F_0000);
                proof {
                    if mt.fuzz@ == 0 {
                        assert(dir == crate::hittable::clampv(
                            crate::vec3::reflect_spec(
                                crate::vec3::normalize_spec(r_in.direction),
                                rec.normal,
                            ),
                            0x3F_0000,
                        ));
                    }
                }
                let scattered = Ray::new(rec.point, dir, r_in.time);
                let dn = dir.dot(rec.normal);
                if dn.raw > 0 {
                    Some((mt.albedo, scattered))
                } else {
                    None
                }
            },
            Material::Dielectric(d) => {
                let refraction_ratio = if rec.front_face {
                    proof {
                        lemma_ratio_range(d.ir@);
                    }
                    Fx { raw: 65536 }.div(d.ir)
                } else {
                    d.ir
                };
                proof {
                    crate::vec3::lemma_sdot_self_nonneg(r_in.direction);
                }
                let d2 = r_in.direction.length_squared();
                let unit = if d2.raw >= 16384 {
                    r_in.direction.normalize()
                } else {
                    // Degenerate incoming direction: treat it as the normal.
                    rec.normal
                };
                proof {
                    assert(unit == dielectric_unit(*r_in, *rec));
                }
                // cos(theta), clamped into [-1, 1] against rounding.
                let nu = unit.neg();
                proof {
                    assert(nu == crate::hittable::negv(unit));
                }
                let ct = nu.dot(rec.normal).min(Fx { raw: 65536 }).max(Fx { raw: -65536 });
                proof {
                    crate::hittable::lemma_sym_weight_mul(ct@, ct@, 65536);
                }
                let sin2 = Fx { raw: 65536 - ct.mul(ct).raw };
                let st = if sin2.raw >= 0 {
                    sin2.fsqrt()
                } else {
                    Fx { raw: 0 }
                };
                proof {
                    assert(ct@ * ct@ >= 0) by (nonlinear_arith);
                    vstd::arithmetic::div_mod::lemma_div_pos_is_pos(ct@ * ct@, 65536);
                    lemma_sqrt_unit(sin2@);
                    crate::hittable::lemma_sym_weight_mul(st@, refraction_ratio@, 0x40_0000);
                }
                let cannot_refract = refraction_ratio.mul(st).raw > 65536;
                proof {
                    crate::hittable::lemma_sym_weight_mul(ct@, 65536, 65536);
                }
                let rand = random_double(rng, Fx { raw: 0 }, Fx { raw: 65536 });
                let direction = (if cannot_refract || reflectance(ct, refraction_ratio).raw
                    > rand.raw {
                    Vec3::reflect(unit, rec.normal)
                } else {
                    refract(unit, rec.normal, refraction_ratio)
                }).clamp_components(0x3F_0000);
                let scattered = Ray::new(rec.point, direction, r_in.time);
                Some((Vec3::new(Fx { raw: 65536 }, Fx { raw: 65536 }, Fx { raw: 65536 }), scattered))
            },
            Material::DiffuseLight(_) => None,
            Material::Isotropic(i) => {
                let dir = random_in_unit_sphere(rng);
                let attenuation = i.albedo.value(rec.u, rec.v, rec.point);
                Some((attenuation, Ray::new(rec.point, dir, r_in.time)))
            },
        }
    }

    /// Emitted light: the emission texture for a diffuse light, black for
    /// every other material.
    pub fn emitted(&self, u: Fx, v: Fx, p: Point3) -> (r: Color)
        requires
            mat_wf(*self),
            bounded(p, 0x8000_0000),
        ensures
            color_in(r, 0x100_0000),
            r == emitted_spec(*self, u@, v@, p),
    {
        match self {
            Material::DiffuseLight(dl) => dl.emit.value(u, v, p),
            _ => Vec3::zero(),
        }
    }
}

/// Schlick's reflectance approximation:
/// `r0 + (1 - r0) (1 - cos)^5` with `r0 = ((1 - ir) / (1 + ir))^2`.
fn reflectance(cosine: Fx, ref_idx: Fx) -> (r: Fx)
    requires
        -65536 <= cosine@ <= 65536,
        1 <= ref_idx@ <= 0x100_0000,
    ensures
        -0x80_0000_0000 <= r@ <= 0x80_0000_0000,
        r@ == reflectance_spec(cosine@, ref_idx@),
{
    proof {
        crate::fx::lemma_div_bound_by_dividend((65536 - ref_idx@) * 65536, 65536 + ref_idx@);
        lemma_r0_range(ref_idx@);
    }
    let mut r0 = Fx { raw: 65536 - ref_idx.raw }.div(Fx { raw: 65536 + ref_idx.raw });
    proof {
        crate::vec3::lemma_prod_bound(r0@, r0@, 65537, 65537);
        assert(r0@ * r0@ >= 0) by (nonlinear_arith);
        crate::fx::lemma_div_bound_by_dividend(r0@ * r0@, 65536);
        vstd::arithmetic::div_mod::lemma_div_pos_is_pos(r0@ * r0@, 65536);
    }
    r0 = r0.mul(r0);
    let omc = Fx { raw: 65536 - cosine.raw };
    proof {
        lemma_pow_bound(omc@);
    }
    let p2 = omc.mul(omc);
    let p4 = p2.mul(p2);
    let p5 = p4.mul(omc);
    proof {
        crate::vec3::lemma_prod_bound(65536 - r0@, p5@, 0x2_0004, 0x2000_0000);
        crate::fx::lemma_div_bound_by_dividend((65536 - r0@) * p5@, 65536);
    }
    r0.add(Fx { raw: 65536 - r0.raw }.mul(p5))
}

/// `(1 - ir)/(1 + ir)` stays within one in magnitude for `ir >= 1/65536`.
proof fn lemma_r0_range(ir: int)
    requires
        1 <= ir <= 0x100_0000,
    ensures
        -65537 <= ((65536 - ir) * 65536) / (65536 + ir) <= 65536,
{
    let num = (65536 - ir) * 65536;
    let den = 65536 + ir;
    assert(-(65537 * den) <= num <= 65536 * den) by (nonlinear_arith)
        requires 1 <= ir <= 0x100_0000 && num == (65536 - ir) * 65536 && den == 65536 + ir,
    ;
    vstd::arithmetic::div_mod::lemma_div_is_ordered(num, 65536 * den, den);
    vstd::arithmetic::div_mod::lemma_div_is_ordered(-(65537 * den), num, den);
    vstd::arithmetic::div_mod::lemma_div_multiples_vanish(65536, den);
    vstd::arithmetic::div_mod::lemma_div_multiples_vanish(-65537, den);
}

/// Powers of `1 - cos`, which lies in `[0, 2]`, stay within `32`.
proof fn lemma_pow_bound(x: int)
    requires
        0 <= x <= 131072,
    ensures
        0 <= fmul(x, x) <= 262144,
        0 <= fmul(fmul(x, x), fmul(x, x)) <= 0x10_0000,
        0 <= fmul(fmul(fmul(x, x), fmul(x, x)), x) <= 0x20_0000,
{
    crate::vec3::lemma_prod_bound(x, x, 131072, 131072);
    vstd::arithmetic::div_mod::lemma_div_pos_is_pos(x * x, 65536);
    vstd::arithmetic::div_mod::lemma_div_is_ordered(x * x, 17179869184, 65536);
    let p2 = fmul(x, x);
    crate::vec3::lemma_prod_bound(p2, p2, 262144, 262144);
    vstd::arithmetic::div_mod::lemma_div_pos_is_pos(p2 * p2, 65536);
    vstd::arithmetic::div_mod::lemma_div_is_ordered(p2 * p2, 68719476736, 65536);
    let p4 = fmul(p2, p2);
    crate::vec3::lemma_prod_bound(p4, x, 0x10_0000, 131072);
    vstd::arithmetic::div_mod::lemma_div_pos_is_pos(p4 * x, 65536);
    vstd::arithmetic::div_mod::lemma_div_is_ordered(p4 * x, 137438953472, 65536);
}

/// The refraction ratio `1 / ir` stays within `[1/64, 4]`.
proof fn lemma_ratio_range(ir: int)
    requires
        16384 <= ir <= 0x40_0000,
    ensures
        1024 <= 4294967296int / ir <= 0x4_0000,
{
    vstd::arithmetic::div_mod::lemma_div_pos_is_pos(4294967296, ir);
    assert(4294967296 <= 0x4_0000 * ir && 1024 * ir <= 4294967296) by (nonlinear_arith)
        requires 16384 <= ir <= 0x40_0000,
    ;
    vstd::arithmetic::div_mod::lemma_div_is_ordered(4294967296, 0x4_0000 * ir, ir);
    vstd::arithmetic::div_mod::lemma_div_is_ordered(1024 * ir, 4294967296, ir);
    vstd::arithmetic::div_mod::lemma_div_multiples_vanish(0x4_0000, ir);
    vstd::arithmetic::div_mod::lemma_div_multiples_vanish(1024, ir);
}

/// A unit square root: `sqrt` of at most one is at most one.
proof fn lemma_sqrt_unit(x: int)
    requires
        x <= 65536,
    ensures
        x >= 0 ==> 0 <= crate::fx::sqz(x * 65536) <= 65536,
{
    if x >= 0 {
        crate::fx::lemma_sqz(x * 65536);
        let s = crate::fx::sqz(x * 65536);
        assert(s <= 65536) by (nonlinear_arith)
            requires
                s >= 0,
                s * s <= x * 65536,
                x <= 65536,
        ;
    }
}

/// Standard refraction: the perpendicular part `ratio (uv + cos n)` plus the
/// parallel part `-sqrt(|1 - |perp|^2|) n`.
fn refract(uv: Vec3, n: Vec3, etai_over_etat: Fx) -> (r: Vec3)
    requires
        bounded(uv, 0x2_0000),
        bounded(n, 0x2_0000),
        0 <= etai_over_etat@ <= 0x40_0000,
    ensures
        bounded(r, 0x80_0000),
        r == refract_spec(uv, n, etai_over_etat@),
{
    let ct = uv.neg().dot(n).min(Fx { raw: 65536 });
    let ctc = ct.max(Fx { raw: -0x8_0000 });
    proof {
        crate::vec3::lemma_prod_bound(ctc@, n.x@, 0x10_0000, 0x2_0000);
        crate::vec3::lemma_prod_bound(ctc@, n.y@, 0x10_0000, 0x2_0000);
        crate::vec3::lemma_prod_bound(ctc@, n.z@, 0x10_0000, 0x2_0000);
        crate::fx::lemma_div_bound_by_dividend(ctc@ * n.x@, 65536);
        crate::fx::lemma_div_bound_by_dividend(ctc@ * n.y@, 65536);
        crate::fx::lemma_div_bound_by_dividend(ctc@ * n.z@, 65536);
    }
    let r_out_perp = uv.add(n.scale(ctc)).scale(etai_over_etat).clamp_components(0x40_0000);
    proof {
        crate::vec3::lemma_sdot_bound(r_out_perp, r_out_perp, 0x40_0000, 0x40_0000);
    }
    let perp_ls = r_out_perp.length_squared();
    let k = Fx { raw: 65536 - perp_ls.raw }.abs();
    let s = k.fsqrt();
    proof {
        crate::fx::lemma_sqz(k@ * 65536);
        assert(s@ <= 0x80_0000) by (nonlinear_arith)
            requires
                s@ >= 0,
                s@ * s@ <= k@ * 65536,
                k@ <= 0x4000_0000,
        ;
        crate::vec3::lemma_prod_bound(-s@, n.x@, 0x80_0000, 0x2_0000);
        crate::vec3::lemma_prod_bound(-s@, n.y@, 0x80_0000, 0x2_0000);
        crate::vec3::lemma_prod_bound(-s@, n.z@, 0x80_0000, 0x2_0000);
        crate::fx::lemma_div_bound_by_dividend(-s@ * n.x@, 65536);
        crate::fx::lemma_div_bound_by_dividend(-s@ * n.y@, 65536);
        crate::fx::lemma_div_bound_by_dividend(-s@ * n.z@, 65536);
    }
    let r_out_parallel = n.scale(s.neg());
    r_out_perp.add(r_out_parallel).clamp_components(0x80_0000)
}

impl Lambertian {
    pub fn new(albedo: Box<Texture>) -> (r: Lambertian)
        ensures
            r.albedo == albedo,
    {
        Lambertian { albedo }
    }
}

impl Metal {
    pub fn new(albedo: Color, fuzz: Fx) -> (r: Metal)
        ensures
            r.albedo == albedo && r.fuzz == fuzz,
    {
        Metal { albedo, fuzz }
    }
}

impl Dielectric {
    pub fn new(ir: Fx) -> (r: Dielectric)
        ensures
            r.ir == ir,
    {
        Dielectric { ir }
    }
}

impl DiffuseLight {
    pub fn new(emit: Box<Texture>) -> (r: DiffuseLight)
        ensures
            r.emit == emit,
    {
        DiffuseLight { emit }
    }
}

impl Isotropic {
    pub fn new(albedo: Color) -> (r: Isotropic)
        ensures
            r.albedo == Box::new(
                Texture::SolidColor(SolidColor { color: albedo }),
            ),
    {
        Isotropic { albedo: Box::new(Texture::SolidColor(SolidColor { color: albedo })) }
    }
}

} // verus!
