//! Textures map a surface coordinate and point to a color.  Variants:
//! constant, checker (sign of a product of sines picks a child), Perlin
//! noise, and image-sampled.  `value` promises non-negative, bounded colors;
//! a unit texture (`tex_unit`) never exceeds one per channel, which is what
//! the energy argument for scattering materials rests on.

use vstd::prelude::*;

use crate::fx::{fmul, Fx};
use crate::perlin::{perlin_wf, Perlin};
use crate::vec3::{bounded, Color, Point3, Vec3};

verus! {

/// Largest color channel value a texture may return (256.0): emissive
/// textures are brighter than one but still bounded.
pub const TEX_MAX: i64 = 0x100_0000;

pub enum Texture {
    SolidColor(SolidColor),
    Checker(CheckerTexture),
    Noise(NoiseTexture),
    Image(ImageTexture),
}

pub struct SolidColor {
    pub color: Color,
}

pub struct CheckerTexture {
    pub odd: Box<Texture>,
    pub even: Box<Texture>,
}

pub struct NoiseTexture {
    pub noise: Perlin,
    pub scale: Fx,
}

/// Raw 8-bit pixels, row-major from the top, `bytes_per_pixel` channels.
pub struct ImageTexture {
    data: Vec<u8>,
    width: usize,
    height: usize,
    bytes_per_pixel: usize,
}

/// Channels non-negative and bounded; image data complete; noise tables
/// well-formed.
pub open spec fn tex_wf(t: Texture) -> bool
    decreases t,
{
    match t {
        Texture::SolidColor(sc) => 0 <= sc.color.x@ <= TEX_MAX && 0 <= sc.color.y@ <= TEX_MAX && 0
            <= sc.color.z@ <= TEX_MAX,
        Texture::Checker(ck) => tex_wf(*ck.odd) && tex_wf(*ck.even),
        Texture::Noise(nt) => perlin_wf(nt.noise) && 0 <= nt.scale@ <= 0x10_0000,
        Texture::Image(im) => image_wf(im),
    }
}

/// No channel ever exceeds one: true of every variant but an over-unit solid.
pub open spec fn tex_unit(t: Texture) -> bool
    decreases t,
{
    match t {
        Texture::SolidColor(sc) => sc.color.x@ <= 65536 && sc.color.y@ <= 65536 && sc.color.z@
            <= 65536,
        Texture::Checker(ck) => tex_unit(*ck.odd) && tex_unit(*ck.even),
        Texture::Noise(_) => true,
        Texture::Image(_) => true,
    }
}

pub closed spec fn image_wf(im: ImageTexture) -> bool {
    &&& 1 <= im.width <= 4096
    &&& 1 <= im.height <= 4096
    &&& 3 <= im.bytes_per_pixel <= 16
    &&& im.data@.len() >= im.width * im.height * im.bytes_per_pixel
}

/// The grayscale a noise texture returns: half of one plus the sine of
/// `scale * z` plus ten turbulence octaves.
pub open spec fn noise_value_spec(nt: NoiseTexture, p: Point3) -> int {
    let tu = crate::perlin::turb_accum(nt.noise, p, 65536, 7);
    let t = if tu >= 0 {
        tu
    } else {
        -tu
    };
    fmul(32768, 65536 + crate::trig::sin_spec(fmul(nt.scale@, p.z@) + 10 * t))
}

/// The sign carrier of the checker pattern: the product of the sine
/// approximations of ten times each coordinate.
pub open spec fn checker_sines(p: Point3) -> int {
    fmul(
        crate::trig::sin_spec(fmul(655360, p.z@)),
        fmul(
            crate::trig::sin_spec(fmul(655360, p.x@)),
            crate::trig::sin_spec(fmul(655360, p.y@)),
        ),
    )
}

/// The byte the image lookup reads for channel `c` at unit coordinates
/// `(u, v)`: flip `v` to row order, scale to the grid, clamp to the last
/// pixel, and index row-major with `bytes_per_pixel` channels.
pub closed spec fn image_channel_byte(im: ImageTexture, u: int, v: int, c: int) -> int {
    let i0 = (u * im.width) / 65536;
    let i = if i0 >= im.width {
        im.width - 1
    } else {
        i0
    };
    let j0 = ((65536 - v) * im.height) / 65536;
    let j = if j0 >= im.height {
        im.height - 1
    } else {
        j0
    };
    im.data@[j * im.width * im.bytes_per_pixel + i * im.bytes_per_pixel + c] as int
}

/// One channel of the image lookup, scaled from bytes to `[0, 1]`.
pub open spec fn image_channel(im: ImageTexture, u: int, v: int, c: int) -> int {
    (image_channel_byte(im, u, v, c) * 65536) / 255
}

/// A coordinate clamped into the unit interval, as the image lookup
/// normalizes its inputs.
pub open spec fn clamp_unit(x: int) -> int {
    if x < 0 {
        0
    } else if x > 65536 {
        65536
    } else {
        x
    }
}

/// The color every texture variant returns at surface coordinates `(u, v)`
/// and point `p`: the stored color for a solid, the child picked by the sign
/// of the sine product for a checker, the noise grayscale, and the sampled
/// image pixel (coordinates clamped into the unit interval).
pub open spec fn texture_value_spec(t: Texture, u: int, v: int, p: Point3) -> Color
    decreases t,
{
    match t {
        Texture::SolidColor(sc) => sc.color,
        Texture::Checker(ck) => if checker_sines(p) < 0 {
            texture_value_spec(*ck.odd, u, v, p)
        } else {
            texture_value_spec(*ck.even, u, v, p)
        },
        Texture::Noise(nt) => {
            let g = Fx { raw: noise_value_spec(nt, p) as i64 };
            Vec3 { x: g, y: g, z: g }
        },
        Texture::Image(im) => Vec3 {
            x: Fx { raw: image_channel(im, clamp_unit(u), clamp_unit(v), 0) as i64 },
            y: Fx { raw: image_channel(im, clamp_unit(u), clamp_unit(v), 1) as i64 },
            z: Fx { raw: image_channel(im, clamp_unit(u), clamp_unit(v), 2) as i64 },
        },
    }
}

/// A color whose channels lie in `[0, m]`.
pub open spec fn color_in(c: Color, m: int) -> bool {
    0 <= c.x@ <= m && 0 <= c.y@ <= m && 0 <= c.z@ <= m
}

impl Texture {
    /// The color at surface coordinates `(u, v)` and point `p`.  Always
    /// non-negative and bounded by `TEX_MAX`; bounded by one for a unit
    /// texture; exactly the stored color for a solid texture.
    pub fn value(&self, u: Fx, v: Fx, p: Point3) -> (r: Color)
        requires
            tex_wf(*self),
            bounded(p, 0x8000_0000),
        ensures
            color_in(r, TEX_MAX as int),
            tex_unit(*self) ==> color_in(r, 65536),
            r == texture_value_spec(*self, u@, v@, p),
        decreases *self,
    {
        match self {
            Texture::SolidColor(sc) => sc.color,
            Texture::Checker(ck) => {
                proof {
                    lemma_checker_arg(p.x@);
                    lemma_checker_arg(p.y@);
                    lemma_checker_arg(p.z@);
                }
                let ten = Fx { raw: 10 * 65536 };
                let sx = ten.mul(p.x).sin();
                let sy = ten.mul(p.y).sin();
                let sz = ten.mul(p.z).sin();
                proof {
                    crate::hittable::lemma_sym_weight_mul(sx@, sy@, 65536);
                    crate::hittable::lemma_sym_weight_mul(sz@, fmul(sx@, sy@), 65537);
                }
                let sines = sz.mul(sx.mul(sy));
                if sines.raw < 0 {
                    ck.odd.value(u, v, p)
                } else {
                    ck.even.value(u, v, p)
                }
            },
            Texture::Noise(nt) => {
                proof {
                    crate::vec3::lemma_prod_bound(nt.scale@, p.z@, 0x10_0000, 0x8000_0000);
                    crate::fx::lemma_div_bound_by_dividend(nt.scale@ * p.z@, 65536);
                }
                let tu = nt.noise.turb(p, 7);
                let arg = nt.scale.mul(p.z).add(Fx { raw: 10 * tu.raw });
                let s = arg.sin();
                // 0.5 * (1 + sin) stays within [0, 1].
                let half = Fx { raw: 32768 };
                proof {
                    crate::hittable::lemma_sym_weight_mul(32768, 65536 + s@, 131072);
                    assert((32768 * (65536 + s@)) / 65536 <= 65536) by (nonlinear_arith)
                        requires -65536 <= s@ <= 65536,
                    ;
                    vstd::arithmetic::div_mod::lemma_div_pos_is_pos(32768 * (65536 + s@), 65536);
                }
                let c = half.mul(Fx { raw: 65536 + s.raw });
                Vec3::new(c, c, c)
            },
            Texture::Image(im) => im.value_px(u, v),
        }
    }
}

/// A checker argument `10 p` stays within the sine's domain.
proof fn lemma_checker_arg(x: int)
    requires
        -0x8000_0000 <= x <= 0x8000_0000,
    ensures
        crate::fx::fits64(fmul(655360, x)),
        -0x4000_0000_0000_0000 <= fmul(655360, x) <= 0x4000_0000_0000_0000,
{
    crate::vec3::lemma_prod_bound(655360, x, 655360, 0x8000_0000);
    crate::fx::lemma_div_bound_by_dividend(655360 * x, 65536);
}

impl SolidColor {
    pub fn new(r: Fx, g: Fx, b: Fx) -> (res: SolidColor)
        ensures
            res.color == (Vec3 { x: r, y: g, z: b }),
    {
        SolidColor { color: Vec3::new(r, g, b) }
    }
}

impl CheckerTexture {
    /// A checker of two solid colors.
    pub fn new(even: Color, odd: Color) -> (r: CheckerTexture)
        ensures
            r.even == Box::new(Texture::SolidColor(SolidColor { color: even })),
            r.odd == Box::new(Texture::SolidColor(SolidColor { color: odd })),
    {
        CheckerTexture {
            even: Box::new(Texture::SolidColor(SolidColor { color: even })),
            odd: Box::new(Texture::SolidColor(SolidColor { color: odd })),
        }
    }
}

impl NoiseTexture {
    pub fn new_box(noise: Perlin, scale: Fx) -> (r: Box<NoiseTexture>)
        ensures
            r.noise == noise && r.scale == scale,
    {
        Box::new(NoiseTexture { noise, scale })
    }
}

impl ImageTexture {
    /// Wrap decoded pixel bytes: `width * height` pixels, row-major from the
    /// top, `bytes_per_pixel` channels each.
    pub fn new(data: Vec<u8>, width: usize, height: usize, bytes_per_pixel: usize) -> (r:
        ImageTexture)
        requires
            1 <= width <= 4096,
            1 <= height <= 4096,
            3 <= bytes_per_pixel <= 16,
            data@.len() >= width * height * bytes_per_pixel,
        ensures
            image_wf(r),
    {
        ImageTexture { data, width, height, bytes_per_pixel }
    }

    /// Flip `v` to image row order, map to the nearest pixel and scale its
    /// RGB bytes to `[0, 1]`: each channel is exactly the indexed byte over
    /// 255.
    pub fn value_px(&self, uq: Fx, vq: Fx) -> (r: Color)
        requires
            image_wf(*self),
        ensures
            color_in(r, 65536),
            r.x@ == image_channel(*self, clamp_unit(uq@), clamp_unit(vq@), 0),
            r.y@ == image_channel(*self, clamp_unit(uq@), clamp_unit(vq@), 1),
            r.z@ == image_channel(*self, clamp_unit(uq@), clamp_unit(vq@), 2),
    {
        let u = if uq.raw < 0 {
            Fx { raw: 0 }
        } else if uq.raw > 65536 {
            Fx { raw: 65536 }
        } else {
            uq
        };
        let v = if vq.raw < 0 {
            Fx { raw: 0 }
        } else if vq.raw > 65536 {
            Fx { raw: 65536 }
        } else {
            vq
        };
        let vflip = Fx { raw: 65536 - v.raw };
        proof {
            lemma_pixel_index(u@, self.width as int);
            lemma_pixel_index(vflip@, self.height as int);
            assert(u@ * self.width <= 65536 * 4096 && vflip@ * self.height <= 65536 * 4096)
                by (nonlinear_arith)
                requires
                    0 <= u@ <= 65536,
                    0 <= vflip@ <= 65536,
                    1 <= self.width <= 4096,
                    1 <= self.height <= 4096,
            ;
        }
        let mut i = ((u.raw as usize) * self.width) / 65536;
        let mut j = ((vflip.raw as usize) * self.height) / 65536;
        if i >= self.width {
            i = self.width - 1;
        }
        if j >= self.height {
            j = self.height - 1;
        }
        proof {
            lemma_pixel_in_data_pre(
                i as int,
                j as int,
                self.width as int,
                self.height as int,
                self.bytes_per_pixel as int,
            );
        }
        let pixel_index = j * self.width * self.bytes_per_pixel + i * self.bytes_per_pixel;
        proof {
            lemma_pixel_in_data(
                i as int,
                j as int,
                self.width as int,
                self.height as int,
                self.bytes_per_pixel as int,
            );
        }
        let pr = self.data[pixel_index];
        let pg = self.data[pixel_index + 1];
        let pb = self.data[pixel_index + 2];
        Vec3::new(byte_channel(pr), byte_channel(pg), byte_channel(pb))
    }
}

/// One 8-bit channel scaled to `[0, 1]`: `b * 65536 / 255`.
fn byte_channel(b: u8) -> (r: Fx)
    ensures
        0 <= r@ <= 65536,
        r@ == (b * 65536) / 255,
{
    proof {
        vstd::arithmetic::div_mod::lemma_div_pos_is_pos((b as int) * 65536, 255);
        vstd::arithmetic::div_mod::lemma_div_is_ordered((b as int) * 65536, 16711680, 255);
        vstd::arithmetic::div_mod::lemma_div_multiples_vanish(65536, 255);
    }
    Fx { raw: (((b as u64) * 65536) / 255) as i64 }
}

/// The nearest-pixel index from a unit coordinate is within one past the end.
proof fn lemma_pixel_index(u: int, w: int)
    requires
        0 <= u <= 65536,
        1 <= w <= 4096,
    ensures
        0 <= (u * w) / 65536 <= w,
{
    assert(0 <= u * w <= 65536 * w) by (nonlinear_arith)
        requires 0 <= u <= 65536 && w >= 1,
    ;
    vstd::arithmetic::div_mod::lemma_div_pos_is_pos(u * w, 65536);
    vstd::arithmetic::div_mod::lemma_div_is_ordered(u * w, 65536 * w, 65536);
    vstd::arithmetic::div_mod::lemma_div_multiples_vanish(w, 65536);
}

/// A clamped pixel coordinate addresses a whole pixel inside the data.
proof fn lemma_pixel_in_data(i: int, j: int, w: int, h: int, bpp: int)
    requires
        0 <= i < w,
        0 <= j < h,
        1 <= w <= 4096,
        1 <= h <= 4096,
        3 <= bpp <= 16,
    ensures
        0 <= j * w * bpp + i * bpp,
        j * w * bpp + i * bpp + 3 <= w * h * bpp,
        j * w * bpp + i * bpp + 3 <= 0x1000_0000,
{
    assert(0 <= j * w && j * w + i < w * h && w * h <= 16777216) by (nonlinear_arith)
        requires 0 <= i < w && 0 <= j < h && 1 <= w <= 4096 && 1 <= h <= 4096,
    ;
    assert((j * w) * bpp == j * w * bpp) by (nonlinear_arith);
    assert(0 <= j * w * bpp && j * w * bpp + i * bpp + bpp <= w * h * bpp && w * h * bpp
        <= 268435456) by (nonlinear_arith)
        requires
            0 <= i < w,
            0 <= j * w,
            j * w + i < w * h,
            w * h <= 16777216,
            1 <= w,
            3 <= bpp <= 16,
    ;
}

/// The same pixel arithmetic, before the multiplication, stays within range.
proof fn lemma_pixel_in_data_pre(i: int, j: int, w: int, h: int, bpp: int)
    requires
        0 <= i < w,
        0 <= j < h,
        1 <= w <= 4096,
        1 <= h <= 4096,
        3 <= bpp <= 16,
    ensures
        0 <= j * w <= 16777216,
        0 <= j * w * bpp <= 268435456,
        0 <= i * bpp <= 65536,
        j * w * bpp + i * bpp <= 268435456,
{
    assert(0 <= j * w <= 16777216 && 0 <= j * w * bpp <= 268435456 && 0 <= i * bpp <= 65536 && j
        * w * bpp + i * bpp <= 268435456) by (nonlinear_arith)
        requires 0 <= i < w && 0 <= j < h && 1 <= w <= 4096 && 1 <= h <= 4096 && 3 <= bpp <= 16,
    ;
}

} // verus!
