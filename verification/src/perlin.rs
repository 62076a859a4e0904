//! Perlin noise: 256 precomputed near-unit gradient vectors and three
//! shuffled permutation tables, built once and read-only afterwards.  `noise`
//! trilinearly interpolates (with Hermite smoothing) the dot products of
//! lattice-corner gradients with the local offset; `turb` sums octaves at
//! halved amplitude and doubled frequency.  Both are pure functions of the
//! tables, so a fixed seed makes them deterministic; the contracts bound
//! their results.

use vstd::prelude::*;

use vstd::arithmetic::power2::{lemma2_to64, lemma_pow2_unfold, pow2};

use crate::fx::{fmul, Fx};
use crate::rng::Rng;
use crate::utils::random_unit_vector;
use crate::vec3::{bounded, sdot, Point3, Vec3};

verus! {

/// Bound on one interpolated corner term of `noise`.
pub const NOISE_TERM_BOUND: i64 = 196623;

/// Bound on `|noise|`: the sum of the eight corner terms' bounds.  The
/// interpolation weights at the corners in fact sum to one, and each
/// gradient is a near-unit vector, so the true range is close to `[-1, 1]`;
/// the contracts state only the coarse per-corner sum, which needs neither a
/// partition-of-unity argument nor a unit-length invariant on the tables.
pub const NOISE_BOUND: i64 = 1572984;

/// Bound on `turb` at any depth up to 7: a geometric series of noise bounds.
pub const TURB_BOUND: i64 = 3276807;

pub struct Perlin {
    ran_vec: Vec<Vec3>,
    perm_x: Vec<u8>,
    perm_y: Vec<u8>,
    perm_z: Vec<u8>,
}

/// The table holds each byte value exactly once: a permutation of `0..=255`.
pub open spec fn perm_complete(t: Seq<u8>) -> bool {
    t.to_multiset() == Seq::new(256, |k: int| k as u8).to_multiset()
}

/// Table lengths are fixed at 256, every gradient is a near-unit vector, and
/// each permutation table holds every byte value exactly once.
pub closed spec fn perlin_wf(p: Perlin) -> bool {
    &&& p.ran_vec@.len() == 256
    &&& p.perm_x@.len() == 256
    &&& p.perm_y@.len() == 256
    &&& p.perm_z@.len() == 256
    &&& forall|i: int| 0 <= i < 256 ==> bounded(#[trigger] p.ran_vec@[i], 65540)
    &&& perm_complete(p.perm_x@)
    &&& perm_complete(p.perm_y@)
    &&& perm_complete(p.perm_z@)
}

/// One shuffled table of the byte values 0..=255 (Fisher-Yates, drawing each
/// swap index from the trusted generator).
fn perlin_generate_perm(rng: &mut Rng) -> (r: Vec<u8>)
    ensures
        r@.len() == 256,
        perm_complete(r@),
{
    broadcast use vstd::seq_lib::group_to_multiset_ensures;

    let mut perm: Vec<u8> = Vec::new();
    let mut i: usize = 0;
    while i < 256
        invariant
            perm@.len() == i,
            i <= 256,
            forall|k: int| 0 <= k < i ==> perm@[k] == k as u8,
        decreases 256 - i,
    {
        perm.push(i as u8);
        i = i + 1;
    }
    proof {
        assert(perm@ =~= Seq::new(256, |k: int| k as u8));
    }
    let mut j: usize = 255;
    while j > 0
        invariant
            perm@.len() == 256,
            j <= 255,
            perm_complete(perm@),
        decreases j,
    {
        let target = rng.gen_i64(0, (j as i64) + 1) as usize;
        let a = perm[j];
        let b = perm[target];
        let ghost before = perm@;
        perm[j] = b;
        perm[target] = a;
        proof {
            broadcast use vstd::multiset::group_multiset_axioms, vstd::multiset::group_multiset_properties;

            vstd::seq_lib::to_multiset_update(before, j as int, b);
            vstd::seq_lib::to_multiset_update(before.update(j as int, b), target as int, a);
            assert(before.update(j as int, b)[target as int] == b);
            assert(before.contains(a)) by {
                assert(before[j as int] == a);
            }
            vstd::seq_lib::to_multiset_contains(before, a);
            assert(perm@.to_multiset() =~= before.to_multiset());
        }
        j = j - 1;
    }
    perm
}

/// Floor and fraction of a fixed-point coordinate: `x == 65536 * q + f`,
/// `0 <= f < 65536`.
fn floor_frac(x: Fx) -> (r: (i64, Fx))
    ensures
        r.0 == x@ / 65536,
        r.1@ == x@ % 65536,
        x@ == 65536 * r.0 + r.1@,
        0 <= r.1@ < 65536,
        -0x8000_0000_0000 <= r.0 <= 0x8000_0000_0000,
{
    proof {
        vstd::arithmetic::div_mod::lemma_fundamental_div_mod(x@, 65536);
        crate::fx::lemma_div_bound_by_dividend(x@, 65536);
        assert(-0x8000_0000_0000 <= x@ / 65536 <= 0x8000_0000_0000) by (nonlinear_arith)
            requires
                x@ == 65536 * (x@ / 65536) + x@ % 65536,
                0 <= x@ % 65536 < 65536,
                -0x8000_0000_0000_0000 <= x@ <= 0x7fff_ffff_ffff_ffff,
        ;
    }
    let q = crate::fx::div_euclid_i128(x.raw as i128, 65536) as i64;
    let f = x.raw - q * 65536;
    (q, Fx { raw: f })
}

/// `x` modulo 256, as a table index.
fn mask256(x: i64) -> (r: usize)
    ensures
        r < 256,
        r == (x as int) % 256,
{
    proof {
        vstd::arithmetic::div_mod::lemma_fundamental_div_mod(x as int, 256);
        crate::fx::lemma_div_bound_by_dividend(x as int, 256);
    }
    let q = crate::fx::div_euclid_i128(x as i128, 256) as i64;
    (x - q * 256) as usize
}

/// `u * u * (3 - 2u)` in fixed point.
pub open spec fn hermite_spec(u: int) -> int {
    fmul(fmul(u, u), 3 * 65536 - 2 * u)
}

/// The Hermite smoothing weight `u * u * (3 - 2u)`, which stays in `[0, 1]`.
fn hermite(u: Fx) -> (r: Fx)
    requires
        0 <= u@ < 65536,
    ensures
        0 <= r@ <= 65536,
        r@ == hermite_spec(u@),
{
    proof {
        assert(0 <= u@ * u@ <= 4294967296) by (nonlinear_arith)
            requires 0 <= u@ < 65536,
        ;
        crate::fx::lemma_div_bound_by_dividend(u@ * u@, 65536);
        vstd::arithmetic::div_mod::lemma_div_pos_is_pos(u@ * u@, 65536);
    }
    let a = u.mul(u);
    let w = Fx { raw: 3 * 65536 - 2 * u.raw };
    proof {
        let ai = fmul(u@, u@);
        let wi = 3 * 65536 - 2 * u@;
        vstd::arithmetic::div_mod::lemma_fundamental_div_mod(u@ * u@, 65536);
        assert(65536 * ai <= u@ * u@);
        // (S - u)^2 (S + 2u) >= 0 expands to u^2 (3S - 2u) <= S^3.
        assert(u@ * u@ * wi <= 281474976710656) by (nonlinear_arith)
            requires 0 <= u@ < 65536 && wi == 3 * 65536 - 2 * u@,
        ;
        assert(0 <= ai * wi <= 4294967296) by (nonlinear_arith)
            requires
                0 <= ai,
                65536 * ai <= u@ * u@,
                u@ * u@ * wi <= 281474976710656,
                65536 < wi <= 3 * 65536,
        ;
        crate::fx::lemma_div_bound_by_dividend(ai * wi, 65536);
        vstd::arithmetic::div_mod::lemma_div_pos_is_pos(ai * wi, 65536);
        vstd::arithmetic::div_mod::lemma_div_is_ordered(ai * wi, (4294967296) as int, 65536);
        vstd::arithmetic::div_mod::lemma_div_multiples_vanish(65536, 65536);
    }
    a.mul(w)
}

/// Multiplying by a weight in `[0, 1]` keeps a bounded value bounded
/// (one raw unit of slack for the floor).
proof fn lemma_weight_mul(w: int, x: int, m: int)
    requires
        0 <= w <= 65536,
        -m <= x <= m,
        0 <= m,
    ensures
        -(m + 1) <= fmul(w, x) <= m + 1,
{
    assert(-(65536 * m) <= w * x <= 65536 * m) by (nonlinear_arith)
        requires 0 <= w <= 65536 && -m <= x <= m && 0 <= m,
    ;
    vstd::arithmetic::div_mod::lemma_fundamental_div_mod(w * x, 65536);
    assert(-(m + 1) <= (w * x) / 65536 <= m + 1) by (nonlinear_arith)
        requires
            w * x == 65536 * ((w * x) / 65536) + (w * x) % 65536,
            0 <= (w * x) % 65536 < 65536,
            -(65536 * m) <= w * x <= 65536 * m,
    ;
}

/// An octave's contribution is at most 25 times its weight.
proof fn lemma_octave_mul(w: int, x: int)
    requires
        0 <= w <= 65536,
        -1572984 <= x <= 1572984,
    ensures
        -(25 * w) - 1 <= fmul(w, x) <= 25 * w + 1,
{
    assert(-(65536 * (25 * w)) <= w * x <= 65536 * (25 * w)) by (nonlinear_arith)
        requires 0 <= w && -1572984 <= x <= 1572984,
    ;
    vstd::arithmetic::div_mod::lemma_fundamental_div_mod(w * x, 65536);
    assert(-(25 * w) - 1 <= (w * x) / 65536 <= 25 * w + 1) by (nonlinear_arith)
        requires
            w * x == 65536 * ((w * x) / 65536) + (w * x) % 65536,
            0 <= (w * x) % 65536 < 65536,
            -(65536 * (25 * w)) <= w * x <= 65536 * (25 * w),
    ;
}

/// The gradient at a lattice corner: the xor of the three permutation
/// bytes indexes the gradient table.
pub closed spec fn lattice_spec(s: Perlin, i: int, j: int, k: int) -> Vec3 {
    s.ran_vec@[(s.perm_x@[i % 256] ^ s.perm_y@[j % 256] ^ s.perm_z@[k % 256]) as int]
}

/// One corner's weighted contribution at cell fractions `(u, v, w)` with
/// Hermite weights `(uu, vv, ww)`.
pub closed spec fn corner_spec(
    s: Perlin,
    i: int,
    j: int,
    k: int,
    u: int,
    v: int,
    w: int,
    di: int,
    dj: int,
    dk: int,
) -> int {
    let uu = hermite_spec(u);
    let vv = hermite_spec(v);
    let ww = hermite_spec(w);
    let w0 = if di == 1 {
        uu
    } else {
        65536 - uu
    };
    let w1 = if dj == 1 {
        vv
    } else {
        65536 - vv
    };
    let w2 = if dk == 1 {
        ww
    } else {
        65536 - ww
    };
    let off = Vec3 {
        x: Fx { raw: (u - di * 65536) as i64 },
        y: Fx { raw: (v - dj * 65536) as i64 },
        z: Fx { raw: (w - dk * 65536) as i64 },
    };
    fmul(w0, fmul(w1, fmul(w2, sdot(lattice_spec(s, i + di, j + dj, k + dk), off))))
}

/// A point with every component doubled.
pub open spec fn doubled(q: Point3) -> Point3 {
    Vec3 {
        x: Fx { raw: (2 * q.x@) as i64 },
        y: Fx { raw: (2 * q.y@) as i64 },
        z: Fx { raw: (2 * q.z@) as i64 },
    }
}

/// The remaining octaves of turbulence from state `(q, weight)`:
/// `weight * noise(q)` plus the rest at doubled frequency and halved weight.
pub closed spec fn turb_accum(s: Perlin, q: Point3, weight: int, n: int) -> int
    decreases n,
{
    if n <= 0 {
        0
    } else {
        fmul(weight, noise_spec(s, q)) + turb_accum(s, doubled(q), weight / 2, n - 1)
    }
}

/// The complete functional model of `noise`: the sum of the eight corner
/// contributions of the cell containing `p`.
pub closed spec fn noise_spec(s: Perlin, p: Point3) -> int {
    let i = p.x@ / 65536;
    let j = p.y@ / 65536;
    let k = p.z@ / 65536;
    let u = p.x@ % 65536;
    let v = p.y@ % 65536;
    let w = p.z@ % 65536;
    corner_spec(s, i, j, k, u, v, w, 0, 0, 0) + corner_spec(s, i, j, k, u, v, w, 0, 0, 1)
        + corner_spec(s, i, j, k, u, v, w, 0, 1, 0) + corner_spec(s, i, j, k, u, v, w, 0, 1, 1)
        + corner_spec(s, i, j, k, u, v, w, 1, 0, 0) + corner_spec(s, i, j, k, u, v, w, 1, 0, 1)
        + corner_spec(s, i, j, k, u, v, w, 1, 1, 0) + corner_spec(s, i, j, k, u, v, w, 1, 1, 1)
}

impl Perlin {
    /// Fresh tables from the given random stream.
    pub fn new(rng: &mut Rng) -> (r: Perlin)
        ensures
            perlin_wf(r),
    {
        let mut ran_vec: Vec<Vec3> = Vec::new();
        let mut i: usize = 0;
        while i < 256
            invariant
                ran_vec@.len() == i,
                i <= 256,
                forall|k: int| 0 <= k < i ==> bounded(#[trigger] ran_vec@[k], 65540),
            decreases 256 - i,
        {
            let v = random_unit_vector(rng);
            ran_vec.push(v);
            i = i + 1;
        }
        Perlin {
            ran_vec,
            perm_x: perlin_generate_perm(rng),
            perm_y: perlin_generate_perm(rng),
            perm_z: perlin_generate_perm(rng),
        }
    }

    /// Build from fixed tables: with the same tables, `noise` and `turb` are
    /// the same functions of `p` (they draw nothing at evaluation time).
    pub fn from_tables(ran_vec: Vec<Vec3>, perm_x: Vec<u8>, perm_y: Vec<u8>, perm_z: Vec<u8>) -> (r:
        Perlin)
        requires
            ran_vec@.len() == 256,
            perm_x@.len() == 256,
            perm_y@.len() == 256,
            perm_z@.len() == 256,
            forall|i: int| 0 <= i < 256 ==> bounded(#[trigger] ran_vec@[i], 65540),
            perm_complete(perm_x@),
            perm_complete(perm_y@),
            perm_complete(perm_z@),
        ensures
            perlin_wf(r),
    {
        Perlin { ran_vec, perm_x, perm_y, perm_z }
    }

    /// The gradient vector of lattice corner `(i, j, k)`: the three
    /// permutation bytes are combined by xor, which stays below 256.
    fn lattice_vec(&self, i: i64, j: i64, k: i64) -> (r: Vec3)
        requires
            perlin_wf(*self),
        ensures
            bounded(r, 65540),
            r == lattice_spec(*self, i as int, j as int, k as int),
    {
        let xi = self.perm_x[mask256(i)];
        let yi = self.perm_y[mask256(j)];
        let zi = self.perm_z[mask256(k)];
        let vi = (xi ^ yi ^ zi) as usize;
        self.ran_vec[vi]
    }

    /// One corner's contribution to the trilinear interpolation.
    fn corner_term(&self, c: Vec3, w0: Fx, w1: Fx, w2: Fx, off: Vec3) -> (r: Fx)
        requires
            bounded(c, 65540),
            bounded(off, 65536),
            0 <= w0@ <= 65536,
            0 <= w1@ <= 65536,
            0 <= w2@ <= 65536,
        ensures
            -NOISE_TERM_BOUND <= r@ <= NOISE_TERM_BOUND,
            r@ == fmul(w0@, fmul(w1@, fmul(w2@, sdot(c, off)))),
    {
        proof {
            crate::vec3::lemma_sdot_bound(c, off, 65540, 65536);
            assert(12885688320int / 65536 == 196620);
            assert((-12885688320int) / 65536 == -196620);
            lemma_weight_mul(w2@, sdot(c, off), 196620);
            lemma_weight_mul(w1@, fmul(w2@, sdot(c, off)), 196621);
            lemma_weight_mul(w0@, fmul(w1@, fmul(w2@, sdot(c, off))), 196622);
        }
        let d = c.dot(off);
        w0.mul(w1.mul(w2.mul(d)))
    }

    /// One corner's contribution, evaluated from the cell coordinates.
    fn one_corner(
        &self,
        i: i64,
        j: i64,
        k: i64,
        u: Fx,
        v: Fx,
        w: Fx,
        uu: Fx,
        vv: Fx,
        ww: Fx,
        di: i64,
        dj: i64,
        dk: i64,
    ) -> (r: Fx)
        requires
            perlin_wf(*self),
            -0x8000_0000_0000 <= i <= 0x8000_0000_0000,
            -0x8000_0000_0000 <= j <= 0x8000_0000_0000,
            -0x8000_0000_0000 <= k <= 0x8000_0000_0000,
            0 <= u@ < 65536 && 0 <= v@ < 65536 && 0 <= w@ < 65536,
            uu@ == hermite_spec(u@) && 0 <= uu@ <= 65536,
            vv@ == hermite_spec(v@) && 0 <= vv@ <= 65536,
            ww@ == hermite_spec(w@) && 0 <= ww@ <= 65536,
            di == 0 || di == 1,
            dj == 0 || dj == 1,
            dk == 0 || dk == 1,
        ensures
            -196623 <= r@ <= 196623,
            r@ == corner_spec(*self, i as int, j as int, k as int, u@, v@, w@, di as int,
            dj as int, dk as int),
    {
        let c = self.lattice_vec(i + di, j + dj, k + dk);
        let w0 = if di == 1 {
            uu
        } else {
            Fx { raw: 65536 - uu.raw }
        };
        let w1 = if dj == 1 {
            vv
        } else {
            Fx { raw: 65536 - vv.raw }
        };
        let w2 = if dk == 1 {
            ww
        } else {
            Fx { raw: 65536 - ww.raw }
        };
        let off = Vec3::new(
            Fx { raw: u.raw - di * 65536 },
            Fx { raw: v.raw - dj * 65536 },
            Fx { raw: w.raw - dk * 65536 },
        );
        proof {
            assert(c == lattice_spec(*self, i as int + di as int, j as int + dj as int,
            k as int + dk as int));
            assert(off == (Vec3 {
                x: Fx { raw: (u@ - (di as int) * 65536) as i64 },
                y: Fx { raw: (v@ - (dj as int) * 65536) as i64 },
                z: Fx { raw: (w@ - (dk as int) * 65536) as i64 },
            }));
            assert(w0@ == if di as int == 1 { hermite_spec(u@) } else { 65536 - hermite_spec(u@) });
            assert(w1@ == if dj as int == 1 { hermite_spec(v@) } else { 65536 - hermite_spec(v@) });
            assert(w2@ == if dk as int == 1 { hermite_spec(w@) } else { 65536 - hermite_spec(w@) });
            assert(corner_spec(*self, i as int, j as int, k as int, u@, v@, w@, di as int,
            dj as int, dk as int) == fmul(w0@, fmul(w1@, fmul(w2@, sdot(c, off)))));
        }
        self.corner_term(c, w0, w1, w2, off)
    }

    /// Perlin noise at `p`: exactly the eight-corner interpolation
    /// `noise_spec`, bounded by `NOISE_BOUND` raw units (24 units).
    pub fn noise(&self, p: Point3) -> (r: Fx)
        requires
            perlin_wf(*self),
        ensures
            -NOISE_BOUND <= r@ <= NOISE_BOUND,
            r@ == noise_spec(*self, p),
    {
        let (i, u) = floor_frac(p.x);
        let (j, v) = floor_frac(p.y);
        let (k, w) = floor_frac(p.z);
        let uu = hermite(u);
        let vv = hermite(v);
        let ww = hermite(w);
        let t000 = self.one_corner(i, j, k, u, v, w, uu, vv, ww, 0, 0, 0);
        let t001 = self.one_corner(i, j, k, u, v, w, uu, vv, ww, 0, 0, 1);
        let t010 = self.one_corner(i, j, k, u, v, w, uu, vv, ww, 0, 1, 0);
        let t011 = self.one_corner(i, j, k, u, v, w, uu, vv, ww, 0, 1, 1);
        let t100 = self.one_corner(i, j, k, u, v, w, uu, vv, ww, 1, 0, 0);
        let t101 = self.one_corner(i, j, k, u, v, w, uu, vv, ww, 1, 0, 1);
        let t110 = self.one_corner(i, j, k, u, v, w, uu, vv, ww, 1, 1, 0);
        let t111 = self.one_corner(i, j, k, u, v, w, uu, vv, ww, 1, 1, 1);
        t000.add(t001).add(t010).add(t011).add(t100).add(t101).add(t110).add(t111)
    }

    /// Fractal turbulence: `depth` octaves of `noise`, each at half the
    /// previous weight and double the frequency, and the absolute value of
    /// the sum (`turb_accum`); never negative and bounded by the geometric
    /// series of noise bounds.
    pub fn turb(&self, p: Point3, depth: u32) -> (r: Fx)
        requires
            perlin_wf(*self),
            bounded(p, 0x8000_0000),
            depth <= 7,
        ensures
            0 <= r@ <= TURB_BOUND,
            depth == 0 ==> r@ == 0,
            r@ == if turb_accum(*self, p, 65536, depth as int) >= 0 {
                turb_accum(*self, p, 65536, depth as int)
            } else {
                -turb_accum(*self, p, 65536, depth as int)
            },
    {
        let mut accum = Fx { raw: 0 };
        let mut temp_p = p;
        let mut weight: i64 = 65536;
        let mut oct: u32 = 0;
        proof {
            lemma2_to64();
        }
        while oct < depth
            invariant
                perlin_wf(*self),
                oct <= depth <= 7,
                weight == pow2((16 - oct) as nat),
                512 <= weight <= 65536,
                bounded(temp_p, (0x8000_0000 * pow2(oct as nat)) as int),
                0x8000_0000 * pow2(oct as nat) <= 0x40_0000_0000,
                -(3276800 - 50 * weight + oct) <= accum@ <= 3276800 - 50 * weight + oct,
                accum@ + turb_accum(*self, temp_p, weight as int, depth - oct) == turb_accum(
                    *self,
                    p,
                    65536,
                    depth as int,
                ),
            decreases depth - oct,
        {
            let n = self.noise(temp_p);
            proof {
                lemma_octave_mul(weight as int, n@);
            }
            let wn = Fx { raw: weight }.mul(n);
            accum = accum.add(wn);
            proof {
                lemma_pow2_unfold((16 - oct) as nat);
                lemma2_to64();
                let e1 = (16 - (oct + 1)) as nat;
                if e1 > 9 {
                    vstd::arithmetic::power2::lemma_pow2_strictly_increases(9, e1);
                }
                let e2 = (oct + 1) as nat;
                if e2 < 7 {
                    vstd::arithmetic::power2::lemma_pow2_strictly_increases(e2, 7);
                }
                assert(pow2(e1) >= 512 && pow2(e2) <= 128);
            }
            let ghost old_p = temp_p;
            let ghost old_w = weight as int;
            weight = ((weight as u64) / 2) as i64;
            let two = Fx { raw: 2 * 65536 };
            proof {
                lemma_exact_double(temp_p.x@);
                lemma_exact_double(temp_p.y@);
                lemma_exact_double(temp_p.z@);
            }
            temp_p = temp_p.scale(two);
            proof {
                assert(temp_p == doubled(old_p));
                assert(weight as int == old_w / 2);
            }
            oct = oct + 1;
        }
        accum.abs()
    }
}

/// Scaling by exactly two in fixed point doubles the raw value.
proof fn lemma_exact_double(x: int)
    requires
        -0x20_0000_0000 <= x <= 0x20_0000_0000,
    ensures
        fmul((2 * 65536) as int, x) == 2 * x,
{
    vstd::arithmetic::div_mod::lemma_div_multiples_vanish(2 * x, 65536);
    assert((2 * 65536) * x == 65536 * (2 * x)) by (nonlinear_arith);
}

} // verus!
