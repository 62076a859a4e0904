//! Q47.16 fixed-point scalars: a real number `x` is stored as the raw `i64`
//! value `x * 65536`, rounded toward minus infinity.  Every operation has an
//! exact contract over the raw integers, phrased with the spec functions
//! `fmul`, `fdiv` and `sqz` below.

use vstd::prelude::*;

verus! {

/// Raw units per 1.0: the fixed-point scale.
pub const SCALE: i64 = 65536;

/// One fixed-point scalar; `raw` is the value multiplied by 65536.
#[derive(Clone, Copy, PartialEq, Eq, Structural, Debug)]
pub struct Fx {
    pub raw: i64,
}

impl View for Fx {
    type V = int;

    open spec fn view(&self) -> int {
        self.raw as int
    }
}

/// `x` fits in a raw `i64`.
pub open spec fn fits64(x: int) -> bool {
    -0x8000_0000_0000_0000 <= x <= 0x7fff_ffff_ffff_ffff
}

/// Raw product of two fixed-point values (floor rounding: the spec `/` is
/// Euclidean, which rounds toward minus infinity for the positive divisor).
pub open spec fn fmul(a: int, b: int) -> int {
    (a * b) / 65536
}

/// Raw quotient of two fixed-point values, with Euclidean rounding
/// (the remainder is never negative).
pub open spec fn fdiv(a: int, b: int) -> int {
    (a * 65536) / b
}

/// The integer square root: the largest `r` with `r * r <= n` (0 for `n <= 0`).
pub open spec fn sqz(n: int) -> int
    decreases n,
{
    if n <= 0 {
        0
    } else {
        let r = sqz(n - 1);
        if (r + 1) * (r + 1) <= n {
            r + 1
        } else {
            r
        }
    }
}

/// `sqz(n)` is the integer square root of `n`.
pub proof fn lemma_sqz(n: int)
    requires
        n >= 0,
    ensures
        0 <= sqz(n),
        sqz(n) * sqz(n) <= n,
        n < (sqz(n) + 1) * (sqz(n) + 1),
    decreases n,
{
    if n > 0 {
        lemma_sqz(n - 1);
        let r = sqz(n - 1);
        assert(r * r <= n - 1 && n - 1 < (r + 1) * (r + 1));
        if (r + 1) * (r + 1) <= n {
            assert(n < (r + 2) * (r + 2)) by (nonlinear_arith)
                requires n - 1 < (r + 1) * (r + 1) && r >= 0,
            ;
        }
    }
}

/// Any `r` with `r * r <= n < (r + 1) * (r + 1)` equals `sqz(n)`.
pub proof fn lemma_sqz_unique(n: int, r: int)
    requires
        n >= 0,
        r >= 0,
        r * r <= n,
        n < (r + 1) * (r + 1),
    ensures
        r == sqz(n),
{
    lemma_sqz(n);
    let s = sqz(n);
    assert(r == s) by (nonlinear_arith)
        requires
            r >= 0 && s >= 0 && r * r <= n && n < (r + 1) * (r + 1) && s * s <= n && n < (s + 1) * (
            s + 1),
    ;
}

/// Exact widening product of two raw scalars.
pub fn mul_i128(a: i64, b: i64) -> (r: i128)
    ensures
        r == a * b,
{
    proof {
        assert(-0x8000_0000_0000_0000 * 0x8000_0000_0000_0000 <= (a as int) * (b as int)
            <= 0x8000_0000_0000_0000 * 0x8000_0000_0000_0000) by (nonlinear_arith)
            requires
                -0x8000_0000_0000_0000 <= a <= 0x7fff_ffff_ffff_ffff,
                -0x8000_0000_0000_0000 <= b <= 0x7fff_ffff_ffff_ffff,
        ;
    }
    (a as i128) * (b as i128)
}

/// Euclidean division on `i128`, exactly the spec-level `/`.
pub fn div_euclid_i128(a: i128, b: i128) -> (r: i128)
    requires
        b != 0,
        fits128(a as int / b as int),
    ensures
        r == a as int / b as int,
{
    match a.checked_div_euclid(b) {
        Some(q) => q,
        None => unreached(),
    }
}

/// `x` fits in an `i128`.
pub open spec fn fits128(x: int) -> bool {
    -0x8000_0000_0000_0000_0000_0000_0000_0000 <= x <= 0x7fff_ffff_ffff_ffff_ffff_ffff_ffff_ffff
}

impl Fx {
    /// Wrap a raw value.
    pub fn from_raw(raw: i64) -> (r: Fx)
        ensures
            r@ == raw,
    {
        Fx { raw }
    }

    /// The fixed-point value `i`.
    pub fn of_int(i: i64) -> (r: Fx)
        requires
            -0x7fff_0000_0000 <= i <= 0x7fff_0000_0000,
        ensures
            r@ == i * 65536,
    {
        Fx { raw: i * SCALE }
    }

    /// The fixed-point value `m / 1000` (floor), for writing decimal constants.
    pub fn of_milli(m: i64) -> (r: Fx)
        requires
            -0x7fff_0000_0000 <= m <= 0x7fff_0000_0000,
        ensures
            r@ == (m * 65536) / 1000,
    {
        let wide = mul_i128(m, SCALE);
        let q = div_euclid_i128(wide, 1000);
        proof {
            lemma_div_bound_by_dividend(m * 65536, 1000);
        }
        Fx { raw: q as i64 }
    }

    pub fn add(self, o: Fx) -> (r: Fx)
        requires
            fits64(self@ + o@),
        ensures
            r@ == self@ + o@,
    {
        Fx { raw: self.raw + o.raw }
    }

    pub fn sub(self, o: Fx) -> (r: Fx)
        requires
            fits64(self@ - o@),
        ensures
            r@ == self@ - o@,
    {
        Fx { raw: self.raw - o.raw }
    }

    pub fn neg(self) -> (r: Fx)
        requires
            fits64(-self@),
        ensures
            r@ == -self@,
    {
        Fx { raw: -self.raw }
    }

    /// Fixed-point product, rounded toward minus infinity.
    pub fn mul(self, o: Fx) -> (r: Fx)
        requires
            fits64(fmul(self@, o@)),
        ensures
            r@ == fmul(self@, o@),
    {
        let p = mul_i128(self.raw, o.raw);
        let q = div_euclid_i128(p, 65536);
        proof {
            lemma_div_bound_by_dividend(self@ * o@, 65536);
        }
        Fx { raw: q as i64 }
    }

    /// Fixed-point quotient, with Euclidean rounding.
    pub fn div(self, o: Fx) -> (r: Fx)
        requires
            o@ != 0,
            fits64(fdiv(self@, o@)),
        ensures
            r@ == fdiv(self@, o@),
    {
        let n = mul_i128(self.raw, SCALE);
        let q = div_euclid_i128(n, o.raw as i128);
        Fx { raw: q as i64 }
    }

    /// Fixed-point square root: `sqz(raw * 65536)` is the raw result.
    pub fn fsqrt(self) -> (r: Fx)
        requires
            self@ >= 0,
        ensures
            r@ == sqz(self@ * 65536),
            r@ >= 0,
            r@ * r@ <= self@ * 65536 < (r@ + 1) * (r@ + 1),
    {
        let n = mul_i128(self.raw, SCALE);
        let r = isqrt_u128(n as u128);
        proof {
            lemma_sqz_unique(self@ * 65536, r as int);
            assert(r as int <= 0xffff_ffff_ff) by (nonlinear_arith)
                requires
                    0 <= r as int,
                    (r as int) * (r as int) <= self@ * 65536,
                    self@ * 65536 < 0x8_0000_0000_0000_0000_0000,
            ;
        }
        Fx { raw: r as i64 }
    }

    pub fn abs(self) -> (r: Fx)
        requires
            self@ != -0x8000_0000_0000_0000,
        ensures
            r@ == if self@ >= 0 { self@ } else { -self@ },
    {
        if self.raw >= 0 { self } else { Fx { raw: -self.raw } }
    }

    pub fn min(self, o: Fx) -> (r: Fx)
        ensures
            r@ == if self@ <= o@ { self@ } else { o@ },
    {
        if self.raw <= o.raw { self } else { o }
    }

    pub fn max(self, o: Fx) -> (r: Fx)
        ensures
            r@ == if self@ >= o@ { self@ } else { o@ },
    {
        if self.raw >= o.raw { self } else { o }
    }

    pub fn lt(self, o: Fx) -> (r: bool)
        ensures
            r == (self@ < o@),
    {
        self.raw < o.raw
    }

}


/// Dividing by a divisor of magnitude at least 16 shrinks a bounded value
/// accordingly (with one unit of slack for the rounding).
pub proof fn lemma_div_shrink(a: int, b: int, m: int)
    requires
        b >= 16 || b <= -16,
        -(16 * m) <= a <= 16 * m,
        0 <= m,
    ensures
        -(m + 1) <= a / b <= m + 1,
{
    vstd::arithmetic::div_mod::lemma_fundamental_div_mod(a, b);
    if b > 0 {
        vstd::arithmetic::div_mod::lemma_mod_bound(a, b);
        assert(-(m + 1) <= a / b <= m + 1) by (nonlinear_arith)
            requires
                a == b * (a / b) + a % b,
                0 <= a % b < b,
                -(16 * m) <= a <= 16 * m,
                0 <= m,
                b >= 16,
        ;
    } else {
        assert(0 <= a % b < -b) by (nonlinear_arith)
            requires b < 0,
        ;
        assert(-(m + 1) <= a / b <= m + 1) by (nonlinear_arith)
            requires
                a == b * (a / b) + a % b,
                0 <= a % b < -b,
                -(16 * m) <= a <= 16 * m,
                0 <= m,
                b <= -16,
        ;
    }
}

/// `|a / b| <= |a|` for any divisor.
pub proof fn lemma_div_bound_by_dividend(a: int, b: int)
    requires
        b > 0,
    ensures
        a >= 0 ==> 0 <= a / b <= a,
        a < 0 ==> a <= a / b <= 0,
{
    if a >= 0 {
        vstd::arithmetic::div_mod::lemma_div_is_ordered(0, a, b);
        vstd::arithmetic::div_mod::lemma_div_nonincreasing(a, b);
    } else {
        vstd::arithmetic::div_mod::lemma_div_is_ordered(a, 0, b);
        vstd::arithmetic::div_mod::lemma_fundamental_div_mod(a, b);
        assert(a / b >= a) by (nonlinear_arith)
            requires a < 0 && b > 0 && a == b * (a / b) + a % b && 0 <= a % b < b,
        ;
    }
}

/// Integer square root on `u128`: the unique `r` with
/// `r * r <= n < (r + 1) * (r + 1)`.
pub fn isqrt_u128(n: u128) -> (r: u64)
    ensures
        (r as int) * (r as int) <= n as int,
        (n as int) < ((r as int) + 1) * ((r as int) + 1),
{
    let mut lo: u128 = 0;
    let mut hi: u128 = 0x1_0000_0000_0000_0000;
    // Invariant: lo * lo <= n < hi * hi, and the answer lies in [lo, hi).
    while lo + 1 < hi
        invariant
            0 <= lo < hi <= 0x1_0000_0000_0000_0000,
            lo * lo <= n,
            (n as int) < (hi as int) * (hi as int),
        decreases hi - lo,
    {
        let mid = lo + (hi - lo) / 2;
        proof {
            assert((mid as int) * (mid as int) < 0x1_0000_0000_0000_0000 * 0x1_0000_0000_0000_0000)
                by (nonlinear_arith)
                requires 0 <= (mid as int) < 0x1_0000_0000_0000_0000,
            ;
        }
        if mid * mid <= n {
            lo = mid;
        } else {
            hi = mid;
        }
    }
    lo as u64
}

} // verus!
