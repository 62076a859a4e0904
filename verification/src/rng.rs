//! The pseudorandom source.  Each rendering worker owns one `Rng`, seeded
//! deterministically, so runs are reproducible and no global mutable state is
//! shared between threads.  Only the raw integer draw is trusted; every
//! distribution built on top of it (vectors in spheres and discs, unit
//! vectors, scatter directions) is verified code in `utils`.

use vstd::prelude::*;

verus! {

#[verifier::external_type_specification]
#[verifier::external_body]
pub struct ExStdRng(rand::rngs::StdRng);

/// A deterministic pseudorandom stream.
pub struct Rng {
    inner: rand::rngs::StdRng,
}

impl Rng {
    /// Relies on rand's `SeedableRng::seed_from_u64` for `StdRng`: builds a
    /// generator whose stream depends only on the seed.
    #[verifier::external_body]
    pub fn from_seed(seed: u64) -> Rng {
        Rng { inner: rand::SeedableRng::seed_from_u64(seed) }
    }

    /// Relies on rand's `Rng::gen_range` over `lo..hi`, which returns a value
    /// uniformly distributed in `[lo, hi)` and panics only on an empty range.
    #[verifier::external_body]
    pub fn gen_i64(&mut self, lo: i64, hi: i64) -> (r: i64)
        requires
            lo < hi,
        ensures
            lo <= r < hi,
    {
        rand::Rng::gen_range(&mut self.inner, lo..hi)
    }
}

} // verus!
