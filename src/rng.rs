use vstd::prelude::*;
use rand::Rng as _;
use rand::SeedableRng;

verus! {

/// rand's small, fast generator, carried through as an opaque value.
#[verifier::external_type_specification]
#[verifier::external_body]
pub struct ExSmallRng(rand::rngs::SmallRng);

/// The random source that picks spawn points.
pub struct Rng(rand::rngs::SmallRng);

/// Relies on rand's `SeedableRng::seed_from_u64` for `SmallRng`: any seed is accepted.
#[verifier::external_body]
fn small_rng_from_seed(seed: u64) -> (r: rand::rngs::SmallRng) {
    rand::rngs::SmallRng::seed_from_u64(seed)
}

/// Relies on rand's `Rng::gen_range` over `lo..hi`, which panics only on an
/// empty range and otherwise returns a value in `[lo, hi)`.
#[verifier::external_body]
fn small_rng_gen_range(rng: &mut rand::rngs::SmallRng, lo: i64, hi: i64) -> (r: i64)
    requires
        lo < hi,
    ensures
        lo <= r < hi,
{
    rng.gen_range(lo..hi)
}

impl Rng {
    /// A generator whose stream is fixed by `seed`.
    pub fn seeded(seed: u64) -> (r: Rng) {
        Rng(small_rng_from_seed(seed))
    }

    /// A value drawn from `[lo, hi)`; `lo` itself when the range is empty,
    /// in which case nothing is drawn.
    pub fn gen_rand(&mut self, lo: i64, hi: i64) -> (r: i64)
        requires
            lo <= hi,
        ensures
            lo <= r <= hi,
            lo < hi ==> r < hi,
            lo == hi ==> r == lo && *final(self) == *old(self),
    {
        if lo == hi {
            lo
        } else {
            small_rng_gen_range(&mut self.0, lo, hi)
        }
    }
}

} // verus!
