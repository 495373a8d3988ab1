//! The randomness capability: a seedable generator passed explicitly into
//! every operation that needs nondeterminism, so tests can substitute a
//! deterministic seed.
//!
//! The generator is `rand`'s `StdRng`. Nothing is assumed about the
//! distribution of the drawn values; the contracts state only the range
//! membership that `rand` documents, and every caller is verified for every
//! value the range admits.

use vstd::prelude::*;
use rand::Rng;

verus! {

#[verifier::external_type_specification]
#[verifier::external_body]
pub struct ExStdRng(rand::rngs::StdRng);

/// Relies on rand's `Rng::gen_range` over `lo..hi`: a value of the half-open
/// range, which panics only when the range is empty.
#[verifier::external_body]
pub(crate) fn rand_i64(rng: &mut rand::rngs::StdRng, lo: i64, hi: i64) -> (r: i64)
    requires
        lo < hi,
    ensures
        lo <= r < hi,
{
    rng.gen_range(lo..hi)
}

/// Relies on rand's `Rng::gen_range` over `lo..=hi`: a value of the closed
/// range, which panics only when the range is empty.
#[verifier::external_body]
pub(crate) fn rand_i64_incl(rng: &mut rand::rngs::StdRng, lo: i64, hi: i64) -> (r: i64)
    requires
        lo <= hi,
    ensures
        lo <= r <= hi,
{
    rng.gen_range(lo..=hi)
}

/// Relies on rand's `Rng::gen_range` over `0..n`: a value below `n`, which
/// panics only when the range is empty.
#[verifier::external_body]
pub(crate) fn rand_u64(rng: &mut rand::rngs::StdRng, n: u64) -> (r: u64)
    requires
        n >= 1,
    ensures
        r < n,
{
    rng.gen_range(0..n)
}

/// Relies on rand's `Rng::gen` with the `Standard` distribution on `bool`:
/// either outcome may come back, and nothing is promised of which.
#[verifier::external_body]
pub(crate) fn rand_bool(rng: &mut rand::rngs::StdRng) -> bool {
    rng.gen::<bool>()
}

} // verus!
