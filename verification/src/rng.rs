//! Seeded randomness for terrain generation.
//!
//! Generation takes an explicit seeded generator so that a terrain is
//! reproducible from its seed.  The generator itself comes from the `rand`
//! crate and is opaque here; all that the library relies on is the range of
//! each draw.

use vstd::prelude::*;
use rand::Rng;
use rand::SeedableRng;

verus! {

#[verifier::external_type_specification]
#[verifier::external_body]
pub struct ExStdRng(rand::rngs::StdRng);

/// Relies on rand's `SeedableRng::seed_from_u64`: builds a deterministic
/// generator from a 64-bit seed.  Nothing is promised of the stream it
/// produces.
#[verifier::external_body]
pub fn seed_rng(seed: u64) -> rand::rngs::StdRng {
    rand::rngs::StdRng::seed_from_u64(seed)
}

/// Relies on rand's `Rng::gen_range`: returns a value of the half-open range
/// `lo..hi`, and panics only on an empty range, which the precondition rules
/// out.
#[verifier::external_body]
pub fn rand_range(rng: &mut rand::rngs::StdRng, lo: i64, hi: i64) -> (r: i64)
    requires
        lo < hi,
    ensures
        lo <= r < hi,
{
    rng.gen_range(lo..hi)
}

} // verus!
