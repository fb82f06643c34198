//! The pseudorandom generator that drives swap attempts.

use vstd::prelude::*;

verus! {

/// frand's generator, carried as an opaque value.
#[verifier::external_type_specification]
#[verifier::external_body]
pub struct ExRand(frand::Rand);

/// Relies on frand's `Rand::with_seed`: a generator from a seed; nothing is
/// stated of its state.
pub assume_specification[ frand::Rand::with_seed ](seed: u64) -> frand::Rand;

/// Relies on frand's `Rand::gen_range` for `i64`: with `start < end` it
/// returns `start` plus a remainder modulo `end - start`, so a value in
/// `[start, end)`.
#[verifier::external_body]
pub(crate) fn gen_range_i64(rng: &mut frand::Rand, start: i64, end: i64) -> (r: i64)
    requires
        start < end,
    ensures
        start <= r < end,
{
    rng.gen_range(start..end)
}

} // verus!
