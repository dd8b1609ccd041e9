use rand::Rng;
use vstd::prelude::*;

verus! {

/// The random number generator of the `fastrand` crate.
#[verifier::external_type_specification]
#[verifier::external_body]
pub struct ExFastRng(fastrand::Rng);

/// Calls `fastrand::Rng::default`, a generator seeded from the system's
/// random source. Nothing is stated of its state.
#[verifier::external_body]
pub(crate) fn fast_rng() -> fastrand::Rng {
    fastrand::Rng::default()
}

/// Calls `fastrand::Rng::usize` on the range `low..high`, which panics when the
/// range is empty. Stated: the result lies in the range; which value comes out
/// depends on the generator's state and is not stated.
#[verifier::external_body]
pub(crate) fn fast_usize(rng: &mut fastrand::Rng, low: usize, high: usize) -> (r: usize)
    requires
        low < high,
    ensures
        low <= r < high,
{
    rng.usize(low..high)
}

/// Calls `fastrand::Rng::i32` on the range `low..high`, which panics when the
/// range is empty. Stated: the result lies in the range; which value comes out
/// depends on the generator's state and is not stated.
#[verifier::external_body]
pub(crate) fn fast_i32(rng: &mut fastrand::Rng, low: i32, high: i32) -> (r: i32)
    requires
        low < high,
    ensures
        low <= r < high,
{
    rng.i32(low..high)
}


/// The thread-local random number generator of the `rand` crate.
#[verifier::external_type_specification]
#[verifier::external_body]
pub struct ExThreadRng(rand::rngs::ThreadRng);

/// Calls `rand::rng`, a handle to the thread's generator, seeded by the system.
/// Nothing is stated of its state.
#[verifier::external_body]
pub(crate) fn thread_rng() -> rand::rngs::ThreadRng {
    rand::rng()
}

/// Calls `Rng::random_range` on the range `low..high`, which panics when the
/// range is empty. Stated: the result lies in the range; which value comes out
/// depends on the generator's state and is not stated.
#[verifier::external_body]
pub(crate) fn rand_i32(rng: &mut rand::rngs::ThreadRng, low: i32, high: i32) -> (r: i32)
    requires
        low < high,
    ensures
        low <= r < high,
{
    rng.random_range(low..high)
}

/// Calls `Rng::random_ratio`, true with probability `numerator / denominator`;
/// it panics when the denominator is 0 or smaller than the numerator. Stated,
/// as its documentation promises: a zero numerator gives `false`, a numerator
/// equal to the denominator gives `true`. Otherwise the outcome is left open.
#[verifier::external_body]
pub(crate) fn rand_ratio(rng: &mut rand::rngs::ThreadRng, numerator: u32, denominator: u32) -> (r: bool)
    requires
        0 < denominator,
        numerator <= denominator,
    ensures
        numerator == 0 ==> !r,
        numerator == denominator ==> r,
{
    rng.random_ratio(numerator, denominator)
}

} // verus!
