use rand::rngs::ThreadRng;
use rand::Rng;
use vstd::prelude::*;

verus! {

#[verifier::external_type_specification]
#[verifier::external_body]
pub struct ExThreadRng(ThreadRng);

/// Relies on rand's `Rng::gen_range` over `low..high` for `usize`: a value in
/// the half-open range, which must not be empty.
#[verifier::external_body]
pub(crate) fn uniform_index(rng: &mut ThreadRng, low: usize, high: usize) -> (r: usize)
    requires
        low < high,
    ensures
        low <= r < high,
{
    rng.gen_range(low..high)
}

/// Relies on rand's `Rng::gen_range` over `low..high` for `i64`: a value in
/// the half-open range, which must not be empty.
#[verifier::external_body]
pub(crate) fn uniform_coordinate(rng: &mut ThreadRng, low: i64, high: i64) -> (r: i64)
    requires
        low < high,
    ensures
        low <= r < high,
{
    rng.gen_range(low..high)
}

/// Relies on rand's `Rng::gen` for `u32`: any value of the type, drawn
/// uniformly.
#[verifier::external_body]
pub(crate) fn uniform_word(rng: &mut ThreadRng) -> (r: u32) {
    rng.gen::<u32>()
}

} // verus!
