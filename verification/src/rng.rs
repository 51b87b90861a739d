use vstd::prelude::*;

verus! {

/// The thread-local random generator of the `rand` crate, used to pick the
/// redundancy sample of a dissemination round. Opaque: nothing is assumed
/// about the values it produces.
#[verifier::external_type_specification]
#[verifier::external_body]
pub struct ExThreadRng(rand::rngs::ThreadRng);

/// Relies on rand::rng: hands out a handle to the thread-local generator.
/// It can panic, but only when the system's entropy source fails at the
/// generator's first seeding — nothing an input could avoid.
#[verifier::external_body]
pub(crate) fn fresh_rng() -> rand::rngs::ThreadRng {
    rand::rng()
}

/// Relies on rand::RngExt::random_range over `0..bound`: the result lies in
/// that range, which the precondition keeps non-empty; which value comes
/// back is left open.
#[verifier::external_body]
pub(crate) fn random_below(rng: &mut rand::rngs::ThreadRng, bound: usize) -> (r: usize)
    requires
        bound > 0,
    ensures
        r < bound,
{
    rand::RngExt::random_range(rng, 0..bound)
}

} // verus!
