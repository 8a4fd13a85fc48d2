use vstd::prelude::*;

verus! {

/// Relies on rand::random: a uniformly distributed random byte. Nothing can
/// be promised of the value; the instruction that consumes it is specified
/// for every byte it might be.
#[verifier::external_body]
pub(crate) fn random_byte() -> u8 {
    rand::random::<u8>()
}

} // verus!
