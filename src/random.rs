use vstd::prelude::*;

verus! {

/// Relies on `rand::random::<u8>` (rand 0.8: `thread_rng().gen()`) for a
/// byte from the thread-local generator. Nothing is promised of its value.
#[verifier::external_body]
pub(crate) fn random_byte() -> (r: u8) {
    rand::random::<u8>()
}

} // verus!
