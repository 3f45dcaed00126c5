//! The source of random bytes.
use rand::Rng;
use vstd::prelude::*;

verus! {

/// `rand::thread_rng().gen::<u8>()`: a byte from the thread-local generator.
/// Nothing is claimed of its value.
#[verifier::external_body]
pub(crate) fn random_byte() -> u8 {
    rand::thread_rng().gen::<u8>()
}

} // verus!
