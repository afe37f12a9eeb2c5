//! The source of random bytes.

use vstd::prelude::*;

verus! {

/// A byte from `rand::random::<u8>()`, which draws it from the generator of
/// the calling thread. Nothing is claimed of the byte: two calls may give
/// different bytes, and each of the 256 values may come. `rand` panics where
/// the system cannot seed or reseed the generator; no argument decides that.
#[verifier::external_body]
pub(crate) fn random_byte() -> (sample: u8) {
    rand::random::<u8>()
}

} // verus!
