//! The source of random bytes.

use rand::Rng;
use vstd::prelude::*;

verus! {

/// Draws a byte with `rand::Rng::gen_range` over `0..=255` from the
/// generator that `rand::thread_rng` keeps for the calling thread. Every
/// byte can come back and two calls need not agree, so nothing is claimed
/// of the result. The generator is seeded from the operating system the
/// first time a thread uses it, and panics then if the system has no
/// randomness to give.
#[verifier::external_body]
pub(crate) fn random_byte() -> (byte: u8) {
    rand::thread_rng().gen_range(0..=255)
}

} // verus!
