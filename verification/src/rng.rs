//! The randomness source for the RND opcode.

use vstd::prelude::*;

verus! {

/// Relies on rand::random::<u8>: one byte drawn uniformly from the
/// thread-local generator. Nothing is promised of the value; callers are
/// verified for every byte it could return.
#[verifier::external_body]
pub(crate) fn random_byte() -> u8 {
    rand::random::<u8>()
}

} // verus!
