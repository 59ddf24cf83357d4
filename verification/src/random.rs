//! Randomness from the `rand` crate.

use vstd::prelude::*;

verus! {

/// Calls `rand::random::<u64>()`: a value drawn from the thread-local
/// generator. Nothing is promised about which value comes back.
#[verifier::external_body]
pub(crate) fn random_u64() -> (r: u64) {
    rand::random::<u64>()
}

} // verus!
