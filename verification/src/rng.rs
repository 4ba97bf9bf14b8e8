//! The explicit random source behind the map population utilities.

use vstd::prelude::*;

verus! {

/// Relies on rand::random: one random byte; nothing is promised of the value,
/// so callers must hold for every outcome.
#[verifier::external_body]
pub(crate) fn random_u8() -> u8 {
    rand::random()
}

} // verus!
