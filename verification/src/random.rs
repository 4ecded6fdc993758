//! Random values, drawn with the crate `rand`.

use vstd::prelude::*;

verus! {

/// The number of bytes in a request key.
pub const KEY_BYTES: usize = 32;

/// Draws a request key with `rand::random`.
///
/// Trusted: the result has `KEY_BYTES` bytes. Nothing is said of which
/// bytes they are, and two calls may differ. The generator behind `random`
/// is seeded from the operating system and gives up where that fails.
#[verifier::external_body]
pub(crate) fn random_key() -> (key: Vec<u8>)
    ensures
        key@.len() == KEY_BYTES,
{
    rand::random::<[u8; 32]>().to_vec()
}

/// Draws a number with `rand::random`.
///
/// Trusted: nothing is said of the number, and two calls may differ.
#[verifier::external_body]
pub(crate) fn random_index() -> u32 {
    rand::random::<u32>()
}

} // verus!
