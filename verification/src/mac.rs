//! The message authentication code that binds a cursor to one request:
//! HMAC with SHA-256, computed by the crates `hmac` and `sha2`.

use hmac::Mac;
use vstd::prelude::*;

verus! {

/// The HMAC-SHA-256 code of `message` under `key`, as `hmac` and `sha2`
/// compute it.
pub uninterp spec fn hmac_sha256(key: Seq<u8>, message: Seq<u8>) -> Seq<u8>;

/// Computes the code of `message` under `key`: makes the state with
/// `Mac::new_from_slice`, feeds the message with `Mac::update` and takes the
/// code with `Mac::finalize`.
///
/// Trusted: there is a result, and it is the named [`hmac_sha256`] of key
/// and message. HMAC takes a key of any length: for `Hmac` every path of
/// `new_from_slice` ends in `Ok`, so the `None` that stands for its error
/// never comes back.
#[verifier::external_body]
pub(crate) fn compute_mac(key: &[u8], message: &[u8]) -> (code: Option<Vec<u8>>)
    ensures
        code is Some,
        code matches Some(bytes) ==> bytes@ == hmac_sha256(key@, message@),
{
    match hmac::Hmac::<sha2::Sha256>::new_from_slice(key) {
        Ok(mut state) => {
            state.update(message);
            Some(state.finalize().into_bytes().to_vec())
        },
        Err(_) => None,
    }
}

} // verus!
