//! Cursors that an untrusted script may hold but not make.
//!
//! The host hands a script the text of a cursor together with a signature:
//! the message authentication code of the text under a key that only the
//! host of this one request knows. What the script hands back is taken for
//! a cursor only if the signature is the one that the host would have
//! written for that text.

use crate::database::Database;
use crate::hex::{hex, hex_is_injective, to_hex};
use crate::mac::{compute_mac, hmac_sha256};
use crate::random::{random_key, KEY_BYTES};
use vstd::prelude::*;
use vstd::utf8::{encode_utf8, encode_utf8_decode_utf8};

verus! {

/// The text of a cursor and the signature that binds it to a request.
#[derive(Clone, Debug)]
pub struct SealedCursor {
    /// The cursor, written as text.
    pub data: String,
    /// The code of `data` under the request's key, in hexadecimal.
    pub sig: String,
}

/// Why a sealed cursor was turned down.
#[derive(Clone, Copy, PartialEq, Eq, Structural, Debug)]
pub enum CursorError {
    /// The signature is not that of the text under this request's key, or
    /// the text stands for no cursor.
    InvalidCursor,
}

/// Seals and opens cursors under the key of one request.
pub struct CursorAuthenticator {
    key: Vec<u8>,
}

/// Compares two byte strings without stopping at the first difference: for
/// strings of one length every pair of bytes is looked at, whatever the
/// bytes are.
pub fn same_bytes(a: &[u8], b: &[u8]) -> (same: bool)
    ensures
        same == (a@ == b@),
{
    if a.len() != b.len() {
        return false;
    }
    let mut differences: u8 = 0;
    let mut at: usize = 0;
    proof {
        assert(a@.take(0) =~= b@.take(0));
    }
    while at < a.len()
        invariant
            at <= a@.len(),
            a@.len() == b@.len(),
            differences == 0 <==> a@.take(at as int) == b@.take(at as int),
        decreases a@.len() - at,
    {
        let x = a[at];
        let y = b[at];
        let ghost before = differences;
        differences = differences | (x ^ y);
        proof {
            assert((before | (x ^ y)) == 0 <==> (before == 0 && x == y)) by (bit_vector);
            assert(a@.take(at + 1) =~= a@.take(at as int).push(x));
            assert(b@.take(at + 1) =~= b@.take(at as int).push(y));
            if a@.take(at + 1) == b@.take(at + 1) {
                assert(a@.take(at as int) =~= a@.take(at + 1).drop_last());
                assert(b@.take(at as int) =~= b@.take(at + 1).drop_last());
                assert(a@.take(at + 1).last() == x);
            }
        }
        at += 1;
    }
    proof {
        assert(a@.take(at as int) =~= a@);
        assert(b@.take(at as int) =~= b@);
    }
    differences == 0
}

impl CursorAuthenticator {
    /// The key of the request.
    pub closed spec fn key(&self) -> Seq<u8> {
        self.key@
    }

    /// The signature that belongs to `data` under this key.
    pub open spec fn signature(&self, data: Seq<char>) -> Seq<char> {
        hex(hmac_sha256(self.key(), encode_utf8(data)))
    }

    /// What opening the pair of `data` and `sig` gives: the cursor that
    /// `data` stands for if `sig` is the signature of `data`, and
    /// `InvalidCursor` otherwise.
    pub open spec fn opened<D: Database>(&self, data: Seq<char>, sig: Seq<char>) -> Result<
        D::Cursor,
        CursorError,
    > {
        if sig == self.signature(data) {
            match D::decoded(data) {
                Some(cursor) => Ok(cursor),
                None => Err(CursorError::InvalidCursor),
            }
        } else {
            Err(CursorError::InvalidCursor)
        }
    }

    /// An authenticator with a key that was drawn at random for it.
    pub fn new() -> (auth: Self)
        ensures
            auth.key().len() == KEY_BYTES,
    {
        Self { key: random_key() }
    }

    /// An authenticator with the given key.
    pub fn with_key(key: Vec<u8>) -> (auth: Self)
        ensures
            auth.key() == key@,
    {
        Self { key }
    }

    /// Writes the signature of `data`.
    pub fn sign(&self, data: &str) -> (sig: String)
        ensures
            sig@ == self.signature(data@),
    {
        match compute_mac(self.key.as_slice(), data.as_bytes()) {
            Some(code) => to_hex(code.as_slice()),
            None => vstd::pervasive::unreached(),
        }
    }

    /// Whether `sig` is the signature of `data`. The comparison does not
    /// stop at the first character that differs.
    pub fn verify(&self, data: &str, sig: &str) -> (valid: bool)
        ensures
            valid == (sig@ == self.signature(data@)),
    {
        let expected = self.sign(data);
        proof {
            encode_utf8_decode_utf8(expected@);
            encode_utf8_decode_utf8(sig@);
        }
        same_bytes(expected.as_str().as_bytes(), sig.as_bytes())
    }

    /// Seals `cursor`: writes it as text and signs the text.
    pub fn seal<D: Database>(&self, cursor: &D::Cursor) -> (sealed: SealedCursor)
        ensures
            sealed.data@ == D::encoded(*cursor),
            sealed.sig@ == self.signature(D::encoded(*cursor)),
    {
        let data = D::encode(cursor);
        let sig = self.sign(data.as_str());
        SealedCursor { data, sig }
    }

    /// Opens `sealed`: gives the cursor that its text stands for if its
    /// signature is that of the text under this key, and `InvalidCursor`
    /// otherwise.
    pub fn open<D: Database>(&self, sealed: &SealedCursor) -> (cursor: Result<
        D::Cursor,
        CursorError,
    >)
        ensures
            cursor == self.opened::<D>(sealed.data@, sealed.sig@),
    {
        if !self.verify(sealed.data.as_str(), sealed.sig.as_str()) {
            return Err(CursorError::InvalidCursor);
        }
        match D::decode(sealed.data.as_str()) {
            Some(cursor) => Ok(cursor),
            None => Err(CursorError::InvalidCursor),
        }
    }

    /// Opening what was sealed under the same key gives the cursor back.
    pub proof fn open_inverts_seal<D: Database>(&self, cursor: D::Cursor)
        ensures
            self.opened::<D>(D::encoded(cursor), self.signature(D::encoded(cursor))) == Ok::<
                D::Cursor,
                CursorError,
            >(cursor),
    {
        D::text_stands_for_cursor(cursor);
    }

    /// A pair is opened only if its signature is the code of its text under
    /// this key: whoever cannot compute that code has nothing to present.
    pub proof fn opened_only_if_signed<D: Database>(&self, data: Seq<char>, sig: Seq<char>)
        ensures
            self.opened::<D>(data, sig) is Ok ==> sig == hex(
                hmac_sha256(self.key(), encode_utf8(data)),
            ),
            sig != self.signature(data) ==> self.opened::<D>(data, sig) == Err::<
                D::Cursor,
                CursorError,
            >(CursorError::InvalidCursor),
    {
    }

    /// What one request sealed is opened under the key of another request
    /// exactly if both keys give the cursor's text the same code.
    pub proof fn opened_elsewhere_only_on_equal_codes<D: Database>(
        &self,
        other: &CursorAuthenticator,
        cursor: D::Cursor,
    )
        ensures
            other.opened::<D>(D::encoded(cursor), self.signature(D::encoded(cursor))) is Ok
                <==> hmac_sha256(self.key(), encode_utf8(D::encoded(cursor))) == hmac_sha256(
                other.key(),
                encode_utf8(D::encoded(cursor)),
            ),
    {
        let text = encode_utf8(D::encoded(cursor));
        D::text_stands_for_cursor(cursor);
        if self.signature(D::encoded(cursor)) == other.signature(D::encoded(cursor)) {
            hex_is_injective(hmac_sha256(self.key(), text), hmac_sha256(other.key(), text));
        }
    }
}

} // verus!
