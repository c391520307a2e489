//! secp256k1 keys from `k256`: signing and public keys behind trusted
//! wrappers, and secret keys read from hex text.

use vstd::prelude::*;
use k256::ecdsa::SigningKey;
use crate::digest::{hex_decode, hex_decoded};
use crate::text::{chars_of, string_from_chars, trim_prefix_all, trim_start_matches, utf8};

verus! {

/// Whether `secret` is a valid secp256k1 secret key for
/// `k256::ecdsa::SigningKey::from_slice` (a nonzero scalar below the group
/// order, given in 24 to 32 big-endian bytes).
pub uninterp spec fn secp256k1_secret_ok(secret: Seq<u8>) -> bool;

/// The deterministic (RFC 6979) recoverable ECDSA signature of `prehash`
/// under the secret key `secret`, as `k256` computes it: the 64 bytes `r`
/// then `s`, and the recovery id; `None` where signing fails.
pub uninterp spec fn secp256k1_signature(secret: Seq<u8>, prehash: Seq<u8>) -> Option<(Seq<u8>, u8)>;

/// The uncompressed SEC1 encoding (`0x04`, then `x` and `y`) of the public
/// key of `secret`, as `k256` computes it.
pub uninterp spec fn secp256k1_public_point(secret: Seq<u8>) -> Seq<u8>;

/// Why a signature could not be made.
pub enum SignFailure {
    /// The secret key bytes are not a valid key; the text of the error.
    BadKey(String),
    /// Signing itself failed; the text of the error.
    Signing(String),
}

/// Wraps `SigningKey::from_slice` and then `SigningKey::sign_prehash_recoverable`:
/// a signature is made exactly where the key is valid and signing succeeds,
/// and it is `secp256k1_signature` of the key and prehash; the signature
/// bytes are 64 long and the recovery id is at most 3 (`RecoveryId::MAX`).
/// The error texts are left unsaid.
#[verifier::external_body]
pub(crate) fn secp256k1_sign_prehash(secret: &[u8], prehash: &[u8]) -> (r: Result<(Vec<u8>, u8), SignFailure>)
    ensures
        match r {
            Ok((sig, v)) => secp256k1_secret_ok(secret@) && secp256k1_signature(secret@, prehash@)
                == Some((sig@, v)) && sig@.len() == 64 && v <= 3,
            Err(SignFailure::BadKey(_)) => !secp256k1_secret_ok(secret@),
            Err(SignFailure::Signing(_)) => secp256k1_secret_ok(secret@) && secp256k1_signature(
                secret@,
                prehash@,
            ) is None,
        },
{
    let key = match SigningKey::from_slice(secret) {
        Ok(k) => k,
        Err(e) => return Err(SignFailure::BadKey(e.to_string())),
    };
    match key.sign_prehash_recoverable(prehash) {
        Ok((sig, recid)) => Ok((sig.to_bytes().to_vec(), recid.to_byte())),
        Err(e) => Err(SignFailure::Signing(e.to_string())),
    }
}

/// Wraps `SigningKey::from_slice`, then `verifying_key().to_encoded_point(false)`:
/// the 65-byte uncompressed public point `secp256k1_public_point` of a valid
/// key, or the error's text where the key is not valid.
#[verifier::external_body]
pub(crate) fn secp256k1_public_key(secret: &[u8]) -> (r: Result<Vec<u8>, String>)
    ensures
        match r {
            Ok(p) => secp256k1_secret_ok(secret@) && p@ == secp256k1_public_point(secret@) && p@.len()
                == 65,
            Err(_) => !secp256k1_secret_ok(secret@),
        },
{
    match SigningKey::from_slice(secret) {
        Ok(k) => Ok(k.verifying_key().to_encoded_point(false).as_bytes().to_vec()),
        Err(e) => Err(e.to_string()),
    }
}

/// The bytes that a hex text spells after any leading `0x`s.
pub open spec fn hex_text_bytes(s: Seq<char>) -> Option<Seq<u8>> {
    hex_decoded(utf8(trim_prefix_all(s, "0x"@)))
}

/// Decodes a hex text after stripping any leading `0x`s; the hex error's
/// text where it is not hex.
pub(crate) fn decode_hex_text(s: &str) -> (r: Result<Vec<u8>, String>)
    ensures
        match r {
            Ok(b) => hex_text_bytes(s@) == Some(b@),
            Err(_) => hex_text_bytes(s@) is None,
        },
{
    let a = chars_of(s);
    let p = chars_of("0x");
    let clean = trim_start_matches(a.as_slice(), p.as_slice());
    let clean_s = string_from_chars(clean.as_slice());
    hex_decode(clean_s.as_str().as_bytes())
}

} // verus!
