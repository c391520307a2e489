//! Hash, MAC and byte-encoding primitives from outside crates, each behind a
//! small trusted wrapper, plus the verified hex text of bytes.
//!
//! A digest is a function of its input alone, so each is given a name: the
//! wrapper promises that its result is that name applied to its input.

use vstd::prelude::*;
use sha2::Digest;
use hmac::Mac;
use base64::Engine;

verus! {

/// SHA-256 of `data` (FIPS 180-4), as computed by the `sha2` crate.
pub uninterp spec fn sha256_digest(data: Seq<u8>) -> Seq<u8>;

/// Wraps `<sha2::Sha256 as Digest>::digest`: the result is `sha256_digest`
/// of the input, and, as for every SHA-256 output, 32 bytes long.
#[verifier::external_body]
pub(crate) fn sha256(data: &[u8]) -> (r: Vec<u8>)
    ensures
        r@ == sha256_digest(data@),
        r@.len() == 32,
{
    sha2::Sha256::digest(data).to_vec()
}

/// HMAC-SHA256 (RFC 2104) of `msg` under `key`, as computed by the `hmac`
/// crate over `sha2::Sha256`.
pub uninterp spec fn hmac_sha256_tag(key: Seq<u8>, msg: Seq<u8>) -> Seq<u8>;

/// Wraps `Hmac::<Sha256>::new_from_slice`, `update` and `finalize`: the tag
/// is `hmac_sha256_tag` of key and message, 32 bytes long. HMAC accepts a
/// key of any length (`new_from_slice` of the block-level HMAC core always
/// returns `Ok`).
#[verifier::external_body]
pub(crate) fn hmac_sha256(key: &[u8], msg: &[u8]) -> (r: Vec<u8>)
    ensures
        r@ == hmac_sha256_tag(key@, msg@),
        r@.len() == 32,
{
    let mut mac = hmac::Hmac::<sha2::Sha256>::new_from_slice(key).unwrap();
    mac.update(msg);
    mac.finalize().into_bytes().to_vec()
}

/// Keccak-256 (the Ethereum hash, original Keccak padding) of `data`, as
/// computed by the `sha3` crate.
pub uninterp spec fn keccak256_digest(data: Seq<u8>) -> Seq<u8>;

/// Wraps `<sha3::Keccak256 as Digest>::digest`: the result is
/// `keccak256_digest` of the input, 32 bytes long.
#[verifier::external_body]
pub(crate) fn keccak256(data: &[u8]) -> (r: Vec<u8>)
    ensures
        r@ == keccak256_digest(data@),
        r@.len() == 32,
{
    sha3::Keccak256::digest(data).to_vec()
}

/// Wraps `hex::encode`: lowercase hex, two digits per byte, high nibble first.
#[verifier::external_body]
pub(crate) fn hex_encode(data: &[u8]) -> (r: String)
    ensures
        r@ == hex_lower(data@),
{
    hex::encode(data)
}

/// The value of one hex digit byte, either case.
pub open spec fn hex_nibble(c: u8) -> Option<int> {
    if 48 <= c <= 57 {
        Some(c - 48)
    } else if 65 <= c <= 70 {
        Some(c - 55)
    } else if 97 <= c <= 102 {
        Some(c - 87)
    } else {
        None
    }
}

/// What `hex::decode` gives: `None` for an odd length or a non-hex byte,
/// else the bytes that each pair of digits spells, high nibble first.
pub open spec fn hex_decoded(s: Seq<u8>) -> Option<Seq<u8>> {
    if s.len() % 2 == 0 && forall|i: int| 0 <= i < s.len() ==> (#[trigger] hex_nibble(s[i])) is Some {
        Some(
            Seq::new(
                s.len() / 2,
                |i: int| (hex_nibble(s[2 * i]).unwrap() * 16 + hex_nibble(s[2 * i + 1]).unwrap()) as u8,
            ),
        )
    } else {
        None
    }
}

/// Wraps `hex::decode`: `Ok` with the bytes that `hex_decoded` gives, or
/// `Err` with the text of `hex::FromHexError` where `hex_decoded` gives
/// none. Which text (odd length or the first bad character) is left unsaid.
#[verifier::external_body]
pub(crate) fn hex_decode(data: &[u8]) -> (r: Result<Vec<u8>, String>)
    ensures
        match r {
            Ok(v) => hex_decoded(data@) == Some(v@),
            Err(_) => hex_decoded(data@) is None,
        },
{
    match hex::decode(data) {
        Ok(v) => Ok(v),
        Err(e) => Err(e.to_string()),
    }
}

/// The character of the standard base64 alphabet for `v` (0 to 63).
pub open spec fn base64_char(v: int) -> char {
    if v < 26 {
        (65 + v) as char
    } else if v < 52 {
        (97 + v - 26) as char
    } else if v < 62 {
        (48 + v - 52) as char
    } else if v == 62 {
        '+'
    } else {
        '/'
    }
}

/// Standard base64 (RFC 4648, alphabet `A-Z a-z 0-9 + /`) with `=` padding.
pub open spec fn base64_standard(b: Seq<u8>) -> Seq<char>
    decreases b.len(),
{
    if b.len() == 0 {
        Seq::empty()
    } else if b.len() == 1 {
        seq![base64_char(b[0] as int / 4), base64_char((b[0] % 4) * 16), '=', '=']
    } else if b.len() == 2 {
        seq![
            base64_char(b[0] as int / 4),
            base64_char((b[0] % 4) * 16 + b[1] / 16),
            base64_char((b[1] % 16) * 4),
            '=',
        ]
    } else {
        seq![
            base64_char(b[0] as int / 4),
            base64_char((b[0] % 4) * 16 + b[1] / 16),
            base64_char((b[1] % 16) * 4 + b[2] / 64),
            base64_char(b[2] as int % 64),
        ] + base64_standard(b.subrange(3, b.len() as int))
    }
}

/// Wraps `base64::engine::general_purpose::STANDARD.encode`: standard
/// alphabet with padding. The bound on the input keeps the size computation
/// inside the crate (which panics on `usize` overflow) in range.
#[verifier::external_body]
pub(crate) fn base64_encode(data: &[u8]) -> (r: String)
    requires
        data@.len() <= 0x1000_0000,
    ensures
        r@ == base64_standard(data@),
{
    base64::engine::general_purpose::STANDARD.encode(data)
}

/// Lowercase hex of the HMAC-SHA256 of `msg` under `secret`, both taken as
/// UTF-8 bytes.
pub open spec fn hmac_hex(msg: Seq<char>, secret: Seq<char>) -> Seq<char> {
    hex_lower(hmac_sha256_tag(vstd::utf8::encode_utf8(secret), vstd::utf8::encode_utf8(msg)))
}

/// Lowercase hex of the HMAC-SHA256 of `msg` under `secret`.
pub fn hmac_sha256_hex(msg: &str, secret: &str) -> (r: String)
    ensures
        r@ == hmac_hex(msg@, secret@),
{
    let tag = hmac_sha256(secret.as_bytes(), msg.as_bytes());
    hex_encode(tag.as_slice())
}

/// Hex text is ASCII.
pub proof fn lemma_hex_lower_ascii(bytes: Seq<u8>)
    ensures
        crate::text::all_ascii(hex_lower(bytes)),
    decreases bytes.len(),
{
    if bytes.len() > 0 {
        lemma_hex_lower_ascii(bytes.drop_last());
        let a = hex_lower(bytes.drop_last());
        let b = byte_hex(bytes.last());
        assert(hex_lower(bytes) == a + b);
        assert forall|i: int| 0 <= i < (a + b).len() implies ((#[trigger] (a + b)[i]) as u32) < 128 by {
            if i >= a.len() {
                assert((a + b)[i] == b[i - a.len()]);
            }
        }
    }
}

/// The lowercase hex digit for `d` (0 to 15).
pub open spec fn hex_digit_lower(d: int) -> char {
    if d < 10 {
        (48 + d) as char
    } else {
        (87 + d) as char
    }
}

/// Two lowercase hex digits for one byte, high nibble first.
pub open spec fn byte_hex(b: u8) -> Seq<char> {
    seq![hex_digit_lower(b as int / 16), hex_digit_lower(b as int % 16)]
}

/// The lowercase hex text of a byte sequence.
pub open spec fn hex_lower(bytes: Seq<u8>) -> Seq<char>
    decreases bytes.len(),
{
    if bytes.len() == 0 {
        Seq::empty()
    } else {
        hex_lower(bytes.drop_last()) + byte_hex(bytes.last())
    }
}

fn hex_digit_char(d: u8) -> (c: char)
    requires
        d < 16,
    ensures
        c == hex_digit_lower(d as int),
{
    if d < 10 {
        ((48 + d) as u8) as char
    } else {
        ((87 + d) as u8) as char
    }
}

/// Appends the two lowercase hex digits of `b`.
pub fn push_byte_hex(out: &mut Vec<char>, b: u8)
    ensures
        final(out)@ == old(out)@ + byte_hex(b),
{
    out.push(hex_digit_char(b / 16));
    out.push(hex_digit_char(b % 16));
    assert(final(out)@ =~= old(out)@ + byte_hex(b));
}

} // verus!
