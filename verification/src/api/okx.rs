//! OKX: instrument types and listing paths, request signing (base64
//! HMAC-SHA256), order types and time-in-force names.

use vstd::prelude::*;
use crate::digest::{base64_encode, base64_standard, hmac_sha256, hmac_sha256_tag};
use crate::text::{append_str, str_eq, string_from_chars, utf8};

verus! {

/// The OKX `instType` of an instrument kind.
pub open spec fn inst_type_of(kind: Seq<char>) -> Seq<char> {
    if kind == "option"@ {
        "OPTION"@
    } else if kind == "spot"@ {
        "SPOT"@
    } else {
        "SWAP"@
    }
}

/// Maps an instrument kind to the OKX `instType` (futures and perpetuals are `SWAP`).
pub fn kind_to_inst_type(kind: &str) -> (r: &'static str)
    ensures
        r@ == inst_type_of(kind@),
{
    if str_eq(kind, "option") {
        "OPTION"
    } else if str_eq(kind, "spot") {
        "SPOT"
    } else {
        "SWAP"
    }
}

/// The OKX signature: base64 of HMAC-SHA256(secret, timestamp + method +
/// path with query + body).
pub open spec fn okx_signature(
    timestamp: Seq<char>,
    method: Seq<char>,
    path_with_query: Seq<char>,
    body: Seq<char>,
    secret: Seq<char>,
) -> Seq<char> {
    base64_standard(hmac_sha256_tag(utf8(secret), utf8(timestamp + method + path_with_query + body)))
}

/// Signs a request.
pub fn sign(timestamp: &str, method: &str, path_with_query: &str, body: &str, secret: &str) -> (r: String)
    ensures
        r@ == okx_signature(timestamp@, method@, path_with_query@, body@, secret@),
{
    let mut v: Vec<char> = Vec::new();
    append_str(&mut v, timestamp);
    append_str(&mut v, method);
    append_str(&mut v, path_with_query);
    append_str(&mut v, body);
    assert(v@ =~= timestamp@ + method@ + path_with_query@ + body@);
    let msg = string_from_chars(v.as_slice());
    let tag = hmac_sha256(secret.as_bytes(), msg.as_str().as_bytes());
    base64_encode(tag.as_slice())
}

/// The canonical time-in-force of an OKX code.
pub open spec fn tif_name(s: Seq<char>) -> Seq<char> {
    if s == "IOC"@ {
        "immediate_or_cancel"@
    } else if s == "FOK"@ {
        "fill_or_kill"@
    } else {
        "good_til_cancelled"@
    }
}

/// Maps an OKX time-in-force code to the canonical name.
pub fn tif_from_okx(s: &str) -> (r: String)
    ensures
        r@ == tif_name(s@),
{
    if str_eq(s, "IOC") {
        String::from_str("immediate_or_cancel")
    } else if str_eq(s, "FOK") {
        String::from_str("fill_or_kill")
    } else {
        String::from_str("good_til_cancelled")
    }
}


/// The most bytes of a client order id OKX takes; longer ids are cut.
pub const CLIENT_ID_MAX_BYTES: usize = 32;

/// The OKX order type of a request: post-only where asked, else market or
/// (for anything else) limit.
pub fn ord_type(order_type: &str, post_only: Option<bool>) -> (r: &'static str)
    ensures
        r@ == (if post_only == Some(true) {
            "post_only"@
        } else if order_type@ == "market"@ {
            "market"@
        } else {
            "limit"@
        }),
{
    if post_only == Some(true) {
        "post_only"
    } else if str_eq(order_type, "market") {
        "market"
    } else {
        "limit"
    }
}

/// The path of an instrument listing: spot markets by base currency, other
/// kinds by instrument family (`CUR-USD`).
pub open spec fn instruments_path_of(currency: Seq<char>, kind: Seq<char>) -> Seq<char> {
    let inst_type = inst_type_of(kind);
    if inst_type == "SPOT"@ {
        "/api/v5/public/instruments?instType=SPOT&baseCcy="@ + currency
    } else {
        "/api/v5/public/instruments?instType="@ + inst_type + "&instFamily="@ + currency + "-USD"@
    }
}

/// Builds the path of an instrument listing.
pub fn instruments_path(currency: &str, kind: &str) -> (r: String)
    ensures
        r@ == instruments_path_of(currency@, kind@),
{
    let inst_type = kind_to_inst_type(kind);
    let mut v: Vec<char> = Vec::new();
    if str_eq(inst_type, "SPOT") {
        append_str(&mut v, "/api/v5/public/instruments?instType=SPOT&baseCcy=");
        append_str(&mut v, currency);
    } else {
        append_str(&mut v, "/api/v5/public/instruments?instType=");
        append_str(&mut v, inst_type);
        append_str(&mut v, "&instFamily=");
        append_str(&mut v, currency);
        append_str(&mut v, "-USD");
    }
    string_from_chars(v.as_slice())
}

} // verus!
