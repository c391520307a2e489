//! MEXC spot and futures: request signing, market classification, the order
//! vocabulary and the listing filters.

use vstd::prelude::*;
use crate::clock::{millis_reading, unix_millis};
use crate::decimal::{decimal, u64_decimal};
use crate::digest::{hmac_hex, hmac_sha256_hex};
use crate::text::{
    append_chars, append_str, chars_contain, chars_of, contains_char, contains_text, lemma_split_char_nonempty,
    split_char, split_chars, str_eq, string_from_chars, to_uppercase, unicode_uppercase,
};

verus! {

/// Milliseconds since the Unix epoch (0 before it).
pub fn now_ms() -> (r: u64)
    ensures
        exists|d: Option<u128>| r == millis_reading(d),
{
    unix_millis()
}

/// The request signature: lowercase hex of HMAC-SHA256(secret, msg).
pub fn sign(msg: &str, secret: &str) -> (r: String)
    ensures
        r@ == hmac_hex(msg@, secret@),
{
    hmac_sha256_hex(msg, secret)
}

/// The query that is signed at time `ts`: the caller's parameters (if any),
/// then `timestamp`.
pub open spec fn query_base(params: Seq<char>, ts: u64) -> Seq<char> {
    let tail = "timestamp="@ + decimal(ts as nat);
    if params.len() == 0 {
        tail
    } else {
        params + "&"@ + tail
    }
}

/// The signed query: the base, then `&signature=` and its signature.
pub open spec fn signed_query_text(params: Seq<char>, secret: Seq<char>, ts: u64) -> Seq<char> {
    query_base(params, ts) + "&signature="@ + hmac_hex(query_base(params, ts), secret)
}

/// Appends timestamp and signature to a query string, as of time `ts`.
pub fn signed_query_at(params: &str, secret: &str, ts: u64) -> (r: String)
    ensures
        r@ == signed_query_text(params@, secret@, ts),
{
    let mut v: Vec<char> = Vec::new();
    if !params.is_empty() {
        append_str(&mut v, params);
        append_str(&mut v, "&");
    }
    append_str(&mut v, "timestamp=");
    let t = u64_decimal(ts);
    append_chars(&mut v, t.as_slice());
    assert(v@ =~= query_base(params@, ts));
    let text = string_from_chars(v.as_slice());
    let sig = sign(text.as_str(), secret);
    append_str(&mut v, "&signature=");
    append_str(&mut v, sig.as_str());
    assert(v@ =~= signed_query_text(params@, secret@, ts));
    string_from_chars(v.as_slice())
}

/// Appends timestamp and signature to a query string at the current time.
pub fn signed_query(params: &str, secret: &str) -> (r: String)
    ensures
        exists|ts: u64| r@ == signed_query_text(params@, secret@, ts),
{
    let ts = now_ms();
    signed_query_at(params, secret, ts)
}

/// Whether an instrument is a futures contract (futures symbols contain an
/// underscore, as in `BTC_USDT`).
pub fn is_futures(instrument: &str) -> (r: bool)
    ensures
        r == instrument@.contains('_'),
{
    contains_char(instrument, '_')
}


/// The most bytes of a client order id MEXC spot takes; longer ids are cut.
pub const CLIENT_ID_MAX_BYTES: usize = 36;

/// The spot order type of a request: `MARKET` for `market`, else a
/// maker-only limit order (`LIMIT_MAKER`).
pub fn spot_order_type(order_type: &str) -> (r: &'static str)
    ensures
        r@ == (if order_type@ == "market"@ { "MARKET"@ } else { "LIMIT_MAKER"@ }),
{
    if str_eq(order_type, "market") { "MARKET" } else { "LIMIT_MAKER" }
}

/// The futures side code of a request: 1 (open long or close short) for
/// `buy`, else 2.
pub fn futures_side(side: &str) -> (r: u8)
    ensures
        r == (if side@ == "buy"@ { 1u8 } else { 2u8 }),
{
    if str_eq(side, "buy") { 1 } else { 2 }
}

/// The futures order type code of a request: 5 (market) for `market`,
/// else 1 (limit).
pub fn futures_order_type(order_type: &str) -> (r: u8)
    ensures
        r == (if order_type@ == "market"@ { 5u8 } else { 1u8 }),
{
    if str_eq(order_type, "market") { 5 } else { 1 }
}

/// The canonical state of a spot order from its status: `NEW` and
/// `PARTIALLY_FILLED` are open, `FILLED` filled, `CANCELED` cancelled,
/// `REJECTED` rejected; any other status is kept as it is.
pub open spec fn spot_order_state_of(status: Seq<char>) -> Seq<char> {
    if status == "NEW"@ || status == "PARTIALLY_FILLED"@ {
        "open"@
    } else if status == "FILLED"@ {
        "filled"@
    } else if status == "CANCELED"@ {
        "cancelled"@
    } else if status == "REJECTED"@ {
        "rejected"@
    } else {
        status
    }
}

/// Reads the state of a spot order.
pub fn spot_order_state(status: &str) -> (r: String)
    ensures
        r@ == spot_order_state_of(status@),
{
    if str_eq(status, "NEW") || str_eq(status, "PARTIALLY_FILLED") {
        String::from_str("open")
    } else if str_eq(status, "FILLED") {
        String::from_str("filled")
    } else if str_eq(status, "CANCELED") {
        String::from_str("cancelled")
    } else if str_eq(status, "REJECTED") {
        String::from_str("rejected")
    } else {
        String::from_str(status)
    }
}

/// The canonical state of a futures order from its state code: 1 to 3
/// (submitting, submitted, partly filled) are open, 4 filled, 5 cancelled,
/// any other (also none) unknown.
pub fn futures_order_state(code: Option<i64>) -> (r: &'static str)
    ensures
        r@ == (match code {
            Some(c) => if 1 <= c <= 3 {
                "open"@
            } else if c == 4 {
                "filled"@
            } else if c == 5 {
                "cancelled"@
            } else {
                "unknown"@
            },
            None => "unknown"@,
        }),
{
    match code {
        Some(c) => if 1 <= c && c <= 3 {
            "open"
        } else if c == 4 {
            "filled"
        } else if c == 5 {
            "cancelled"
        } else {
            "unknown"
        },
        None => "unknown",
    }
}

/// The direction of a futures order from its side code: `sell` for 2,
/// else `buy`.
pub fn futures_direction(side: Option<i64>) -> (r: &'static str)
    ensures
        r@ == (if side == Some(2i64) { "sell"@ } else { "buy"@ }),
{
    if side == Some(2i64) { "sell" } else { "buy" }
}

/// Whether a listing of instrument kind `kind` takes spot markets: for no
/// kind and for `spot`.
pub fn lists_spot(kind: &str) -> (r: bool)
    ensures
        r == (kind@.len() == 0 || kind@ == "spot"@),
{
    kind.is_empty() || str_eq(kind, "spot")
}

/// Whether a listing of instrument kind `kind` takes perpetual futures: for
/// no kind and for `future`, `futures` and `swap`.
pub fn lists_futures(kind: &str) -> (r: bool)
    ensures
        r == (kind@.len() == 0 || kind@ == "future"@ || kind@ == "futures"@ || kind@ == "swap"@),
{
    kind.is_empty() || str_eq(kind, "future") || str_eq(kind, "futures") || str_eq(kind, "swap")
}

/// Whether a market's base asset is one asked for: any where no currency is
/// asked, else one whose uppercased name contains the uppercased currency.
pub open spec fn base_matches_of(base_asset: Seq<char>, currency: Seq<char>) -> bool {
    currency.len() == 0 || contains_text(unicode_uppercase(base_asset), unicode_uppercase(currency))
}

/// Tells whether a market's base asset is one asked for.
pub fn base_matches(base_asset: &str, currency: &str) -> (r: bool)
    ensures
        r == base_matches_of(base_asset@, currency@),
{
    if currency.is_empty() {
        return true;
    }
    let b = to_uppercase(base_asset);
    let c = to_uppercase(currency);
    let bc = chars_of(b.as_str());
    let cc = chars_of(c.as_str());
    chars_contain(bc.as_slice(), cc.as_slice())
}

/// Whether a spot market is trading: status `1` or `ENABLED`.
pub fn spot_enabled(status: &str) -> (r: bool)
    ensures
        r == (status@ == "1"@ || status@ == "ENABLED"@),
{
    str_eq(status, "1") || str_eq(status, "ENABLED")
}

/// The base and quote of a futures symbol (`BTC_USDT`): the parts before
/// and after the first `_`, the quote `USDT` where there is no `_`.
pub open spec fn futures_pair_of(symbol: Seq<char>) -> (Seq<char>, Seq<char>) {
    let parts = split_char(symbol, '_');
    (parts[0], if parts.len() >= 2 { parts[1] } else { "USDT"@ })
}

/// Splits a futures symbol into base and quote.
pub fn futures_pair(symbol: &str) -> (r: (String, String))
    ensures
        (r.0@, r.1@) == futures_pair_of(symbol@),
{
    let c = chars_of(symbol);
    let parts = split_chars(c.as_slice(), '_');
    proof {
        lemma_split_char_nonempty(symbol@, '_');
        assert(parts@.map_values(|p: Vec<char>| p@).len() == parts@.len());
        assert(parts@.map_values(|p: Vec<char>| p@)[0] == parts@[0]@);
    }
    let base = string_from_chars(parts[0].as_slice());
    let quote = if parts.len() >= 2 {
        proof {
            assert(parts@.map_values(|p: Vec<char>| p@)[1] == parts@[1]@);
        }
        string_from_chars(parts[1].as_slice())
    } else {
        String::from_str("USDT")
    };
    (base, quote)
}

} // verus!
