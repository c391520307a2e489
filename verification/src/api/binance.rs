//! Binance USDT-M futures: request signing, the order vocabulary (sides,
//! types, time in force, order states) and the symbol listing filter.
//!
//! A signed request carries `timestamp`, `recvWindow=5000` and, last, a
//! `signature` that is the lowercase hex HMAC-SHA256 of everything before it.

use vstd::prelude::*;
use crate::clock::{millis_reading, unix_millis};
use crate::decimal::{decimal, u64_decimal};
use crate::digest::{hmac_hex, hmac_sha256_hex};
use crate::text::{append_chars, append_str, chars_of, str_eq, string_from_chars};

verus! {

/// The REST base URL.
pub fn base(testnet: bool) -> (r: &'static str)
    ensures
        r@ == if testnet { "https://testnet.binancefuture.com"@ } else { "https://fapi.binance.com"@ },
{
    if testnet { "https://testnet.binancefuture.com" } else { "https://fapi.binance.com" }
}

/// Milliseconds since the Unix epoch (0 before it).
pub fn now_ms() -> (r: u64)
    ensures
        exists|d: Option<u128>| r == millis_reading(d),
{
    unix_millis()
}

/// The request signature: lowercase hex of HMAC-SHA256(secret, query).
pub fn sign(query: &str, secret: &str) -> (r: String)
    ensures
        r@ == hmac_hex(query@, secret@),
{
    hmac_sha256_hex(query, secret)
}

/// `text` followed by `&signature=` and the signature of `text`.
pub open spec fn with_signature(text: Seq<char>, secret: Seq<char>) -> Seq<char> {
    text + "&signature="@ + hmac_hex(text, secret)
}

/// The query that is signed at time `ts`: the caller's parameters (if any),
/// then `timestamp` and `recvWindow`.
pub open spec fn query_base(params: Seq<char>, ts: u64) -> Seq<char> {
    let tail = "timestamp="@ + decimal(ts as nat) + "&recvWindow=5000"@;
    if params.len() == 0 {
        tail
    } else {
        params + "&"@ + tail
    }
}

fn append_signature(v: &mut Vec<char>, secret: &str)
    ensures
        final(v)@ == with_signature(old(v)@, secret@),
{
    let text = string_from_chars(v.as_slice());
    let sig = sign(text.as_str(), secret);
    append_str(v, "&signature=");
    append_str(v, sig.as_str());
    assert(final(v)@ =~= with_signature(old(v)@, secret@));
}

/// Appends timestamp, recvWindow and signature to a query string, as of
/// time `ts`.
pub fn signed_query_at(params: &str, secret: &str, ts: u64) -> (r: String)
    ensures
        r@ == with_signature(query_base(params@, ts), secret@),
{
    let mut v: Vec<char> = Vec::new();
    if !params.is_empty() {
        append_str(&mut v, params);
        append_str(&mut v, "&");
    }
    append_str(&mut v, "timestamp=");
    let t = u64_decimal(ts);
    append_chars(&mut v, t.as_slice());
    append_str(&mut v, "&recvWindow=5000");
    assert(v@ =~= query_base(params@, ts));
    append_signature(&mut v, secret);
    string_from_chars(v.as_slice())
}

/// Appends timestamp, recvWindow and signature to a query string, at the
/// current time.
pub fn signed_query(params: &str, secret: &str) -> (r: String)
    ensures
        exists|ts: u64| r@ == with_signature(query_base(params@, ts), secret@),
{
    let ts = now_ms();
    signed_query_at(params, secret, ts)
}

/// One character as the minimal percent-encoding writes it.
pub open spec fn url_escape_char(c: char) -> Seq<char> {
    if c == '%' {
        "%25"@
    } else if c == '&' {
        "%26"@
    } else if c == '+' {
        "%2B"@
    } else if c == ' ' {
        "%20"@
    } else {
        seq![c]
    }
}

/// Minimal percent-encoding: `%`, `&`, `+` and space are escaped.
pub open spec fn url_escaped(s: Seq<char>) -> Seq<char>
    decreases s.len(),
{
    if s.len() == 0 {
        Seq::empty()
    } else {
        url_escaped(s.drop_last()) + url_escape_char(s.last())
    }
}

/// Minimal percent-encoding for the characters that occur in order
/// parameters (the same as replacing `%`, then `&`, `+` and space).
pub fn urlencoding_simple(s: &str) -> (r: String)
    ensures
        r@ == url_escaped(s@),
{
    let c = chars_of(s);
    let mut v: Vec<char> = Vec::new();
    let mut i: usize = 0;
    while i < c.len()
        invariant
            i <= c.len(),
            v@ == url_escaped(c@.subrange(0, i as int)),
        decreases c.len() - i,
    {
        let ch = c[i];
        if ch == '%' {
            append_str(&mut v, "%25");
        } else if ch == '&' {
            append_str(&mut v, "%26");
        } else if ch == '+' {
            append_str(&mut v, "%2B");
        } else if ch == ' ' {
            append_str(&mut v, "%20");
        } else {
            v.push(ch);
        }
        assert(c@.subrange(0, i + 1).drop_last() =~= c@.subrange(0, i as int));
        i = i + 1;
        assert(v@ =~= url_escaped(c@.subrange(0, i as int)));
    }
    assert(c@.subrange(0, c.len() as int) =~= c@);
    string_from_chars(v.as_slice())
}

/// Form text of key/value pairs: `k=escaped(v)` joined by `&`.
pub open spec fn form_text(pairs: Seq<(Seq<char>, Seq<char>)>) -> Seq<char>
    decreases pairs.len(),
{
    if pairs.len() == 0 {
        Seq::empty()
    } else if pairs.len() == 1 {
        pairs[0].0 + "="@ + url_escaped(pairs[0].1)
    } else {
        form_text(pairs.drop_last()) + "&"@ + pairs.last().0 + "="@ + url_escaped(pairs.last().1)
    }
}

/// The texts of a list of key/value pairs.
pub open spec fn pair_texts(pairs: Seq<(&str, String)>) -> Seq<(Seq<char>, Seq<char>)> {
    pairs.map_values(|p: (&str, String)| (p.0@, p.1@))
}

/// The signed form body at time `ts`: the pairs, then `timestamp` and
/// `recvWindow`, then the signature.
pub open spec fn signed_body_text(pairs: Seq<(Seq<char>, Seq<char>)>, secret: Seq<char>, ts: u64) -> Seq<char> {
    with_signature(
        form_text(pairs.push(("timestamp"@, decimal(ts as nat))).push(("recvWindow"@, "5000"@))),
        secret,
    )
}

/// Rebuilds key/value pairs as form parameters with timestamp, recvWindow
/// and signature, as of time `ts`.
pub fn signed_body_params_at(pairs: Vec<(&str, String)>, secret: &str, ts: u64) -> (r: String)
    ensures
        r@ == signed_body_text(pair_texts(pairs@), secret@, ts),
{
    let mut all: Vec<(&str, String)> = pairs;
    let ghost given_pairs = pair_texts(all@);
    let t = u64_decimal(ts);
    all.push(("timestamp", string_from_chars(t.as_slice())));
    all.push(("recvWindow", String::from_str("5000")));
    let ghost full = given_pairs.push(("timestamp"@, decimal(ts as nat))).push(("recvWindow"@, "5000"@));
    assert(pair_texts(all@) =~= full);
    let mut v: Vec<char> = Vec::new();
    let mut i: usize = 0;
    while i < all.len()
        invariant
            i <= all.len(),
            pair_texts(all@) == full,
            v@ == form_text(full.subrange(0, i as int)),
        decreases all.len() - i,
    {
        if i > 0 {
            append_str(&mut v, "&");
        }
        append_str(&mut v, all[i].0);
        append_str(&mut v, "=");
        let e = urlencoding_simple(all[i].1.as_str());
        append_str(&mut v, e.as_str());
        assert(full.subrange(0, i + 1).drop_last() =~= full.subrange(0, i as int));
        assert(full[i as int] == (all@[i as int].0@, all@[i as int].1@));
        i = i + 1;
        assert(v@ =~= form_text(full.subrange(0, i as int)));
    }
    assert(full.subrange(0, all.len() as int) =~= full);
    append_signature(&mut v, secret);
    string_from_chars(v.as_slice())
}

/// Rebuilds key/value pairs as signed form parameters at the current time.
pub fn signed_body_params(pairs: Vec<(&str, String)>, secret: &str) -> (r: String)
    ensures
        exists|ts: u64| r@ == signed_body_text(pair_texts(pairs@), secret@, ts),
{
    let ts = now_ms();
    signed_body_params_at(pairs, secret, ts)
}


/// The most bytes of a client order id Binance takes; longer ids are cut.
pub const CLIENT_ID_MAX_BYTES: usize = 36;

/// The side of a request: `BUY` for `buy`, else `SELL`.
pub fn order_side(side: &str) -> (r: &'static str)
    ensures
        r@ == (if side@ == "buy"@ { "BUY"@ } else { "SELL"@ }),
{
    if str_eq(side, "buy") { "BUY" } else { "SELL" }
}

/// The order type of a request: `MARKET` for `market`, else `LIMIT`.
pub fn order_type_code(order_type: &str) -> (r: &'static str)
    ensures
        r@ == (if order_type@ == "market"@ { "MARKET"@ } else { "LIMIT"@ }),
{
    if str_eq(order_type, "market") { "MARKET" } else { "LIMIT" }
}

/// The time-in-force code of a canonical (or short) name: IOC, FOK, or
/// (also where none is given) GTC.
pub open spec fn tif_code_of(time_in_force: Option<&str>) -> Seq<char> {
    match time_in_force {
        Some(t) => if t@ == "immediate_or_cancel"@ || t@ == "ioc"@ {
            "IOC"@
        } else if t@ == "fill_or_kill"@ || t@ == "fok"@ {
            "FOK"@
        } else {
            "GTC"@
        },
        None => "GTC"@,
    }
}

/// Maps a time in force to its code.
pub fn order_tif(time_in_force: Option<&str>) -> (r: &'static str)
    ensures
        r@ == tif_code_of(time_in_force),
{
    match time_in_force {
        Some(t) => if str_eq(t, "immediate_or_cancel") || str_eq(t, "ioc") {
            "IOC"
        } else if str_eq(t, "fill_or_kill") || str_eq(t, "fok") {
            "FOK"
        } else {
            "GTC"
        },
        None => "GTC",
    }
}

/// The canonical state of an order from its status: `NEW` and
/// `PARTIALLY_FILLED` are open, `FILLED` filled, `CANCELED` and `EXPIRED`
/// cancelled, `REJECTED` rejected; any other status is kept as it is.
pub open spec fn order_state_of(status: Seq<char>) -> Seq<char> {
    if status == "NEW"@ || status == "PARTIALLY_FILLED"@ {
        "open"@
    } else if status == "FILLED"@ {
        "filled"@
    } else if status == "CANCELED"@ || status == "EXPIRED"@ {
        "cancelled"@
    } else if status == "REJECTED"@ {
        "rejected"@
    } else {
        status
    }
}

/// Reads the state of an order.
pub fn order_state(status: &str) -> (r: String)
    ensures
        r@ == order_state_of(status@),
{
    if str_eq(status, "NEW") || str_eq(status, "PARTIALLY_FILLED") {
        String::from_str("open")
    } else if str_eq(status, "FILLED") {
        String::from_str("filled")
    } else if str_eq(status, "CANCELED") || str_eq(status, "EXPIRED") {
        String::from_str("cancelled")
    } else if str_eq(status, "REJECTED") {
        String::from_str("rejected")
    } else {
        String::from_str(status)
    }
}

/// The canonical name of a time-in-force code (`GTC` where none is given);
/// an unknown code is kept as it is.
pub open spec fn tif_name_of(code: Option<&str>) -> Seq<char> {
    let c = match code {
        Some(t) => t@,
        None => "GTC"@,
    };
    if c == "GTC"@ {
        "good_til_cancelled"@
    } else if c == "IOC"@ {
        "immediate_or_cancel"@
    } else if c == "FOK"@ {
        "fill_or_kill"@
    } else {
        c
    }
}

/// Reads the time in force of an order.
pub fn tif_name(code: Option<&str>) -> (r: String)
    ensures
        r@ == tif_name_of(code),
{
    let c: &str = match code {
        Some(t) => t,
        None => "GTC",
    };
    if str_eq(c, "GTC") {
        String::from_str("good_til_cancelled")
    } else if str_eq(c, "IOC") {
        String::from_str("immediate_or_cancel")
    } else if str_eq(c, "FOK") {
        String::from_str("fill_or_kill")
    } else {
        String::from_str(c)
    }
}

/// The contract type a listing of instrument kind `kind` keeps:
/// `PERPETUAL` for futures, `SPOT` for spot, any (empty) otherwise.
pub open spec fn contract_type_of(kind: Seq<char>) -> Seq<char> {
    if kind == "future"@ || kind == "futures"@ {
        "PERPETUAL"@
    } else if kind == "spot"@ {
        "SPOT"@
    } else {
        Seq::<char>::empty()
    }
}

/// Chooses the contract type a listing keeps.
pub fn contract_type_for(kind: &str) -> (r: &'static str)
    ensures
        r@ == contract_type_of(kind@),
{
    proof {
        reveal_strlit("");
    }
    if str_eq(kind, "future") || str_eq(kind, "futures") {
        "PERPETUAL"
    } else if str_eq(kind, "spot") {
        "SPOT"
    } else {
        ""
    }
}

/// Whether a listed symbol is kept: its base asset matches the currency
/// (see `base_matches`), its contract type is the one the kind asks for
/// (any where it asks for none), and it is trading.
pub fn keeps_symbol(currency: &str, kind: &str, base_asset: &str, status: &str, contract_type: &str) -> (r: bool)
    ensures
        r == (crate::api::mexc::base_matches_of(base_asset@, currency@)
            && (contract_type_of(kind@).len() == 0 || contract_type@ == contract_type_of(kind@))
            && status@ == "TRADING"@),
{
    if !crate::api::mexc::base_matches(base_asset, currency) {
        return false;
    }
    let k = contract_type_for(kind);
    if !k.is_empty() && !str_eq(contract_type, k) {
        return false;
    }
    str_eq(status, "TRADING")
}

} // verus!
