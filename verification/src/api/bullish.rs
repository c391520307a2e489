//! Bullish: request and login signing, base and quote of spot symbols, the
//! order vocabulary, the market listing filter, session-token reuse and the
//! paging of fills.
//!
//! A private request is signed with
//! HMAC-SHA256(secret, hex(SHA256(ts + nonce + METHOD + path + body))).

use vstd::prelude::*;
use crate::clock::{micros_reading, millis_reading, unix_micros, unix_millis};
use crate::digest::{hex_encode, hex_lower, hmac_hex, hmac_sha256_hex, sha256, sha256_digest};
use crate::text::{
    append_str, chars_end_with, chars_of, chars_slice, str_eq, string_from_chars, to_lowercase, trim, trimmed,
    unicode_lowercase, utf8,
};

verus! {

/// Milliseconds since the Unix epoch (0 before it).
pub fn now_ms() -> (r: u64)
    ensures
        exists|d: Option<u128>| r == millis_reading(d),
{
    unix_millis()
}

/// Microseconds since the Unix epoch (0 before it), used as a nonce.
pub fn now_us() -> (r: u64)
    ensures
        exists|d: Option<u128>| r == micros_reading(d),
{
    unix_micros()
}

/// The Bullish signature of a request.
pub open spec fn bullish_signature(
    ts: Seq<char>,
    nonce: Seq<char>,
    method: Seq<char>,
    path: Seq<char>,
    body: Seq<char>,
    secret: Seq<char>,
) -> Seq<char> {
    hmac_hex(hex_lower(sha256_digest(utf8(ts + nonce + method + path + body))), secret)
}

/// Signs a private request (double hash: SHA-256 of the payload, then
/// HMAC-SHA256 of its hex). Always succeeds: HMAC takes a key of any length.
pub fn sign(ts: &str, nonce: &str, method: &str, path: &str, body: &str, secret: &str) -> (r: Result<String, String>)
    ensures
        r matches Ok(s) && s@ == bullish_signature(ts@, nonce@, method@, path@, body@, secret@),
{
    let mut v: Vec<char> = Vec::new();
    append_str(&mut v, ts);
    append_str(&mut v, nonce);
    append_str(&mut v, method);
    append_str(&mut v, path);
    append_str(&mut v, body);
    assert(v@ =~= ts@ + nonce@ + method@ + path@ + body@);
    let payload = string_from_chars(v.as_slice());
    let hash = sha256(payload.as_str().as_bytes());
    let hash_hex = hex_encode(hash.as_slice());
    Ok(hmac_sha256_hex(hash_hex.as_str(), secret))
}

/// The base of a spot symbol: the symbol without the first known quote
/// suffix (in the order USDC, USDT, BUSD, USD, BTC, ETH, BNB) that leaves a
/// non-empty base; the whole symbol when none does.
pub open spec fn strip_first_quote(symbol: Seq<char>, quotes: Seq<Seq<char>>) -> Seq<char>
    decreases quotes.len(),
{
    if quotes.len() == 0 {
        symbol
    } else if quotes[0].is_suffix_of(symbol) && symbol.len() > quotes[0].len() {
        symbol.subrange(0, symbol.len() - quotes[0].len())
    } else {
        strip_first_quote(symbol, quotes.drop_first())
    }
}

/// The quote suffixes tried, longest-preferred order.
pub open spec fn quote_suffixes() -> Seq<Seq<char>> {
    seq!["USDC"@, "USDT"@, "BUSD"@, "USD"@, "BTC"@, "ETH"@, "BNB"@]
}

/// Extracts the base coin from a Bullish spot symbol, e.g. "BTCUSDT" gives "BTC".
pub fn extract_base(symbol: &str) -> (r: String)
    ensures
        r@ == strip_first_quote(symbol@, quote_suffixes()),
{
    let s = chars_of(symbol);
    let quotes: [&str; 7] = ["USDC", "USDT", "BUSD", "USD", "BTC", "ETH", "BNB"];
    let ghost all = quote_suffixes();
    assert(all.subrange(0, 7) =~= all);
    let mut i: usize = 0;
    while i < 7
        invariant
            i <= 7,
            all.len() == 7,
            s@ == symbol@,
            forall|k: int| 0 <= k < 7 ==> (#[trigger] quotes@[k])@ == all[k],
            all == quote_suffixes(),
            strip_first_quote(symbol@, all) == strip_first_quote(symbol@, all.subrange(i as int, 7)),
        decreases 7 - i,
    {
        let q = chars_of(quotes[i]);
        assert(all.subrange(i as int, 7)[0] == all[i as int]);
        assert(all.subrange(i as int, 7).drop_first() =~= all.subrange(i + 1, 7));
        if chars_end_with(s.as_slice(), q.as_slice()) && s.len() > q.len() {
            let b = chars_slice(s.as_slice(), 0, s.len() - q.len());
            assert(q@ == all[i as int]);
            assert(strip_first_quote(symbol@, all.subrange(i as int, 7))
                == symbol@.subrange(0, symbol@.len() - all[i as int].len()));
            return string_from_chars(b.as_slice());
        }
        i = i + 1;
    }
    assert(all.subrange(7, 7) =~= Seq::<Seq<char>>::empty());
    String::from_str(symbol)
}

/// What `strip_first_quote` leaves is a prefix of the symbol.
pub proof fn lemma_base_is_prefix(symbol: Seq<char>, quotes: Seq<Seq<char>>)
    ensures
        strip_first_quote(symbol, quotes).is_prefix_of(symbol),
    decreases quotes.len(),
{
    if quotes.len() == 0 {
        assert(symbol.subrange(0, symbol.len() as int) =~= symbol);
    } else if quotes[0].is_suffix_of(symbol) && symbol.len() > quotes[0].len() {
        let b = symbol.subrange(0, symbol.len() - quotes[0].len());
        assert(b =~= symbol.subrange(0, b.len() as int));
    } else {
        lemma_base_is_prefix(symbol, quotes.drop_first());
    }
}

/// The quote currency of a spot symbol: what follows its base.
pub open spec fn quote_of(symbol: Seq<char>) -> Seq<char> {
    symbol.subrange(strip_first_quote(symbol, quote_suffixes()).len() as int, symbol.len() as int)
}

/// The quote currency of a spot symbol, e.g. "BTCUSDT" gives "USDT"; empty
/// where no known quote ends it. The base and the quote make up the symbol.
pub fn quote_currency(symbol: &str) -> (r: String)
    ensures
        r@ == quote_of(symbol@),
        strip_first_quote(symbol@, quote_suffixes()) + r@ == symbol@,
{
    let base = extract_base(symbol);
    let b = chars_of(base.as_str());
    let s = chars_of(symbol);
    proof {
        lemma_base_is_prefix(symbol@, quote_suffixes());
    }
    let q = chars_slice(s.as_slice(), b.len(), s.len());
    proof {
        let base_text = strip_first_quote(symbol@, quote_suffixes());
        assert(base_text =~= symbol@.subrange(0, base_text.len() as int));
        assert(base_text + q@ =~= symbol@);
    }
    string_from_chars(q.as_slice())
}

/// The side of a fill: `sell` for `SELL`, else `buy` (also where none is
/// given).
pub fn fill_side(side: Option<&str>) -> (r: &'static str)
    ensures
        r@ == (if side matches Some(t) && t@ == "SELL"@ { "sell"@ } else { "buy"@ }),
{
    match side {
        Some(t) => if str_eq(t, "SELL") { "sell" } else { "buy" },
        None => "buy",
    }
}

/// The most fills one page of the fills endpoint returns.
pub const FILL_PAGE_LIMIT: usize = 200;

/// The positions of the fills of a page that fall in `[start, end]`.
pub open spec fn kept_fills(ts: Seq<i64>, start: i64, end: i64) -> Seq<usize>
    decreases ts.len(),
{
    if ts.len() == 0 {
        Seq::empty()
    } else {
        let rest = kept_fills(ts.drop_last(), start, end);
        let t = ts.last();
        if start <= t && t <= end {
            rest.push((ts.len() - 1) as usize)
        } else {
            rest
        }
    }
}

/// The latest time among `after` and the kept fills of a page.
pub open spec fn last_fill_ms(ts: Seq<i64>, start: i64, end: i64, after: i64) -> int
    decreases ts.len(),
{
    if ts.len() == 0 {
        after as int
    } else {
        let m = last_fill_ms(ts.drop_last(), start, end, after);
        let t = ts.last();
        if start <= t && t <= end && t > m {
            t as int
        } else {
            m
        }
    }
}

/// Where the next page starts: a millisecond after the latest kept fill,
/// unless the page was not full or brought nothing later than `after`.
pub open spec fn next_fill_after(ts: Seq<i64>, start: i64, end: i64, after: i64) -> Option<int> {
    let last = last_fill_ms(ts, start, end, after);
    if ts.len() < FILL_PAGE_LIMIT || last <= after {
        None
    } else {
        Some(last + 1)
    }
}

/// Reads one page of fills (their times, in the order received): which
/// fills fall in the requested range, and where the next page starts, if
/// there is one to fetch.
pub fn fill_page(ts: &Vec<i64>, start_ms: i64, end_ms: i64, after_ms: i64) -> (r: (Vec<usize>, Option<i64>))
    requires
        ts@.len() >= FILL_PAGE_LIMIT && last_fill_ms(ts@, start_ms, end_ms, after_ms) > after_ms
            ==> last_fill_ms(ts@, start_ms, end_ms, after_ms) < i64::MAX,
    ensures
        r.0@ == kept_fills(ts@, start_ms, end_ms),
        match r.1 {
            Some(a) => next_fill_after(ts@, start_ms, end_ms, after_ms) == Some(a as int),
            None => next_fill_after(ts@, start_ms, end_ms, after_ms) is None,
        },
{
    let mut kept: Vec<usize> = Vec::new();
    let mut last: i64 = after_ms;
    let mut i: usize = 0;
    while i < ts.len()
        invariant
            i <= ts@.len(),
            kept@ == kept_fills(ts@.subrange(0, i as int), start_ms, end_ms),
            last as int == last_fill_ms(ts@.subrange(0, i as int), start_ms, end_ms, after_ms),
        decreases ts.len() - i,
    {
        proof {
            assert(ts@.subrange(0, i + 1).drop_last() =~= ts@.subrange(0, i as int));
            assert(ts@.subrange(0, i + 1).last() == ts@[i as int]);
        }
        let t = ts[i];
        if start_ms <= t && t <= end_ms {
            kept.push(i);
            if t > last {
                last = t;
            }
        }
        i = i + 1;
    }
    assert(ts@.subrange(0, ts@.len() as int) =~= ts@);
    let next: Option<i64> = if ts.len() < FILL_PAGE_LIMIT || last <= after_ms {
        None
    } else {
        Some(last + 1)
    };
    (kept, next)
}

/// The signature of a session login at `ts` with `nonce`: HMAC-SHA256 of
/// the timestamp, the nonce, `GET` and the login path.
pub open spec fn login_signature_of(ts: Seq<char>, nonce: Seq<char>, secret: Seq<char>) -> Seq<char> {
    hmac_hex(ts + nonce + "GET"@ + "/trading-api/v1/users/hmac/login"@, secret)
}

/// Signs a session login.
pub fn login_signature(ts: &str, nonce: &str, secret: &str) -> (r: String)
    ensures
        r@ == login_signature_of(ts@, nonce@, secret@),
{
    let mut v: Vec<char> = Vec::new();
    append_str(&mut v, ts);
    append_str(&mut v, nonce);
    append_str(&mut v, "GET");
    append_str(&mut v, "/trading-api/v1/users/hmac/login");
    assert(v@ =~= ts@ + nonce@ + "GET"@ + "/trading-api/v1/users/hmac/login"@);
    let msg = string_from_chars(v.as_slice());
    hmac_sha256_hex(msg.as_str(), secret)
}

/// Whether a cached session token is still used: it expires more than a
/// minute after `now_ms`.
pub fn token_still_fresh(expires_at_ms: u64, now_ms: u64) -> (r: bool)
    ensures
        r == (expires_at_ms > now_ms + 60_000),
{
    (expires_at_ms as u128) > (now_ms as u128) + 60_000
}

/// The trading account given with the account itself (in its passphrase
/// field), trimmed, where it is not blank.
pub fn trading_account_override(passphrase: Option<&str>) -> (r: Option<String>)
    ensures
        match passphrase {
            Some(p) => if trimmed(p@).len() > 0 {
                r matches Some(t) && t@ == trimmed(p@)
            } else {
                r is None
            },
            None => r is None,
        },
{
    match passphrase {
        Some(p) => {
            let t = trim(p);
            if t.as_str().is_empty() { None } else { Some(t) }
        },
        None => None,
    }
}

/// The order type of a request: `POST_ONLY` where asked, else `MKT` for
/// a type that lowercases to `market`, else `LMT`.
pub fn order_type_code(order_type: &str, post_only: Option<bool>) -> (r: &'static str)
    ensures
        r@ == (if post_only == Some(true) {
            "POST_ONLY"@
        } else if unicode_lowercase(order_type@) == "market"@ {
            "MKT"@
        } else {
            "LMT"@
        }),
{
    if post_only == Some(true) {
        return "POST_ONLY";
    }
    let lower = to_lowercase(order_type);
    if str_eq(lower.as_str(), "market") { "MKT" } else { "LMT" }
}

/// The time in force of a request: IOC, FOK, POST_ONLY, or (also where
/// none is given) GTC.
pub fn order_tif(time_in_force: Option<&str>) -> (r: &'static str)
    ensures
        r@ == (match time_in_force {
            Some(t) => if t@ == "immediate_or_cancel"@ {
                "IOC"@
            } else if t@ == "fill_or_kill"@ {
                "FOK"@
            } else if t@ == "post_only"@ {
                "POST_ONLY"@
            } else {
                "GTC"@
            },
            None => "GTC"@,
        }),
{
    match time_in_force {
        Some(t) => if str_eq(t, "immediate_or_cancel") {
            "IOC"
        } else if str_eq(t, "fill_or_kill") {
            "FOK"
        } else if str_eq(t, "post_only") {
            "POST_ONLY"
        } else {
            "GTC"
        },
        None => "GTC",
    }
}

/// The client order id of a request: the one given, else the nonce.
pub fn client_order_id(given: Option<&str>, nonce: &str) -> (r: String)
    ensures
        r@ == (match given {
            Some(g) => g@,
            None => nonce@,
        }),
{
    match given {
        Some(g) => String::from_str(g),
        None => String::from_str(nonce),
    }
}

/// The canonical state of an order from its status: `OPEN`,
/// `PENDING_NEW` and `PARTIALLY_FILLED` are open, `FILLED` filled,
/// `CANCELED`, `CANCELLED`, `EXPIRED` and `REJECTED` cancelled; any other
/// status is kept as it is.
pub open spec fn order_state_of(status: Seq<char>) -> Seq<char> {
    if status == "OPEN"@ || status == "PENDING_NEW"@ || status == "PARTIALLY_FILLED"@ {
        "open"@
    } else if status == "FILLED"@ {
        "filled"@
    } else if status == "CANCELED"@ || status == "CANCELLED"@ || status == "EXPIRED"@ || status == "REJECTED"@ {
        "cancelled"@
    } else {
        status
    }
}

/// Reads the state of an order.
pub fn order_state(status: &str) -> (r: String)
    ensures
        r@ == order_state_of(status@),
{
    if str_eq(status, "OPEN") || str_eq(status, "PENDING_NEW") || str_eq(status, "PARTIALLY_FILLED") {
        String::from_str("open")
    } else if str_eq(status, "FILLED") {
        String::from_str("filled")
    } else if str_eq(status, "CANCELED") || str_eq(status, "CANCELLED") || str_eq(status, "EXPIRED")
        || str_eq(status, "REJECTED") {
        String::from_str("cancelled")
    } else {
        String::from_str(status)
    }
}

/// The canonical time in force of an order: IOC, FOK and POST_ONLY by
/// name, anything else (also none) good-til-cancelled.
pub fn tif_name(code: Option<&str>) -> (r: &'static str)
    ensures
        r@ == (match code {
            Some(c) => if c@ == "IOC"@ {
                "immediate_or_cancel"@
            } else if c@ == "FOK"@ {
                "fill_or_kill"@
            } else if c@ == "POST_ONLY"@ {
                "post_only"@
            } else {
                "good_til_cancelled"@
            },
            None => "good_til_cancelled"@,
        }),
{
    match code {
        Some(c) => if str_eq(c, "IOC") {
            "immediate_or_cancel"
        } else if str_eq(c, "FOK") {
            "fill_or_kill"
        } else if str_eq(c, "POST_ONLY") {
            "post_only"
        } else {
            "good_til_cancelled"
        },
        None => "good_til_cancelled",
    }
}

/// The canonical type of an order: market for `MKT`, stop-limit for
/// `STOP_LIMIT`, else (also where none is given) limit.
pub fn order_type_name(code: Option<&str>) -> (r: &'static str)
    ensures
        r@ == (match code {
            Some(c) => if c@ == "MKT"@ {
                "market"@
            } else if c@ == "STOP_LIMIT"@ {
                "stop_limit"@
            } else {
                "limit"@
            },
            None => "limit"@,
        }),
{
    match code {
        Some(c) => if str_eq(c, "MKT") {
            "market"
        } else if str_eq(c, "STOP_LIMIT") {
            "stop_limit"
        } else {
            "limit"
        },
        None => "limit",
    }
}

/// Whether a listed market is kept: enabled for trading and for new orders,
/// with the currency (uppercased) as its base or quote where one is asked
/// for, and the kind asked for empty, `spot` or `future` (all markets are
/// spot).
pub open spec fn keeps_market_of(
    market_enabled: Option<bool>,
    create_order_enabled: Option<bool>,
    base_upper: Seq<char>,
    quote_upper: Seq<char>,
    currency_upper: Seq<char>,
    kind: Seq<char>,
) -> bool {
    &&& market_enabled == Some(true)
    &&& create_order_enabled == Some(true)
    &&& (currency_upper.len() == 0 || base_upper == currency_upper || quote_upper == currency_upper)
    &&& (kind.len() == 0 || kind == "spot"@ || kind == "future"@)
}

/// Tells whether a listed market is kept.
pub fn keeps_market(
    market_enabled: Option<bool>,
    create_order_enabled: Option<bool>,
    base_upper: &str,
    quote_upper: &str,
    currency_upper: &str,
    kind: &str,
) -> (r: bool)
    ensures
        r == keeps_market_of(market_enabled, create_order_enabled, base_upper@, quote_upper@, currency_upper@, kind@),
{
    if market_enabled != Some(true) || create_order_enabled != Some(true) {
        return false;
    }
    if !currency_upper.is_empty() && !str_eq(base_upper, currency_upper) && !str_eq(quote_upper, currency_upper) {
        return false;
    }
    kind.is_empty() || str_eq(kind, "spot") || str_eq(kind, "future")
}

} // verus!
