//! CoInCall: signing (HMAC-SHA256, uppercase hex), the authenticated
//! WebSocket URL, channels, order codes, symbol parsing, and the fields and
//! paging of the transaction ledger.
//!
//! Prehash of a signed request:
//! `METHOD + URI + ? + sorted_user_params [&] + uuid=api_key&ts=ts_ms&x-req-ts-diff=5000`.

use vstd::prelude::*;
use crate::clock::shifted_now_ms;
use crate::decimal::{decimal, i64_decimal, signed_decimal, u64_decimal};
use crate::lexi::{is_stable_order, lemma_stable_order_unique, stable_order};
use crate::digest::{hex_encode, hex_lower, hmac_sha256, hmac_sha256_tag, lemma_hex_lower_ascii};
use crate::text::{
    ascii_lower, ascii_upper, append_chars, append_str, chars_end_with, chars_of, chars_slice,
    eq_ignore_ascii_case, ends_with, find_char_from, index_of_from, str_eq, string_from_chars,
    to_uppercase, utf8,
};

verus! {

/// One leg of a request for quote.
#[derive(Debug, Clone)]
pub struct RfqLeg {
    pub instrument_name: String,
    pub side: String,
    pub qty: String,
}

/// A request for quote as CoInCall reports it.
#[derive(Debug, Clone)]
pub struct RfqResponse {
    pub request_id: String,
    pub create_time: i64,
    pub expiry_time: i64,
    pub legs: Vec<RfqLeg>,
    pub state: String,
}

/// The REST base URL.
pub fn base(testnet: bool) -> (r: &'static str)
    ensures
        r@ == if testnet { "https://beta.seizeyouralpha.com"@ } else { "https://api.coincall.com"@ },
{
    if testnet { "https://beta.seizeyouralpha.com" } else { "https://api.coincall.com" }
}

/// The text that is signed for a request.
pub open spec fn prehash_text(
    method: Seq<char>,
    uri: Seq<char>,
    sorted_user_params: Seq<char>,
    api_key: Seq<char>,
    ts: u64,
) -> Seq<char> {
    let auth = "uuid="@ + api_key + "&ts="@ + decimal(ts as nat) + "&x-req-ts-diff=5000"@;
    if sorted_user_params.len() == 0 {
        method + uri + "?"@ + auth
    } else {
        method + uri + "?"@ + sorted_user_params + "&"@ + auth
    }
}

/// The signature of a request: uppercase hex of the HMAC-SHA256 of its
/// prehash under the secret.
pub open spec fn signature_text(
    method: Seq<char>,
    uri: Seq<char>,
    sorted_user_params: Seq<char>,
    api_key: Seq<char>,
    ts: u64,
    secret: Seq<char>,
) -> Seq<char> {
    ascii_upper(
        hex_lower(hmac_sha256_tag(utf8(secret), utf8(prehash_text(method, uri, sorted_user_params, api_key, ts)))),
    )
}

/// Computes the CoInCall HMAC-SHA256 signature (uppercase hex).
pub fn cc_sign(
    method: &str,
    uri: &str,
    sorted_user_params: &str,
    api_key: &str,
    ts: u64,
    secret: &str,
) -> (r: String)
    ensures
        r@ == signature_text(method@, uri@, sorted_user_params@, api_key@, ts, secret@),
{
    let mut auth: Vec<char> = Vec::new();
    append_str(&mut auth, "uuid=");
    append_str(&mut auth, api_key);
    append_str(&mut auth, "&ts=");
    let t = u64_decimal(ts);
    append_chars(&mut auth, t.as_slice());
    append_str(&mut auth, "&x-req-ts-diff=5000");
    let mut pre: Vec<char> = Vec::new();
    append_str(&mut pre, method);
    append_str(&mut pre, uri);
    append_str(&mut pre, "?");
    if sorted_user_params.is_empty() {
        append_chars(&mut pre, auth.as_slice());
    } else {
        append_str(&mut pre, sorted_user_params);
        append_str(&mut pre, "&");
        append_chars(&mut pre, auth.as_slice());
    }
    assert(pre@ =~= prehash_text(method@, uri@, sorted_user_params@, api_key@, ts));
    let prehash = string_from_chars(pre.as_slice());
    let tag = hmac_sha256(secret.as_bytes(), prehash.as_str().as_bytes());
    let hex = hex_encode(tag.as_slice());
    proof {
        lemma_hex_lower_ascii(tag@);
    }
    to_uppercase(hex.as_str())
}

/// The CoInCall WS/HTTP channel for an instrument kind.
pub open spec fn channel_of_kind(kind: Seq<char>) -> Seq<char> {
    if kind == "option"@ {
        "options"@
    } else if kind == "future"@ || kind == "perpetual"@ {
        "futures"@
    } else {
        "spot"@
    }
}

/// Maps a kind string to the CoInCall WS/HTTP channel name.
pub fn kind_to_channel(kind: &str) -> (r: &'static str)
    ensures
        r@ == channel_of_kind(kind@),
{
    if str_eq(kind, "option") {
        "options"
    } else if str_eq(kind, "future") || str_eq(kind, "perpetual") {
        "futures"
    } else {
        "spot"
    }
}

/// The WebSocket host.
pub fn ws_base(testnet: bool) -> (r: &'static str)
    ensures
        r@ == if testnet { "wss://betaws.seizeyouralpha.com"@ } else { "wss://ws.coincall.com"@ },
{
    if testnet { "wss://betaws.seizeyouralpha.com" } else { "wss://ws.coincall.com" }
}

/// The text signed to open an authenticated WebSocket at `ts`.
pub open spec fn ws_prehash(api_key: Seq<char>, ts: u64) -> Seq<char> {
    "GET/users/self/verify?apiKey="@ + api_key + "&ts="@ + decimal(ts as nat)
}

/// The authenticated WebSocket URL at `ts`: the host, the channel (with a
/// further `/ws` for spot), then the code, the key as uuid, the timestamp,
/// the uppercase-hex HMAC-SHA256 of `ws_prehash` under the secret, and the
/// key again.
pub open spec fn ws_url_text(api_key: Seq<char>, secret: Seq<char>, testnet: bool, kind: Seq<char>, ts: u64) -> Seq<char> {
    let sign = ascii_upper(hex_lower(hmac_sha256_tag(utf8(secret), utf8(ws_prehash(api_key, ts)))));
    let host = if testnet { "wss://betaws.seizeyouralpha.com"@ } else { "wss://ws.coincall.com"@ };
    let channel = channel_of_kind(kind);
    let path = if channel == "spot"@ { "/ws"@ } else { Seq::<char>::empty() };
    host + "/"@ + channel + path + "?code=10&uuid="@ + api_key + "&ts="@ + decimal(ts as nat) + "&sign="@
        + sign + "&apiKey="@ + api_key
}

/// The authenticated WebSocket URL for a timestamp; an account without a
/// secret is refused.
pub fn ws_url_at(api_key: &str, api_secret: &str, testnet: bool, kind: &str, ts: u64) -> (r: Result<String, String>)
    ensures
        api_secret@.len() == 0 ==> (r matches Err(e) && e@ == "CoInCall account missing API secret"@),
        api_secret@.len() > 0 ==> (r matches Ok(u) && u@ == ws_url_text(api_key@, api_secret@, testnet, kind@, ts)),
{
    if api_secret.is_empty() {
        return Err(String::from_str("CoInCall account missing API secret"));
    }
    let t = u64_decimal(ts);
    let mut pre: Vec<char> = Vec::new();
    append_str(&mut pre, "GET/users/self/verify?apiKey=");
    append_str(&mut pre, api_key);
    append_str(&mut pre, "&ts=");
    append_chars(&mut pre, t.as_slice());
    assert(pre@ =~= ws_prehash(api_key@, ts));
    let prehash = string_from_chars(pre.as_slice());
    let tag = hmac_sha256(api_secret.as_bytes(), prehash.as_str().as_bytes());
    let hex = hex_encode(tag.as_slice());
    proof {
        lemma_hex_lower_ascii(tag@);
    }
    let sign = to_uppercase(hex.as_str());
    let channel = kind_to_channel(kind);
    let mut v: Vec<char> = Vec::new();
    append_str(&mut v, ws_base(testnet));
    append_str(&mut v, "/");
    append_str(&mut v, channel);
    if str_eq(channel, "spot") {
        append_str(&mut v, "/ws");
    }
    append_str(&mut v, "?code=10&uuid=");
    append_str(&mut v, api_key);
    append_str(&mut v, "&ts=");
    append_chars(&mut v, t.as_slice());
    append_str(&mut v, "&sign=");
    append_str(&mut v, sign.as_str());
    append_str(&mut v, "&apiKey=");
    append_str(&mut v, api_key);
    assert(v@ =~= ws_url_text(api_key@, api_secret@, testnet, kind@, ts));
    Ok(string_from_chars(v.as_slice()))
}

/// The authenticated WebSocket URL at the current time, shifted by the
/// offset of the exchange's clock; an account without a secret is refused.
pub fn get_ws_url(api_key: &str, api_secret: &str, testnet: bool, kind: &str, clock_offset_ms: i64) -> (r: Result<String, String>)
    ensures
        api_secret@.len() == 0 ==> (r matches Err(e) && e@ == "CoInCall account missing API secret"@),
        api_secret@.len() > 0 ==> (r matches Ok(u)
            && exists|ts: u64| u@ == ws_url_text(api_key@, api_secret@, testnet, kind@, ts)),
{
    let ts = shifted_now_ms(clock_offset_ms);
    let r = ws_url_at(api_key, api_secret, testnet, kind, ts);
    proof {
        if api_secret@.len() > 0 {
            assert(r matches Ok(u) && u@ == ws_url_text(api_key@, api_secret@, testnet, kind@, ts));
        }
    }
    r
}

/// The trade side code: 1 for buy (any ASCII case), 2 otherwise.
pub fn trade_side(side: &str) -> (r: i32)
    ensures
        r == if ascii_lower(side@) == ascii_lower("buy"@) { 1i32 } else { 2i32 },
{
    if eq_ignore_ascii_case(side, "buy") { 1 } else { 2 }
}

/// The trade type code: 1 limit, 2 market, 3 post-only, 4 stop-limit,
/// 5 stop-market; post-only wins over the order type.
pub fn trade_type(order_type: &str, post_only: bool) -> (r: i32)
    ensures
        r == if post_only {
            3i32
        } else if order_type@ == "market"@ {
            2i32
        } else if order_type@ == "stop_limit"@ {
            4i32
        } else if order_type@ == "stop_market"@ {
            5i32
        } else {
            1i32
        },
{
    if post_only {
        return 3;
    }
    if str_eq(order_type, "market") {
        2
    } else if str_eq(order_type, "stop_limit") {
        4
    } else if str_eq(order_type, "stop_market") {
        5
    } else {
        1
    }
}

/// The time-in-force code that CoInCall expects, if any (the API defaults to GTC).
pub open spec fn tif_code_of(tif: Option<Seq<char>>) -> Option<Seq<char>> {
    match tif {
        Some(t) => if t == "immediate_or_cancel"@ {
            Some("IOC"@)
        } else if t == "fill_or_kill"@ {
            Some("FOK"@)
        } else if t == "good_til_cancelled"@ {
            Some("GTC"@)
        } else {
            None
        },
        None => None,
    }
}

/// Maps a canonical time-in-force to the CoInCall code.
pub fn tif_code(tif: Option<&str>) -> (r: Option<&'static str>)
    ensures
        match r {
            Some(c) => tif_code_of(match tif { Some(t) => Some(t@), None => None }) == Some(c@),
            None => tif_code_of(match tif { Some(t) => Some(t@), None => None }) is None,
        },
{
    match tif {
        Some(t) => if str_eq(t, "immediate_or_cancel") {
            Some("IOC")
        } else if str_eq(t, "fill_or_kill") {
            Some("FOK")
        } else if str_eq(t, "good_til_cancelled") {
            Some("GTC")
        } else {
            None
        },
        None => None,
    }
}

/// Whether a symbol names an option (`...-C` or `...-P`).
pub open spec fn is_option_symbol_text(symbol: Seq<char>) -> bool {
    "-C"@.is_suffix_of(symbol) || "-P"@.is_suffix_of(symbol)
}

/// True for option symbols like `BTCUSD-10JAN25-89000-C` / `...-P`.
pub fn is_option_symbol(symbol: &str) -> (r: bool)
    ensures
        r == is_option_symbol_text(symbol@),
{
    ends_with(symbol, "-C") || ends_with(symbol, "-P")
}

/// Returns (create_uri, cancel_uri, pending_uri, history_uri) for the given symbol.
pub fn order_uris(symbol: &str) -> (r: (&'static str, &'static str, &'static str, &'static str))
    ensures
        is_option_symbol_text(symbol@) ==> r.0@ == "/open/option/order/create/v1"@
            && r.1@ == "/open/option/order/cancel/v1"@ && r.2@ == "/open/option/order/pending/v1"@
            && r.3@ == "/open/option/order/history/v1"@,
        !is_option_symbol_text(symbol@) ==> r.0@ == "/open/futures/order/create/v1"@
            && r.1@ == "/open/futures/order/cancel/v1"@ && r.2@ == "/open/futures/order/pending/v1"@
            && r.3@ == "/open/futures/order/history/v1"@,
{
    if is_option_symbol(symbol) {
        (
            "/open/option/order/create/v1",
            "/open/option/order/cancel/v1",
            "/open/option/order/pending/v1",
            "/open/option/order/history/v1",
        )
    } else {
        (
            "/open/futures/order/create/v1",
            "/open/futures/order/cancel/v1",
            "/open/futures/order/pending/v1",
            "/open/futures/order/history/v1",
        )
    }
}

/// Whether a second dash-separated segment names a known quote currency.
pub open spec fn is_known_quote(seg: Seq<char>) -> bool {
    seg == "USDT"@ || seg == "USDC"@ || seg == "USD"@ || seg == "BTC"@ || seg == "ETH"@ || seg == "BUSD"@
}

/// The base and quote of an undashed symbol, by the first known quote
/// suffix (in the order USDT, USDC, BUSD, USD, BTC, ETH) that leaves a
/// non-empty base.
pub open spec fn split_quote_suffix(symbol: Seq<char>, suffixes: Seq<Seq<char>>) -> (Seq<char>, Seq<char>)
    decreases suffixes.len(),
{
    if suffixes.len() == 0 {
        (symbol, Seq::empty())
    } else {
        let suf = suffixes[0];
        if suf.is_suffix_of(symbol) && symbol.len() > suf.len() {
            (symbol.subrange(0, symbol.len() - suf.len()), suf)
        } else {
            split_quote_suffix(symbol, suffixes.drop_first())
        }
    }
}

/// The (base, quote) of a CoInCall instrument name.
pub open spec fn base_quote_of(symbol: Seq<char>) -> (Seq<char>, Seq<char>) {
    if symbol.len() == 0 {
        (Seq::empty(), Seq::empty())
    } else {
        match index_of_from(symbol, '-', 0) {
            Some(dash) => {
                let rest = symbol.subrange(dash + 1, symbol.len() as int);
                let seg = match index_of_from(rest, '-', 0) {
                    Some(k) => rest.subrange(0, k),
                    None => rest,
                };
                (symbol.subrange(0, dash), if is_known_quote(seg) { seg } else { "USD"@ })
            },
            None => split_quote_suffix(symbol, seq!["USDT"@, "USDC"@, "BUSD"@, "USD"@, "BTC"@, "ETH"@]),
        }
    }
}

/// Parses base and quote currency from a CoInCall instrument name: dashed
/// formats ("BTC-PERP", "BTC-USDT-PERP", "BTC-20231231-30000-C") take the
/// first segment as base, and concatenated spot formats ("BTCUSDT") are split
/// at a known quote suffix.
pub fn parse_base_quote(symbol: &str) -> (r: (String, String))
    ensures
        (r.0@, r.1@) == base_quote_of(symbol@),
{
    let s = chars_of(symbol);
    if s.len() == 0 {
        return (String::new(), String::new());
    }
    match find_char_from(s.as_slice(), '-', 0) {
        Some(dash) => {
            let base = chars_slice(s.as_slice(), 0, dash);
            let rest = chars_slice(s.as_slice(), dash + 1, s.len());
            let seg = match find_char_from(rest.as_slice(), '-', 0) {
                Some(k) => chars_slice(rest.as_slice(), 0, k),
                None => rest,
            };
            let seg_s = string_from_chars(seg.as_slice());
            let known = str_eq(seg_s.as_str(), "USDT") || str_eq(seg_s.as_str(), "USDC") || str_eq(
                seg_s.as_str(),
                "USD",
            ) || str_eq(seg_s.as_str(), "BTC") || str_eq(seg_s.as_str(), "ETH") || str_eq(
                seg_s.as_str(),
                "BUSD",
            );
            let quote = if known { seg_s } else { String::from_str("USD") };
            (string_from_chars(base.as_slice()), quote)
        },
        None => {
            let suffixes: [&str; 6] = ["USDT", "USDC", "BUSD", "USD", "BTC", "ETH"];
            let ghost all = seq!["USDT"@, "USDC"@, "BUSD"@, "USD"@, "BTC"@, "ETH"@];
            let mut i: usize = 0;
            assert(all.subrange(0, 6) =~= all);
            assert(base_quote_of(symbol@) == split_quote_suffix(symbol@, all));
            while i < 6
                invariant
                    i <= 6,
                    all.len() == 6,
                    s@ == symbol@,
                    forall|k: int| 0 <= k < 6 ==> (#[trigger] suffixes@[k])@ == all[k],
                    base_quote_of(symbol@) == split_quote_suffix(symbol@, all.subrange(i as int, 6)),
                decreases 6 - i,
            {
                let suf = chars_of(suffixes[i]);
                assert(all.subrange(i as int, 6)[0] == all[i as int]);
                assert(all.subrange(i as int, 6).drop_first() =~= all.subrange(i + 1, 6));
                if chars_end_with(s.as_slice(), suf.as_slice()) && s.len() > suf.len() {
                    let base = chars_slice(s.as_slice(), 0, s.len() - suf.len());
                    assert(suf@ == all[i as int]);
                    assert(split_quote_suffix(symbol@, all.subrange(i as int, 6))
                        == (symbol@.subrange(0, symbol@.len() - all[i as int].len()), all[i as int]));
                    return (string_from_chars(base.as_slice()), String::from_str(suffixes[i]));
                }
                i = i + 1;
            }
            assert(all.subrange(6, 6) =~= Seq::<Seq<char>>::empty());
            (String::from_str(symbol), String::new())
        },
    }
}

/// Text pairs as `key=value` items joined with `&`.
pub open spec fn kv_joined(pairs: Seq<(Seq<char>, Seq<char>)>) -> Seq<char>
    decreases pairs.len(),
{
    if pairs.len() == 0 {
        Seq::empty()
    } else {
        let item = pairs.last().0 + "="@ + pairs.last().1;
        if pairs.len() == 1 {
            item
        } else {
            kv_joined(pairs.drop_last()) + "&"@ + item
        }
    }
}

/// The order in which a stable sort by key lists the indices of `keys`.
pub open spec fn sorted_by_key(keys: Seq<Seq<char>>) -> Seq<usize> {
    choose|p: Seq<usize>| is_stable_order(p, keys)
}

/// The pairs as texts.
pub open spec fn pair_texts(pairs: Seq<(&str, String)>) -> Seq<(Seq<char>, Seq<char>)> {
    pairs.map_values(|e: (&str, String)| (e.0@, e.1@))
}

/// The text of query parameters sorted by key (stably, so pairs with equal
/// keys keep their order) and joined as `k1=v1&k2=v2`.
pub open spec fn sorted_kv_text(pairs: Seq<(Seq<char>, Seq<char>)>) -> Seq<char> {
    kv_joined(
        sorted_by_key(pairs.map_values(|e: (Seq<char>, Seq<char>)| e.0)).map_values(
            |i: usize| pairs[i as int],
        ),
    )
}

/// Sorts `(key, value)` pairs by key and joins them as `k1=v1&k2=v2`.
pub fn sorted_kv(pairs: &[(&str, String)]) -> (r: String)
    ensures
        r@ == sorted_kv_text(pair_texts(pairs@)),
{
    let ghost texts = pair_texts(pairs@);
    let ghost ks = texts.map_values(|e: (Seq<char>, Seq<char>)| e.0);
    let mut keys: Vec<Vec<char>> = Vec::new();
    let mut i: usize = 0;
    while i < pairs.len()
        invariant
            i <= pairs.len(),
            texts == pair_texts(pairs@),
            ks == texts.map_values(|e: (Seq<char>, Seq<char>)| e.0),
            keys@.len() == i,
            forall|j: int| 0 <= j < i ==> (#[trigger] keys@[j])@ == ks[j],
        decreases pairs.len() - i,
    {
        keys.push(chars_of(pairs[i].0));
        i = i + 1;
    }
    proof {
        assert(keys@.map_values(|k: Vec<char>| k@) =~= ks);
    }
    let order = stable_order(&keys);
    proof {
        assert(is_stable_order(order@, ks));
        lemma_stable_order_unique(order@, sorted_by_key(ks), ks);
    }
    let ghost listed = order@.map_values(|j: usize| texts[j as int]);
    let mut out: Vec<char> = Vec::new();
    let mut k: usize = 0;
    while k < order.len()
        invariant
            k <= order@.len(),
            texts == pair_texts(pairs@),
            order@.len() == pairs@.len(),
            forall|a: int| 0 <= a < order@.len() ==> (#[trigger] order@[a]) < pairs@.len(),
            listed == order@.map_values(|j: usize| texts[j as int]),
            out@ == kv_joined(listed.subrange(0, k as int)),
        decreases order.len() - k,
    {
        let j = order[k];
        if k > 0 {
            out.push('&');
        }
        append_str(&mut out, pairs[j].0);
        out.push('=');
        append_str(&mut out, pairs[j].1.as_str());
        proof {
            let pre = listed.subrange(0, k as int);
            let now = listed.subrange(0, k + 1);
            assert(now.drop_last() =~= pre);
            assert(now.last() == texts[j as int]);
            reveal_strlit("=");
            reveal_strlit("&");
            if k == 0 {
                assert(out@ =~= kv_joined(now));
            } else {
                assert(out@ =~= kv_joined(now));
            }
        }
        k = k + 1;
    }
    proof {
        assert(listed.subrange(0, k as int) =~= listed);
        assert(texts.map_values(|e: (Seq<char>, Seq<char>)| e.0) == ks);
    }
    string_from_chars(out.as_slice())
}

/// The span of one transaction-log request: seven days in milliseconds.
pub const LOG_WINDOW_MS: i64 = 604_800_000;

/// The range a transaction-log request covers: up to `end_ms`, or now where
/// it is not positive; from `start_ms`, or seven days before the end where
/// it is not positive; a start after the end is moved to the end.
pub open spec fn log_range(start_ms: i64, end_ms: i64, now_ms: i64) -> (int, int) {
    let end = if end_ms > 0 { end_ms as int } else { now_ms as int };
    let start = if start_ms > 0 { start_ms as int } else { end - LOG_WINDOW_MS };
    (if start < end { start } else { end }, end)
}

/// The `k`th seven-day window of a range: from `start + k` windows to a
/// millisecond before the next, cut at the range's end.
pub open spec fn log_window(start: int, end: int, k: int) -> (int, int) {
    let from = start + k * LOG_WINDOW_MS;
    let to = from + LOG_WINDOW_MS - 1;
    (from, if to < end { to } else { end })
}

/// Splits the range of a transaction-log request into the consecutive
/// seven-day windows that are fetched one after another.
pub fn transaction_windows(start_ms: i64, end_ms: i64, now_ms: i64) -> (r: Vec<(i64, i64)>)
    requires
        end_ms <= i64::MAX - LOG_WINDOW_MS,
        0 <= now_ms <= i64::MAX - LOG_WINDOW_MS,
    ensures
        ({
            let (start, end) = log_range(start_ms, end_ms, now_ms);
            &&& r@.len() == (end - start) / (LOG_WINDOW_MS as int) + 1
            &&& forall|k: int| 0 <= k < r@.len() ==> (#[trigger] r@[k]).0 == log_window(start, end, k).0
                && r@[k].1 == log_window(start, end, k).1
        }),
{
    let requested_end: i64 = if end_ms > 0 { end_ms } else { now_ms };
    let requested_start: i64 = if start_ms > 0 { start_ms } else { requested_end - LOG_WINDOW_MS };
    let normalized_start: i64 = if requested_start < requested_end { requested_start } else { requested_end };
    let ghost start = normalized_start as int;
    let ghost end = requested_end as int;
    let mut windows: Vec<(i64, i64)> = Vec::new();
    let mut window_start: i64 = normalized_start;
    loop
        invariant_except_break
            end == requested_end as int,
            start <= window_start <= end,
            end <= i64::MAX - LOG_WINDOW_MS,
            window_start == start + windows@.len() * LOG_WINDOW_MS,
            forall|k: int| 0 <= k < windows@.len() ==> (#[trigger] windows@[k]).0 == log_window(start, end, k).0
                && windows@[k].1 == log_window(start, end, k).1,
        ensures
            windows@.len() == (end - start) / (LOG_WINDOW_MS as int) + 1,
            forall|k: int| 0 <= k < windows@.len() ==> (#[trigger] windows@[k]).0 == log_window(start, end, k).0
                && windows@[k].1 == log_window(start, end, k).1,
        decreases end - window_start,
    {
        let candidate = window_start + LOG_WINDOW_MS - 1;
        let window_end: i64 = if candidate < requested_end { candidate } else { requested_end };
        let ghost n = windows@.len();
        windows.push((window_start, window_end));
        proof {
            assert(log_window(start, end, n as int).0 == window_start);
            assert(log_window(start, end, n as int).1 == window_end);
            assert(windows@[n as int] == (window_start, window_end));
            assert((n + 1) * LOG_WINDOW_MS == n * LOG_WINDOW_MS + LOG_WINDOW_MS) by (nonlinear_arith);
        }
        if window_end == requested_end {
            proof {
                assert(end - start < (n + 1) * LOG_WINDOW_MS);
                assert(n * LOG_WINDOW_MS <= end - start);
                assert((end - start) / (LOG_WINDOW_MS as int) == n) by (nonlinear_arith)
                    requires n * LOG_WINDOW_MS <= end - start < (n + 1) * LOG_WINDOW_MS;
            }
            break;
        }
        window_start = window_end + 1;
        proof {
            assert(window_start == start + (n + 1) * LOG_WINDOW_MS) by (nonlinear_arith)
                requires window_start == start + n * LOG_WINDOW_MS + LOG_WINDOW_MS;
        }
    }
    windows
}

/// The windows of a range tile it: each starts a millisecond after the one
/// before it ends, the first starts at the range's start and the last ends
/// at its end.
pub proof fn lemma_log_windows_tile(start: int, end: int)
    requires
        start <= end,
    ensures
        log_window(start, end, 0).0 == start,
        forall|k: int| 0 <= k < (end - start) / (LOG_WINDOW_MS as int) ==> #[trigger] log_window(start, end, k).1 + 1
            == log_window(start, end, k + 1).0,
        log_window(start, end, (end - start) / (LOG_WINDOW_MS as int)).1 == end,
{
    let w = LOG_WINDOW_MS as int;
    let n = (end - start) / w;
    assert(n * w <= end - start < n * w + w) by (nonlinear_arith)
        requires w > 0, end - start >= 0, n == (end - start) / w;
    assert forall|k: int| 0 <= k < n implies #[trigger] log_window(start, end, k).1 + 1 == log_window(start, end, k + 1).0 by {
        assert((k + 1) * w <= n * w) by (nonlinear_arith)
            requires k + 1 <= n, w > 0;
        assert((k + 1) * w == k * w + w) by (nonlinear_arith);
    }
}

/// Whether a record at `ts` falls in the window `[start_ms, end_ms]`.
pub fn in_log_window(ts: i64, start_ms: i64, end_ms: i64) -> (r: bool)
    ensures
        r == (start_ms <= ts && ts <= end_ms),
{
    !(ts < start_ms || ts > end_ms)
}

/// The side of a fill: `"buy"` for trade side 1 (also where none is given),
/// else `"sell"`.
pub fn trade_side_text(trade_side: Option<i64>) -> (r: &'static str)
    ensures
        r@ == (if trade_side is None || trade_side == Some(1i64) { "buy"@ } else { "sell"@ }),
{
    let side = match trade_side {
        Some(v) => v,
        None => 1,
    };
    if side == 1 { "buy" } else { "sell" }
}

/// The direction of a position: `"long"` for trade side 1 (also where
/// none is given), else `"short"`.
pub fn position_direction(trade_side: Option<i64>) -> (r: &'static str)
    ensures
        r@ == (if trade_side is None || trade_side == Some(1i64) { "long"@ } else { "short"@ }),
{
    let side = match trade_side {
        Some(v) => v,
        None => 1,
    };
    if side == 1 { "long" } else { "short" }
}

/// The smallest row id seen so far, after seeing `id`.
pub fn lower_min(current: Option<i64>, id: i64) -> (r: Option<i64>)
    ensures
        r == Some(match current {
            Some(m) => if m < id { m } else { id },
            None => id,
        }),
{
    match current {
        Some(m) => Some(if m < id { m } else { id }),
        None => Some(id),
    }
}

/// The cursor of the next page of fills: the smallest id of this page, where
/// the reply says there is a next page and the page had a row.
pub fn next_page_cursor(has_next: bool, min_id: Option<i64>) -> (r: Option<i64>)
    ensures
        r == (if has_next { min_id } else { None }),
{
    if !has_next {
        None
    } else {
        min_id
    }
}

/// An id given as a number or as text: the number's decimal text where it
/// is a number, else the text, else empty.
pub fn id_text(number: Option<i64>, text: Option<&str>) -> (r: String)
    ensures
        r@ == match number {
            Some(n) => signed_decimal(n as int),
            None => match text {
                Some(t) => t@,
                None => Seq::<char>::empty(),
            },
        },
{
    match number {
        Some(n) => string_from_chars(i64_decimal(n).as_slice()),
        None => match text {
            Some(t) => string_from_chars(chars_of(t).as_slice()),
            None => String::new(),
        },
    }
}

/// The type of a deposit or withdrawal record: `"transfer_out"` for side
/// `"withdraw"`, else `"transfer_in"` (a missing side reads as a deposit).
pub fn transfer_type(side: Option<&str>) -> (r: &'static str)
    ensures
        r@ == (if side matches Some(s) && s@ == "withdraw"@ { "transfer_out"@ } else { "transfer_in"@ }),
{
    match side {
        Some(s) => if str_eq(s, "withdraw") { "transfer_out" } else { "transfer_in" },
        None => "transfer_in",
    }
}

/// The info text of a deposit or withdrawal record.
pub fn transfer_info(network: &str, status: &str, tx_id: &str) -> (r: String)
    ensures
        r@ == "network="@ + network@ + " status="@ + status@ + " txId="@ + tx_id@,
{
    let mut v: Vec<char> = Vec::new();
    append_str(&mut v, "network=");
    append_str(&mut v, network);
    append_str(&mut v, " status=");
    append_str(&mut v, status);
    append_str(&mut v, " txId=");
    append_str(&mut v, tx_id);
    assert(v@ =~= "network="@ + network@ + " status="@ + status@ + " txId="@ + tx_id@);
    string_from_chars(v.as_slice())
}

/// The page after `page` of a paged record list, where there is one: the
/// page held the full 50 records and fewer than `total` (cut to 32 bits;
/// 0 where none is given) were fetched up to it.
pub fn next_record_page(page: u32, page_len: usize, total: Option<u64>) -> (r: Option<u32>)
    requires
        page <= u32::MAX / 50,
    ensures
        r == (if page_len < 50 || page * 50 >= (match total { Some(t) => t as u32, None => 0u32 }) {
            None
        } else {
            Some((page + 1) as u32)
        }),
{
    let total_u32: u32 = match total {
        Some(t) => t as u32,
        None => 0,
    };
    if page_len < 50 || page * 50 >= total_u32 {
        None
    } else {
        Some(page + 1)
    }
}

/// The type of a system transfer record: type 0 is a credit, 1 rewards,
/// 3 and 4 bonuses; any other (2 where none is given) is a transfer, in
/// for side 0 (also where none is given) and out otherwise.
pub open spec fn sys_transfer_type_of(raw_type: Option<i64>, side: Option<i64>) -> Seq<char> {
    let t = match raw_type { Some(v) => v, None => 2 };
    let sd = match side { Some(v) => v, None => 0 };
    if t == 0 {
        "credit"@
    } else if t == 1 {
        "rewards"@
    } else if t == 3 || t == 4 {
        "bonus"@
    } else if sd == 0 {
        "transfer_in"@
    } else {
        "transfer_out"@
    }
}

/// Maps a system transfer record to its transaction type.
pub fn sys_transfer_type(raw_type: Option<i64>, side: Option<i64>) -> (r: &'static str)
    ensures
        r@ == sys_transfer_type_of(raw_type, side),
{
    let t: i64 = match raw_type {
        Some(v) => v,
        None => 2,
    };
    let sd: i64 = match side {
        Some(v) => v,
        None => 0,
    };
    if t == 0 {
        "credit"
    } else if t == 1 {
        "rewards"
    } else if t == 3 || t == 4 {
        "bonus"
    } else if sd == 0 {
        "transfer_in"
    } else {
        "transfer_out"
    }
}

/// The direction of a system transfer: `in` for side 0 (also where none is
/// given), else `out`.
pub fn sys_transfer_side(side: Option<i64>) -> (r: &'static str)
    ensures
        r@ == (if side is None || side == Some(0i64) { "in"@ } else { "out"@ }),
{
    match side {
        Some(v) => if v == 0 { "in" } else { "out" },
        None => "in",
    }
}

/// The side of a delivery settlement: `buy` for trade side 1, `sell` for 2,
/// else empty.
pub fn delivery_side(trade_side: Option<i64>) -> (r: &'static str)
    ensures
        r@ == (if trade_side == Some(1i64) {
            "buy"@
        } else if trade_side == Some(2i64) {
            "sell"@
        } else {
            Seq::<char>::empty()
        }),
{
    proof {
        reveal_strlit("");
    }
    match trade_side {
        Some(v) => if v == 1 { "buy" } else if v == 2 { "sell" } else { "" },
        None => "",
    }
}

/// The id of a delivery settlement: its numeric id, else its exercise id,
/// else one made of the symbol and the time (`ex-SYMBOL-TS`).
pub open spec fn delivery_id_of(number: Option<i64>, exercise_id: Option<&str>, symbol: Seq<char>, ts: i64) -> Seq<char> {
    match number {
        Some(n) => signed_decimal(n as int),
        None => match exercise_id {
            Some(e) => e@,
            None => "ex-"@ + symbol + "-"@ + signed_decimal(ts as int),
        },
    }
}

/// Builds the id of a delivery settlement.
pub fn delivery_id(number: Option<i64>, exercise_id: Option<&str>, symbol: &str, ts: i64) -> (r: String)
    ensures
        r@ == delivery_id_of(number, exercise_id, symbol@, ts),
{
    match number {
        Some(n) => string_from_chars(i64_decimal(n).as_slice()),
        None => match exercise_id {
            Some(e) => String::from_str(e),
            None => {
                let mut v: Vec<char> = Vec::new();
                append_str(&mut v, "ex-");
                append_str(&mut v, symbol);
                append_str(&mut v, "-");
                let t = i64_decimal(ts);
                append_chars(&mut v, t.as_slice());
                assert(v@ =~= "ex-"@ + symbol@ + "-"@ + signed_decimal(ts as int));
                string_from_chars(v.as_slice())
            },
        },
    }
}

/// The base currency recorded for a fill: its fee currency, or its symbol
/// where the fee currency is empty.
pub fn fill_base_currency(fee_ccy: &str, symbol: &str) -> (r: String)
    ensures
        r@ == (if fee_ccy@.len() > 0 { fee_ccy@ } else { symbol@ }),
{
    if fee_ccy.is_empty() {
        String::from_str(symbol)
    } else {
        String::from_str(fee_ccy)
    }
}

/// The option type a CoInCall option symbol ends with: `call` where its
/// last `-`-separated part is `C`, else `put`.
pub fn option_type_of_symbol(symbol: &str) -> (r: &'static str)
    ensures
        r@ == (if crate::text::split_char(symbol@, '-').last() == "C"@ { "call"@ } else { "put"@ }),
{
    let c = chars_of(symbol);
    let parts = crate::text::split_chars(c.as_slice(), '-');
    proof {
        crate::text::lemma_split_char_nonempty(symbol@, '-');
        assert(parts@.map_values(|p: Vec<char>| p@).len() == parts@.len());
        assert(parts@.map_values(|p: Vec<char>| p@)[parts@.len() - 1] == parts@[parts@.len() - 1]@);
    }
    let last = string_from_chars(parts[parts.len() - 1].as_slice());
    if str_eq(last.as_str(), "C") { "call" } else { "put" }
}

} // verus!
