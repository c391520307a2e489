//! Public WebSocket endpoints of the aggregated-book feeds.

use vstd::prelude::*;
use crate::clock::{millis_reading, unix_millis};
use crate::decimal::{parse_i64_chars, parse_signed};
use crate::market::{is_word, json_i64_at, json_str_at, read_json_i64, read_json_str};
use crate::text::{
    all_ascii, ascii_lower, append_str, chars_contain, chars_of, contains_char, contains_text, ends_with,
    str_eq, string_from_chars, to_lowercase, unicode_lowercase,
};

verus! {

/// Milliseconds since the Unix epoch (0 before it), as a signed number
/// (`as i64` of the 64-bit count).
pub fn now_ms() -> (r: i64)
    ensures
        exists|d: Option<u128>| r == millis_reading(d) as i64,
{
    unix_millis() as i64
}

/// The Bybit public stream for an instrument: options carry a `-`,
/// inverse perpetuals end in USD (not USDT or USDC), the rest is linear.
pub open spec fn bybit_stream_of(instrument: Seq<char>) -> Seq<char> {
    if instrument.contains('-') {
        "wss://stream.bybit.com/v5/public/option"@
    } else if "USD"@.is_suffix_of(instrument) && !"USDT"@.is_suffix_of(instrument) && !"USDC"@.is_suffix_of(
        instrument,
    ) {
        "wss://stream.bybit.com/v5/public/inverse"@
    } else {
        "wss://stream.bybit.com/v5/public/linear"@
    }
}

/// Determines the Bybit WS URL from an instrument name.
pub fn bybit_ws_url(instrument: &str) -> (r: &'static str)
    ensures
        r@ == bybit_stream_of(instrument@),
{
    if contains_char(instrument, '-') {
        return "wss://stream.bybit.com/v5/public/option";
    }
    if ends_with(instrument, "USD") && !ends_with(instrument, "USDT") && !ends_with(instrument, "USDC") {
        return "wss://stream.bybit.com/v5/public/inverse";
    }
    "wss://stream.bybit.com/v5/public/linear"
}

/// The Binance depth stream of a lowercased symbol: coin-margined futures
/// (containing `usd_`) on dstream, the rest on fstream.
pub open spec fn binance_stream_of(sym: Seq<char>) -> Seq<char> {
    if contains_text(sym, "usd_"@) {
        "wss://dstream.binance.com/ws/"@ + sym + "@depth20@100ms"@
    } else {
        "wss://fstream.binance.com/ws/"@ + sym + "@depth20@100ms"@
    }
}

/// The Binance 20-level depth stream URL for an instrument.
pub fn binance_ws_url(instrument: &str) -> (r: String)
    ensures
        r@ == binance_stream_of(unicode_lowercase(instrument@)),
        all_ascii(instrument@) ==> r@ == binance_stream_of(ascii_lower(instrument@)),
{
    let sym = to_lowercase(instrument);
    let c = chars_of(sym.as_str());
    let needle = chars_of("usd_");
    let mut v: Vec<char> = Vec::new();
    if chars_contain(c.as_slice(), needle.as_slice()) {
        append_str(&mut v, "wss://dstream.binance.com/ws/");
    } else {
        append_str(&mut v, "wss://fstream.binance.com/ws/");
    }
    append_str(&mut v, sym.as_str());
    append_str(&mut v, "@depth20@100ms");
    assert(v@ =~= binance_stream_of(sym@));
    string_from_chars(v.as_slice())
}

/// The Deribit channel of an instrument's raw book (`book.INSTRUMENT.raw`).
pub fn deribit_book_channel(instrument: &str) -> (r: String)
    ensures
        r@ == "book."@ + instrument@ + ".raw"@,
{
    let mut v: Vec<char> = chars_of("book.");
    append_str(&mut v, instrument);
    append_str(&mut v, ".raw");
    string_from_chars(v.as_slice())
}

/// The Bybit topic of an instrument's 50-level book (`orderbook.50.INSTRUMENT`).
pub fn bybit_book_topic(instrument: &str) -> (r: String)
    ensures
        r@ == "orderbook.50."@ + instrument@,
{
    let mut v: Vec<char> = chars_of("orderbook.50.");
    append_str(&mut v, instrument);
    string_from_chars(v.as_slice())
}

/// What a book message asks of the local book.
#[derive(Debug, Clone, Copy, PartialEq, Eq, Structural)]
pub enum BookAction {
    /// Replace the book.
    Snapshot,
    /// Apply the levels as changes.
    Delta,
    /// Nothing to apply.
    Skip,
}

/// A Deribit message: `subscription` notifications carry the book, a
/// snapshot where `params.data.type` says so, else a delta.
pub open spec fn deribit_action_of(method: Option<Seq<char>>, kind: Option<Seq<char>>) -> BookAction {
    if method == Some("subscription"@) {
        if kind == Some("snapshot"@) {
            BookAction::Snapshot
        } else {
            BookAction::Delta
        }
    } else {
        BookAction::Skip
    }
}

/// Reads what a Deribit book message asks.
pub fn deribit_book_action(text: &str) -> (r: BookAction)
    ensures
        r == deribit_action_of(json_str_at(text@, "/method"@), json_str_at(text@, "/params/data/type"@)),
{
    let method = read_json_str(text, "/method");
    if !is_word(&method, "subscription") {
        return BookAction::Skip;
    }
    let kind = read_json_str(text, "/params/data/type");
    if is_word(&kind, "snapshot") {
        BookAction::Snapshot
    } else {
        BookAction::Delta
    }
}

/// The time of a Deribit book message: `params.data.timestamp`, else
/// `now_ms`.
pub fn deribit_book_ts(text: &str, now_ms: i64) -> (r: i64)
    ensures
        r == match json_i64_at(text@, "/params/data/timestamp"@) {
            Some(t) => t,
            None => now_ms,
        },
{
    match read_json_i64(text, "/params/data/timestamp") {
        Some(t) => t,
        None => now_ms,
    }
}

/// An OKX message by `action`: `snapshot` or `update`, anything else is
/// skipped.
pub open spec fn okx_action_of(action: Option<Seq<char>>) -> BookAction {
    if action == Some("snapshot"@) {
        BookAction::Snapshot
    } else if action == Some("update"@) {
        BookAction::Delta
    } else {
        BookAction::Skip
    }
}

/// Reads what an OKX book message asks; the `pong` heartbeat is skipped.
pub fn okx_book_action(text: &str) -> (r: BookAction)
    ensures
        r == if text@ == "pong"@ {
            BookAction::Skip
        } else {
            okx_action_of(json_str_at(text@, "/action"@))
        },
{
    if str_eq(text, "pong") {
        return BookAction::Skip;
    }
    let action = read_json_str(text, "/action");
    if is_word(&action, "snapshot") {
        BookAction::Snapshot
    } else if is_word(&action, "update") {
        BookAction::Delta
    } else {
        BookAction::Skip
    }
}

/// The time of an OKX book message: the first entry's `ts`, a decimal text
/// read as `str::parse::<i64>` does, else `now_ms`.
pub fn okx_book_ts(text: &str, now_ms: i64) -> (r: i64)
    ensures
        r == match json_str_at(text@, "/data/0/ts"@) {
            Some(t) => match parse_signed(t, i64::MAX as nat) {
                Some(v) => v as i64,
                None => now_ms,
            },
            None => now_ms,
        },
{
    let ts = read_json_str(text, "/data/0/ts");
    match &ts {
        Some(t) => {
            let c = chars_of(t.as_str());
            match parse_i64_chars(c.as_slice()) {
                Some(v) => v,
                None => now_ms,
            }
        },
        None => now_ms,
    }
}

/// A Bybit message by `type`: `snapshot` or `delta`, anything else is
/// skipped.
pub open spec fn bybit_action_of(kind: Option<Seq<char>>) -> BookAction {
    if kind == Some("snapshot"@) {
        BookAction::Snapshot
    } else if kind == Some("delta"@) {
        BookAction::Delta
    } else {
        BookAction::Skip
    }
}

/// Reads what a Bybit book message asks.
pub fn bybit_book_action(text: &str) -> (r: BookAction)
    ensures
        r == bybit_action_of(json_str_at(text@, "/type"@)),
{
    let kind = read_json_str(text, "/type");
    if is_word(&kind, "snapshot") {
        BookAction::Snapshot
    } else if is_word(&kind, "delta") {
        BookAction::Delta
    } else {
        BookAction::Skip
    }
}

/// A Hyperliquid message: `l2Book` messages carry a full book.
pub open spec fn hyperliquid_action_of(channel: Option<Seq<char>>) -> BookAction {
    if channel == Some("l2Book"@) {
        BookAction::Snapshot
    } else {
        BookAction::Skip
    }
}

/// Reads what a Hyperliquid message asks.
pub fn hyperliquid_book_action(text: &str) -> (r: BookAction)
    ensures
        r == hyperliquid_action_of(json_str_at(text@, "/channel"@)),
{
    let channel = read_json_str(text, "/channel");
    if is_word(&channel, "l2Book") {
        BookAction::Snapshot
    } else {
        BookAction::Skip
    }
}

/// The time of a Hyperliquid book message: `data.time`, else `now_ms`.
pub fn hyperliquid_book_ts(text: &str, now_ms: i64) -> (r: i64)
    ensures
        r == match json_i64_at(text@, "/data/time"@) {
            Some(t) => t,
            None => now_ms,
        },
{
    match read_json_i64(text, "/data/time") {
        Some(t) => t,
        None => now_ms,
    }
}

} // verus!
