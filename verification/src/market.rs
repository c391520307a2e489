//! Market data: the public subscriptions and their routing, the reading of
//! feed messages, and the private stream of each venue.

use vstd::prelude::*;
use crate::tasks::{key_view, TaskTable};
use crate::text::{
    append_str, chars_contain, chars_of, contains_text, ends_with, starts_with, str_eq, string_from_chars,
};

verus! {

/// Stop signal sent to a running market-data task.
pub enum MarketCmd {
    Stop,
}

/// The Bybit public stream for a market-data subscription.
pub open spec fn bybit_stream(exchange_symbol: Seq<char>, kind: Seq<char>) -> Seq<char> {
    if kind == "option"@ {
        "wss://stream.bybit.com/v5/public/option"@
    } else if kind == "spot"@ {
        "wss://stream.bybit.com/v5/public/spot"@
    } else if "USD"@.is_suffix_of(exchange_symbol) || contains_text(exchange_symbol, "-USD-"@) {
        "wss://stream.bybit.com/v5/public/inverse"@
    } else {
        "wss://stream.bybit.com/v5/public/linear"@
    }
}

/// Routes a Bybit subscription by kind, and inverse contracts (ending in
/// USD or holding `-USD-`) to the inverse stream.
pub fn ws_url(exchange_symbol: &str, kind: &str) -> (r: &'static str)
    ensures
        r@ == bybit_stream(exchange_symbol@, kind@),
{
    if str_eq(kind, "option") {
        return "wss://stream.bybit.com/v5/public/option";
    }
    if str_eq(kind, "spot") {
        return "wss://stream.bybit.com/v5/public/spot";
    }
    let s = chars_of(exchange_symbol);
    let needle = chars_of("-USD-");
    if ends_with(exchange_symbol, "USD") || chars_contain(s.as_slice(), needle.as_slice()) {
        return "wss://stream.bybit.com/v5/public/inverse";
    }
    "wss://stream.bybit.com/v5/public/linear"
}

/// The task that feeds a market-data subscription.
#[derive(Debug, Clone, PartialEq, Eq)]
pub enum MarketFeed {
    Deribit,
    Okx,
    /// Bybit, whose stream is chosen by kind (see `ws_url`).
    Bybit,
    /// CoInCall, over its pre-signed WebSocket URL.
    Coincall(String),
}

/// What a subscription request led to.
#[derive(Debug, Clone, PartialEq, Eq)]
pub enum Subscription {
    /// The instrument is already streamed; nothing changed.
    AlreadySubscribed,
    /// A task is to be started with this feed; its handle is registered.
    Started(MarketFeed),
    /// CoInCall was asked for without a signed URL; nothing changed.
    MissingSignedUrl,
    /// The exchange has no public stream here; nothing changed.
    Unsupported,
}

/// The key of a subscription: the exchange and its own symbol.
pub open spec fn subscription_key_of(exchange: Seq<char>, exchange_symbol: Seq<char>) -> Seq<Seq<char>> {
    seq![exchange, exchange_symbol]
}

/// Builds the key of a subscription.
pub fn subscription_key(exchange: &str, exchange_symbol: &str) -> (k: Vec<String>)
    ensures
        key_view(k) == subscription_key_of(exchange@, exchange_symbol@),
{
    let k = vec![String::from_str(exchange), String::from_str(exchange_symbol)];
    assert(key_view(k) =~= subscription_key_of(exchange@, exchange_symbol@));
    k
}

/// Whether `feed` is the one for `exchange` (with the signed URL given).
pub open spec fn feed_for(feed: MarketFeed, exchange: Seq<char>, ws_url: Option<String>) -> bool {
    match feed {
        MarketFeed::Deribit => exchange == "deribit"@,
        MarketFeed::Okx => exchange == "okx"@,
        MarketFeed::Bybit => exchange == "bybit"@,
        MarketFeed::Coincall(u) => exchange == "coincall"@ && (ws_url matches Some(w) && w@ == u@),
    }
}

/// Whether an exchange has a public market-data stream here.
pub open spec fn has_market_feed(exchange: Seq<char>) -> bool {
    exchange == "deribit"@ || exchange == "okx"@ || exchange == "bybit"@ || exchange == "coincall"@
}

/// Subscribes to the book and ticker of an instrument: once per exchange
/// and symbol; the handle of the task to start is registered only where
/// one is started.
pub fn subscribe<H>(
    subs: &mut TaskTable<H>,
    exchange: &str,
    exchange_symbol: &str,
    ws_url: Option<String>,
    handle: H,
) -> (r: Subscription)
    requires
        old(subs).wf(),
    ensures
        final(subs).wf(),
        (r is AlreadySubscribed) == old(subs).keys().contains(subscription_key_of(exchange@, exchange_symbol@)),
        match r {
            Subscription::Started(feed) => feed_for(feed, exchange@, ws_url)
                && final(subs).keys() == old(subs).keys().push(subscription_key_of(exchange@, exchange_symbol@))
                && final(subs).handles() == old(subs).handles().push(handle),
            Subscription::MissingSignedUrl => exchange@ == "coincall"@ && ws_url is None,
            Subscription::Unsupported => !has_market_feed(exchange@),
            Subscription::AlreadySubscribed => true,
        },
        !(r is Started) ==> final(subs).keys() == old(subs).keys() && final(subs).handles() == old(subs).handles(),
        !old(subs).keys().contains(subscription_key_of(exchange@, exchange_symbol@)) && has_market_feed(exchange@)
            && !(exchange@ == "coincall"@ && ws_url is None) ==> r is Started,
{
    let key = subscription_key(exchange, exchange_symbol);
    if subs.contains(&key) {
        return Subscription::AlreadySubscribed;
    }
    let feed = if str_eq(exchange, "deribit") {
        MarketFeed::Deribit
    } else if str_eq(exchange, "okx") {
        MarketFeed::Okx
    } else if str_eq(exchange, "bybit") {
        MarketFeed::Bybit
    } else if str_eq(exchange, "coincall") {
        match ws_url {
            Some(u) => MarketFeed::Coincall(u),
            None => {
                return Subscription::MissingSignedUrl;
            },
        }
    } else {
        return Subscription::Unsupported;
    };
    subs.insert_new(key, handle);
    Subscription::Started(feed)
}

/// The private (account) WebSocket connection of a venue.
#[derive(Debug, Clone, Copy, PartialEq, Eq, Structural)]
pub enum PrivateStream {
    Deribit,
    Bybit,
    /// OKX, logged in with the account's passphrase.
    Okx,
    Coincall,
    Binance,
    Mexc,
    /// Hyperliquid, followed by wallet address.
    Hyperliquid,
    /// Bullish, for the trading account given with the account.
    Bullish,
}

/// The private stream of a venue, where there is one.
pub open spec fn private_stream_of(exchange: Seq<char>) -> Option<PrivateStream> {
    if exchange == "deribit"@ {
        Some(PrivateStream::Deribit)
    } else if exchange == "bybit"@ {
        Some(PrivateStream::Bybit)
    } else if exchange == "okx"@ {
        Some(PrivateStream::Okx)
    } else if exchange == "coincall"@ {
        Some(PrivateStream::Coincall)
    } else if exchange == "binance"@ {
        Some(PrivateStream::Binance)
    } else if exchange == "mexc"@ {
        Some(PrivateStream::Mexc)
    } else if exchange == "hyperliquid"@ {
        Some(PrivateStream::Hyperliquid)
    } else if exchange == "bullish"@ {
        Some(PrivateStream::Bullish)
    } else {
        None
    }
}

/// Every venue with a private WebSocket (Deribit, Bybit, OKX, CoInCall,
/// Binance, MEXC, Hyperliquid and Bullish) gets a stream of its own kind,
/// and only those venues get one.
pub proof fn lemma_private_stream_venues(exchange: Seq<char>)
    ensures
        exchange == "deribit"@ ==> private_stream_of(exchange) == Some(PrivateStream::Deribit),
        exchange == "bybit"@ ==> private_stream_of(exchange) == Some(PrivateStream::Bybit),
        exchange == "okx"@ ==> private_stream_of(exchange) == Some(PrivateStream::Okx),
        exchange == "coincall"@ ==> private_stream_of(exchange) == Some(PrivateStream::Coincall),
        exchange == "binance"@ ==> private_stream_of(exchange) == Some(PrivateStream::Binance),
        exchange == "mexc"@ ==> private_stream_of(exchange) == Some(PrivateStream::Mexc),
        exchange == "hyperliquid"@ ==> private_stream_of(exchange) == Some(PrivateStream::Hyperliquid),
        exchange == "bullish"@ ==> private_stream_of(exchange) == Some(PrivateStream::Bullish),
        private_stream_of(exchange) is Some <==> (exchange == "deribit"@ || exchange == "bybit"@ || exchange
            == "okx"@ || exchange == "coincall"@ || exchange == "binance"@ || exchange == "mexc"@ || exchange
            == "hyperliquid"@ || exchange == "bullish"@),
{
    reveal_strlit("deribit");
    reveal_strlit("bybit");
    reveal_strlit("okx");
    reveal_strlit("coincall");
    reveal_strlit("binance");
    reveal_strlit("mexc");
    reveal_strlit("hyperliquid");
    reveal_strlit("bullish");
    assert("bybit"@[0] != "deribit"@[0]);
    assert("okx"@[0] != "deribit"@[0]);
    assert("okx"@[0] != "bybit"@[0]);
    assert("coincall"@[0] != "deribit"@[0]);
    assert("coincall"@[0] != "bybit"@[0]);
    assert("coincall"@[0] != "okx"@[0]);
    assert("binance"@[1] != "bybit"@[1]);
    assert("binance"@[0] != "deribit"@[0]);
    assert("binance"@[0] != "okx"@[0]);
    assert("binance"@[0] != "coincall"@[0]);
    assert("mexc"@[0] != "deribit"@[0]);
    assert("mexc"@[0] != "bybit"@[0]);
    assert("mexc"@[0] != "okx"@[0]);
    assert("mexc"@[0] != "coincall"@[0]);
    assert("mexc"@[0] != "binance"@[0]);
    assert("hyperliquid"@[0] != "deribit"@[0]);
    assert("hyperliquid"@[0] != "bybit"@[0]);
    assert("hyperliquid"@[0] != "okx"@[0]);
    assert("hyperliquid"@[0] != "coincall"@[0]);
    assert("hyperliquid"@[0] != "binance"@[0]);
    assert("hyperliquid"@[0] != "mexc"@[0]);
    assert("bullish"@[1] != "bybit"@[1]);
    assert("bullish"@[1] != "binance"@[1]);
    assert("bullish"@[0] != "deribit"@[0]);
    assert("bullish"@[0] != "okx"@[0]);
    assert("bullish"@[0] != "coincall"@[0]);
    assert("bullish"@[0] != "mexc"@[0]);
    assert("bullish"@[0] != "hyperliquid"@[0]);
}

/// Two venues never share a private stream.
pub proof fn lemma_private_streams_distinct(a: Seq<char>, b: Seq<char>)
    requires
        private_stream_of(a) is Some,
        private_stream_of(a) == private_stream_of(b),
    ensures
        a == b,
{
}

/// Chooses the private stream to open for an account's venue; other
/// venues are refused.
pub fn private_stream(exchange: &str) -> (r: Result<PrivateStream, String>)
    ensures
        match r {
            Ok(s) => private_stream_of(exchange@) == Some(s),
            Err(e) => private_stream_of(exchange@) is None
                && e@ == "WebSocket not yet supported for "@ + exchange@,
        },
        r is Ok <==> (exchange@ == "deribit"@ || exchange@ == "bybit"@ || exchange@ == "okx"@ || exchange@
            == "coincall"@ || exchange@ == "binance"@ || exchange@ == "mexc"@ || exchange@ == "hyperliquid"@
            || exchange@ == "bullish"@),
        exchange@ == "mexc"@ ==> r == Ok::<PrivateStream, String>(PrivateStream::Mexc),
{
    proof {
        lemma_private_stream_venues(exchange@);
    }
    if str_eq(exchange, "deribit") {
        Ok(PrivateStream::Deribit)
    } else if str_eq(exchange, "bybit") {
        Ok(PrivateStream::Bybit)
    } else if str_eq(exchange, "okx") {
        Ok(PrivateStream::Okx)
    } else if str_eq(exchange, "coincall") {
        Ok(PrivateStream::Coincall)
    } else if str_eq(exchange, "binance") {
        Ok(PrivateStream::Binance)
    } else if str_eq(exchange, "mexc") {
        Ok(PrivateStream::Mexc)
    } else if str_eq(exchange, "hyperliquid") {
        Ok(PrivateStream::Hyperliquid)
    } else if str_eq(exchange, "bullish") {
        Ok(PrivateStream::Bullish)
    } else {
        let mut v: Vec<char> = chars_of("WebSocket not yet supported for ");
        append_str(&mut v, exchange);
        Err(string_from_chars(v.as_slice()))
    }
}

/// What a public market-data message carries.
#[derive(Debug, Clone, Copy, PartialEq, Eq, Structural)]
pub enum FeedMessage {
    Book,
    Ticker,
    /// Anything else (confirmations, heartbeats): nothing to apply.
    Other,
}

/// The text of an optional string slice.
pub open spec fn str_view(o: Option<&str>) -> Option<Seq<char>> {
    match o {
        Some(s) => Some(s@),
        None => None,
    }
}

/// The text of an optional string.
pub open spec fn string_view(o: Option<String>) -> Option<Seq<char>> {
    match o {
        Some(s) => Some(s@),
        None => None,
    }
}

/// The string that `serde_json` finds in a JSON text at a JSON Pointer
/// (`from_str` into a `Value`, then `Value::pointer`, then `as_str`);
/// `None` where the text does not parse, nothing stands there, or it is no
/// string.
pub uninterp spec fn json_str_at(text: Seq<char>, pointer: Seq<char>) -> Option<Seq<char>>;

/// The integer that `serde_json` finds in a JSON text at a JSON Pointer
/// (`from_str` into a `Value`, then `Value::pointer`, then `as_i64`);
/// `None` where the text does not parse, nothing stands there, or it is no
/// integer that fits in an `i64`.
pub uninterp spec fn json_i64_at(text: Seq<char>, pointer: Seq<char>) -> Option<i64>;

/// Wraps `serde_json::from_str::<Value>`, `Value::pointer` and
/// `Value::as_str`: the result is `json_str_at` of the text and pointer.
#[verifier::external_body]
pub(crate) fn read_json_str(text: &str, pointer: &str) -> (r: Option<String>)
    ensures
        string_view(r) == json_str_at(text@, pointer@),
{
    match serde_json::from_str::<serde_json::Value>(text) {
        Ok(v) => match v.pointer(pointer) {
            Some(x) => x.as_str().map(String::from),
            None => None,
        },
        Err(_) => None,
    }
}

/// Wraps `serde_json::from_str::<Value>`, `Value::pointer` and
/// `Value::as_i64`: the result is `json_i64_at` of the text and pointer.
#[verifier::external_body]
pub(crate) fn read_json_i64(text: &str, pointer: &str) -> (r: Option<i64>)
    ensures
        r == json_i64_at(text@, pointer@),
{
    match serde_json::from_str::<serde_json::Value>(text) {
        Ok(v) => match v.pointer(pointer) {
            Some(x) => x.as_i64(),
            None => None,
        },
        Err(_) => None,
    }
}

/// Whether an optional text is `word`.
pub(crate) fn is_word(o: &Option<String>, word: &str) -> (r: bool)
    ensures
        r == (string_view(*o) == Some(word@)),
{
    match o {
        Some(s) => str_eq(s.as_str(), word),
        None => false,
    }
}

/// A Bybit message by topic: `orderbook.` topics are books, `tickers.`
/// topics tickers.
pub open spec fn bybit_feed_of(topic: Option<Seq<char>>) -> FeedMessage {
    match topic {
        Some(t) => if "orderbook."@.is_prefix_of(t) {
            FeedMessage::Book
        } else if "tickers."@.is_prefix_of(t) {
            FeedMessage::Ticker
        } else {
            FeedMessage::Other
        },
        None => FeedMessage::Other,
    }
}

/// An OKX message by channel: `books` or `tickers`.
pub open spec fn okx_feed_of(channel: Option<Seq<char>>) -> FeedMessage {
    if channel == Some("books"@) {
        FeedMessage::Book
    } else if channel == Some("tickers"@) {
        FeedMessage::Ticker
    } else {
        FeedMessage::Other
    }
}

/// A Deribit message: only `subscription` notifications carry data, books
/// on `book.` channels and tickers on `ticker.` channels.
pub open spec fn deribit_feed_of(method: Option<Seq<char>>, channel: Option<Seq<char>>) -> FeedMessage {
    if method == Some("subscription"@) {
        match channel {
            Some(c) => if "book."@.is_prefix_of(c) {
                FeedMessage::Book
            } else if "ticker."@.is_prefix_of(c) {
                FeedMessage::Ticker
            } else {
                FeedMessage::Other
            },
            None => FeedMessage::Other,
        }
    } else {
        FeedMessage::Other
    }
}

/// The CoInCall data-type codes of a subscription: (book, ticker), 5 and 3
/// for options, 32 and 30 otherwise.
pub open spec fn coincall_codes(is_option: bool) -> (i64, i64) {
    if is_option { (5i64, 3i64) } else { (32i64, 30i64) }
}

/// A CoInCall message: a reply code (a subscription answer) carries
/// nothing; else the data-type code says book or ticker.
pub open spec fn coincall_feed_of(reply_code: Option<i64>, data_type: Option<i64>, is_option: bool) -> FeedMessage {
    if reply_code is Some {
        FeedMessage::Other
    } else {
        match data_type {
            Some(dt) => if dt == coincall_codes(is_option).0 {
                FeedMessage::Book
            } else if dt == coincall_codes(is_option).1 {
                FeedMessage::Ticker
            } else {
                FeedMessage::Other
            },
            None => FeedMessage::Other,
        }
    }
}

/// Whether a book message replaces the book: its type is `snapshot`; where
/// it gives none, `missing_is_snapshot` decides.
pub open spec fn snapshot_of(kind: Option<Seq<char>>, missing_is_snapshot: bool) -> bool {
    match kind {
        Some(k) => k == "snapshot"@,
        None => missing_is_snapshot,
    }
}

/// A Bybit message by topic (see `bybit_feed_of`).
pub fn bybit_feed_message(topic: Option<&str>) -> (r: FeedMessage)
    ensures
        r == bybit_feed_of(str_view(topic)),
{
    match topic {
        Some(t) => if starts_with(t, "orderbook.") {
            FeedMessage::Book
        } else if starts_with(t, "tickers.") {
            FeedMessage::Ticker
        } else {
            FeedMessage::Other
        },
        None => FeedMessage::Other,
    }
}

/// An OKX message by channel (see `okx_feed_of`).
pub fn okx_feed_message(channel: Option<&str>) -> (r: FeedMessage)
    ensures
        r == okx_feed_of(str_view(channel)),
{
    match channel {
        Some(c) => if str_eq(c, "books") {
            FeedMessage::Book
        } else if str_eq(c, "tickers") {
            FeedMessage::Ticker
        } else {
            FeedMessage::Other
        },
        None => FeedMessage::Other,
    }
}

/// A Deribit message by method and channel (see `deribit_feed_of`).
pub fn deribit_feed_message(method: Option<&str>, channel: Option<&str>) -> (r: FeedMessage)
    ensures
        r == deribit_feed_of(str_view(method), str_view(channel)),
{
    let is_subscription = match method {
        Some(m) => str_eq(m, "subscription"),
        None => false,
    };
    if !is_subscription {
        return FeedMessage::Other;
    }
    match channel {
        Some(c) => if starts_with(c, "book.") {
            FeedMessage::Book
        } else if starts_with(c, "ticker.") {
            FeedMessage::Ticker
        } else {
            FeedMessage::Other
        },
        None => FeedMessage::Other,
    }
}

/// The CoInCall data-type codes of a subscription (see `coincall_codes`).
pub fn coincall_data_types(is_option: bool) -> (r: (i64, i64))
    ensures
        r == coincall_codes(is_option),
{
    if is_option { (5, 3) } else { (32, 30) }
}

/// A CoInCall message by reply code and data type (see `coincall_feed_of`).
pub fn coincall_feed_message(reply_code: Option<i64>, data_type: Option<i64>, is_option: bool) -> (r: FeedMessage)
    ensures
        r == coincall_feed_of(reply_code, data_type, is_option),
{
    if reply_code.is_some() {
        return FeedMessage::Other;
    }
    let (book_dt, ticker_dt) = coincall_data_types(is_option);
    match data_type {
        Some(dt) => if dt == book_dt {
            FeedMessage::Book
        } else if dt == ticker_dt {
            FeedMessage::Ticker
        } else {
            FeedMessage::Other
        },
        None => FeedMessage::Other,
    }
}

/// Whether a book message replaces the book (see `snapshot_of`): OKX sends
/// snapshots without saying so, Bybit and Deribit deltas.
pub fn is_snapshot_message(kind: Option<&str>, missing_is_snapshot: bool) -> (r: bool)
    ensures
        r == snapshot_of(str_view(kind), missing_is_snapshot),
{
    match kind {
        Some(k) => str_eq(k, "snapshot"),
        None => missing_is_snapshot,
    }
}

/// Reads a Deribit market-data message: its `method` and `params.channel`.
pub fn deribit_message(text: &str) -> (r: FeedMessage)
    ensures
        r == deribit_feed_of(json_str_at(text@, "/method"@), json_str_at(text@, "/params/channel"@)),
{
    let method = read_json_str(text, "/method");
    let channel = read_json_str(text, "/params/channel");
    let m = match &method {
        Some(s) => Some(s.as_str()),
        None => None,
    };
    let c = match &channel {
        Some(s) => Some(s.as_str()),
        None => None,
    };
    deribit_feed_message(m, c)
}

/// Whether a Deribit book message is a snapshot (`params.data.type`).
pub fn deribit_message_is_snapshot(text: &str) -> (r: bool)
    ensures
        r == snapshot_of(json_str_at(text@, "/params/data/type"@), false),
{
    let kind = read_json_str(text, "/params/data/type");
    match &kind {
        Some(s) => is_snapshot_message(Some(s.as_str()), false),
        None => false,
    }
}

/// Reads an OKX market-data message: its `arg.channel`.
pub fn okx_message(text: &str) -> (r: FeedMessage)
    ensures
        r == okx_feed_of(json_str_at(text@, "/arg/channel"@)),
{
    let channel = read_json_str(text, "/arg/channel");
    match &channel {
        Some(s) => okx_feed_message(Some(s.as_str())),
        None => okx_feed_message(None),
    }
}

/// Whether an OKX book message is a snapshot (`action`; a message without
/// one is a snapshot).
pub fn okx_message_is_snapshot(text: &str) -> (r: bool)
    ensures
        r == snapshot_of(json_str_at(text@, "/action"@), true),
{
    let kind = read_json_str(text, "/action");
    match &kind {
        Some(s) => is_snapshot_message(Some(s.as_str()), true),
        None => true,
    }
}

/// Reads a Bybit market-data message: its `topic`.
pub fn bybit_message(text: &str) -> (r: FeedMessage)
    ensures
        r == bybit_feed_of(json_str_at(text@, "/topic"@)),
{
    let topic = read_json_str(text, "/topic");
    match &topic {
        Some(s) => bybit_feed_message(Some(s.as_str())),
        None => bybit_feed_message(None),
    }
}

/// Whether a Bybit book message is a snapshot (`type`; a message without
/// one is a delta).
pub fn bybit_message_is_snapshot(text: &str) -> (r: bool)
    ensures
        r == snapshot_of(json_str_at(text@, "/type"@), false),
{
    let kind = read_json_str(text, "/type");
    match &kind {
        Some(s) => is_snapshot_message(Some(s.as_str()), false),
        None => false,
    }
}

/// The time of a Bybit message: its `ts`, else `now_ms`.
pub fn bybit_message_ts(text: &str, now_ms: i64) -> (r: i64)
    ensures
        r == match json_i64_at(text@, "/ts"@) {
            Some(t) => t,
            None => now_ms,
        },
{
    match read_json_i64(text, "/ts") {
        Some(t) => t,
        None => now_ms,
    }
}

/// Reads a CoInCall market-data message: its reply code `rc` and data type
/// `dt`.
pub fn coincall_message(text: &str, is_option: bool) -> (r: FeedMessage)
    ensures
        r == coincall_feed_of(json_i64_at(text@, "/rc"@), json_i64_at(text@, "/dt"@), is_option),
{
    let rc = read_json_i64(text, "/rc");
    let dt = read_json_i64(text, "/dt");
    coincall_feed_message(rc, dt, is_option)
}

/// Whether a Deribit level update removes its level: a `delete` action, or
/// a size of zero (a missing action reads as `new`).
pub fn deribit_level_removes(action: Option<&str>, size_is_zero: bool) -> (r: bool)
    ensures
        r == ((action matches Some(a) && a@ == "delete"@) || size_is_zero),
{
    let deleted = match action {
        Some(a) => str_eq(a, "delete"),
        None => false,
    };
    deleted || size_is_zero
}

/// Whether a book is emitted now: `interval_ms` or more since the last
/// emit.
pub fn book_emit_due(now_ms: i64, last_emit_ms: i64, interval_ms: u32) -> (r: bool)
    ensures
        r == (now_ms - last_emit_ms >= interval_ms),
{
    (now_ms as i128) - (last_emit_ms as i128) >= interval_ms as i128
}

} // verus!
