use order_dashboard::agg_book::{book_key, start_book};
use order_dashboard::market::{
    book_emit_due, bybit_feed_message, coincall_data_types, coincall_feed_message, deribit_feed_message,
    deribit_level_removes, is_snapshot_message, okx_feed_message, private_stream, subscribe, subscription_key,
    FeedMessage, MarketFeed, PrivateStream, Subscription,
};
use order_dashboard::tasks::{same_key, TaskTable};

fn key(parts: &[&str]) -> Vec<String> {
    parts.iter().map(|p| p.to_string()).collect()
}

#[test]
fn task_table_insert_remove_drain() {
    let mut t: TaskTable<u32> = TaskTable::new();
    assert_eq!(t.len(), 0);
    t.insert_new(key(&["a", "b"]), 1);
    t.insert_new(key(&["ab", ""]), 2);
    t.insert_new(key(&["c"]), 3);
    assert_eq!(t.len(), 3);
    assert!(t.contains(&key(&["a", "b"])));
    assert!(!t.contains(&key(&["a"])));
    assert_eq!(t.position(&key(&["c"])), Some(2));
    assert_eq!(t.remove(&key(&["ab", ""])), Some(2));
    assert_eq!(t.remove(&key(&["ab", ""])), None);
    assert_eq!(t.len(), 2);
    assert_eq!(t.drain(), vec![1, 3]);
    assert_eq!(t.len(), 0);
    assert!(t.drain().is_empty());
}

#[test]
fn same_key_compares_parts() {
    assert!(same_key(&key(&["x", "y"]), &key(&["x", "y"])));
    assert!(!same_key(&key(&["x", "y"]), &key(&["xy"])));
    assert!(!same_key(&key(&["x", "y"]), &key(&["x", "z"])));
}

#[test]
fn subscribe_once_per_instrument() {
    let mut subs: TaskTable<&str> = TaskTable::new();
    assert_eq!(subscribe(&mut subs, "deribit", "BTC-PERPETUAL", None, "h1"), Subscription::Started(MarketFeed::Deribit));
    assert_eq!(subscribe(&mut subs, "deribit", "BTC-PERPETUAL", None, "h2"), Subscription::AlreadySubscribed);
    assert_eq!(subscribe(&mut subs, "okx", "BTC-PERPETUAL", None, "h3"), Subscription::Started(MarketFeed::Okx));
    assert_eq!(subscribe(&mut subs, "bybit", "BTCUSDT", None, "h4"), Subscription::Started(MarketFeed::Bybit));
    assert_eq!(subs.len(), 3);
    assert_eq!(subs.remove(&subscription_key("deribit", "BTC-PERPETUAL")), Some("h1"));
    assert_eq!(subscribe(&mut subs, "deribit", "BTC-PERPETUAL", None, "h5"), Subscription::Started(MarketFeed::Deribit));
    assert_eq!(subs.drain(), vec!["h3", "h4", "h5"]);
}

#[test]
fn subscribe_coincall_needs_signed_url() {
    let mut subs: TaskTable<u8> = TaskTable::new();
    assert_eq!(subscribe(&mut subs, "coincall", "BTCUSD", None, 1), Subscription::MissingSignedUrl);
    assert_eq!(subs.len(), 0);
    let url = "wss://ws.coincall.com/options?code=10".to_string();
    assert_eq!(
        subscribe(&mut subs, "coincall", "BTCUSD", Some(url.clone()), 2),
        Subscription::Started(MarketFeed::Coincall(url))
    );
    assert_eq!(subs.len(), 1);
}

#[test]
fn subscribe_refuses_other_exchanges() {
    let mut subs: TaskTable<u8> = TaskTable::new();
    assert_eq!(subscribe(&mut subs, "binance", "BTCUSDT", None, 1), Subscription::Unsupported);
    assert_eq!(subs.len(), 0);
}

#[test]
fn start_book_replaces_running_task() {
    let mut books: TaskTable<u32> = TaskTable::new();
    assert_eq!(start_book(&mut books, "cfg-1", 10), None);
    assert_eq!(start_book(&mut books, "cfg-2", 20), None);
    assert_eq!(start_book(&mut books, "cfg-1", 11), Some(10));
    assert_eq!(books.len(), 2);
    assert_eq!(books.remove(&book_key("cfg-2")), Some(20));
    assert_eq!(books.drain(), vec![11]);
}

#[test]
fn private_streams_by_venue() {
    assert_eq!(private_stream("deribit"), Ok(PrivateStream::Deribit));
    assert_eq!(private_stream("okx"), Ok(PrivateStream::Okx));
    assert_eq!(private_stream("hyperliquid"), Ok(PrivateStream::Hyperliquid));
    assert_eq!(private_stream("bullish"), Ok(PrivateStream::Bullish));
    assert_eq!(private_stream("uniswap"), Err("WebSocket not yet supported for uniswap".to_string()));
}

#[test]
fn book_feed_channels() {
    assert_eq!(order_dashboard::ws_book::deribit_book_channel("BTC-PERPETUAL"), "book.BTC-PERPETUAL.raw");
    assert_eq!(order_dashboard::ws_book::bybit_book_topic("BTCUSDT"), "orderbook.50.BTCUSDT");
}

#[test]
fn feed_message_routing() {
    assert_eq!(bybit_feed_message(Some("orderbook.50.BTCUSDT")), FeedMessage::Book);
    assert_eq!(bybit_feed_message(Some("tickers.BTCUSDT")), FeedMessage::Ticker);
    assert_eq!(bybit_feed_message(Some("publicTrade.BTCUSDT")), FeedMessage::Other);
    assert_eq!(bybit_feed_message(None), FeedMessage::Other);
    assert_eq!(okx_feed_message(Some("books")), FeedMessage::Book);
    assert_eq!(okx_feed_message(Some("tickers")), FeedMessage::Ticker);
    assert_eq!(okx_feed_message(Some("books5")), FeedMessage::Other);
    assert_eq!(deribit_feed_message(Some("subscription"), Some("book.BTC-PERPETUAL.100ms")), FeedMessage::Book);
    assert_eq!(deribit_feed_message(Some("subscription"), Some("ticker.BTC-PERPETUAL.100ms")), FeedMessage::Ticker);
    assert_eq!(deribit_feed_message(Some("heartbeat"), Some("book.BTC-PERPETUAL.100ms")), FeedMessage::Other);
    assert_eq!(deribit_feed_message(None, None), FeedMessage::Other);
    assert_eq!(coincall_data_types(true), (5, 3));
    assert_eq!(coincall_data_types(false), (32, 30));
    assert_eq!(coincall_feed_message(Some(1), Some(5), true), FeedMessage::Other);
    assert_eq!(coincall_feed_message(None, Some(5), true), FeedMessage::Book);
    assert_eq!(coincall_feed_message(None, Some(30), false), FeedMessage::Ticker);
    assert_eq!(coincall_feed_message(None, Some(5), false), FeedMessage::Other);
    assert_eq!(coincall_feed_message(None, None, false), FeedMessage::Other);
}

#[test]
fn book_message_handling() {
    assert!(is_snapshot_message(Some("snapshot"), false));
    assert!(!is_snapshot_message(Some("delta"), true));
    assert!(is_snapshot_message(None, true));
    assert!(!is_snapshot_message(None, false));
    assert!(deribit_level_removes(Some("delete"), false));
    assert!(deribit_level_removes(Some("change"), true));
    assert!(!deribit_level_removes(None, false));
    assert!(book_emit_due(1_000, 900, 100));
    assert!(!book_emit_due(1_000, 950, 100));
    assert!(book_emit_due(i64::MAX, i64::MIN, 100));
}
