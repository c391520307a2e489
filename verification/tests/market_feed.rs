use order_dashboard::market::{
    bybit_message, bybit_message_is_snapshot, bybit_message_ts, coincall_message, deribit_feed_message,
    deribit_message, deribit_message_is_snapshot, okx_message, okx_message_is_snapshot, FeedMessage,
};
use order_dashboard::ws_book::{
    bybit_book_action, deribit_book_action, deribit_book_ts, hyperliquid_book_action, hyperliquid_book_ts,
    okx_book_action, okx_book_ts, BookAction,
};

#[test]
fn deribit_book_notification_is_read() {
    let text = r#"{"jsonrpc":"2.0","method":"subscription","params":{"channel":"book.BTC-PERPETUAL.100ms","data":{"type":"snapshot","bids":[["new",100.0,1.0]]}}}"#;
    assert_eq!(deribit_message(text), FeedMessage::Book);
    assert!(deribit_message_is_snapshot(text));
}

#[test]
fn deribit_ticker_and_replies() {
    let ticker = r#"{"method":"subscription","params":{"channel":"ticker.BTC-PERPETUAL.100ms","data":{}}}"#;
    assert_eq!(deribit_message(ticker), FeedMessage::Ticker);
    let reply = r#"{"jsonrpc":"2.0","id":1,"result":["book.BTC-PERPETUAL.100ms"]}"#;
    assert_eq!(deribit_message(reply), FeedMessage::Other);
    assert_eq!(deribit_message("not json"), FeedMessage::Other);
    let change = r#"{"method":"subscription","params":{"channel":"book.X","data":{"type":"change"}}}"#;
    assert!(!deribit_message_is_snapshot(change));
    assert_eq!(deribit_feed_message(Some("subscription"), Some("book.X")), FeedMessage::Book);
}

#[test]
fn okx_messages_by_channel() {
    let book = r#"{"arg":{"channel":"books","instId":"BTC-USDT"},"action":"update","data":[]}"#;
    assert_eq!(okx_message(book), FeedMessage::Book);
    assert!(!okx_message_is_snapshot(book));
    let plain = r#"{"arg":{"channel":"books","instId":"BTC-USDT"},"data":[]}"#;
    assert!(okx_message_is_snapshot(plain));
    let ticker = r#"{"arg":{"channel":"tickers","instId":"BTC-USDT"},"data":[]}"#;
    assert_eq!(okx_message(ticker), FeedMessage::Ticker);
    assert_eq!(okx_message(r#"{"event":"subscribe"}"#), FeedMessage::Other);
}

#[test]
fn bybit_messages_by_topic() {
    let book = r#"{"topic":"orderbook.50.BTCUSDT","type":"snapshot","ts":1700000000123,"data":{"b":[],"a":[]}}"#;
    assert_eq!(bybit_message(book), FeedMessage::Book);
    assert!(bybit_message_is_snapshot(book));
    assert_eq!(bybit_message_ts(book, 5), 1700000000123);
    let delta = r#"{"topic":"orderbook.50.BTCUSDT","data":{}}"#;
    assert!(!bybit_message_is_snapshot(delta));
    assert_eq!(bybit_message_ts(delta, 5), 5);
    let ticker = r#"{"topic":"tickers.BTCUSDT","data":{}}"#;
    assert_eq!(bybit_message(ticker), FeedMessage::Ticker);
    assert_eq!(bybit_message(r#"{"success":true,"op":"subscribe"}"#), FeedMessage::Other);
}

#[test]
fn coincall_messages_by_code() {
    assert_eq!(coincall_message(r#"{"rc":1}"#, true), FeedMessage::Other);
    assert_eq!(coincall_message(r#"{"dt":5,"d":{}}"#, true), FeedMessage::Book);
    assert_eq!(coincall_message(r#"{"dt":3,"d":{}}"#, true), FeedMessage::Ticker);
    assert_eq!(coincall_message(r#"{"dt":32,"d":{}}"#, false), FeedMessage::Book);
    assert_eq!(coincall_message(r#"{"dt":30,"d":{}}"#, false), FeedMessage::Ticker);
    assert_eq!(coincall_message(r#"{"dt":5,"d":{}}"#, false), FeedMessage::Other);
    assert_eq!(coincall_message(r#"{"d":{}}"#, false), FeedMessage::Other);
}

#[test]
fn aggregated_book_actions() {
    let d = r#"{"method":"subscription","params":{"channel":"book.X.raw","data":{"type":"change","timestamp":42}}}"#;
    assert_eq!(deribit_book_action(d), BookAction::Delta);
    assert_eq!(deribit_book_ts(d, 7), 42);
    let s = r#"{"method":"subscription","params":{"data":{"type":"snapshot"}}}"#;
    assert_eq!(deribit_book_action(s), BookAction::Snapshot);
    assert_eq!(deribit_book_ts(s, 7), 7);
    assert_eq!(deribit_book_action(r#"{"id":1,"result":[]}"#), BookAction::Skip);

    assert_eq!(okx_book_action("pong"), BookAction::Skip);
    let o = r#"{"action":"update","data":[{"ts":"1700000000456","bids":[],"asks":[]}]}"#;
    assert_eq!(okx_book_action(o), BookAction::Delta);
    assert_eq!(okx_book_ts(o, 1), 1700000000456);
    assert_eq!(okx_book_ts(r#"{"action":"snapshot","data":[{"ts":"x"}]}"#, 1), 1);
    assert_eq!(okx_book_action(r#"{"action":"snapshot"}"#), BookAction::Snapshot);
    assert_eq!(okx_book_action(r#"{"event":"subscribe"}"#), BookAction::Skip);

    assert_eq!(bybit_book_action(r#"{"type":"delta"}"#), BookAction::Delta);
    assert_eq!(bybit_book_action(r#"{"type":"snapshot"}"#), BookAction::Snapshot);
    assert_eq!(bybit_book_action(r#"{"op":"pong"}"#), BookAction::Skip);

    let h = r#"{"channel":"l2Book","data":{"coin":"BTC","time":99,"levels":[[],[]]}}"#;
    assert_eq!(hyperliquid_book_action(h), BookAction::Snapshot);
    assert_eq!(hyperliquid_book_ts(h, 3), 99);
    assert_eq!(hyperliquid_book_action(r#"{"channel":"subscriptionResponse"}"#), BookAction::Skip);
}
