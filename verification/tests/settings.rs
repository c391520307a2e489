use order_dashboard::market::ws_url;
use order_dashboard::models::{default_bot_id, default_tif, GeneralSettings};
use order_dashboard::venue::default_for;
use order_dashboard::ws_book::{binance_ws_url, bybit_ws_url};

#[test]
fn general_settings_defaults() {
    let g = GeneralSettings::default();
    assert_eq!(g.theme, "dark");
    assert_eq!(g.default_currency, "BTC");
    assert_eq!(g.number_locale, "en-US");
    assert_eq!((g.price_decimals, g.size_decimals), (2, 4));
    assert!(g.confirm_orders);
    assert_eq!(g.watched_coins, "");
    assert_eq!(g.bot_id, 1);
    assert_eq!(g.book_emit_interval_ms, 80);
    assert_eq!(default_bot_id(), 1);
    assert_eq!(default_tif(), "good_til_cancelled");
}

#[test]
fn venue_defaults() {
    let d = default_for("deribit");
    assert_eq!(d.exchange, "deribit");
    assert_eq!(d.instrument_types, vec!["option", "future", "perpetual", "spot"]);
    assert_eq!(d.order_feeds.len(), 8);
    let u = default_for("uniswap");
    assert_eq!(u.instrument_types, vec!["spot"]);
    assert_eq!(u.market_feeds, vec!["top_of_book"]);
    assert_eq!(u.order_feeds, vec!["create_order", "account_summary"]);
    let x = default_for("kraken");
    assert_eq!(x.exchange, "kraken");
    assert_eq!(x.market_feeds, vec!["market_trades", "top_of_book"]);
    assert_eq!(x.order_feeds, vec!["account_summary", "create_order", "cancel_order"]);
    assert_eq!(x.notes, "");
}

#[test]
fn stream_urls() {
    assert_eq!(bybit_ws_url("BTC-28JUN24-60000-C"), "wss://stream.bybit.com/v5/public/option");
    assert_eq!(bybit_ws_url("BTCUSD"), "wss://stream.bybit.com/v5/public/inverse");
    assert_eq!(bybit_ws_url("BTCUSDT"), "wss://stream.bybit.com/v5/public/linear");
    assert_eq!(binance_ws_url("BTCUSD_PERP"), "wss://dstream.binance.com/ws/btcusd_perp@depth20@100ms");
    assert_eq!(binance_ws_url("BTCUSDT"), "wss://fstream.binance.com/ws/btcusdt@depth20@100ms");
    assert_eq!(ws_url("BTCUSDT", "option"), "wss://stream.bybit.com/v5/public/option");
    assert_eq!(ws_url("BTCUSDT", "spot"), "wss://stream.bybit.com/v5/public/spot");
    assert_eq!(ws_url("BTCUSD", "future"), "wss://stream.bybit.com/v5/public/inverse");
    assert_eq!(ws_url("BTC-USD-27JUN25", "future"), "wss://stream.bybit.com/v5/public/inverse");
    assert_eq!(ws_url("BTCUSDT", "future"), "wss://stream.bybit.com/v5/public/linear");
}
