use order_dashboard::api::{binance, bullish, coincall};
use order_dashboard::models::{
    default_rate_tier, rfq_default_auto_quote_timeout, rfq_default_coin, rfq_default_source,
};
use order_dashboard::rate_limits::{
    default_limited_exchanges, endpoint_bucket, group_key, private_rps, public_rps, EndpointBucket,
};

#[test]
fn coincall_order_codes() {
    assert_eq!(coincall::trade_side("BUY"), 1);
    assert_eq!(coincall::trade_side("sell"), 2);
    assert_eq!(coincall::trade_type("limit", true), 3);
    assert_eq!(coincall::trade_type("market", false), 2);
    assert_eq!(coincall::trade_type("stop_limit", false), 4);
    assert_eq!(coincall::trade_type("stop_market", false), 5);
    assert_eq!(coincall::trade_type("anything", false), 1);
    assert_eq!(coincall::tif_code(Some("immediate_or_cancel")), Some("IOC"));
    assert_eq!(coincall::tif_code(Some("fill_or_kill")), Some("FOK"));
    assert_eq!(coincall::tif_code(Some("good_til_cancelled")), Some("GTC"));
    assert_eq!(coincall::tif_code(Some("day")), None);
    assert_eq!(coincall::tif_code(None), None);
}

#[test]
fn coincall_order_routes() {
    assert!(coincall::is_option_symbol("BTCUSD-10JAN25-89000-C"));
    assert!(!coincall::is_option_symbol("BTCUSD"));
    assert_eq!(coincall::order_uris("BTCUSD-10JAN25-89000-P").0, "/open/option/order/create/v1");
    assert_eq!(
        coincall::order_uris("BTCUSD"),
        (
            "/open/futures/order/create/v1",
            "/open/futures/order/cancel/v1",
            "/open/futures/order/pending/v1",
            "/open/futures/order/history/v1"
        )
    );
}

#[test]
fn coincall_log_records() {
    assert!(coincall::in_log_window(5, 5, 10));
    assert!(coincall::in_log_window(10, 5, 10));
    assert!(!coincall::in_log_window(11, 5, 10));
    assert!(!coincall::in_log_window(4, 5, 10));
    assert_eq!(coincall::trade_side_text(None), "buy");
    assert_eq!(coincall::trade_side_text(Some(1)), "buy");
    assert_eq!(coincall::trade_side_text(Some(2)), "sell");
    assert_eq!(coincall::position_direction(None), "long");
    assert_eq!(coincall::position_direction(Some(1)), "long");
    assert_eq!(coincall::position_direction(Some(2)), "short");
    assert_eq!(coincall::lower_min(None, 7), Some(7));
    assert_eq!(coincall::lower_min(Some(3), 7), Some(3));
    assert_eq!(coincall::lower_min(Some(9), 7), Some(7));
    assert_eq!(coincall::next_page_cursor(true, Some(4)), Some(4));
    assert_eq!(coincall::next_page_cursor(false, Some(4)), None);
    assert_eq!(coincall::next_page_cursor(true, None), None);
    assert_eq!(coincall::id_text(Some(-42), Some("x")), "-42");
    assert_eq!(coincall::id_text(None, Some("abc")), "abc");
    assert_eq!(coincall::id_text(None, None), "");
    assert_eq!(coincall::transfer_type(Some("withdraw")), "transfer_out");
    assert_eq!(coincall::transfer_type(Some("deposit")), "transfer_in");
    assert_eq!(coincall::transfer_type(None), "transfer_in");
    assert_eq!(coincall::transfer_info("TRC20", "done", "0xab"), "network=TRC20 status=done txId=0xab");
}

#[test]
fn binance_signed_body_now() {
    let r = binance::signed_body_params(vec![("a", "1".to_string())], "k");
    assert!(r.starts_with("a=1&timestamp="));
    assert!(r.contains("&recvWindow=5000&signature="));
}

#[test]
fn bullish_clock_in_microseconds() {
    let us = bullish::now_us();
    let ms = bullish::now_ms();
    assert!(us / 1000 + 1000 >= ms && us / 1000 <= ms + 1000);
}

#[test]
fn rfq_and_tier_defaults() {
    assert_eq!(default_rate_tier(), "tier1");
    assert_eq!(rfq_default_source(), "deribit");
    assert_eq!(rfq_default_coin(), "BTC");
    assert_eq!(rfq_default_auto_quote_timeout(), 30);
}

#[test]
fn limiter_routing() {
    assert_eq!(endpoint_bucket("place_order"), EndpointBucket::Order);
    assert_eq!(endpoint_bucket("batch_order"), EndpointBucket::Order);
    assert_eq!(endpoint_bucket("cancel_all"), EndpointBucket::Cancel);
    assert_eq!(endpoint_bucket("orderbook"), EndpointBucket::General);
    assert_eq!(default_limited_exchanges(), vec!["deribit", "bybit", "okx", "coincall"]);
    assert_eq!((public_rps("deribit"), public_rps("bybit"), public_rps("coincall"), public_rps("mexc")), (1000, 600, 300, 200));
    assert_eq!((private_rps("deribit"), private_rps("okx"), private_rps("coincall")), (2000, 600, 200));
    assert_eq!(group_key("deribit", "private"), "deribit:private");
}
