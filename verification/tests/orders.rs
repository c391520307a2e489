use order_dashboard::api::{binance, bullish, bybit, hyperliquid, mexc, okx, uniswap};
use order_dashboard::text::truncate_bytes;

#[test]
fn okx_order_types() {
    assert_eq!(okx::ord_type("limit", Some(true)), "post_only");
    assert_eq!(okx::ord_type("market", Some(true)), "post_only");
    assert_eq!(okx::ord_type("market", Some(false)), "market");
    assert_eq!(okx::ord_type("market", None), "market");
    assert_eq!(okx::ord_type("stop", None), "limit");
}

#[test]
fn client_ids_are_cut_to_venue_limits() {
    let long = "c-0123456789abcdef0123456789abcdef-xyz";
    assert_eq!(truncate_bytes(long, okx::CLIENT_ID_MAX_BYTES), &long[..32]);
    assert_eq!(truncate_bytes(long, bybit::CLIENT_ID_MAX_BYTES), &long[..36]);
    assert_eq!(truncate_bytes("short-id", binance::CLIENT_ID_MAX_BYTES), "short-id");
    assert_eq!(truncate_bytes(long, mexc::CLIENT_ID_MAX_BYTES), &long[..36]);
    // A cut on a character boundary keeps whole characters.
    assert_eq!(truncate_bytes("ééé", 4), "éé");
    assert_eq!(truncate_bytes("", 0), "");
}

#[test]
fn bybit_order_vocabulary() {
    assert_eq!(bybit::order_side("buy"), "Buy");
    assert_eq!(bybit::order_side("sell"), "Sell");
    assert_eq!(bybit::order_side("BUY"), "Sell");
    assert_eq!(bybit::order_type_code("market", None), "Market");
    assert_eq!(bybit::order_type_code("market", Some(true)), "Limit");
    assert_eq!(bybit::order_type_code("limit", None), "Limit");
    assert_eq!(bybit::order_tif(Some("immediate_or_cancel"), Some(true)), "PostOnly");
    assert_eq!(bybit::order_tif(Some("immediate_or_cancel"), None), "IOC");
    assert_eq!(bybit::order_tif(Some("fill_or_kill"), Some(false)), "FOK");
    assert_eq!(bybit::order_tif(Some("good_til_cancelled"), None), "GTC");
    assert_eq!(bybit::order_tif(None, None), "GTC");
}

#[test]
fn binance_order_vocabulary() {
    assert_eq!(binance::order_side("buy"), "BUY");
    assert_eq!(binance::order_side("sell"), "SELL");
    assert_eq!(binance::order_type_code("market"), "MARKET");
    assert_eq!(binance::order_type_code("limit"), "LIMIT");
    assert_eq!(binance::order_type_code("weird"), "LIMIT");
    assert_eq!(binance::order_tif(None), "GTC");
    assert_eq!(binance::order_tif(Some("gtc")), "GTC");
    assert_eq!(binance::order_tif(Some("ioc")), "IOC");
    assert_eq!(binance::order_tif(Some("immediate_or_cancel")), "IOC");
    assert_eq!(binance::order_tif(Some("fok")), "FOK");
    assert_eq!(binance::order_tif(Some("fill_or_kill")), "FOK");
    assert_eq!(binance::order_tif(Some("post_only")), "GTC");
}

#[test]
fn mexc_order_vocabulary() {
    assert_eq!(mexc::spot_order_type("market"), "MARKET");
    assert_eq!(mexc::spot_order_type("limit"), "LIMIT_MAKER");
    assert_eq!(mexc::futures_side("buy"), 1);
    assert_eq!(mexc::futures_side("sell"), 2);
    assert_eq!(mexc::futures_order_type("market"), 5);
    assert_eq!(mexc::futures_order_type("limit"), 1);
}

#[test]
fn hyperliquid_tif() {
    assert_eq!(hyperliquid::order_tif("market", None), "Ioc");
    assert_eq!(hyperliquid::order_tif("limit", Some("fill_or_kill")), "Ioc");
    assert_eq!(hyperliquid::order_tif("limit", Some("immediate_or_cancel")), "Ioc");
    assert_eq!(hyperliquid::order_tif("limit", Some("good_til_cancelled")), "Gtc");
    assert_eq!(hyperliquid::order_tif("limit", None), "Gtc");
}

#[test]
fn bullish_order_vocabulary() {
    assert_eq!(bullish::order_type_code("limit", Some(true)), "POST_ONLY");
    assert_eq!(bullish::order_type_code("MARKET", None), "MKT");
    assert_eq!(bullish::order_type_code("Market", Some(false)), "MKT");
    assert_eq!(bullish::order_type_code("limit", None), "LMT");
    assert_eq!(bullish::order_tif(Some("immediate_or_cancel")), "IOC");
    assert_eq!(bullish::order_tif(Some("fill_or_kill")), "FOK");
    assert_eq!(bullish::order_tif(Some("post_only")), "POST_ONLY");
    assert_eq!(bullish::order_tif(None), "GTC");
    assert_eq!(bullish::client_order_id(Some("mine"), "123"), "mine");
    assert_eq!(bullish::client_order_id(None, "123"), "123");
}

#[test]
fn binance_order_states_and_tif() {
    assert_eq!(binance::order_state("NEW"), "open");
    assert_eq!(binance::order_state("PARTIALLY_FILLED"), "open");
    assert_eq!(binance::order_state("FILLED"), "filled");
    assert_eq!(binance::order_state("CANCELED"), "cancelled");
    assert_eq!(binance::order_state("EXPIRED"), "cancelled");
    assert_eq!(binance::order_state("REJECTED"), "rejected");
    assert_eq!(binance::order_state("NEW_INSURANCE"), "NEW_INSURANCE");
    assert_eq!(binance::tif_name(None), "good_til_cancelled");
    assert_eq!(binance::tif_name(Some("IOC")), "immediate_or_cancel");
    assert_eq!(binance::tif_name(Some("FOK")), "fill_or_kill");
    assert_eq!(binance::tif_name(Some("GTX")), "GTX");
}

#[test]
fn mexc_order_states() {
    assert_eq!(mexc::spot_order_state("NEW"), "open");
    assert_eq!(mexc::spot_order_state("FILLED"), "filled");
    assert_eq!(mexc::spot_order_state("CANCELED"), "cancelled");
    assert_eq!(mexc::spot_order_state("REJECTED"), "rejected");
    assert_eq!(mexc::spot_order_state("EXPIRED"), "EXPIRED");
    assert_eq!(mexc::futures_order_state(Some(1)), "open");
    assert_eq!(mexc::futures_order_state(Some(3)), "open");
    assert_eq!(mexc::futures_order_state(Some(4)), "filled");
    assert_eq!(mexc::futures_order_state(Some(5)), "cancelled");
    assert_eq!(mexc::futures_order_state(Some(0)), "unknown");
    assert_eq!(mexc::futures_order_state(None), "unknown");
    assert_eq!(mexc::futures_direction(Some(2)), "sell");
    assert_eq!(mexc::futures_direction(Some(1)), "buy");
    assert_eq!(mexc::futures_direction(None), "buy");
}

#[test]
fn bullish_order_states() {
    assert_eq!(bullish::order_state("OPEN"), "open");
    assert_eq!(bullish::order_state("PENDING_NEW"), "open");
    assert_eq!(bullish::order_state("FILLED"), "filled");
    assert_eq!(bullish::order_state("CANCELLED"), "cancelled");
    assert_eq!(bullish::order_state("REJECTED"), "cancelled");
    assert_eq!(bullish::order_state("CLOSED"), "CLOSED");
    assert_eq!(bullish::tif_name(Some("POST_ONLY")), "post_only");
    assert_eq!(bullish::tif_name(Some("GTC")), "good_til_cancelled");
    assert_eq!(bullish::tif_name(None), "good_til_cancelled");
    assert_eq!(bullish::order_type_name(Some("MKT")), "market");
    assert_eq!(bullish::order_type_name(Some("STOP_LIMIT")), "stop_limit");
    assert_eq!(bullish::order_type_name(None), "limit");
}

#[test]
fn mexc_listing_filters() {
    assert!(mexc::lists_spot(""));
    assert!(mexc::lists_spot("spot"));
    assert!(!mexc::lists_spot("future"));
    assert!(mexc::lists_futures(""));
    assert!(mexc::lists_futures("swap"));
    assert!(mexc::lists_futures("futures"));
    assert!(!mexc::lists_futures("spot"));
    assert!(mexc::base_matches("WBTC", "btc"));
    assert!(mexc::base_matches("ETH", ""));
    assert!(!mexc::base_matches("ETH", "BTC"));
    assert!(mexc::spot_enabled("1"));
    assert!(mexc::spot_enabled("ENABLED"));
    assert!(!mexc::spot_enabled("2"));
    assert_eq!(mexc::futures_pair("BTC_USDT"), ("BTC".to_string(), "USDT".to_string()));
    assert_eq!(mexc::futures_pair("ETH_USD_X"), ("ETH".to_string(), "USD".to_string()));
    assert_eq!(mexc::futures_pair("SOL"), ("SOL".to_string(), "USDT".to_string()));
}

#[test]
fn binance_listing_filter() {
    assert_eq!(binance::contract_type_for("future"), "PERPETUAL");
    assert_eq!(binance::contract_type_for("futures"), "PERPETUAL");
    assert_eq!(binance::contract_type_for("spot"), "SPOT");
    assert_eq!(binance::contract_type_for("option"), "");
    assert!(binance::keeps_symbol("btc", "future", "BTC", "TRADING", "PERPETUAL"));
    assert!(!binance::keeps_symbol("btc", "future", "BTC", "TRADING", "CURRENT_QUARTER"));
    assert!(binance::keeps_symbol("", "", "ETH", "TRADING", "CURRENT_QUARTER"));
    assert!(!binance::keeps_symbol("", "", "ETH", "SETTLING", "PERPETUAL"));
    assert!(!binance::keeps_symbol("SOL", "", "ETH", "TRADING", "PERPETUAL"));
}

#[test]
fn hyperliquid_universe_helpers() {
    assert_eq!(hyperliquid::perp_name(Some("BTC")), "BTC-PERP");
    assert_eq!(hyperliquid::perp_name(None), "UNKNOWN-PERP");
    let names = vec![Some("BTC".to_string()), None, Some("ETH".to_string()), Some("ETH".to_string())];
    assert_eq!(hyperliquid::asset_index(&names, "ETH-PERP"), Ok(2));
    assert_eq!(hyperliquid::asset_index(&names, "BTC"), Ok(0));
    assert_eq!(hyperliquid::asset_index(&names, "BTC-PERP-PERP"), Ok(0));
    assert_eq!(hyperliquid::asset_index(&names, "SOL-PERP"), Err("Asset 'SOL-PERP' not found".to_string()));
}

#[test]
fn okx_instrument_paths() {
    assert_eq!(okx::instruments_path("BTC", "spot"), "/api/v5/public/instruments?instType=SPOT&baseCcy=BTC");
    assert_eq!(
        okx::instruments_path("BTC", "option"),
        "/api/v5/public/instruments?instType=OPTION&instFamily=BTC-USD"
    );
    assert_eq!(
        okx::instruments_path("ETH", "perpetual"),
        format!("/api/v5/public/instruments?instType={}&instFamily=ETH-USD", okx::kind_to_inst_type("perpetual"))
    );
}

#[test]
fn bullish_market_filter() {
    assert!(bullish::keeps_market(Some(true), Some(true), "BTC", "USDC", "BTC", ""));
    assert!(bullish::keeps_market(Some(true), Some(true), "ETH", "BTC", "BTC", "spot"));
    assert!(bullish::keeps_market(Some(true), Some(true), "ETH", "USDC", "", "future"));
    assert!(!bullish::keeps_market(Some(true), Some(true), "ETH", "USDC", "BTC", ""));
    assert!(!bullish::keeps_market(Some(false), Some(true), "BTC", "USDC", "BTC", ""));
    assert!(!bullish::keeps_market(Some(true), None, "BTC", "USDC", "BTC", ""));
    assert!(!bullish::keeps_market(Some(true), Some(true), "BTC", "USDC", "BTC", "option"));
}

#[test]
fn uniswap_swap_direction_and_deadline() {
    let (base, quote) = uniswap::parse_pair("WETH/USDC").unwrap();
    let (from, to) = uniswap::swap_tokens("buy", base, quote);
    assert_eq!((from.symbol, to.symbol), ("USDC", "WETH"));
    let (from, to) = uniswap::swap_tokens("sell", base, quote);
    assert_eq!((from.symbol, to.symbol), ("WETH", "USDC"));
    assert_eq!(uniswap::swap_deadline(1_700_000_000_999), 1_700_000_000 + 1800);
    assert_eq!(uniswap::swap_deadline(0), 1800);
}
