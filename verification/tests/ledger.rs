use hmac::{Hmac, Mac};
use order_dashboard::api::{bullish, bybit, coincall, deribit};
use order_dashboard::ledger::{
    deribit_ledger_currencies, ledger_source, newest_first, next_window_cursor, window_listing, LedgerSource,
};
use order_dashboard::text::replace_text;
use order_dashboard::clock::{clock_offset, micros_of, millis_of, offset_millis, seconds_of, shifted_now_ms};
use sha2::Sha256;

fn hmac_hex(secret: &str, msg: &str) -> String {
    let mut mac = Hmac::<Sha256>::new_from_slice(secret.as_bytes()).unwrap();
    mac.update(msg.as_bytes());
    hex::encode(mac.finalize().into_bytes())
}

#[test]
fn bybit_auth_signature_signs_ts_key_window_payload() {
    let sig = bybit::auth_signature("key", "secret", 1_700_000_000_000, "accountType=UNIFIED");
    assert_eq!(sig, hmac_hex("secret", "1700000000000key5000accountType=UNIFIED"));
    assert_eq!(sig.len(), 64);
}

#[test]
fn ledger_windows_split_at_seven_days() {
    let w = bybit::ledger_request_windows(0, 1_000_000_000);
    assert_eq!(w, vec![(0, 604_800_000), (604_800_001, 1_000_000_000)]);
}

#[test]
fn ledger_windows_short_range_is_one_window() {
    assert_eq!(bybit::ledger_request_windows(100, 200), vec![(100, 200)]);
}

#[test]
fn ledger_windows_empty_range() {
    assert!(bybit::ledger_request_windows(500, 500).is_empty());
    assert!(bybit::ledger_request_windows(900, 500).is_empty());
}

#[test]
fn ledger_windows_leave_out_an_end_on_a_window_start() {
    // The end falls exactly where a second window would start: it is not requested.
    assert_eq!(bybit::ledger_request_windows(0, 604_800_001), vec![(0, 604_800_000)]);
}

#[test]
fn ledger_windows_tile_a_month() {
    let start = 1_700_000_000_000i64;
    let end = start + 30 * 86_400_000;
    let w = bybit::ledger_request_windows(start, end);
    assert_eq!(w.len(), 5);
    assert_eq!(w[0].0, start);
    assert_eq!(w[w.len() - 1].1, end);
    for k in 0..w.len() - 1 {
        assert_eq!(w[k + 1].0, w[k].1 + 1);
        assert!(w[k].1 - w[k].0 <= bybit::LEDGER_SPAN_MS);
    }
}

#[test]
fn settlement_currencies_first_sight_nonempty() {
    let fees: Vec<String> = vec!["USDT", "", "USDC", "USDT", "BTC", "", "USDC"]
        .into_iter()
        .map(String::from)
        .collect();
    assert_eq!(bybit::settlement_currencies(&fees), vec!["USDT", "USDC", "BTC"]);
    assert!(bybit::settlement_currencies(&Vec::new()).is_empty());
}

#[test]
fn ledger_side_maps_buy_sell() {
    assert_eq!(bybit::ledger_side("Buy"), "buy");
    assert_eq!(bybit::ledger_side("Sell"), "sell");
    assert_eq!(bybit::ledger_side("None"), "");
    assert_eq!(bybit::ledger_side("buy"), "");
}

#[test]
fn ledger_currency_prefers_symbol_base() {
    assert_eq!(bybit::ledger_currency("BTCUSDT", "USDT"), "BTC");
    assert_eq!(bybit::ledger_currency("ETH-27JUN25-3000-C", "USDC"), "ETH");
    assert_eq!(bybit::ledger_currency("", "USDC"), "USDC");
}

#[test]
fn next_ledger_cursor_stops_on_empty() {
    assert_eq!(bybit::next_ledger_cursor("abc", 3), Some("abc".to_string()));
    assert_eq!(bybit::next_ledger_cursor("", 3), None);
    assert_eq!(bybit::next_ledger_cursor("abc", 0), None);
}

#[test]
fn deposit_status_labels() {
    assert_eq!(bybit::deposit_status_label(Some(0), None), "Unknown");
    assert_eq!(bybit::deposit_status_label(Some(3), None), "Success");
    assert_eq!(bybit::deposit_status_label(None, Some("1")), "Pending");
    assert_eq!(bybit::deposit_status_label(None, Some("4")), "Failed");
    assert_eq!(bybit::deposit_status_label(None, Some("2")), "Processing");
    assert_eq!(bybit::deposit_status_label(None, Some("Credited")), "Credited");
    assert_eq!(bybit::deposit_status_label(Some(9), None), "");
    assert_eq!(bybit::deposit_status_label(None, None), "");
}

#[test]
fn server_time_from_nanos_or_seconds() {
    assert_eq!(bybit::server_time_ms(Some("1700000000123456789"), Some("1700000000")), Some(1_700_000_000_123));
    assert_eq!(bybit::server_time_ms(None, Some("1700000000")), Some(1_700_000_000_000));
    assert_eq!(bybit::server_time_ms(Some("n/a"), Some("5")), Some(5_000));
    assert_eq!(bybit::server_time_ms(Some("-1500000"), None), Some(-1));
    assert_eq!(bybit::server_time_ms(None, Some("x")), None);
    assert_eq!(bybit::server_time_ms(None, None), None);
}

#[test]
fn offset_clock_arithmetic() {
    assert_eq!(offset_millis(1_000, -400), 600);
    assert_eq!(offset_millis(10, -20), 0);
    assert_eq!(offset_millis(i64::MAX, 5), i64::MAX as u64);
    assert_eq!(clock_offset(1_000, 400), 600);
    assert!(shifted_now_ms(0) > 1_600_000_000_000);
}

#[test]
fn coincall_ws_url_spot_and_options() {
    let ts = 1_700_000_000_000u64;
    let sign = hmac_hex("sec", "GET/users/self/verify?apiKey=KEY&ts=1700000000000").to_uppercase();
    let spot = coincall::ws_url_at("KEY", "sec", false, "spot", ts).unwrap();
    assert_eq!(
        spot,
        format!("wss://ws.coincall.com/spot/ws?code=10&uuid=KEY&ts=1700000000000&sign={}&apiKey=KEY", sign)
    );
    let opt = coincall::ws_url_at("KEY", "sec", true, "option", ts).unwrap();
    assert_eq!(
        opt,
        format!("wss://betaws.seizeyouralpha.com/options?code=10&uuid=KEY&ts=1700000000000&sign={}&apiKey=KEY", sign)
    );
}

#[test]
fn coincall_ws_url_needs_secret() {
    assert_eq!(
        coincall::ws_url_at("KEY", "", false, "option", 1).unwrap_err(),
        "CoInCall account missing API secret"
    );
    assert_eq!(
        coincall::get_ws_url("KEY", "", false, "future", 0).unwrap_err(),
        "CoInCall account missing API secret"
    );
    let live = coincall::get_ws_url("KEY", "sec", false, "perpetual", 0).unwrap();
    assert!(live.starts_with("wss://ws.coincall.com/futures?code=10&uuid=KEY&ts="));
}

#[test]
fn ledger_sources_by_venue() {
    assert_eq!(ledger_source("deribit"), Ok(LedgerSource::DeribitPerCurrency));
    assert_eq!(ledger_source("bybit"), Ok(LedgerSource::Bybit));
    assert_eq!(ledger_source("coincall"), Ok(LedgerSource::Coincall));
    assert_eq!(ledger_source("bullish"), Ok(LedgerSource::Bullish));
    assert_eq!(ledger_source("okx"), Err("get_transaction_log not supported for okx".to_string()));
}

#[test]
fn deribit_currencies_in_fetch_order() {
    assert_eq!(
        deribit_ledger_currencies(),
        vec!["BTC", "ETH", "SOL", "USDC", "USDT", "USED", "STETH", "BUIDL", "BNB", "PAXG", "USYC"]
    );
}

#[test]
fn newest_first_is_stable() {
    let ts = vec![100, 300, 200, 300, 100];
    assert_eq!(newest_first(&ts), vec![1, 3, 2, 0, 4]);
    assert!(newest_first(&Vec::new()).is_empty());
}

#[test]
fn newest_first_matches_std_sort() {
    let ts: Vec<i64> = vec![5, -1, 7, 7, 0, 5, i64::MIN, i64::MAX, 3];
    let mut expected: Vec<usize> = (0..ts.len()).collect();
    expected.sort_by(|a, b| ts[*b].cmp(&ts[*a]));
    assert_eq!(newest_first(&ts), expected);
}

#[test]
fn deribit_times_in_seconds_are_scaled() {
    assert_eq!(deribit::ledger_ms(1_700_000_000), 1_700_000_000_000);
    assert_eq!(deribit::ledger_ms(1_700_000_000_000), 1_700_000_000_000);
    assert_eq!(deribit::ledger_ms(0), 0);
    assert_eq!(deribit::ledger_ms(-5), -5);
    assert_eq!(deribit::ledger_ms(9_999_999_999), 9_999_999_999_000);
    assert_eq!(deribit::ledger_ms(10_000_000_000), 10_000_000_000);
}

#[test]
fn deribit_entry_time_falls_back_to_timestamp() {
    assert_eq!(deribit::entry_ms(1_700_000_000, 5), 1_700_000_000_000);
    assert_eq!(deribit::entry_ms(0, 1_700_000_000_123), 1_700_000_000_123);
    assert_eq!(deribit::entry_ms(0, 0), 0);
}

#[test]
fn deribit_ledger_types() {
    assert_eq!(deribit::ledger_type("transfer_from"), "transfer_in");
    assert_eq!(deribit::ledger_type("transfer_to"), "transfer_out");
    assert_eq!(deribit::ledger_type("trade"), "trade");
    assert_eq!(deribit::ledger_type("transfer_to_subaccount"), "transfer_out_subaccount");
    assert_eq!(deribit::ledger_type("x_transfer_from_y_transfer_to"), "x_transfer_in_y_transfer_out");
}

#[test]
fn replace_text_matches_str_replace() {
    for (s, from, to) in [
        ("aaaa", "aa", "b"),
        ("abcabc", "bc", "X"),
        ("", "a", "b"),
        ("xyz", "q", "r"),
        ("ééé", "é", "e"),
        ("transfer_fromtransfer_from", "transfer_from", "in"),
    ] {
        assert_eq!(replace_text(s, from, to), s.replace(from, to));
    }
}

#[test]
fn bullish_quote_after_base() {
    assert_eq!(bullish::quote_currency("BTCUSDC"), "USDC");
    assert_eq!(bullish::quote_currency("ETHBTC"), "BTC");
    assert_eq!(bullish::quote_currency("XYZ"), "");
    assert_eq!(bullish::quote_currency("USDC"), "");
    assert_eq!(bullish::extract_base("BTCUSDC") + &bullish::quote_currency("BTCUSDC"), "BTCUSDC");
}

#[test]
fn bullish_fill_sides() {
    assert_eq!(bullish::fill_side(Some("SELL")), "sell");
    assert_eq!(bullish::fill_side(Some("BUY")), "buy");
    assert_eq!(bullish::fill_side(Some("sell")), "buy");
    assert_eq!(bullish::fill_side(None), "buy");
}

#[test]
fn bullish_fill_page_filters_and_advances() {
    let ts = vec![50, 150, 120, 400, 0];
    let (kept, next) = bullish::fill_page(&ts, 100, 300, 100);
    assert_eq!(kept, vec![1, 2]);
    assert_eq!(next, None);

    let full: Vec<i64> = (0..200).map(|k| 1_000 + k).collect();
    let (kept, next) = bullish::fill_page(&full, 1_000, 1_150, 900);
    assert_eq!(kept.len(), 151);
    assert_eq!(next, Some(1_151));

    let stale: Vec<i64> = vec![900; 200];
    let (kept, next) = bullish::fill_page(&stale, 0, 10_000, 900);
    assert_eq!(kept.len(), 200);
    assert_eq!(next, None);
}

#[test]
fn bullish_login_signature_signs_ts_nonce_get_path() {
    let sig = bullish::login_signature("1700000000000", "1700000000000123", "sec");
    assert_eq!(sig, hmac_hex("sec", "17000000000001700000000000123GET/trading-api/v1/users/hmac/login"));
}

#[test]
fn bullish_token_freshness_needs_a_minute() {
    assert!(bullish::token_still_fresh(1_000_000, 900_000));
    assert!(!bullish::token_still_fresh(960_000, 900_000));
    assert!(!bullish::token_still_fresh(0, 900_000));
    assert!(!bullish::token_still_fresh(u64::MAX, u64::MAX));
}

#[test]
fn bullish_trading_account_override_trims() {
    assert_eq!(bullish::trading_account_override(Some("  111222  ")), Some("111222".to_string()));
    assert_eq!(bullish::trading_account_override(Some("   ")), None);
    assert_eq!(bullish::trading_account_override(None), None);
}

#[test]
fn coincall_record_paging() {
    assert_eq!(coincall::next_record_page(1, 50, Some(120)), Some(2));
    assert_eq!(coincall::next_record_page(2, 50, Some(120)), Some(3));
    assert_eq!(coincall::next_record_page(3, 20, Some(120)), None);
    assert_eq!(coincall::next_record_page(2, 50, Some(100)), None);
    assert_eq!(coincall::next_record_page(1, 50, None), None);
    // The total is read as 32 bits.
    assert_eq!(coincall::next_record_page(1, 50, Some((1u64 << 32) + 10)), None);
}

#[test]
fn coincall_sys_transfer_types() {
    assert_eq!(coincall::sys_transfer_type(Some(0), Some(1)), "credit");
    assert_eq!(coincall::sys_transfer_type(Some(1), None), "rewards");
    assert_eq!(coincall::sys_transfer_type(Some(3), None), "bonus");
    assert_eq!(coincall::sys_transfer_type(Some(4), Some(1)), "bonus");
    assert_eq!(coincall::sys_transfer_type(Some(2), Some(0)), "transfer_in");
    assert_eq!(coincall::sys_transfer_type(None, Some(1)), "transfer_out");
    assert_eq!(coincall::sys_transfer_type(None, None), "transfer_in");
    assert_eq!(coincall::sys_transfer_side(None), "in");
    assert_eq!(coincall::sys_transfer_side(Some(0)), "in");
    assert_eq!(coincall::sys_transfer_side(Some(1)), "out");
}

#[test]
fn coincall_delivery_fields() {
    assert_eq!(coincall::delivery_side(Some(1)), "buy");
    assert_eq!(coincall::delivery_side(Some(2)), "sell");
    assert_eq!(coincall::delivery_side(Some(3)), "");
    assert_eq!(coincall::delivery_side(None), "");
    assert_eq!(coincall::delivery_id(Some(-42), Some("x"), "BTC", 5), "-42");
    assert_eq!(coincall::delivery_id(None, Some("EX9"), "BTC", 5), "EX9");
    assert_eq!(coincall::delivery_id(None, None, "BTCUSD-27JUN25", 1_700_000_000_000), "ex-BTCUSD-27JUN25-1700000000000");
    assert_eq!(coincall::fill_base_currency("USDT", "BTCUSDT"), "USDT");
    assert_eq!(coincall::fill_base_currency("", "BTCUSDT"), "BTCUSDT");
}

#[test]
fn coincall_option_type_from_symbol() {
    assert_eq!(coincall::option_type_of_symbol("BTCUSD-14SEP23-22500-C"), "call");
    assert_eq!(coincall::option_type_of_symbol("BTCUSD-14SEP23-22500-P"), "put");
    assert_eq!(coincall::option_type_of_symbol("BTCUSD-14SEP23-22500-c"), "put");
    assert_eq!(coincall::option_type_of_symbol(""), "put");
}

#[test]
fn clock_readings_convert_like_duration() {
    let n: u128 = 1_700_000_000_123_456_789;
    assert_eq!(millis_of(Some(n)), 1_700_000_000_123);
    assert_eq!(micros_of(Some(n)), 1_700_000_000_123_456);
    assert_eq!(seconds_of(Some(n)), 1_700_000_000);
    assert_eq!(millis_of(None), 0);
    assert_eq!(micros_of(None), 0);
    assert_eq!(seconds_of(None), 0);
    let d = std::time::Duration::from_nanos(1_234_567_891_011);
    assert_eq!(millis_of(Some(d.as_nanos())), d.as_millis() as u64);
    assert_eq!(micros_of(Some(d.as_nanos())), d.as_micros() as u64);
    assert_eq!(seconds_of(Some(d.as_nanos())), d.as_secs());
    assert_eq!(millis_of(Some(u128::MAX)), (u128::MAX / 1_000_000) as u64);
}

#[test]
fn window_listing_keeps_rows_in_window_newest_first() {
    let ts = vec![50, 300, 150, 300, 400, 100, 200];
    assert_eq!(window_listing(&ts, 100, 300), vec![1, 3, 6, 2, 5]);
    assert!(window_listing(&ts, 500, 600).is_empty());
    assert!(window_listing(&Vec::new(), 0, 10).is_empty());
}

#[test]
fn paging_stops_at_an_empty_page_or_the_last_cursor() {
    assert_eq!(next_window_cursor(Some(17), false), Some(17));
    assert_eq!(next_window_cursor(Some(17), true), None);
    assert_eq!(next_window_cursor(None, false), None);
}
