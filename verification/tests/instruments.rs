use order_dashboard::bs::{parse_option_parts, OptionName};
use order_dashboard::agg_book::{
    accounts_without_instrument, emit_due, fetch_kind, has_ws_book, is_matching_instrument,
    is_stablecoin, level_cap, merge_book_side, InstrumentTraits,
};
use order_dashboard::api::{bullish, bybit, coincall, mexc, okx, uniswap};
use order_dashboard::bs::{days_from_epoch, month_num, strip_quote_suffix, ymd_to_unix};
use order_dashboard::models::{build_symbol, canonical_kind, canonical_names, norm_option_type, ts_ms_to_date};

#[test]
fn expiry_dates() {
    assert_eq!(ts_ms_to_date(1711670400000), "20240329");
    assert_eq!(ts_ms_to_date(0), "19700101");
    assert_eq!(ts_ms_to_date(951782400000), "20000229");
    assert_eq!(ts_ms_to_date(4102444800000), "21000101");
    assert_eq!(ts_ms_to_date(-86_400_000), "19700100");
}

#[test]
fn canonical_kinds() {
    assert_eq!(canonical_kind("spot", None), "spot");
    assert_eq!(canonical_kind("future", None), "perpetual");
    assert_eq!(canonical_kind("future", Some(0)), "perpetual");
    assert_eq!(canonical_kind("future", Some(4_102_444_800_001)), "perpetual");
    assert_eq!(canonical_kind("future", Some(1711670400000)), "future");
    assert_eq!(canonical_kind("swap", None), "future");
}

#[test]
fn option_types() {
    assert_eq!(norm_option_type("call"), Some("C".to_string()));
    assert_eq!(norm_option_type("P"), Some("P".to_string()));
    assert_eq!(norm_option_type("Put"), Some("P".to_string()));
    assert_eq!(norm_option_type("x"), None);
}

#[test]
fn canonical_symbols() {
    assert_eq!(build_symbol("spot", "btc", "usdt", "0", None, None), "BTC-USDT");
    assert_eq!(build_symbol("perpetual", "btc", "usd", "0", None, None), "BTC-USD-PERPETUAL");
    assert_eq!(build_symbol("future", "btc", "usd", "0", Some("20240329"), None), "BTC-USD-20240329");
    assert_eq!(build_symbol("future", "btc", "usd", "0", None, None), "BTC-USD-PERPETUAL");
    assert_eq!(
        build_symbol("option", "btc", "usd", "50000", Some("20240329"), Some("c")),
        "BTC-USD-50000-20240329-C"
    );
    assert_eq!(build_symbol("option", "eth", "usd", "0", None, None), "ETH-USD-0-00000000-C");
    assert_eq!(build_symbol("token", "uni", "usd", "0", None, None), "UNI");
}

#[test]
fn canonical_names_of_an_option() {
    let n = canonical_names("option", Some(1711670400000), Some("call"), "btc", "usd", "50000");
    assert_eq!(n.kind, "option");
    assert_eq!(n.expiry.as_deref(), Some("20240329"));
    assert_eq!(n.option_type.as_deref(), Some("C"));
    assert_eq!((n.base.as_str(), n.quote.as_str()), ("BTC", "USD"));
    assert_eq!(n.symbol, "BTC-USD-50000-20240329-C");
    let p = canonical_names("future", None, None, "eth", "usdt", "0");
    assert_eq!(p.kind, "perpetual");
    assert_eq!(p.expiry, None);
    assert_eq!(p.symbol, "ETH-USDT-PERPETUAL");
}

#[test]
fn bybit_symbols() {
    assert_eq!(bybit::infer_category("BTC-28JUN24-60000-C"), "option");
    assert_eq!(bybit::infer_category("BTCUSD"), "inverse");
    assert_eq!(bybit::infer_category("BTCUSDT"), "linear");
    assert_eq!(bybit::extract_base_coin("BTC-28JUN24-60000-C"), "BTC");
    assert_eq!(bybit::extract_base_coin("ETHUSDT"), "ETH");
    assert_eq!(bybit::extract_base_coin("USDT"), "USDT");
    assert_eq!(bybit::extract_base_coin(""), "");
    // The documented examples.
    assert_eq!(bybit::extract_base_coin("BTCUSDT"), "BTC");
    assert_eq!(bybit::extract_base_coin("BTCUSDC"), "BTC");
    assert_eq!(bybit::extract_base_coin("BTCUSD"), "BTC");
    assert_eq!(bybit::extract_base_coin("BTC-10JAN25-50000-C"), "BTC");
    assert_eq!(bybit::extract_base_coin("SOLUSDT-PERP"), "SOL");
    assert_eq!(bybit::extract_base_coin("XYZ-PERP"), "XYZ");
    assert_eq!(bybit::map_bybit_type("FUNDING_FEE"), "funding");
    assert_eq!(bybit::map_bybit_type("AUTO_DELEVERAGE"), "delivery");
    assert_eq!(bybit::map_bybit_type("Something_New"), "something_new");
    assert_eq!(bybit::tif_to_generic("IOC"), "immediate_or_cancel");
    assert_eq!(bybit::tif_to_generic("GTC"), "good_til_cancelled");
}

#[test]
fn other_venue_symbols() {
    assert_eq!(bullish::extract_base("BTCUSDC"), "BTC");
    assert_eq!(bullish::extract_base("ETHBTC"), "ETH");
    assert_eq!(bullish::extract_base("USD"), "USD");
    assert_eq!(okx::kind_to_inst_type("option"), "OPTION");
    assert_eq!(okx::kind_to_inst_type("future"), "SWAP");
    assert_eq!(okx::tif_from_okx("FOK"), "fill_or_kill");
    assert!(mexc::is_futures("BTC_USDT"));
    assert!(!mexc::is_futures("BTCUSDT"));
    assert_eq!(coincall::kind_to_channel("option"), "options");
    assert_eq!(
        coincall::parse_base_quote("BTC-USDT-PERP"),
        ("BTC".to_string(), "USDT".to_string())
    );
    assert_eq!(
        coincall::parse_base_quote("BTC-20231231-30000-C"),
        ("BTC".to_string(), "USD".to_string())
    );
    assert_eq!(coincall::parse_base_quote("ETHUSDT"), ("ETH".to_string(), "USDT".to_string()));
    assert_eq!(coincall::parse_base_quote("XYZ"), ("XYZ".to_string(), String::new()));
    assert_eq!(coincall::parse_base_quote(""), (String::new(), String::new()));
}

#[test]
fn uniswap_pairs() {
    let (a, b) = uniswap::parse_pair("WETH/USDC").unwrap();
    assert_eq!((a.symbol, a.decimals), ("WETH", 18));
    assert_eq!((b.symbol, b.decimals), ("USDC", 6));
    assert!(uniswap::parse_pair("WETH-SPOT/USDT-SPOT").is_some());
    assert!(uniswap::parse_pair("WETH/XYZ").is_none());
    assert!(uniswap::parse_pair("WETH/USDC/DAI").is_none());
    assert_eq!(uniswap::find_token("DAI").unwrap().address, "0x6B175474E89094C44Da98b954EedeAC495271d0F");
}

#[test]
fn option_calendar_helpers() {
    assert_eq!(month_num("jun"), Some(5));
    assert_eq!(month_num("DEC"), Some(11));
    assert_eq!(month_num("JUNE"), None);
    assert_eq!(strip_quote_suffix("btcusd"), "BTC");
    assert_eq!(strip_quote_suffix("ETHUSDT"), "ETH");
    assert_eq!(strip_quote_suffix("USD"), "USD");
    assert_eq!(days_from_epoch(1970, 1, 1), Some(0));
    assert_eq!(days_from_epoch(2024, 3, 29), Some(19811));
    assert_eq!(ymd_to_unix(2025, 5, 27, 8, 0, 0), Some(1751011200));
}

fn inst(name: &str, kind: &str, base: &str, settle: &str, active: bool, exp: Option<i64>) -> InstrumentTraits {
    InstrumentTraits {
        instrument_name: name.to_string(),
        kind: kind.to_string(),
        base_currency: base.to_string(),
        settlement_currency: settle.to_string(),
        is_active: active,
        expiration_timestamp: exp,
    }
}

#[test]
fn instrument_matching() {
    let perp = inst("BTC-PERPETUAL", "future", "BTC", "BTC", true, Some(32503680000000));
    assert!(is_matching_instrument(&perp, "btc", "perpetual_inverse"));
    assert!(!is_matching_instrument(&perp, "btc", "perpetual_linear"));
    let linear = inst("BTCUSDT", "future", "BTC", "usdt", true, None);
    assert!(is_matching_instrument(&linear, "BTC", "perpetual_linear"));
    assert!(!is_matching_instrument(&linear, "BTC", "future"));
    let dated = inst("BTC-29MAR24", "future", "BTC", "BTC", true, Some(1711670400000));
    assert!(is_matching_instrument(&dated, "BTC", "future"));
    let inactive = inst("BTCUSDT", "spot", "BTC", "USDT", false, None);
    assert!(!is_matching_instrument(&inactive, "BTC", "spot"));
    assert!(!is_matching_instrument(&linear, "ETH", "perpetual_linear"));
    assert!(is_stablecoin("dai") && !is_stablecoin("BTC"));
    assert!(has_ws_book("okx") && !has_ws_book("coincall"));
}

#[test]
fn book_merging_groups_by_key() {
    let keys = [5, 3, 5, 7, 3, 1];
    let bids = merge_book_side(&keys, 2, true);
    assert_eq!(bids, vec![(7, vec![3]), (5, vec![0, 2])]);
    let asks = merge_book_side(&keys, 10, false);
    assert_eq!(asks, vec![(1, vec![5]), (3, vec![1, 4]), (5, vec![0, 2]), (7, vec![3])]);
    assert!(merge_book_side(&[], 3, true).is_empty());
    assert!(merge_book_side(&keys, 0, false).is_empty());
}

#[test]
fn merged_book_configuration() {
    assert_eq!(fetch_kind("perpetual_linear"), Some("future"));
    assert_eq!(fetch_kind("option"), Some("option"));
    assert_eq!(fetch_kind("index"), None);
    assert_eq!(level_cap(50), 50);
    assert_eq!(level_cap(5000), 200);
    let ids = vec!["a".to_string(), "b".to_string(), "c".to_string()];
    let found = vec!["b".to_string()];
    assert_eq!(accounts_without_instrument(&ids, &found), vec!["a".to_string(), "c".to_string()]);
    assert!(!emit_due(1050, 1000, true));
    assert!(emit_due(1100, 1000, true));
    assert!(!emit_due(5000, 1000, false));
    assert!(emit_due(11000, 1000, false));
}

#[test]
fn option_names() {
    match parse_option_parts("BTC-27JUN25-100000-C") {
        OptionName::Parsed(p) => {
            assert_eq!(p.underlying, "BTC");
            assert_eq!(p.expiry_ts, 1751011200);
            assert_eq!(p.strike_text, "100000");
            assert!(p.is_call);
        }
        _ => panic!("expected an option"),
    }
    match parse_option_parts("btcusd-27jun25-95000-p") {
        OptionName::Parsed(p) => {
            assert_eq!(p.underlying, "BTC");
            assert!(!p.is_call);
            assert_eq!(p.strike_text, "95000");
        }
        _ => panic!("expected an option"),
    }
    match parse_option_parts("ETH-USDT-01JAN30-3000-C") {
        OptionName::Parsed(p) => {
            assert_eq!(p.underlying, "ETH-");
            assert_eq!(p.expiry_ts, 1893484800);
        }
        _ => panic!("expected an option"),
    }
    assert!(matches!(parse_option_parts("BTC-27JUN25-100000-X"), OptionName::NotAnOption));
    assert!(matches!(parse_option_parts("A-B-C"), OptionName::NotAnOption));
    assert!(matches!(parse_option_parts("BTC-27JUX25-1-C"), OptionName::NotAnOption));
    assert!(matches!(parse_option_parts("BTC-27JUN-1-C"), OptionName::NotAnOption));
    assert!(matches!(parse_option_parts("BTC-2\u{e9}7JUN25-1-C"), OptionName::CutsCharacter));
}

#[test]
fn date_text_inverts_day_count() {
    let month_len = |y: i64, m: i64| -> i64 {
        let leap = (y % 4 == 0 && y % 100 != 0) || y % 400 == 0;
        [31, if leap { 29 } else { 28 }, 31, 30, 31, 30, 31, 31, 30, 31, 30, 31][(m - 1) as usize]
    };
    for y in [1970i64, 1971, 1999, 2000, 2024, 2100, 2400, 9999] {
        for m in 1..=12 {
            for d in [1, month_len(y, m)] {
                let n = days_from_epoch(y, m, d).unwrap();
                for r in [0i64, 43_200_000, 86_399_999] {
                    assert_eq!(ts_ms_to_date(n * 86_400_000 + r), format!("{:04}{:02}{:02}", y, m, d));
                }
            }
        }
    }
}
