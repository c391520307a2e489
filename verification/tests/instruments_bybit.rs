use chrono::{NaiveDate, TimeZone, Utc};
use order_dashboard::api::bybit;

fn expiry_8utc(y: i32, m: u32, d: u32) -> i64 {
    let dt = NaiveDate::from_ymd_opt(y, m, d).unwrap().and_hms_opt(8, 0, 0).unwrap();
    Utc.from_utc_datetime(&dt).timestamp_millis()
}

#[test]
fn bybit_symbol_expiry_matches_calendar() {
    assert_eq!(bybit::symbol_expiry_ms("BTC-07JUN26-50000-C"), Some(expiry_8utc(2026, 6, 7)));
    assert_eq!(bybit::symbol_expiry_ms("ETH-29FEB28-3000-P"), Some(expiry_8utc(2028, 2, 29)));
    assert_eq!(bybit::symbol_expiry_ms("ETH-01MAR28-3000-P"), Some(expiry_8utc(2028, 3, 1)));
    assert_eq!(bybit::symbol_expiry_ms("SOL-31DEC99-100-C"), Some(expiry_8utc(2099, 12, 31)));
    assert_eq!(bybit::symbol_expiry_ms("BTC-01JAN00-1-C"), Some(expiry_8utc(2000, 1, 1)));
    for y in 2000..2100 {
        for (m, d) in [(1u32, 1u32), (2, 28), (3, 1), (7, 15), (12, 31)] {
            let mon = ["JAN", "FEB", "MAR", "APR", "MAY", "JUN", "JUL", "AUG", "SEP", "OCT", "NOV", "DEC"][m as usize - 1];
            let sym = format!("BTC-{:02}{}{:02}-1-C", d, mon, y - 2000);
            assert_eq!(bybit::symbol_expiry_ms(&sym), Some(expiry_8utc(y, m, d)), "{}", sym);
        }
    }
}

#[test]
fn bybit_symbol_expiry_rejects_other_fields() {
    assert_eq!(bybit::symbol_expiry_ms("BTCUSDT"), None);
    assert_eq!(bybit::symbol_expiry_ms("BTC-PERP"), None);
    assert_eq!(bybit::symbol_expiry_ms("BTC-07jun26-50000-C"), None);
    assert_eq!(bybit::symbol_expiry_ms("BTC-00JUN26-50000-C"), None);
    assert_eq!(bybit::symbol_expiry_ms("BTC-7JUN26-50000-C"), None);
    // A year that does not read is taken as 2000.
    assert_eq!(bybit::symbol_expiry_ms("BTC-07JUNxx-1-C"), Some(expiry_8utc(2000, 6, 7)));
}

#[test]
fn bybit_listing_helpers() {
    assert!(bybit::is_listed_status(Some("Trading")));
    assert!(bybit::is_listed_status(Some("PreDelivery")));
    assert!(bybit::is_listed_status(None));
    assert!(!bybit::is_listed_status(Some("Closed")));
    assert!(!bybit::is_listed_status(Some("SETTLING")));
    assert_eq!(bybit::instruments_limit("option"), 1000);
    assert_eq!(bybit::instruments_limit("linear"), 500);
    assert_eq!(bybit::instrument_categories("option"), vec![("option", "option")]);
    assert_eq!(bybit::instrument_categories("spot"), vec![("spot", "spot")]);
    assert_eq!(bybit::instrument_categories("future"), vec![("linear", "future"), ("inverse", "future")]);
    assert_eq!(bybit::listed_expiry(Some(1_700_000_000_000), Some(5)), Some(1_700_000_000_000));
    assert_eq!(bybit::listed_expiry(Some(0), Some(5)), Some(5));
    assert_eq!(bybit::listed_expiry(None, None), None);
}

#[test]
fn bybit_option_types() {
    assert_eq!(bybit::option_type(Some("Call"), "BTC-07JUN26-50000-P"), Some("call".to_string()));
    assert_eq!(bybit::option_type(Some(""), "BTC-07JUN26-50000-P"), Some("p".to_string()));
    assert_eq!(bybit::option_type(None, "BTC-07JUN26-50000-C"), Some("c".to_string()));
    assert_eq!(bybit::option_type(None, "BTCUSDT"), None);
    assert_eq!(bybit::option_type(None, "BTC-PUT"), Some("put".to_string()));
}
