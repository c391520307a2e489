use order_dashboard::clock::{okx_timestamp_now, parse_iso_ms, token_expiry_ms};
use base64::Engine;
use hmac::{Hmac, Mac};
use order_dashboard::api::{binance, bullish, bybit, coincall, mexc, okx};
use sha2::{Digest, Sha256};

fn hmac_hex(secret: &str, msg: &str) -> String {
    let mut mac = Hmac::<Sha256>::new_from_slice(secret.as_bytes()).unwrap();
    mac.update(msg.as_bytes());
    hex::encode(mac.finalize().into_bytes())
}

fn hmac_b64(secret: &str, msg: &str) -> String {
    let mut mac = Hmac::<Sha256>::new_from_slice(secret.as_bytes()).unwrap();
    mac.update(msg.as_bytes());
    base64::engine::general_purpose::STANDARD.encode(mac.finalize().into_bytes())
}

#[test]
fn hmac_known_vector() {
    // RFC 4231 test case 2.
    assert_eq!(
        bybit::sign("what do ya want for nothing?", "Jefe"),
        "5bdcc146bf60754e6a042426089575c75a003f089d2739839dec58b964ec3843"
    );
}

#[test]
fn binance_sign_is_hmac_hex() {
    let q = "symbol=BTCUSDT&side=BUY";
    assert_eq!(binance::sign(q, "s3cr3t"), hmac_hex("s3cr3t", q));
}

#[test]
fn binance_signed_query_layout() {
    let r = binance::signed_query_at("symbol=BTCUSDT", "k", 1700000000000);
    let base = "symbol=BTCUSDT&timestamp=1700000000000&recvWindow=5000";
    assert_eq!(r, format!("{}&signature={}", base, hmac_hex("k", base)));
    let r2 = binance::signed_query_at("", "k", 5);
    let base2 = "timestamp=5&recvWindow=5000";
    assert_eq!(r2, format!("{}&signature={}", base2, hmac_hex("k", base2)));
}

#[test]
fn binance_signed_query_now_has_signature() {
    let r = binance::signed_query("a=1", "k");
    let (base, sig) = r.split_once("&signature=").unwrap();
    assert!(base.starts_with("a=1&timestamp="));
    assert!(base.ends_with("&recvWindow=5000"));
    assert_eq!(sig, hmac_hex("k", base));
}

#[test]
fn binance_form_body_escapes_values() {
    let pairs = vec![("symbol", "BTC USDT".to_string()), ("note", "a&b+c%".to_string())];
    let r = binance::signed_body_params_at(pairs, "k", 9);
    let base = "symbol=BTC%20USDT&note=a%26b%2Bc%25&timestamp=9&recvWindow=5000";
    assert_eq!(r, format!("{}&signature={}", base, hmac_hex("k", base)));
}

#[test]
fn url_encoding_escapes_four_characters() {
    assert_eq!(binance::urlencoding_simple("a b&c+d%e"), "a%20b%26c%2Bd%25e");
    assert_eq!(binance::urlencoding_simple("plain-text_1.0"), "plain-text_1.0");
}

#[test]
fn mexc_signed_query_layout() {
    let r = mexc::signed_query_at("symbol=BTCUSDT", "k", 12);
    let base = "symbol=BTCUSDT&timestamp=12";
    assert_eq!(r, format!("{}&signature={}", base, hmac_hex("k", base)));
    assert_eq!(mexc::sign("x", "y"), hmac_hex("y", "x"));
}

#[test]
fn okx_signature_is_base64_hmac() {
    let sig = okx::sign("2024-01-01T00:00:00.000Z", "GET", "/api/v5/account/balance", "", "sec");
    assert_eq!(
        sig,
        hmac_b64("sec", "2024-01-01T00:00:00.000ZGET/api/v5/account/balance")
    );
}

#[test]
fn bullish_signature_hashes_then_macs() {
    let sig = bullish::sign("1700", "42", "POST", "/trading-api/v2/orders", "{}", "sec").unwrap();
    let payload = "170042POST/trading-api/v2/orders{}";
    let digest = hex::encode(Sha256::digest(payload.as_bytes()));
    assert_eq!(sig, hmac_hex("sec", &digest));
}

#[test]
fn coincall_signature_is_uppercase_hmac_of_prehash() {
    let sig = coincall::cc_sign("GET", "/open/user/info/v1", "", "KEY", 1700000000000, "sec");
    let pre = "GET/open/user/info/v1?uuid=KEY&ts=1700000000000&x-req-ts-diff=5000";
    assert_eq!(sig, hmac_hex("sec", pre).to_uppercase());
    let sig2 = coincall::cc_sign("POST", "/u", "a=1&b=2", "KEY", 3, "sec");
    let pre2 = "POST/u?a=1&b=2&uuid=KEY&ts=3&x-req-ts-diff=5000";
    assert_eq!(sig2, hmac_hex("sec", pre2).to_uppercase());
}

#[test]
fn coincall_sorted_kv_sorts_stably_by_key() {
    let pairs = vec![
        ("symbol", "BTCUSD".to_string()),
        ("pageSize", "200".to_string()),
        ("endTime", "9".to_string()),
        ("b", "first".to_string()),
        ("a", "x".to_string()),
        ("b", "second".to_string()),
    ];
    assert_eq!(
        coincall::sorted_kv(&pairs),
        "a=x&b=first&b=second&endTime=9&pageSize=200&symbol=BTCUSD"
    );
    assert_eq!(coincall::sorted_kv(&[]), "");
    assert_eq!(coincall::sorted_kv(&[("Z", "1".to_string()), ("a", "2".to_string())]), "Z=1&a=2");
}

#[test]
fn coincall_transaction_windows_split_by_seven_days() {
    let w = 604_800_000i64;
    let r = coincall::transaction_windows(1, 2 * w + 10, 0);
    assert_eq!(r, vec![(1, w), (w + 1, 2 * w), (2 * w + 1, 2 * w + 10)]);
    let r2 = coincall::transaction_windows(0, 0, 3 * w);
    assert_eq!(r2, vec![(2 * w, 3 * w - 1), (3 * w, 3 * w)]);
    let r3 = coincall::transaction_windows(500, 100, 0);
    assert_eq!(r3, vec![(100, 100)]);
}

#[test]
fn iso_timestamps() {
    assert_eq!(parse_iso_ms("2025-01-18T15:36:43.199+00:00"), 1737214603199);
    assert_eq!(parse_iso_ms("2025-01-18T15:36:43.199Z"), 1737214603199);
    assert_eq!(parse_iso_ms("2025-01-18T15:36:43.199+0000"), 1737214603199);
    assert_eq!(parse_iso_ms("yesterday"), 0);
    assert_eq!(token_expiry_ms(Some("1970-01-01T00:00:01Z"), 5), 1000);
    assert_eq!(token_expiry_ms(Some("soon"), 5), 5 + 29 * 60 * 1000);
    assert_eq!(token_expiry_ms(None, 0), 1_740_000);
}

#[test]
fn okx_timestamp_has_millisecond_iso_form() {
    let ts = okx_timestamp_now();
    let b = ts.as_bytes();
    assert_eq!(ts.len(), 24);
    assert_eq!(b[4], b'-');
    assert_eq!(b[7], b'-');
    assert_eq!(b[10], b'T');
    assert_eq!(b[13], b':');
    assert_eq!(b[16], b':');
    assert_eq!(b[19], b'.');
    assert_eq!(b[23], b'Z');
    assert!(ts.starts_with("20"));
}
