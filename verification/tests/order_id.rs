use order_dashboard::order_id::{
    build_client_order_id, format_client_order_id, machine_hash, machine_hash_for, new_system_order_id,
    parse_client_order_id, OrderIdMaker,
};
use sha2::{Digest, Sha256};

#[test]
fn roundtrip() {
    let ts = new_system_order_id();
    let id = build_client_order_id(ts, 1);
    let (bot_id, _, parsed_ts) = parse_client_order_id(&id).expect("parse failed");
    assert_eq!(bot_id, 1);
    assert_eq!(parsed_ts, ts);
}

#[test]
fn format_check() {
    let id = build_client_order_id(1748262473512, 42);
    assert!(id.starts_with("0042_"));
    assert!(id.ends_with("_1748262473512"));
}

#[test]
fn format_pads_bot_id_to_four_digits() {
    assert_eq!(
        format_client_order_id(1748262473512, 1, "a3f2b9c7"),
        "0001_a3f2b9c7_1748262473512"
    );
    assert_eq!(format_client_order_id(0, 65535, "00000000"), "65535_00000000_0");
}

#[test]
fn machine_hash_is_first_four_sha256_bytes() {
    let d = Sha256::digest(b"unknown");
    let expected = format!("{:02x}{:02x}{:02x}{:02x}", d[0], d[1], d[2], d[3]);
    assert_eq!(machine_hash_for("unknown"), expected);
    assert_eq!(machine_hash_for("unknown").len(), 8);
}

#[test]
fn built_id_carries_machine_hash() {
    let id = build_client_order_id(5, 7);
    let (bot, hash, ts) = parse_client_order_id(&id).unwrap();
    assert_eq!((bot, ts), (7, 5));
    assert_eq!(hash.len(), 8);
    assert!(hash.chars().all(|c| c.is_ascii_hexdigit() && !c.is_ascii_uppercase()));
}

#[test]
fn parse_rejects_malformed_ids() {
    assert_eq!(parse_client_order_id("0001_abc"), None);
    assert_eq!(parse_client_order_id("x_abc_1"), None);
    assert_eq!(parse_client_order_id("70000_abc_1"), None);
    assert_eq!(parse_client_order_id("0001_ab_12_3"), None);
    assert_eq!(parse_client_order_id("0001_abc_"), None);
}

#[test]
fn parse_reads_signs_like_str_parse() {
    assert_eq!(
        parse_client_order_id("+1_h_+5"),
        Some((1, "h".to_string(), 5))
    );
    assert_eq!(
        parse_client_order_id("0001__18446744073709551615"),
        Some((1, String::new(), u64::MAX))
    );
}

#[test]
fn machine_hash_is_the_hostnames() {
    let expected = match hostname::get() {
        Ok(h) => machine_hash_for(&h.to_string_lossy()),
        Err(_) => machine_hash_for("unknown"),
    };
    assert_eq!(machine_hash(), expected);
    assert_eq!(machine_hash().len(), 8);
}

#[test]
fn client_order_ids_fit_in_35_characters() {
    assert!(build_client_order_id(u64::MAX, u16::MAX).len() <= 35);
    assert_eq!(build_client_order_id(u64::MAX, u16::MAX).len(), 35);
}

#[test]
fn one_maker_gives_one_hash() {
    let maker = OrderIdMaker::new();
    let a = maker.build(1, 7);
    let b = maker.build(1748262473512, 65535);
    let (_, ha, _) = parse_client_order_id(&a).expect("parse failed");
    let (bot, hb, ts) = parse_client_order_id(&b).expect("parse failed");
    assert_eq!(ha, hb);
    assert_eq!(ha, machine_hash());
    assert_eq!(ha.len(), 8);
    assert_eq!((bot, ts), (65535, 1748262473512));
    assert!(b.len() <= 35);
}
