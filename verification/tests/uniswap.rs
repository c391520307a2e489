use order_dashboard::api::hyperliquid::sign_action;
use order_dashboard::api::uniswap::{base_fee_of, fee_caps, parse_hex_u64};
use k256::ecdsa::{RecoveryId, Signature, VerifyingKey};
use order_dashboard::api::uniswap::{
    abi_encode_address, abi_encode_u24, abi_encode_u256, encode_list, rlp_encode_bytes,
    rlp_length_prefix, sign_tx, swap_calldata, u64_to_rlp_bytes, usize_to_bytes, wallet_address,
};
use sha3::{Digest, Keccak256};

#[test]
fn rlp_strings() {
    assert_eq!(rlp_encode_bytes(b""), vec![0x80]);
    assert_eq!(rlp_encode_bytes(&[0x0f]), vec![0x0f]);
    assert_eq!(rlp_encode_bytes(&[0x80]), vec![0x81, 0x80]);
    assert_eq!(rlp_encode_bytes(b"dog"), vec![0x83, b'd', b'o', b'g']);
    let long = vec![0x61u8; 56];
    let enc = rlp_encode_bytes(&long);
    assert_eq!(&enc[..2], &[0xb8, 56]);
    assert_eq!(&enc[2..], &long[..]);
}

#[test]
fn rlp_lists() {
    let cat = rlp_encode_bytes(b"cat");
    let dog = rlp_encode_bytes(b"dog");
    assert_eq!(
        encode_list(&[cat.as_slice(), dog.as_slice()]),
        vec![0xc8, 0x83, b'c', b'a', b't', 0x83, b'd', b'o', b'g']
    );
    assert_eq!(encode_list(&[]), vec![0xc0]);
    assert_eq!(rlp_length_prefix(0xc0, 1024), vec![0xf9, 0x04, 0x00]);
}

#[test]
fn rlp_integers() {
    assert_eq!(u64_to_rlp_bytes(0), Vec::<u8>::new());
    assert_eq!(u64_to_rlp_bytes(15), vec![15]);
    assert_eq!(u64_to_rlp_bytes(1024), vec![0x04, 0x00]);
    assert_eq!(u64_to_rlp_bytes(u64::MAX), vec![0xff; 8]);
    assert_eq!(usize_to_bytes(0), vec![0]);
    assert_eq!(usize_to_bytes(256), vec![1, 0]);
}

#[test]
fn abi_words() {
    let mut one = vec![0u8; 32];
    one[31] = 1;
    assert_eq!(abi_encode_u256(1), one);
    let mut fee = vec![0u8; 32];
    fee[30] = 0x0b;
    fee[31] = 0xb8;
    assert_eq!(abi_encode_u24(3000), fee);
    let a = abi_encode_address("0xC02aaA39b223FE8D0A0e5C4F27eAD9083C756Cc2");
    assert_eq!(&a[..12], &[0u8; 12]);
    assert_eq!(hex::encode(&a[12..]), "c02aaa39b223fe8d0a0e5c4f27ead9083c756cc2");
    assert_eq!(abi_encode_address("not hex"), vec![0u8; 32]);
}

#[test]
fn wallet_addresses_of_known_keys() {
    assert_eq!(
        wallet_address("0x4c0883a69102937d6231471b5dbb6204fe5129617082792ae468d01a3f362318").unwrap(),
        "0x2c7536e3605d9c16a7a3d7b1898e529396a65c23"
    );
    assert_eq!(
        wallet_address("0000000000000000000000000000000000000000000000000000000000000001").unwrap(),
        "0x7e5f4552091a69125d5dfcb7b8c2659029395bdf"
    );
}

#[test]
fn wallet_address_errors() {
    assert!(wallet_address("0xzz").unwrap_err().starts_with("Bad private key: "));
    assert!(wallet_address(&"00".repeat(32)).unwrap_err().starts_with("Bad key: "));
}

#[test]
fn swap_calldata_layout() {
    let data = swap_calldata(
        "0xC02aaA39b223FE8D0A0e5C4F27eAD9083C756Cc2",
        "0xA0b86991c6218b36c1d19D4a2e9Eb0cE3606eB48",
        "0x2c7536e3605d9c16a7a3d7b1898e529396a65c23",
        1_700_000_000,
        1_000_000,
    );
    assert_eq!(data.len(), 4 + 8 * 32);
    assert_eq!(hex::encode(&data[..4]), "04e45aaf");
    let sel = Keccak256::digest(b"exactInputSingle((address,address,uint24,address,uint256,uint256,uint160))");
    assert_eq!(&data[..4], &sel[..4]);
    assert_eq!(&data[4 + 2 * 32 + 29..4 + 3 * 32], &[0x00, 0x0b, 0xb8]);
    assert_eq!(&data[4 + 5 * 32 + 16..4 + 6 * 32], &1_000_000u128.to_be_bytes());
    assert_eq!(&data[4 + 6 * 32..], &[0u8; 64]);
    assert_eq!(&data[4 + 4 * 32 + 24..4 + 5 * 32], &1_700_000_000u64.to_be_bytes());
}

#[test]
fn signed_transaction_recovers_to_signer() {
    let key = "0x4c0883a69102937d6231471b5dbb6204fe5129617082792ae468d01a3f362318";
    let to = "0x68b3465833fb72A70ecDF485E0e4C7bD8665Fc45";
    let raw = sign_tx(to, &[1, 2, 3], 0, 300_000, 40, 1, 7, 1, key).unwrap();
    assert!(raw.starts_with("0x02"));
    let bytes = hex::decode(&raw[2..]).unwrap();
    assert_eq!(bytes[0], 2);

    // Rebuild the unsigned payload and the signing hash.
    let fields = [
        rlp_encode_bytes(&u64_to_rlp_bytes(1)),
        rlp_encode_bytes(&u64_to_rlp_bytes(7)),
        rlp_encode_bytes(&u64_to_rlp_bytes(1)),
        rlp_encode_bytes(&u64_to_rlp_bytes(40)),
        rlp_encode_bytes(&u64_to_rlp_bytes(300_000)),
        rlp_encode_bytes(&hex::decode(&to[2..]).unwrap()),
        rlp_encode_bytes(&u64_to_rlp_bytes(0)),
        rlp_encode_bytes(&[1, 2, 3]),
        rlp_encode_bytes(&[]),
    ];
    let refs: Vec<&[u8]> = fields.iter().map(|f| f.as_slice()).collect();
    let payload = encode_list(&refs);
    let mut pre = vec![2u8];
    pre.extend_from_slice(&payload);
    let hash = Keccak256::digest(&pre);

    // The signed list is the same fields followed by v, r and s.
    let body = &bytes[1..];
    let content_len = body.len() - 2;
    assert_eq!(body[0], 0xf8);
    assert_eq!(body[1] as usize, content_len);
    let content = &body[2..];
    let fields_len: usize = fields.iter().map(|f| f.len()).sum();
    assert_eq!(&content[..fields_len], &payload[payload.len() - fields_len..]);
    let tail = &content[fields_len..];
    let v = if tail[0] == 0x80 { 0u8 } else { tail[0] };
    let (r, s) = (&tail[2..34], &tail[35..67]);
    assert_eq!((tail[1], tail[34]), (0xa0, 0xa0));
    let mut rs = r.to_vec();
    rs.extend_from_slice(s);
    let sig = Signature::from_slice(&rs).unwrap();
    let recovered = VerifyingKey::recover_from_prehash(&hash, &sig, RecoveryId::from_byte(v).unwrap()).unwrap();
    let point = recovered.to_encoded_point(false);
    let addr = Keccak256::digest(&point.as_bytes()[1..]);
    assert_eq!(hex::encode(&addr[12..]), "2c7536e3605d9c16a7a3d7b1898e529396a65c23");
}

#[test]
fn sign_tx_rejects_bad_inputs() {
    assert!(sign_tx("0xq", &[], 0, 0, 0, 0, 0, 1, "01").is_err());
    let e = sign_tx("0x00", &[], 0, 0, 0, 0, 0, 1, "xyz").unwrap_err();
    assert!(e.starts_with("Bad private key: "));
    let e2 = sign_tx("0x00", &[], 0, 0, 0, 0, 0, 1, &"00".repeat(32)).unwrap_err();
    assert!(e2.starts_with("Bad key: "));
}

#[test]
fn hyperliquid_action_signature_recovers() {
    let key = "0x4c0883a69102937d6231471b5dbb6204fe5129617082792ae468d01a3f362318";
    let action = r#"{"type":"cancel","cancels":[{"a":0,"o":1}]}"#;
    for vault in [None, Some("0xabc")] {
        let (r, s, v) = sign_action(key, action, 1700000000000, vault).unwrap();
        assert!(r.starts_with("0x") && r.len() == 66);
        assert!(s.starts_with("0x") && s.len() == 66);
        assert!(v == 27 || v == 28 || v == 29 || v == 30);
        let connection = match vault {
            Some(a) => hex::encode(Keccak256::digest(a.as_bytes())),
            None => "0x0000000000000000000000000000000000000000".to_string(),
        };
        let mut msg = b"\x19Hyperliquid signed action:\n".to_vec();
        msg.extend_from_slice(action.as_bytes());
        msg.extend_from_slice(&1700000000000u64.to_be_bytes());
        msg.extend_from_slice(connection.as_bytes());
        let hash = Keccak256::digest(&msg);
        let mut rs = hex::decode(&r[2..]).unwrap();
        rs.extend_from_slice(&hex::decode(&s[2..]).unwrap());
        let sig = Signature::from_slice(&rs).unwrap();
        let vk = VerifyingKey::recover_from_prehash(&hash, &sig, RecoveryId::from_byte((v - 27) as u8).unwrap()).unwrap();
        let point = vk.to_encoded_point(false);
        let addr = Keccak256::digest(&point.as_bytes()[1..]);
        assert_eq!(hex::encode(&addr[12..]), "2c7536e3605d9c16a7a3d7b1898e529396a65c23");
    }
    assert!(sign_action("0xq", action, 1, None).unwrap_err().starts_with("Invalid private key hex: "));
    assert!(sign_action(&"00".repeat(32), action, 1, None).unwrap_err().starts_with("Invalid private key: "));
}

#[test]
fn hex_quantities_read_like_from_str_radix() {
    for s in ["", "+", "-", "-5", "+1f", "1F", "ffffffffffffffff", "10000000000000000", "1g", "1000000000000000000z", "z1000000000000000000", "0", "é"] {
        let expected = u64::from_str_radix(s, 16).map_err(|e| e.to_string());
        assert_eq!(parse_hex_u64(s), expected, "input {:?}", s);
    }
}

#[test]
fn swap_fees() {
    assert_eq!(base_fee_of(Some("0x3b9aca00")), 1_000_000_000);
    assert_eq!(base_fee_of(Some("0x0x10")), 16);
    assert_eq!(base_fee_of(Some("nope")), 20_000_000_000);
    assert_eq!(base_fee_of(None), 20_000_000_000);
    assert_eq!(fee_caps(1_000_000_000), (3_000_000_000, 1_000_000_000));
}
