//! Hyperliquid: REST endpoint, clock, action signatures, time in force and
//! the asset universe.

use vstd::prelude::*;
use crate::api::uniswap::{append_bytes, be_fixed, be_fixed_bytes, slice_bytes};
use crate::clock::{millis_reading, unix_millis};
use crate::digest::{hex_encode, hex_lower, keccak256, keccak256_digest};
use crate::evm::{
    decode_hex_text, hex_text_bytes, secp256k1_secret_ok, secp256k1_sign_prehash, secp256k1_signature,
    SignFailure,
};
use crate::text::{append_str, chars_of, concat2, str_eq, string_from_chars, trim_end_matches, trim_suffix_all, utf8};

verus! {

/// The REST base URL.
pub fn base_url(testnet: bool) -> (r: &'static str)
    ensures
        r@ == if testnet { "https://api.hyperliquid-testnet.xyz"@ } else { "https://api.hyperliquid.xyz"@ },
{
    if testnet { "https://api.hyperliquid-testnet.xyz" } else { "https://api.hyperliquid.xyz" }
}

/// Milliseconds since the Unix epoch (0 before it), used as the action nonce.
pub fn now_ms() -> (r: u64)
    ensures
        exists|d: Option<u128>| r == millis_reading(d),
{
    unix_millis()
}

/// The text that prefixes every signed action.
pub const ACTION_PREFIX: &'static str = "\x19Hyperliquid signed action:\n";

/// The zero address, the connection of an action without a vault.
pub const NO_VAULT: &'static str = "0x0000000000000000000000000000000000000000";

/// The connection text of an action: the hex Keccak-256 of the vault
/// address, or the zero address without a vault.
pub open spec fn connection_text(vault_address: Option<Seq<char>>) -> Seq<char> {
    match vault_address {
        Some(v) => hex_lower(keccak256_digest(utf8(v))),
        None => NO_VAULT@,
    }
}

/// The hash an action is signed over: Keccak-256 of the prefix, the action's
/// JSON text, the nonce (8 bytes, big-endian) and the connection text.
pub open spec fn action_hash(action_json: Seq<char>, nonce: u64, vault_address: Option<Seq<char>>) -> Seq<u8> {
    keccak256_digest(
        utf8(ACTION_PREFIX@) + utf8(action_json) + be_fixed(nonce as nat, 8) + utf8(connection_text(vault_address)),
    )
}

/// The signature fields of an action: `r` and `s` as `0x`-prefixed hex,
/// and `v` as the recovery id plus 27.
pub open spec fn action_signature_fields(sig: Seq<u8>, recid: u8) -> (Seq<char>, Seq<char>, int) {
    (
        "0x"@ + hex_lower(sig.subrange(0, 32)),
        "0x"@ + hex_lower(sig.subrange(32, sig.len() as int)),
        recid + 27,
    )
}

/// Signs an action given as its JSON text with the hex secret key, returning
/// `r`, `s` and `v`. Fails where the key is not hex (`"Invalid private key hex: "`),
/// not a valid secret key (`"Invalid private key: "`), or signing fails
/// (`"Signing failed: "`).
pub fn sign_action(
    private_key_hex: &str,
    action_json: &str,
    nonce: u64,
    vault_address: Option<&str>,
) -> (r: Result<(String, String, u64), String>)
    ensures
        match r {
            Ok((rr, ss, v)) => hex_text_bytes(private_key_hex@) matches Some(key) && secp256k1_secret_ok(key)
                && (secp256k1_signature(
                key,
                action_hash(
                    action_json@,
                    nonce,
                    match vault_address {
                        Some(a) => Some(a@),
                        None => None,
                    },
                ),
            ) matches Some((sig, recid)) && (rr@, ss@, v as int) == action_signature_fields(sig, recid)),
            Err(e) => (hex_text_bytes(private_key_hex@) is None && e@.len() >= 25 && e@.subrange(0, 25)
                == "Invalid private key hex: "@) || (hex_text_bytes(private_key_hex@) matches Some(key) && (
            (!secp256k1_secret_ok(key) && e@.len() >= 21 && e@.subrange(0, 21) == "Invalid private key: "@) || (
            secp256k1_secret_ok(key) && secp256k1_signature(
                key,
                action_hash(
                    action_json@,
                    nonce,
                    match vault_address {
                        Some(a) => Some(a@),
                        None => None,
                    },
                ),
            ) is None && e@.len() >= 16 && e@.subrange(0, 16) == "Signing failed: "@))),
        },
{
    let key = match decode_hex_text(private_key_hex) {
        Ok(k) => k,
        Err(e) => {
            proof {
                reveal_strlit("Invalid private key hex: ");
            }
            let msg = concat2("Invalid private key hex: ", e.as_str());
            assert(msg@.subrange(0, 25) =~= "Invalid private key hex: "@);
            return Err(msg);
        },
    };
    let connection: String = match vault_address {
        Some(v) => {
            let h = keccak256(v.as_bytes());
            hex_encode(h.as_slice())
        },
        None => concat2(NO_VAULT, ""),
    };
    proof {
        reveal_strlit("");
    }
    let mut msg: Vec<u8> = Vec::new();
    append_bytes(&mut msg, ACTION_PREFIX.as_bytes());
    append_bytes(&mut msg, action_json.as_bytes());
    let n = be_fixed_bytes(nonce as u128, 8);
    append_bytes(&mut msg, n.as_slice());
    append_bytes(&mut msg, connection.as_str().as_bytes());
    let hash = keccak256(msg.as_slice());
    let (sig, recid) = match secp256k1_sign_prehash(key.as_slice(), hash.as_slice()) {
        Ok(x) => x,
        Err(SignFailure::BadKey(e)) => {
            proof {
                reveal_strlit("Invalid private key: ");
            }
            let m = concat2("Invalid private key: ", e.as_str());
            assert(m@.subrange(0, 21) =~= "Invalid private key: "@);
            return Err(m);
        },
        Err(SignFailure::Signing(e)) => {
            proof {
                reveal_strlit("Signing failed: ");
            }
            let m = concat2("Signing failed: ", e.as_str());
            assert(m@.subrange(0, 16) =~= "Signing failed: "@);
            return Err(m);
        },
    };
    let r_bytes = slice_bytes(sig.as_slice(), 0, 32);
    let s_bytes = slice_bytes(sig.as_slice(), 32, sig.len());
    let r_hex = hex_encode(r_bytes.as_slice());
    let s_hex = hex_encode(s_bytes.as_slice());
    Ok((concat2("0x", r_hex.as_str()), concat2("0x", s_hex.as_str()), recid as u64 + 27))
}


/// The time in force of an order: `Ioc` for a market order and for
/// immediate-or-cancel or fill-or-kill, else `Gtc`.
pub fn order_tif(order_type: &str, time_in_force: Option<&str>) -> (r: &'static str)
    ensures
        r@ == (if order_type@ == "market"@
            || (time_in_force matches Some(t) && (t@ == "fill_or_kill"@ || t@ == "immediate_or_cancel"@)) {
            "Ioc"@
        } else {
            "Gtc"@
        }),
{
    if str_eq(order_type, "market") {
        return "Ioc";
    }
    match time_in_force {
        Some(t) => if str_eq(t, "fill_or_kill") || str_eq(t, "immediate_or_cancel") { "Ioc" } else { "Gtc" },
        None => "Gtc",
    }
}

/// The perpetual listed for a universe asset: its name (`UNKNOWN` where
/// none is given) and `-PERP`.
pub fn perp_name(name: Option<&str>) -> (r: String)
    ensures
        r@ == (match name {
            Some(n) => n@,
            None => "UNKNOWN"@,
        }) + "-PERP"@,
{
    match name {
        Some(n) => concat2(n, "-PERP"),
        None => concat2("UNKNOWN", "-PERP"),
    }
}

/// Whether position `i` of the universe is the asset of `symbol`: its name
/// is the symbol without its `-PERP` endings.
pub open spec fn is_asset_at(names: Seq<Option<Seq<char>>>, i: int, symbol: Seq<char>) -> bool {
    names[i] == Some(trim_suffix_all(symbol, "-PERP"@))
}

/// The position of a symbol's asset in the universe (the first that
/// matches), or the error naming the symbol.
pub fn asset_index(names: &Vec<Option<String>>, symbol: &str) -> (r: Result<u32, String>)
    ensures
        ({
            let ns = names@.map_values(|n: Option<String>| match n {
                Some(s) => Some(s@),
                None => None::<Seq<char>>,
            });
            match r {
                Ok(i) => exists|k: int| 0 <= k < ns.len() && is_asset_at(ns, k, symbol@) && i == k as u32
                    && forall|j: int| 0 <= j < k ==> !is_asset_at(ns, j, symbol@),
                Err(e) => (forall|j: int| 0 <= j < ns.len() ==> !is_asset_at(ns, j, symbol@))
                    && e@ == "Asset '"@ + symbol@ + "' not found"@,
            }
        }),
{
    let ghost ns = names@.map_values(|n: Option<String>| match n {
        Some(s) => Some(s@),
        None => None::<Seq<char>>,
    });
    let c = chars_of(symbol);
    let perp = chars_of("-PERP");
    let wanted_chars = trim_end_matches(c.as_slice(), perp.as_slice());
    let wanted = string_from_chars(wanted_chars.as_slice());
    let mut i: usize = 0;
    while i < names.len()
        invariant
            i <= names@.len(),
            ns == names@.map_values(|n: Option<String>| match n {
                Some(s) => Some(s@),
                None => None::<Seq<char>>,
            }),
            wanted@ == trim_suffix_all(symbol@, "-PERP"@),
            forall|j: int| 0 <= j < i ==> !is_asset_at(ns, j, symbol@),
        decreases names.len() - i,
    {
        let hit = match &names[i] {
            Some(n) => str_eq(n.as_str(), wanted.as_str()),
            None => false,
        };
        proof {
            assert(ns[i as int] == match names@[i as int] {
                Some(s) => Some(s@),
                None => None::<Seq<char>>,
            });
        }
        if hit {
            proof {
                assert(is_asset_at(ns, i as int, symbol@));
            }
            return Ok(i as u32);
        }
        i = i + 1;
    }
    let mut v: Vec<char> = chars_of("Asset '");
    append_str(&mut v, symbol);
    append_str(&mut v, "' not found");
    Err(string_from_chars(v.as_slice()))
}

} // verus!
