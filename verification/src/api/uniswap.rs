//! Uniswap V3 over JSON-RPC: the token registry, pair parsing, and the RLP
//! and ABI encodings that transactions and calls are built from.

use vstd::prelude::*;
use crate::clock::{millis_reading, unix_millis};
use crate::digest::{hex_decode, hex_decoded, hex_encode, hex_lower, keccak256, keccak256_digest};
use crate::evm::{
    decode_hex_text, hex_text_bytes, secp256k1_public_key, secp256k1_public_point, secp256k1_secret_ok,
    secp256k1_sign_prehash, secp256k1_signature, SignFailure,
};
use crate::text::{
    chars_of, find_char_from, index_of_from, str_eq, string_from_chars,
    trim_end_matches, trim_prefix_all, trim_start_matches, trim_suffix_all, utf8, chars_slice,
    concat2,
};

verus! {

/// A token the client knows by symbol.
#[derive(Debug, Clone, Copy)]
pub struct TokenInfo {
    pub address: &'static str,
    pub symbol: &'static str,
    pub decimals: u8,
}

/// Milliseconds since the Unix epoch (0 before it).
pub fn now_ms() -> (r: u64)
    ensures
        exists|d: Option<u128>| r == millis_reading(d),
{
    unix_millis()
}

/// The registry entry of a known symbol: (address, decimals).
pub open spec fn registry_entry(symbol: Seq<char>) -> Option<(Seq<char>, u8)> {
    if symbol == "WETH"@ {
        Some(("0xC02aaA39b223FE8D0A0e5C4F27eAD9083C756Cc2"@, 18u8))
    } else if symbol == "USDC"@ {
        Some(("0xA0b86991c6218b36c1d19D4a2e9Eb0cE3606eB48"@, 6u8))
    } else if symbol == "USDT"@ {
        Some(("0xdAC17F958D2ee523a2206206994597C13D831ec7"@, 6u8))
    } else if symbol == "WBTC"@ {
        Some(("0x2260FAC5E5542a773Aa44fBCfeDf7C193bc2C599"@, 8u8))
    } else if symbol == "DAI"@ {
        Some(("0x6B175474E89094C44Da98b954EedeAC495271d0F"@, 18u8))
    } else if symbol == "UNI"@ {
        Some(("0x1f9840a85d5aF5bf1D1762F925BDADdC4201F984"@, 18u8))
    } else if symbol == "AAVE"@ {
        Some(("0x7Fc66500c84A76Ad7e9c93437bFc5Ac33E2DDaE9"@, 18u8))
    } else {
        None
    }
}

/// Whether `t` is the registry entry of `symbol`.
pub open spec fn is_entry_of(t: TokenInfo, symbol: Seq<char>) -> bool {
    registry_entry(symbol) == Some((t.address@, t.decimals)) && t.symbol@ == symbol
}

/// The symbols of the known tokens.
pub open spec fn registry_symbols() -> Seq<Seq<char>> {
    seq!["WETH"@, "USDC"@, "USDT"@, "WBTC"@, "DAI"@, "UNI"@, "AAVE"@]
}

/// The known tokens (Ethereum mainnet and Arbitrum addresses).
pub fn token_registry() -> (r: Vec<TokenInfo>)
    ensures
        r@.len() == 7,
        forall|i: int| 0 <= i < 7 ==> (#[trigger] r@[i]).symbol@ == registry_symbols()[i],
        forall|i: int| 0 <= i < 7 ==> is_entry_of(#[trigger] r@[i], r@[i].symbol@),
{
    let mut m: Vec<TokenInfo> = Vec::new();
    m.push(TokenInfo { address: "0xC02aaA39b223FE8D0A0e5C4F27eAD9083C756Cc2", symbol: "WETH", decimals: 18 });
    m.push(TokenInfo { address: "0xA0b86991c6218b36c1d19D4a2e9Eb0cE3606eB48", symbol: "USDC", decimals: 6 });
    m.push(TokenInfo { address: "0xdAC17F958D2ee523a2206206994597C13D831ec7", symbol: "USDT", decimals: 6 });
    m.push(TokenInfo { address: "0x2260FAC5E5542a773Aa44fBCfeDf7C193bc2C599", symbol: "WBTC", decimals: 8 });
    m.push(TokenInfo { address: "0x6B175474E89094C44Da98b954EedeAC495271d0F", symbol: "DAI", decimals: 18 });
    m.push(TokenInfo { address: "0x1f9840a85d5aF5bf1D1762F925BDADdC4201F984", symbol: "UNI", decimals: 18 });
    m.push(TokenInfo { address: "0x7Fc66500c84A76Ad7e9c93437bFc5Ac33E2DDaE9", symbol: "AAVE", decimals: 18 });
    proof {
        reveal_strlit("WETH");
        reveal_strlit("USDC");
        reveal_strlit("USDT");
        reveal_strlit("WBTC");
        reveal_strlit("DAI");
        reveal_strlit("UNI");
        reveal_strlit("AAVE");
        assert("USDC"@[0] != "WETH"@[0]);
        assert("USDT"@[0] != "WETH"@[0]);
        assert("USDT"@[3] != "USDC"@[3]);
        assert("WBTC"@[1] != "WETH"@[1]);
        assert("WBTC"@[0] != "USDC"@[0]);
        assert("WBTC"@[0] != "USDT"@[0]);
        assert("DAI"@.len() != "WETH"@.len());
        assert("UNI"@.len() != "WETH"@.len());
        assert("UNI"@[0] != "DAI"@[0]);
        assert("AAVE"@[0] != "WETH"@[0]);
        assert("AAVE"@[0] != "USDC"@[0]);
        assert("AAVE"@[0] != "USDT"@[0]);
        assert("AAVE"@[0] != "WBTC"@[0]);
        assert("AAVE"@.len() != "DAI"@.len());
        assert(is_entry_of(m@[0], "WETH"@));
        assert(is_entry_of(m@[1], "USDC"@));
        assert(is_entry_of(m@[2], "USDT"@));
        assert(is_entry_of(m@[3], "WBTC"@));
        assert(is_entry_of(m@[4], "DAI"@));
        assert(is_entry_of(m@[5], "UNI"@));
        assert(is_entry_of(m@[6], "AAVE"@));
    }
    m
}

/// Looks a token up by symbol.
pub fn find_token(symbol: &str) -> (r: Option<TokenInfo>)
    ensures
        match r {
            Some(t) => is_entry_of(t, symbol@),
            None => registry_entry(symbol@) is None,
        },
        r is Some <==> (symbol@ == "WETH"@ || symbol@ == "USDC"@ || symbol@ == "USDT"@ || symbol@ == "WBTC"@
            || symbol@ == "DAI"@ || symbol@ == "UNI"@ || symbol@ == "AAVE"@),
        r matches Some(t) ==> (t.decimals == 8 <==> symbol@ == "WBTC"@),
        r matches Some(t) ==> (t.decimals == 6 <==> symbol@ == "USDC"@ || symbol@ == "USDT"@),
{
    proof {
        lemma_known_token_facts(symbol@);
    }
    let reg = token_registry();
    let mut i: usize = 0;
    while i < reg.len()
        invariant
            reg@.len() == 7,
            i <= 7,
            forall|k: int| 0 <= k < 7 ==> is_entry_of(#[trigger] reg@[k], reg@[k].symbol@),
            forall|k: int| 0 <= k < 7 ==> (#[trigger] reg@[k]).symbol@ == registry_symbols()[k],
            forall|k: int| 0 <= k < i ==> (#[trigger] reg@[k]).symbol@ != symbol@,
        decreases 7 - i,
    {
        if str_eq(reg[i].symbol, symbol) {
            proof {
                lemma_token_decimals(reg@[i as int], symbol@);
            }
            return Some(reg[i]);
        }
        i = i + 1;
    }
    proof {
        reveal_strlit("WETH");
        reveal_strlit("USDC");
        reveal_strlit("USDT");
        reveal_strlit("WBTC");
        reveal_strlit("DAI");
        reveal_strlit("UNI");
        reveal_strlit("AAVE");
        assert(reg@[0].symbol@ != symbol@);
        assert(reg@[1].symbol@ != symbol@);
        assert(reg@[2].symbol@ != symbol@);
        assert(reg@[3].symbol@ != symbol@);
        assert(reg@[4].symbol@ != symbol@);
        assert(reg@[5].symbol@ != symbol@);
        assert(reg@[6].symbol@ != symbol@);
    }
    None
}

/// The tokens known for swaps, as they are on chain: WETH, DAI, UNI and
/// AAVE have 18 decimals, USDC and USDT 6, WBTC 8 (one WBTC is 10^8 raw
/// units), each at its own contract address; no other symbol is known.
pub proof fn lemma_known_token_facts(symbol: Seq<char>)
    ensures
        symbol == "WETH"@ ==> registry_entry(symbol) is Some && registry_entry(symbol).unwrap().1 == 18
            && registry_entry(symbol).unwrap().0 == "0xC02aaA39b223FE8D0A0e5C4F27eAD9083C756Cc2"@,
        symbol == "USDC"@ ==> registry_entry(symbol) is Some && registry_entry(symbol).unwrap().1 == 6
            && registry_entry(symbol).unwrap().0 == "0xA0b86991c6218b36c1d19D4a2e9Eb0cE3606eB48"@,
        symbol == "USDT"@ ==> registry_entry(symbol) is Some && registry_entry(symbol).unwrap().1 == 6
            && registry_entry(symbol).unwrap().0 == "0xdAC17F958D2ee523a2206206994597C13D831ec7"@,
        symbol == "WBTC"@ ==> registry_entry(symbol) is Some && registry_entry(symbol).unwrap().1 == 8
            && registry_entry(symbol).unwrap().0 == "0x2260FAC5E5542a773Aa44fBCfeDf7C193bc2C599"@,
        symbol == "DAI"@ ==> registry_entry(symbol) is Some && registry_entry(symbol).unwrap().1 == 18
            && registry_entry(symbol).unwrap().0 == "0x6B175474E89094C44Da98b954EedeAC495271d0F"@,
        symbol == "UNI"@ ==> registry_entry(symbol) is Some && registry_entry(symbol).unwrap().1 == 18
            && registry_entry(symbol).unwrap().0 == "0x1f9840a85d5aF5bf1D1762F925BDADdC4201F984"@,
        symbol == "AAVE"@ ==> registry_entry(symbol) is Some && registry_entry(symbol).unwrap().1 == 18
            && registry_entry(symbol).unwrap().0 == "0x7Fc66500c84A76Ad7e9c93437bFc5Ac33E2DDaE9"@,
        symbol != "WETH"@ && symbol != "USDC"@ && symbol != "USDT"@ && symbol != "WBTC"@ && symbol != "DAI"@
            && symbol != "UNI"@ && symbol != "AAVE"@ ==> registry_entry(symbol) is None,
{
    reveal_strlit("WETH");
    reveal_strlit("USDC");
    reveal_strlit("USDT");
    reveal_strlit("WBTC");
    reveal_strlit("DAI");
    reveal_strlit("UNI");
    reveal_strlit("AAVE");
    assert("USDC"@[0] != "WETH"@[0]);
    assert("USDT"@[0] != "WETH"@[0]);
    assert("USDT"@[3] != "USDC"@[3]);
    assert("WBTC"@[1] != "WETH"@[1]);
    assert("DAI"@.len() != "WETH"@.len());
    assert("UNI"@.len() != "WETH"@.len());
    assert("UNI"@[0] != "DAI"@[0]);
    assert("AAVE"@[0] != "WETH"@[0]);
}

/// Every token that a pair resolves to carries the decimals of the real
/// token: a `WBTC` side has 8, a `USDC` or `USDT` side 6, and a `WETH`,
/// `DAI`, `UNI` or `AAVE` side 18.
pub proof fn lemma_token_decimals(t: TokenInfo, symbol: Seq<char>)
    requires
        is_entry_of(t, symbol),
    ensures
        t.decimals == 8 <==> symbol == "WBTC"@,
        t.decimals == 6 <==> symbol == "USDC"@ || symbol == "USDT"@,
        t.decimals == 18 <==> symbol == "WETH"@ || symbol == "DAI"@ || symbol == "UNI"@ || symbol == "AAVE"@,
{
    lemma_known_token_facts(symbol);
}

/// The two parts of an instrument name written `A/B` with exactly one `/`.
pub open spec fn pair_parts(name: Seq<char>) -> Option<(Seq<char>, Seq<char>)> {
    match index_of_from(name, '/', 0) {
        Some(i) => if index_of_from(name, '/', i + 1) is None {
            Some((name.subrange(0, i), name.subrange(i + 1, name.len() as int)))
        } else {
            None
        },
        None => None,
    }
}

/// The registry symbol a pair part names: the part with trailing `-SPOT`s removed.
pub open spec fn part_symbol(part: Seq<char>) -> Seq<char> {
    trim_suffix_all(part, "-SPOT"@)
}

/// Parses an instrument name like "WETH/USDC" into (token in, token out).
pub fn parse_pair(instrument_name: &str) -> (r: Option<(TokenInfo, TokenInfo)>)
    ensures
        match r {
            Some((a, b)) => pair_parts(instrument_name@) matches Some((x, y)) && is_entry_of(a, part_symbol(x))
                && is_entry_of(b, part_symbol(y)),
            None => match pair_parts(instrument_name@) {
                Some((x, y)) => registry_entry(part_symbol(x)) is None || registry_entry(part_symbol(y)) is None,
                None => true,
            },
        },
{
    let s = chars_of(instrument_name);
    let i = match find_char_from(s.as_slice(), '/', 0) {
        Some(i) => i,
        None => return None,
    };
    if let Some(_) = find_char_from(s.as_slice(), '/', i + 1) {
        return None;
    }
    let suffix = chars_of("-SPOT");
    let first = chars_slice(s.as_slice(), 0, i);
    let second = chars_slice(s.as_slice(), i + 1, s.len());
    let a_sym = trim_end_matches(first.as_slice(), suffix.as_slice());
    let b_sym = trim_end_matches(second.as_slice(), suffix.as_slice());
    let a_name = string_from_chars(a_sym.as_slice());
    let b_name = string_from_chars(b_sym.as_slice());
    let a = match find_token(a_name.as_str()) {
        Some(a) => a,
        None => return None,
    };
    let b = match find_token(b_name.as_str()) {
        Some(b) => b,
        None => return None,
    };
    Some((a, b))
}

/// The minimal big-endian bytes of `n` (no leading zero byte; empty for 0).
pub open spec fn be_minimal(n: nat) -> Seq<u8>
    decreases n,
{
    if n == 0 {
        Seq::empty()
    } else {
        be_minimal(n / 256).push((n % 256) as u8)
    }
}

/// The value of big-endian bytes.
pub open spec fn be_value(b: Seq<u8>) -> nat
    decreases b.len(),
{
    if b.len() == 0 {
        0
    } else {
        be_value(b.drop_last()) * 256 + (b.last() as nat)
    }
}

/// The low `k` bytes of `n`, big-endian.
pub open spec fn be_fixed(n: nat, k: nat) -> Seq<u8>
    decreases k,
{
    if k == 0 {
        Seq::empty()
    } else {
        be_fixed(n / 256, (k - 1) as nat).push((n % 256) as u8)
    }
}

fn be_minimal_bytes(n: u64) -> (r: Vec<u8>)
    ensures
        r@ == be_minimal(n as nat),
    decreases n,
{
    if n == 0 {
        Vec::new()
    } else {
        let mut v = be_minimal_bytes(n / 256);
        v.push((n % 256) as u8);
        v
    }
}

/// The minimal big-endian bytes of `n`, as RLP encodes integers.
pub fn u64_to_rlp_bytes(n: u64) -> (r: Vec<u8>)
    ensures
        r@ == be_minimal(n as nat),
{
    be_minimal_bytes(n)
}

/// The big-endian bytes of `n` without leading zero bytes; a single zero
/// byte for 0.
pub fn usize_to_bytes(n: usize) -> (r: Vec<u8>)
    ensures
        r@ == if n == 0 { seq![0u8] } else { be_minimal(n as nat) },
{
    if n == 0 {
        let mut v: Vec<u8> = Vec::new();
        v.push(0);
        assert(v@ =~= seq![0u8]);
        v
    } else {
        be_minimal_bytes(n as u64)
    }
}

/// The minimal encoding is at most as long as the count of bytes that can hold `n`.
pub proof fn lemma_be_minimal_len(n: nat, k: nat)
    requires
        n < pow256(k),
    ensures
        be_minimal(n).len() <= k,
    decreases k,
{
    if n > 0 && k > 0 {
        assert(n / 256 < pow256((k - 1) as nat)) by (nonlinear_arith)
            requires n < pow256(k), pow256(k) == 256 * pow256((k - 1) as nat), n >= 0;
        lemma_be_minimal_len(n / 256, (k - 1) as nat);
    }
}

/// 256 to the power `k`.
pub open spec fn pow256(k: nat) -> nat
    decreases k,
{
    if k == 0 {
        1
    } else {
        256 * pow256((k - 1) as nat)
    }
}

/// Reading the minimal big-endian bytes back gives the number, and the
/// first byte is never zero.
pub proof fn lemma_be_minimal_roundtrip(n: nat)
    ensures
        be_value(be_minimal(n)) == n,
        be_minimal(n).len() > 0 ==> be_minimal(n)[0] != 0,
    decreases n,
{
    if n > 0 {
        lemma_be_minimal_roundtrip(n / 256);
        let b = be_minimal(n);
        assert(b.drop_last() =~= be_minimal(n / 256));
        if n / 256 == 0 {
            assert(b =~= seq![(n % 256) as u8]);
        } else {
            assert(b[0] == be_minimal(n / 256)[0]);
        }
    }
}

/// The RLP length prefix for a payload of `len` bytes, with `offset` 0x80
/// for strings and 0xc0 for lists.
pub open spec fn rlp_prefix(offset: u8, len: nat) -> Seq<u8> {
    if len <= 55 {
        seq![(offset + len) as u8]
    } else {
        seq![(offset + 55 + be_minimal(len).len()) as u8] + be_minimal(len)
    }
}

/// Whether the prefix byte of `rlp_prefix(offset, len)` fits in a byte.
pub open spec fn prefix_fits(offset: u8, len: nat) -> bool {
    if len <= 55 {
        offset + len <= 255
    } else {
        offset + 55 + be_minimal(len).len() <= 255
    }
}

/// The RLP length prefix for a payload of `len` bytes.
pub fn rlp_length_prefix(offset: u8, len: usize) -> (r: Vec<u8>)
    requires
        prefix_fits(offset, len as nat),
    ensures
        r@ == rlp_prefix(offset, len as nat),
{
    if len <= 55 {
        let mut v: Vec<u8> = Vec::new();
        v.push(offset + len as u8);
        assert(v@ =~= rlp_prefix(offset, len as nat));
        v
    } else {
        let len_bytes = usize_to_bytes(len);
        let mut out: Vec<u8> = Vec::new();
        out.push(offset + 55 + len_bytes.len() as u8);
        let mut i: usize = 0;
        while i < len_bytes.len()
            invariant
                i <= len_bytes.len(),
                out@ == seq![(offset + 55 + len_bytes@.len()) as u8] + len_bytes@.subrange(0, i as int),
            decreases len_bytes.len() - i,
        {
            out.push(len_bytes[i]);
            i = i + 1;
            assert(out@ =~= seq![(offset + 55 + len_bytes@.len()) as u8] + len_bytes@.subrange(0, i as int));
        }
        assert(len_bytes@.subrange(0, len_bytes.len() as int) =~= len_bytes@);
        out
    }
}

/// The RLP encoding of a byte string.
pub open spec fn rlp_string(data: Seq<u8>) -> Seq<u8> {
    if data.len() == 0 {
        seq![0x80u8]
    } else if data.len() == 1 && data[0] < 0x80 {
        data
    } else {
        rlp_prefix(0x80, data.len()) + data
    }
}

proof fn lemma_prefix_fits_usize(offset: u8, len: usize)
    requires
        offset <= 192,
    ensures
        prefix_fits(offset, len as nat),
{
    if len > 55 {
        reveal_with_fuel(pow256, 9);
        assert(pow256(8) == 0x1_0000_0000_0000_0000);
        lemma_be_minimal_len(len as nat, 8);
    }
}

pub(crate) fn append_bytes(out: &mut Vec<u8>, data: &[u8])
    ensures
        final(out)@ == old(out)@ + data@,
{
    let ghost start = out@;
    let mut i: usize = 0;
    while i < data.len()
        invariant
            i <= data.len(),
            out@ == start + data@.subrange(0, i as int),
        decreases data.len() - i,
    {
        out.push(data[i]);
        i = i + 1;
        assert(out@ =~= start + data@.subrange(0, i as int));
    }
    assert(data@.subrange(0, data.len() as int) =~= data@);
}

/// RLP-encodes a byte string.
pub fn rlp_encode_bytes(data: &[u8]) -> (r: Vec<u8>)
    ensures
        r@ == rlp_string(data@),
{
    if data.len() == 0 {
        let mut v: Vec<u8> = Vec::new();
        v.push(0x80);
        assert(v@ =~= seq![0x80u8]);
        return v;
    }
    if data.len() == 1 && data[0] < 0x80 {
        let mut v: Vec<u8> = Vec::new();
        v.push(data[0]);
        assert(v@ =~= data@);
        return v;
    }
    proof {
        lemma_prefix_fits_usize(0x80, data.len());
    }
    let mut out = rlp_length_prefix(0x80, data.len());
    append_bytes(&mut out, data);
    out
}

/// The RLP encoding of a list whose items are already encoded.
pub open spec fn rlp_list(items: Seq<Seq<u8>>) -> Seq<u8> {
    rlp_prefix(0xc0, items.flatten().len()) + items.flatten()
}

/// RLP-encodes a list of already encoded items.
pub fn encode_list(items: &[&[u8]]) -> (r: Vec<u8>)
    requires
        items@.map_values(|i: &[u8]| i@).flatten().len() <= usize::MAX,
    ensures
        r@ == rlp_list(items@.map_values(|i: &[u8]| i@)),
{
    let ghost all = items@.map_values(|i: &[u8]| i@);
    let mut content: Vec<u8> = Vec::new();
    let mut k: usize = 0;
    while k < items.len()
        invariant
            k <= items.len(),
            all == items@.map_values(|i: &[u8]| i@),
            content@ == all.subrange(0, k as int).flatten(),
        decreases items.len() - k,
    {
        append_bytes(&mut content, items[k]);
        proof {
            all.subrange(0, k as int).lemma_flatten_push(all[k as int]);
            assert(all.subrange(0, k + 1) =~= all.subrange(0, k as int).push(all[k as int]));
        }
        k = k + 1;
    }
    assert(all.subrange(0, items.len() as int) =~= all);
    proof {
        lemma_prefix_fits_usize(0xc0, content.len());
    }
    let mut out = rlp_length_prefix(0xc0, content.len());
    append_bytes(&mut out, content.as_slice());
    out
}

pub(crate) fn be_fixed_bytes(n: u128, k: usize) -> (r: Vec<u8>)
    ensures
        r@ == be_fixed(n as nat, k as nat),
    decreases k,
{
    if k == 0 {
        Vec::new()
    } else {
        let mut v = be_fixed_bytes(n / 256, k - 1);
        v.push((n % 256) as u8);
        v
    }
}

/// `k` zero bytes.
pub open spec fn zeros(k: nat) -> Seq<u8> {
    Seq::new(k, |i: int| 0u8)
}

fn zero_bytes(k: usize) -> (r: Vec<u8>)
    ensures
        r@ == zeros(k as nat),
{
    let mut v: Vec<u8> = Vec::new();
    let mut i: usize = 0;
    while i < k
        invariant
            i <= k,
            v@ =~= zeros(i as nat),
        decreases k - i,
    {
        v.push(0);
        i = i + 1;
    }
    v
}

/// ABI-encodes a `uint256` that fits in 128 bits: 32 bytes, big-endian.
pub fn abi_encode_u256(n: u128) -> (r: Vec<u8>)
    ensures
        r@ == zeros(16) + be_fixed(n as nat, 16),
{
    let mut out = zero_bytes(16);
    let b = be_fixed_bytes(n, 16);
    append_bytes(&mut out, b.as_slice());
    out
}

/// ABI-encodes a `uint24` (the low three bytes of `n`): 32 bytes, big-endian.
pub fn abi_encode_u24(n: u32) -> (r: Vec<u8>)
    ensures
        r@ == zeros(29) + be_fixed(n as nat, 3),
{
    let mut out = zero_bytes(29);
    let b = be_fixed_bytes(n as u128, 3);
    append_bytes(&mut out, b.as_slice());
    out
}

/// The bytes an address text stands for: hex after any leading `0x`s,
/// empty when that is not valid hex.
pub open spec fn address_bytes(addr: Seq<char>) -> Seq<u8> {
    match hex_decoded(utf8(trim_prefix_all(addr, "0x"@))) {
        Some(b) => b,
        None => Seq::empty(),
    }
}

/// ABI-encodes an address: its bytes right-aligned in 32 bytes. An
/// address of more than 32 bytes is outside what the encoding accepts.
pub fn abi_encode_address(addr: &str) -> (r: Vec<u8>)
    requires
        address_bytes(addr@).len() <= 32,
    ensures
        r@ == zeros((32 - address_bytes(addr@).len()) as nat) + address_bytes(addr@),
{
    let a = chars_of(addr);
    let p = chars_of("0x");
    let clean = trim_start_matches(a.as_slice(), p.as_slice());
    let clean_s = string_from_chars(clean.as_slice());
    let bytes = match hex_decode(clean_s.as_str().as_bytes()) {
        Ok(b) => b,
        Err(_) => Vec::new(),
    };
    let mut out = zero_bytes(32 - bytes.len());
    append_bytes(&mut out, bytes.as_slice());
    out
}

/// The fields of an EIP-1559 transaction, each RLP-encoded, in the order
/// chain id, nonce, priority fee, fee cap, gas limit, recipient, value, data,
/// access list (written as an empty string).
pub open spec fn tx_fields(
    chain_id: u64,
    nonce: u64,
    max_tip: u64,
    max_fee: u64,
    gas_limit: u64,
    to: Seq<u8>,
    value: u64,
    data: Seq<u8>,
) -> Seq<Seq<u8>> {
    seq![
        rlp_string(be_minimal(chain_id as nat)),
        rlp_string(be_minimal(nonce as nat)),
        rlp_string(be_minimal(max_tip as nat)),
        rlp_string(be_minimal(max_fee as nat)),
        rlp_string(be_minimal(gas_limit as nat)),
        rlp_string(to),
        rlp_string(be_minimal(value as nat)),
        rlp_string(data),
        rlp_string(Seq::empty()),
    ]
}

/// The hash that an EIP-1559 transaction with these fields is signed over:
/// Keccak-256 of the type byte 2 and the RLP list of the fields.
pub open spec fn tx_signing_hash(fields: Seq<Seq<u8>>) -> Seq<u8> {
    keccak256_digest(seq![2u8] + rlp_list(fields))
}

/// The raw signed transaction as `0x`-prefixed hex: the type byte 2, then
/// the RLP list of the fields followed by the recovery id, `r` and `s`.
pub open spec fn signed_tx_text(fields: Seq<Seq<u8>>, sig: Seq<u8>, v: u8) -> Seq<char> {
    "0x"@ + hex_lower(
        seq![2u8] + rlp_list(
            fields + seq![
                rlp_string(be_minimal(v as nat)),
                rlp_string(sig.subrange(0, 32)),
                rlp_string(sig.subrange(32, sig.len() as int)),
            ],
        ),
    )
}

/// The length of a concatenation is at most the count of parts times the
/// longest part.
proof fn lemma_flatten_len_bound(items: Seq<Seq<u8>>, b: nat)
    requires
        forall|i: int| 0 <= i < items.len() ==> (#[trigger] items[i]).len() <= b,
    ensures
        items.flatten().len() <= items.len() * b,
    decreases items.len(),
{
    if items.len() > 0 {
        lemma_flatten_len_bound(items.drop_first(), b);
        assert(items.drop_first().len() * b + b == items.len() * b) by (nonlinear_arith)
            requires items.drop_first().len() + 1 == items.len();
    }
}

proof fn lemma_rlp_string_len(data: Seq<u8>)
    requires
        data.len() <= usize::MAX,
    ensures
        rlp_string(data).len() <= data.len() + 9,
{
    if data.len() > 55 {
        reveal_with_fuel(pow256, 9);
        assert(pow256(8) == 0x1_0000_0000_0000_0000);
        lemma_be_minimal_len(data.len(), 8);
    }
}

proof fn lemma_utf8_len(s: Seq<char>)
    ensures
        utf8(s).len() <= 4 * s.len(),
    decreases s.len(),
{
    if s.len() > 0 {
        lemma_utf8_len(s.drop_first());
    }
}

proof fn lemma_trim_prefix_len(s: Seq<char>, prefix: Seq<char>)
    ensures
        trim_prefix_all(s, prefix).len() <= s.len(),
    decreases s.len(),
{
    if prefix.len() > 0 && prefix.is_prefix_of(s) {
        lemma_trim_prefix_len(s.subrange(prefix.len() as int, s.len() as int), prefix);
    }
}

/// The decoded bytes of a hex text are at most twice as many as its chars.
proof fn lemma_hex_text_len(s: Seq<char>)
    ensures
        hex_text_bytes(s) matches Some(b) ==> b.len() <= 2 * s.len(),
{
    lemma_trim_prefix_len(s, "0x"@);
    lemma_utf8_len(trim_prefix_all(s, "0x"@));
}

/// Signs an EIP-1559 (type 2) transaction with the hex secret key
/// `private_key_hex` and returns the raw transaction as `0x`-prefixed hex.
/// Fails where `to` or the key is not hex (`"Bad private key: "` and the
/// hex error for the key), where the key is not a valid secret key
/// (`"Bad key: "`), or where signing fails (`"Sign error: "`).
pub fn sign_tx(
    to: &str,
    data: &[u8],
    value: u64,
    gas_limit: u64,
    max_fee: u64,
    max_tip: u64,
    nonce: u64,
    chain_id: u64,
    private_key_hex: &str,
) -> (r: Result<String, String>)
    requires
        to@.len() <= usize::MAX / 64,
        data@.len() <= usize::MAX / 64,
    ensures
        match r {
            Ok(t) => hex_text_bytes(to@) matches Some(to_b) && hex_text_bytes(private_key_hex@) matches Some(key)
                && secp256k1_secret_ok(key) && ({
                let fields = tx_fields(chain_id, nonce, max_tip, max_fee, gas_limit, to_b, value, data@);
                secp256k1_signature(key, tx_signing_hash(fields)) matches Some((sig, v))
                    && t@ == signed_tx_text(fields, sig, v)
            }),
            Err(e) => hex_text_bytes(to@) is None || (hex_text_bytes(private_key_hex@) is None
                && e@.len() >= 17 && e@.subrange(0, 17) == "Bad private key: "@) || ({
                &&& hex_text_bytes(to@) matches Some(to_b)
                &&& hex_text_bytes(private_key_hex@) matches Some(key)
                &&& ((!secp256k1_secret_ok(key) && e@.len() >= 9 && e@.subrange(0, 9) == "Bad key: "@)
                    || (secp256k1_secret_ok(key) && secp256k1_signature(
                    key,
                    tx_signing_hash(
                        tx_fields(chain_id, nonce, max_tip, max_fee, gas_limit, to_b, value, data@),
                    ),
                ) is None && e@.len() >= 12 && e@.subrange(0, 12) == "Sign error: "@))
            }),
        },
{
    let chain_id_bytes = u64_to_rlp_bytes(chain_id);
    let nonce_bytes = u64_to_rlp_bytes(nonce);
    let max_tip_bytes = u64_to_rlp_bytes(max_tip);
    let max_fee_bytes = u64_to_rlp_bytes(max_fee);
    let gas_bytes = u64_to_rlp_bytes(gas_limit);
    let to_bytes = match decode_hex_text(to) {
        Ok(b) => b,
        Err(e) => return Err(e),
    };
    let value_bytes = u64_to_rlp_bytes(value);
    let no_bytes: Vec<u8> = Vec::new();
    proof {
        reveal_with_fuel(pow256, 9);
        assert(pow256(8) == 0x1_0000_0000_0000_0000);
        lemma_hex_text_len(to@);
        lemma_be_minimal_len(chain_id as nat, 8);
        lemma_be_minimal_len(nonce as nat, 8);
        lemma_be_minimal_len(max_tip as nat, 8);
        lemma_be_minimal_len(max_fee as nat, 8);
        lemma_be_minimal_len(gas_limit as nat, 8);
        lemma_be_minimal_len(value as nat, 8);
    }
    let mut fields: Vec<Vec<u8>> = Vec::new();
    fields.push(rlp_encode_bytes(chain_id_bytes.as_slice()));
    fields.push(rlp_encode_bytes(nonce_bytes.as_slice()));
    fields.push(rlp_encode_bytes(max_tip_bytes.as_slice()));
    fields.push(rlp_encode_bytes(max_fee_bytes.as_slice()));
    fields.push(rlp_encode_bytes(gas_bytes.as_slice()));
    fields.push(rlp_encode_bytes(to_bytes.as_slice()));
    fields.push(rlp_encode_bytes(value_bytes.as_slice()));
    fields.push(rlp_encode_bytes(data));
    fields.push(rlp_encode_bytes(no_bytes.as_slice()));
    let ghost spec_fields = tx_fields(chain_id, nonce, max_tip, max_fee, gas_limit, to_bytes@, value, data@);
    let ghost bound: nat = (data@.len() + to@.len() * 2 + 64) as nat;
    proof {
        assert(fields@.map_values(|f: Vec<u8>| f@) =~= spec_fields);
        lemma_rlp_string_len(to_bytes@);
        lemma_rlp_string_len(data@);
        assert forall|i: int| 0 <= i < spec_fields.len() implies (#[trigger] spec_fields[i]).len() <= bound by {
            lemma_rlp_string_len(spec_fields[i]);
        }
        lemma_flatten_len_bound(spec_fields, bound);
    }
    let payload = encode_fields(&fields, 0);
    assert(payload@ == rlp_list(spec_fields));
    let mut pre: Vec<u8> = Vec::new();
    pre.push(2);
    append_bytes(&mut pre, payload.as_slice());
    assert(pre@ =~= seq![2u8] + rlp_list(spec_fields));
    let signing_hash = keccak256(pre.as_slice());
    let key_bytes = match decode_hex_text(private_key_hex) {
        Ok(b) => b,
        Err(e) => {
            proof {
                reveal_strlit("Bad private key: ");
            }
            let msg = concat2("Bad private key: ", e.as_str());
            assert(msg@.subrange(0, 17) =~= "Bad private key: "@);
            return Err(msg);
        },
    };
    let (sig, v) = match secp256k1_sign_prehash(key_bytes.as_slice(), signing_hash.as_slice()) {
        Ok(x) => x,
        Err(SignFailure::BadKey(e)) => {
            proof {
                reveal_strlit("Bad key: ");
            }
            let msg = concat2("Bad key: ", e.as_str());
            assert(msg@.subrange(0, 9) =~= "Bad key: "@);
            return Err(msg);
        },
        Err(SignFailure::Signing(e)) => {
            proof {
                reveal_strlit("Sign error: ");
            }
            let msg = concat2("Sign error: ", e.as_str());
            assert(msg@.subrange(0, 12) =~= "Sign error: "@);
            return Err(msg);
        },
    };
    let v_bytes = u64_to_rlp_bytes(v as u64);
    let r_bytes = slice_bytes(sig.as_slice(), 0, 32);
    let s_bytes = slice_bytes(sig.as_slice(), 32, sig.len());
    fields.push(rlp_encode_bytes(v_bytes.as_slice()));
    fields.push(rlp_encode_bytes(r_bytes.as_slice()));
    fields.push(rlp_encode_bytes(s_bytes.as_slice()));
    let ghost all_fields = spec_fields + seq![
        rlp_string(be_minimal(v as nat)),
        rlp_string(sig@.subrange(0, 32)),
        rlp_string(sig@.subrange(32, sig@.len() as int)),
    ];
    proof {
        assert(fields@.map_values(|f: Vec<u8>| f@) =~= all_fields);
        reveal_with_fuel(pow256, 9);
        assert(pow256(8) == 0x1_0000_0000_0000_0000);
        lemma_be_minimal_len(v as nat, 8);
        assert forall|i: int| 0 <= i < all_fields.len() implies (#[trigger] all_fields[i]).len() <= bound by {
            lemma_rlp_string_len(all_fields[i]);
        }
        lemma_flatten_len_bound(all_fields, bound);
    }
    let signed = encode_fields(&fields, 0);
    let mut raw: Vec<u8> = Vec::new();
    raw.push(2);
    append_bytes(&mut raw, signed.as_slice());
    assert(raw@ =~= seq![2u8] + rlp_list(all_fields));
    let hex = hex_encode(raw.as_slice());
    let out = concat2("0x", hex.as_str());
    proof {
        reveal_strlit("0x");
    }
    Ok(out)
}

/// RLP-encodes the list of already encoded `fields`.
fn encode_fields(fields: &Vec<Vec<u8>>, unused: usize) -> (r: Vec<u8>)
    requires
        fields@.map_values(|f: Vec<u8>| f@).flatten().len() <= usize::MAX,
    ensures
        r@ == rlp_list(fields@.map_values(|f: Vec<u8>| f@)),
{
    let mut items: Vec<&[u8]> = Vec::new();
    let mut k: usize = 0;
    while k < fields.len()
        invariant
            k <= fields.len(),
            items@.len() == k,
            items@.map_values(|i: &[u8]| i@) == fields@.map_values(|f: Vec<u8>| f@).subrange(0, k as int),
        decreases fields.len() - k,
    {
        let f = fields[k].as_slice();
        assert(f@ == fields@[k as int]@);
        items.push(f);
        k = k + 1;
        assert(items@.map_values(|i: &[u8]| i@) =~= fields@.map_values(|f: Vec<u8>| f@).subrange(0, k as int));
    }
    assert(fields@.map_values(|f: Vec<u8>| f@).subrange(0, k as int) =~= fields@.map_values(|f: Vec<u8>| f@));
    encode_list(items.as_slice())
}

pub(crate) fn slice_bytes(b: &[u8], from: usize, to: usize) -> (r: Vec<u8>)
    requires
        from <= to <= b@.len(),
    ensures
        r@ == b@.subrange(from as int, to as int),
{
    let mut r: Vec<u8> = Vec::new();
    let mut i: usize = from;
    while i < to
        invariant
            from <= i <= to,
            to <= b@.len(),
            r@ == b@.subrange(from as int, i as int),
        decreases to - i,
    {
        r.push(b[i]);
        i = i + 1;
        assert(r@ =~= b@.subrange(from as int, i as int));
    }
    r
}

/// The Ethereum address of a public point: `0x` and the hex of the last 20
/// bytes of Keccak-256 of the point without its leading format byte.
pub open spec fn address_text(point: Seq<u8>) -> Seq<char> {
    "0x"@ + hex_lower(keccak256_digest(point.subrange(1, point.len() as int)).subrange(12, 32))
}

/// The wallet address of the hex secret key `private_key_hex`. Fails where
/// the key is not hex (`"Bad private key: "` and the hex error) or not a
/// valid secret key (`"Bad key: "`).
pub fn wallet_address(private_key_hex: &str) -> (r: Result<String, String>)
    ensures
        match r {
            Ok(a) => hex_text_bytes(private_key_hex@) matches Some(key) && secp256k1_secret_ok(key)
                && a@ == address_text(secp256k1_public_point(key)),
            Err(e) => (hex_text_bytes(private_key_hex@) is None && e@.len() >= 17 && e@.subrange(0, 17)
                == "Bad private key: "@) || (hex_text_bytes(private_key_hex@) matches Some(key)
                && !secp256k1_secret_ok(key) && e@.len() >= 9 && e@.subrange(0, 9) == "Bad key: "@),
        },
{
    let key_bytes = match decode_hex_text(private_key_hex) {
        Ok(b) => b,
        Err(e) => {
            proof {
                reveal_strlit("Bad private key: ");
            }
            let msg = concat2("Bad private key: ", e.as_str());
            assert(msg@.subrange(0, 17) =~= "Bad private key: "@);
            return Err(msg);
        },
    };
    let point = match secp256k1_public_key(key_bytes.as_slice()) {
        Ok(p) => p,
        Err(e) => {
            proof {
                reveal_strlit("Bad key: ");
            }
            let msg = concat2("Bad key: ", e.as_str());
            assert(msg@.subrange(0, 9) =~= "Bad key: "@);
            return Err(msg);
        },
    };
    let pubkey = slice_bytes(point.as_slice(), 1, point.len());
    let hash = keccak256(pubkey.as_slice());
    let tail = slice_bytes(hash.as_slice(), 12, 32);
    let hex = hex_encode(tail.as_slice());
    Ok(concat2("0x", hex.as_str()))
}

/// The Solidity signature of the router's single-pool exact-input swap.
pub const EXACT_INPUT_SINGLE: &'static str = "exactInputSingle((address,address,uint24,address,uint256,uint256,uint160))";

/// The ABI encoding of an address text (its bytes right-aligned in 32).
pub open spec fn abi_address(addr: Seq<char>) -> Seq<u8> {
    zeros((32 - address_bytes(addr).len()) as nat) + address_bytes(addr)
}

/// The call data of `exactInputSingle` selling `amount_in` of `token_in`
/// for `token_out` in the 0.3% pool, paid to `recipient`, with no minimum
/// output and no price limit: the first four bytes of the Keccak-256 of
/// the signature, then eight 32-byte words: the two tokens, the fee, the
/// recipient, the deadline, the amount in, and two zero words.
pub open spec fn swap_call(token_in: Seq<char>, token_out: Seq<char>, recipient: Seq<char>, deadline: u64, amount_in: u128) -> Seq<u8> {
    keccak256_digest(utf8(EXACT_INPUT_SINGLE@)).subrange(0, 4)
        + abi_address(token_in)
        + abi_address(token_out)
        + (zeros(29) + be_fixed(3000, 3))
        + abi_address(recipient)
        + (zeros(16) + be_fixed(deadline as nat, 16))
        + (zeros(16) + be_fixed(amount_in as nat, 16))
        + (zeros(16) + be_fixed(0, 16))
        + (zeros(16) + be_fixed(0, 16))
}

/// Builds the swap call data of a market order on the router.
pub fn swap_calldata(token_in: &str, token_out: &str, recipient: &str, deadline: u64, amount_in: u128) -> (r: Vec<u8>)
    requires
        address_bytes(token_in@).len() <= 32,
        address_bytes(token_out@).len() <= 32,
        address_bytes(recipient@).len() <= 32,
    ensures
        r@ == swap_call(token_in@, token_out@, recipient@, deadline, amount_in),
{
    let selector_hash = keccak256(EXACT_INPUT_SINGLE.as_bytes());
    let mut out = slice_bytes(selector_hash.as_slice(), 0, 4);
    let a = abi_encode_address(token_in);
    append_bytes(&mut out, a.as_slice());
    let b = abi_encode_address(token_out);
    append_bytes(&mut out, b.as_slice());
    let fee = abi_encode_u24(3000);
    append_bytes(&mut out, fee.as_slice());
    let c = abi_encode_address(recipient);
    append_bytes(&mut out, c.as_slice());
    let d = abi_encode_u256(deadline as u128);
    append_bytes(&mut out, d.as_slice());
    let e = abi_encode_u256(amount_in);
    append_bytes(&mut out, e.as_slice());
    let f = abi_encode_u256(0);
    append_bytes(&mut out, f.as_slice());
    let g = abi_encode_u256(0);
    append_bytes(&mut out, g.as_slice());
    out
}

/// The value of a hex digit, either case.
pub open spec fn hex_digit_value(c: char) -> Option<int> {
    if '0' <= c && c <= '9' {
        Some(c as int - 48)
    } else if 'a' <= c && c <= 'f' {
        Some(c as int - 87)
    } else if 'A' <= c && c <= 'F' {
        Some(c as int - 55)
    } else {
        None
    }
}

/// Reads hex digits left to right onto `acc`, stopping at the first
/// character that is not a hex digit or at the first step past `u64::MAX`,
/// with the texts that `core::num::ParseIntError` displays.
pub open spec fn hex_scan(s: Seq<char>, acc: int) -> Result<int, Seq<char>>
    decreases s.len(),
{
    if s.len() == 0 {
        Ok(acc)
    } else {
        match hex_digit_value(s[0]) {
            None => Err("invalid digit found in string"@),
            Some(d) => if acc * 16 + d > u64::MAX {
                Err("number too large to fit in target type"@)
            } else {
                hex_scan(s.drop_first(), acc * 16 + d)
            },
        }
    }
}

/// What `u64::from_str_radix(s, 16)` gives: an optional `+` (with more
/// after it), then hex digits of either case.
pub open spec fn hex_u64_of(s: Seq<char>) -> Result<u64, Seq<char>> {
    let body = if s.len() > 0 && s[0] == '+' { s.drop_first() } else { s };
    if s.len() == 0 {
        Err("cannot parse integer from empty string"@)
    } else if body.len() == 0 {
        Err("invalid digit found in string"@)
    } else {
        match hex_scan(body, 0) {
            Ok(v) => Ok(v as u64),
            Err(e) => Err(e),
        }
    }
}

/// Reads hex digits as a `u64` the way `u64::from_str_radix(s, 16)` does,
/// with its error texts.
#[verifier::spinoff_prover]
#[verifier::rlimit(60)]
pub fn parse_hex_u64(s: &str) -> (r: Result<u64, String>)
    ensures
        match r {
            Ok(v) => hex_u64_of(s@) == Ok::<u64, Seq<char>>(v),
            Err(e) => hex_u64_of(s@) == Err::<u64, Seq<char>>(e@),
        },
{
    let c = chars_of(s);
    proof {
        reveal_strlit("cannot parse integer from empty string");
        reveal_strlit("invalid digit found in string");
        reveal_strlit("number too large to fit in target type");
        reveal_strlit("");
    }
    if c.len() == 0 {
        return Err(concat2("cannot parse integer from empty string", ""));
    }
    let start: usize = if c[0] == '+' { 1 } else { 0 };
    let ghost body = if c@[0] == '+' { c@.drop_first() } else { c@ };
    assert(body =~= c@.subrange(start as int, c@.len() as int));
    if start == c.len() {
        return Err(concat2("invalid digit found in string", ""));
    }
    let mut acc: u64 = 0;
    let mut i: usize = start;
    while i < c.len()
        invariant
            start <= i <= c@.len(),
            c@ == s@,
            c@.len() > 0,
            start < c@.len(),
            body == (if c@[0] == '+' { c@.drop_first() } else { c@ }),
            body == c@.subrange(start as int, c@.len() as int),
            hex_scan(body, 0) == hex_scan(c@.subrange(i as int, c@.len() as int), acc as int),
        decreases c.len() - i,
    {
        let ch = c[i];
        let ghost rest = c@.subrange(i as int, c@.len() as int);
        assert(rest[0] == ch);
        assert(rest.drop_first() =~= c@.subrange(i + 1, c@.len() as int));
        let d: u64 = if '0' <= ch && ch <= '9' {
            (ch as u32 - 48) as u64
        } else if 'a' <= ch && ch <= 'f' {
            (ch as u32 - 87) as u64
        } else if 'A' <= ch && ch <= 'F' {
            (ch as u32 - 55) as u64
        } else {
            proof {
                reveal_strlit("invalid digit found in string");
                reveal_strlit("");
                assert(hex_digit_value(ch) is None);
            }
            return Err(concat2("invalid digit found in string", ""));
        };
        assert(hex_digit_value(ch) == Some(d as int));
        if acc > (u64::MAX - d) / 16 {
            assert(acc * 16 + d > u64::MAX) by (nonlinear_arith)
                requires acc > (u64::MAX - d) / 16, d <= 15;
            proof {
                reveal_strlit("number too large to fit in target type");
                reveal_strlit("");
            }
            return Err(concat2("number too large to fit in target type", ""));
        }
        assert(acc * 16 + d <= u64::MAX) by (nonlinear_arith)
            requires acc <= (u64::MAX - d) / 16, d <= 15;
        acc = acc * 16 + d;
        i = i + 1;
    }
    assert(c@.subrange(i as int, c@.len() as int) =~= Seq::<char>::empty());
    Ok(acc)
}

/// The priority tip offered on every swap: 1 gwei.
pub const SWAP_TIP_WEI: u64 = 1_000_000_000;

/// The base fee used where the fee history gives none: 20 gwei.
pub const FALLBACK_BASE_FEE_WEI: u64 = 20_000_000_000;

/// The base fee from the first entry of the fee history, read as hex after
/// any leading `0x`s; 20 gwei where there is none or it does not read.
pub fn base_fee_of(first: Option<&str>) -> (r: u64)
    ensures
        r == match first {
            Some(t) => match hex_u64_of(trim_prefix_all(t@, "0x"@)) {
                Ok(v) => v,
                Err(_) => FALLBACK_BASE_FEE_WEI,
            },
            None => FALLBACK_BASE_FEE_WEI,
        },
{
    match first {
        Some(t) => {
            let a = chars_of(t);
            let p = chars_of("0x");
            let clean = trim_start_matches(a.as_slice(), p.as_slice());
            let cs = string_from_chars(clean.as_slice());
            match parse_hex_u64(cs.as_str()) {
                Ok(v) => v,
                Err(_) => FALLBACK_BASE_FEE_WEI,
            }
        },
        None => FALLBACK_BASE_FEE_WEI,
    }
}

/// The fee cap and tip of a swap: twice the base fee plus the tip, and the tip.
pub fn fee_caps(base_fee: u64) -> (r: (u64, u64))
    requires
        base_fee <= (u64::MAX - SWAP_TIP_WEI) / 2,
    ensures
        r == ((base_fee * 2 + SWAP_TIP_WEI) as u64, SWAP_TIP_WEI),
{
    (base_fee * 2 + SWAP_TIP_WEI, SWAP_TIP_WEI)
}

/// The tokens a swap spends and receives for an order on a pair: a buy
/// spends the quote for the base, anything else spends the base for the
/// quote.
pub fn swap_tokens(side: &str, base: TokenInfo, quote: TokenInfo) -> (r: (TokenInfo, TokenInfo))
    ensures
        r == (if side@ == "buy"@ { (quote, base) } else { (base, quote) }),
{
    if crate::text::str_eq(side, "buy") { (quote, base) } else { (base, quote) }
}

/// The deadline of a swap: thirty minutes from now, in Unix seconds.
pub fn swap_deadline(now_ms: u64) -> (r: u64)
    ensures
        r == now_ms / 1000 + 1800,
{
    now_ms / 1000 + 1800
}

} // verus!
