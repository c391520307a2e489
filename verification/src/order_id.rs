//! System order identifiers.
//!
//! A client order ID has the form `{bot_id:04}_{machine_hash}_{timestamp_ms}`,
//! for example `0001_a3f2b9c7_1748262473512`:
//! - the system order ID is the UTC timestamp in milliseconds;
//! - the bot ID is the configured instance ID, zero-padded to four digits;
//! - the machine hash is the first eight lowercase hex digits of the
//!   SHA-256 of the machine's hostname.

use vstd::prelude::*;
use crate::clock::{millis_reading, unix_millis};
use crate::decimal::{
    decimal, is_digit, lemma_padded_decimal_value, pow10, parse_unsigned, parse_unsigned_chars,
    u64_decimal, u64_decimal_padded, unsigned_body, zero_padded,
};
use crate::digest::{byte_hex, push_byte_hex, sha256, sha256_digest};
use crate::text::{
    chars_of, chars_slice, find_char_from, index_of_from, lemma_index_of_first, string_from_chars,
};

verus! {

/// The machine hash for a hostname given by its bytes: the lowercase hex
/// of the first four bytes of its SHA-256.
pub open spec fn machine_hash_text(host: Seq<u8>) -> Seq<char> {
    let d = sha256_digest(host);
    byte_hex(d[0]) + byte_hex(d[1]) + byte_hex(d[2]) + byte_hex(d[3])
}

/// The client order ID text for a timestamp, a bot ID and a machine hash.
pub open spec fn client_order_id_text(ts: u64, bot_id: u16, hash: Seq<char>) -> Seq<char> {
    zero_padded(decimal(bot_id as nat), 4) + seq!['_'] + hash + seq!['_'] + decimal(ts as nat)
}

/// What parsing a client order ID gives: the text is cut at its first two
/// underscores; the first part must read as a `u16`, the last as a `u64`
/// (the way `str::parse` reads them), and the middle part is the machine hash.
pub open spec fn parsed_client_order_id(s: Seq<char>) -> Option<(u16, Seq<char>, u64)> {
    match index_of_from(s, '_', 0) {
        None => None,
        Some(i) => match index_of_from(s, '_', i + 1) {
            None => None,
            Some(j) => {
                let bot = parse_unsigned(s.subrange(0, i), 65535);
                let ts = parse_unsigned(s.subrange(j + 1, s.len() as int), 18446744073709551615);
                if bot is Some && ts is Some {
                    Some((bot.unwrap() as u16, s.subrange(i + 1, j), ts.unwrap() as u64))
                } else {
                    None
                }
            }
        },
    }
}

/// Returns the current UTC timestamp in milliseconds: the system order ID
/// (0 where the clock reads before 1970).
pub fn new_system_order_id() -> (r: u64)
    ensures
        exists|d: Option<u128>| r == millis_reading(d),
{
    unix_millis()
}

/// Reads the machine's hostname (`hostname::get`), converting it lossily to
/// UTF-8 text; `None` when the hostname cannot be read. Nothing is promised
/// of the name: it comes from the environment.
#[verifier::external_body]
fn read_hostname() -> (r: Option<String>)
{
    hostname::get().ok().map(|h| h.to_string_lossy().to_string())
}

/// The machine hash of the given hostname.
pub fn machine_hash_for(hostname: &str) -> (r: String)
    ensures
        r@ == machine_hash_text(vstd::utf8::encode_utf8(hostname@)),
{
    let d = sha256(hostname.as_bytes());
    let mut v: Vec<char> = Vec::new();
    push_byte_hex(&mut v, d[0]);
    push_byte_hex(&mut v, d[1]);
    push_byte_hex(&mut v, d[2]);
    push_byte_hex(&mut v, d[3]);
    assert(v@ =~= machine_hash_text(vstd::utf8::encode_utf8(hostname@)));
    string_from_chars(v.as_slice())
}

/// The name hashed for a machine: its hostname, or `"unknown"` where the
/// hostname cannot be read.
pub open spec fn hostname_or_unknown(h: Option<Seq<char>>) -> Seq<char> {
    match h {
        Some(name) => name,
        None => "unknown"@,
    }
}

/// The machine hash of this machine: that of its hostname (read now), or of
/// `"unknown"` when the hostname cannot be read. Which hostname is read
/// depends on the environment. A caller that needs one hash for the whole
/// process keeps one `OrderIdMaker`.
pub fn machine_hash() -> (r: String)
    ensures
        exists|h: Option<Seq<char>>| r@ == machine_hash_text(vstd::utf8::encode_utf8(#[trigger] hostname_or_unknown(h))),
        r@.len() == 8,
{
    let r = match read_hostname() {
        Some(h) => {
            let r = machine_hash_for(h.as_str());
            assert(r@ == machine_hash_text(vstd::utf8::encode_utf8(hostname_or_unknown(Some(h@)))));
            r
        },
        None => {
            let r = machine_hash_for("unknown");
            assert(r@ == machine_hash_text(vstd::utf8::encode_utf8(hostname_or_unknown(None))));
            r
        },
    };
    r
}

/// The client order ID for a timestamp, a bot ID and a machine hash.
pub fn format_client_order_id(system_order_id: u64, bot_id: u16, machine_hash: &str) -> (r: String)
    ensures
        r@ == client_order_id_text(system_order_id, bot_id, machine_hash@),
{
    let mut v = u64_decimal_padded(bot_id as u64, 4);
    v.push('_');
    let h = chars_of(machine_hash);
    let mut i: usize = 0;
    let ghost start = v@;
    while i < h.len()
        invariant
            i <= h.len(),
            v@ == start + h@.subrange(0, i as int),
        decreases h.len() - i,
    {
        v.push(h[i]);
        i = i + 1;
    }
    assert(h@.subrange(0, h.len() as int) =~= h@);
    v.push('_');
    let t = u64_decimal(system_order_id);
    let ghost mid = v@;
    let mut k: usize = 0;
    while k < t.len()
        invariant
            k <= t.len(),
            v@ == mid + t@.subrange(0, k as int),
        decreases t.len() - k,
    {
        v.push(t[k]);
        k = k + 1;
    }
    assert(t@.subrange(0, t.len() as int) =~= t@);
    assert(v@ =~= client_order_id_text(system_order_id, bot_id, machine_hash@));
    string_from_chars(v.as_slice())
}

/// Builds the full client order ID with this machine's hash, that of the
/// hostname read at this call (or of `"unknown"`); an `OrderIdMaker` reads
/// it once and puts the same hash in every ID it builds.
/// `system_order_id` is meant to come from `new_system_order_id()`.
pub fn build_client_order_id(system_order_id: u64, bot_id: u16) -> (r: String)
    ensures
        exists|h: Option<Seq<char>>|
            r@ == client_order_id_text(
                system_order_id,
                bot_id,
                machine_hash_text(vstd::utf8::encode_utf8(#[trigger] hostname_or_unknown(h))),
            ),
        r@.len() <= 35,
{
    let h = machine_hash();
    let r = format_client_order_id(system_order_id, bot_id, h.as_str());
    proof {
        lemma_client_order_id_len(system_order_id, bot_id, h@);
    }
    r
}

/// Builds client order IDs with one machine hash, read once when the maker
/// is made: every ID a maker builds carries the same hash.
pub struct OrderIdMaker {
    hash: String,
}

impl OrderIdMaker {
    /// The machine hash that this maker puts in every ID.
    pub closed spec fn hash_text(&self) -> Seq<char> {
        self.hash@
    }

    /// Whether the maker's hash is the machine hash of some hostname.
    pub closed spec fn wf(&self) -> bool {
        exists|host: Seq<u8>| self.hash@ == #[trigger] machine_hash_text(host)
    }

    /// A maker with this machine's hash (see `machine_hash`).
    pub fn new() -> (m: Self)
        ensures
            m.wf(),
            exists|h: Option<Seq<char>>|
                m.hash_text() == machine_hash_text(vstd::utf8::encode_utf8(#[trigger] hostname_or_unknown(h))),
            m.hash_text().len() == 8,
    {
        let hash = machine_hash();
        OrderIdMaker { hash }
    }

    /// The client order ID for a system order ID and a bot ID, with the
    /// maker's hash.
    pub fn build(&self, system_order_id: u64, bot_id: u16) -> (r: String)
        requires
            self.wf(),
        ensures
            r@ == client_order_id_text(system_order_id, bot_id, self.hash_text()),
            r@.len() <= 35,
    {
        let r = format_client_order_id(system_order_id, bot_id, self.hash.as_str());
        proof {
            let host = choose|host: Seq<u8>| self.hash@ == machine_hash_text(host);
            lemma_machine_hash_len(host);
            lemma_client_order_id_len(system_order_id, bot_id, self.hash@);
        }
        r
    }
}

/// A machine hash has eight characters.
proof fn lemma_machine_hash_len(host: Seq<u8>)
    ensures
        machine_hash_text(host).len() == 8,
{
}

/// Two IDs built by one maker read back with the same machine hash, and
/// each with its own bot ID and system order ID.
pub proof fn lemma_one_hash_per_maker(m: OrderIdMaker, ts1: u64, bot1: u16, ts2: u64, bot2: u16)
    requires
        m.wf(),
    ensures
        parsed_client_order_id(client_order_id_text(ts1, bot1, m.hash_text())) == Some((bot1, m.hash_text(), ts1)),
        parsed_client_order_id(client_order_id_text(ts2, bot2, m.hash_text())) == Some((bot2, m.hash_text(), ts2)),
{
    let host = choose|host: Seq<u8>| m.hash_text() == machine_hash_text(host);
    lemma_built_id_roundtrip(ts1, bot1, host);
    lemma_built_id_roundtrip(ts2, bot2, host);
}

/// Parses a client order ID back into `(bot_id, machine_hash, system_order_id)`;
/// `None` when the text does not have that form.
pub fn parse_client_order_id(clord_id: &str) -> (r: Option<(u16, String, u64)>)
    ensures
        match r {
            Some((b, h, t)) => parsed_client_order_id(clord_id@) == Some((b, h@, t)),
            None => parsed_client_order_id(clord_id@) is None,
        },
{
    let s = chars_of(clord_id);
    let i = match find_char_from(s.as_slice(), '_', 0) {
        Some(i) => i,
        None => return None,
    };
    let j = match find_char_from(s.as_slice(), '_', i + 1) {
        Some(j) => j,
        None => return None,
    };
    let first = chars_slice(s.as_slice(), 0, i);
    let middle = chars_slice(s.as_slice(), i + 1, j);
    let last = chars_slice(s.as_slice(), j + 1, s.len());
    let bot = match parse_unsigned_chars(first.as_slice(), 65535) {
        Some(b) => b,
        None => return None,
    };
    let ts = match parse_unsigned_chars(last.as_slice(), u64::MAX) {
        Some(t) => t,
        None => return None,
    };
    Some((bot as u16, string_from_chars(middle.as_slice()), ts))
}

/// Parsing the client order ID built from a timestamp, a bot ID and a
/// machine hash without underscores gives back the bot ID, the hash and
/// the timestamp.
pub proof fn lemma_client_order_id_roundtrip(ts: u64, bot_id: u16, hash: Seq<char>)
    requires
        forall|k: int| 0 <= k < hash.len() ==> hash[k] != '_',
    ensures
        parsed_client_order_id(client_order_id_text(ts, bot_id, hash)) == Some((bot_id, hash, ts)),
{
    let p = zero_padded(decimal(bot_id as nat), 4);
    let d = decimal(ts as nat);
    let s = client_order_id_text(ts, bot_id, hash);
    lemma_padded_decimal_value(bot_id as nat, 4);
    lemma_padded_decimal_value(ts as nat, 0);
    assert(zero_padded(d, 0) == d);
    let i = p.len() as int;
    let j = i + 1 + hash.len();
    assert(s[i] == '_');
    assert forall|k: int| 0 <= k < i implies s[k] != '_' by {
        assert(s[k] == p[k]);
        assert(is_digit(p[k]));
    }
    lemma_index_of_first(s, '_', 0, i);
    assert(s[j] == '_');
    assert forall|k: int| i + 1 <= k < j implies s[k] != '_' by {
        assert(s[k] == hash[k - i - 1]);
    }
    lemma_index_of_first(s, '_', i + 1, j);
    assert(s.subrange(0, i) =~= p);
    assert(s.subrange(i + 1, j) =~= hash);
    assert(s.subrange(j + 1, s.len() as int) =~= d);
    assert(is_digit(p[0]));
    assert(unsigned_body(p) == p);
    assert(is_digit(d[0]));
    assert(unsigned_body(d) == d);
}

/// Reading back a client order ID built on any machine gives the bot ID,
/// the machine hash and the system order ID it was built from.
pub proof fn lemma_built_id_roundtrip(ts: u64, bot_id: u16, host: Seq<u8>)
    ensures
        parsed_client_order_id(client_order_id_text(ts, bot_id, machine_hash_text(host)))
            == Some((bot_id, machine_hash_text(host), ts)),
{
    let h = machine_hash_text(host);
    let d = sha256_digest(host);
    assert forall|k: int| 0 <= k < h.len() implies h[k] != '_' by {
        let b = if k < 2 { d[0] } else if k < 4 { d[1] } else if k < 6 { d[2] } else { d[3] };
        assert(h[k] == byte_hex(b)[k % 2]);
        assert(b as int / 16 < 16 && b as int % 16 < 16);
    }
    lemma_client_order_id_roundtrip(ts, bot_id, h);
}

proof fn lemma_decimal_len(n: nat, k: nat)
    requires
        k >= 1,
        n < pow10(k),
    ensures
        decimal(n).len() <= k,
    decreases n,
{
    if n >= 10 {
        assert(k >= 2) by {
            if k == 1 {
                assert(pow10(1) == 10 * pow10(0));
            }
        }
        let k1 = (k - 1) as nat;
        assert(pow10(k) == 10 * pow10(k1));
        assert(n / 10 < pow10(k1)) by (nonlinear_arith)
            requires n < 10 * pow10(k1);
        lemma_decimal_len(n / 10, k1);
    }
}

/// A client order ID with an eight-character machine hash has at most 35
/// characters: at most five of bot ID, twenty of timestamp, and the hash
/// between two underscores.
pub proof fn lemma_client_order_id_len(ts: u64, bot_id: u16, hash: Seq<char>)
    requires
        hash.len() == 8,
    ensures
        client_order_id_text(ts, bot_id, hash).len() <= 35,
{
    reveal_with_fuel(pow10, 21);
    assert(pow10(5) == 100000);
    assert(pow10(20) == 100000000000000000000);
    lemma_decimal_len(bot_id as nat, 5);
    lemma_decimal_len(ts as nat, 20);
}

} // verus!
