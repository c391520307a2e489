//! Bybit v5: signing, category inference, the order vocabulary, instrument
//! listings (statuses, option types, expiries read from symbols), and the
//! transaction ledger (request windows, entry fields, settlement
//! currencies, deposit statuses, server time).

use vstd::prelude::*;
use crate::bs::{ascii_chars, ascii_text, is_char_start, lemma_two_digits, month_index};
use crate::calendar::{days_before_month, days_before_year, is_leap, trunc_div, year_len};
use crate::decimal::{all_digits, decimal, digits_value, is_digit, parse_i64_chars, parse_signed, u64_decimal};
use crate::digest::{hmac_hex, hmac_sha256_hex};
use crate::text::{append_chars, append_str,
    all_ascii, ascii_lower, chars_end_with, chars_of, chars_slice, contains_char, ends_with,
    find_char_from, index_of_from, split_char, split_chars, str_eq, string_from_chars, to_lowercase, trim_end_matches,
    trim_suffix_all, unicode_lowercase, utf8,
};

verus! {

/// The REST base URL.
pub fn base(testnet: bool) -> (r: &'static str)
    ensures
        r@ == if testnet { "https://api-testnet.bybit.com"@ } else { "https://api.bybit.com"@ },
{
    if testnet { "https://api-testnet.bybit.com" } else { "https://api.bybit.com" }
}

/// The request signature: lowercase hex of HMAC-SHA256(secret, msg).
pub fn sign(msg: &str, secret: &str) -> (r: String)
    ensures
        r@ == hmac_hex(msg@, secret@),
{
    hmac_sha256_hex(msg, secret)
}

/// The Bybit v5 category of a symbol.
pub open spec fn category_of(symbol: Seq<char>) -> Seq<char> {
    if symbol.contains('-') {
        "option"@
    } else if "USD"@.is_suffix_of(symbol) {
        "inverse"@
    } else {
        "linear"@
    }
}

/// Infers the Bybit v5 category from an instrument symbol:
/// a `-` means option (e.g. BTC-29MAR24-50000-C), a `USD` ending means
/// inverse (BTCUSD, coin-margined), anything else is linear (BTCUSDT).
pub fn infer_category(symbol: &str) -> (r: &'static str)
    ensures
        r@ == category_of(symbol@),
{
    if contains_char(symbol, '-') {
        return "option";
    }
    if ends_with(symbol, "USD") {
        return "inverse";
    }
    "linear"
}

/// The canonical time-in-force of a Bybit code.
pub open spec fn generic_tif(s: Seq<char>) -> Seq<char> {
    if s == "IOC"@ {
        "immediate_or_cancel"@
    } else if s == "FOK"@ {
        "fill_or_kill"@
    } else {
        "good_til_cancelled"@
    }
}

/// Maps a Bybit time-in-force code to the canonical name.
pub fn tif_to_generic(s: &str) -> (r: String)
    ensures
        r@ == generic_tif(s@),
{
    if str_eq(s, "IOC") {
        String::from_str("immediate_or_cancel")
    } else if str_eq(s, "FOK") {
        String::from_str("fill_or_kill")
    } else {
        String::from_str("good_til_cancelled")
    }
}

/// The canonical transaction type of a known Bybit ledger type, if it is one.
pub open spec fn known_bybit_type(t: Seq<char>) -> Option<Seq<char>> {
    if t == "TRADE"@ {
        Some("trade"@)
    } else if t == "SETTLEMENT"@ {
        Some("settlement"@)
    } else if t == "DELIVERY_EXERCISE"@ || t == "AUTO_DELEVERAGE"@ {
        Some("delivery"@)
    } else if t == "LIQUIDATION"@ {
        Some("liquidation"@)
    } else if t == "TRANSFER_IN"@ {
        Some("transfer_in"@)
    } else if t == "TRANSFER_OUT"@ {
        Some("transfer_out"@)
    } else if t == "INTEREST"@ {
        Some("interest"@)
    } else if t == "FUNDING_FEE"@ {
        Some("funding"@)
    } else if t == "FEE_REFUND"@ {
        Some("fee_refund"@)
    } else if t == "BONUS_INCOME"@ {
        Some("bonus_income"@)
    } else {
        None
    }
}

/// Maps a Bybit ledger `type` to the canonical transaction type; unknown
/// types pass through lowercased.
pub fn map_bybit_type(t: &str) -> (r: String)
    ensures
        known_bybit_type(t@) matches Some(k) ==> r@ == k,
        known_bybit_type(t@) is None ==> r@ == unicode_lowercase(t@),
        known_bybit_type(t@) is None && all_ascii(t@) ==> r@ == ascii_lower(t@),
{
    if str_eq(t, "TRADE") {
        String::from_str("trade")
    } else if str_eq(t, "SETTLEMENT") {
        String::from_str("settlement")
    } else if str_eq(t, "DELIVERY_EXERCISE") || str_eq(t, "AUTO_DELEVERAGE") {
        String::from_str("delivery")
    } else if str_eq(t, "LIQUIDATION") {
        String::from_str("liquidation")
    } else if str_eq(t, "TRANSFER_IN") {
        String::from_str("transfer_in")
    } else if str_eq(t, "TRANSFER_OUT") {
        String::from_str("transfer_out")
    } else if str_eq(t, "INTEREST") {
        String::from_str("interest")
    } else if str_eq(t, "FUNDING_FEE") {
        String::from_str("funding")
    } else if str_eq(t, "FEE_REFUND") {
        String::from_str("fee_refund")
    } else if str_eq(t, "BONUS_INCOME") {
        String::from_str("bonus_income")
    } else {
        to_lowercase(t)
    }
}

/// The base coin of an undashed symbol: the first quote (in the order
/// USDT, USDC, BUSD, USD, BTC, ETH) that the symbol ends with and whose
/// removal, with any trailing `-PERP` trimmed, leaves a non-empty base.
pub open spec fn base_by_quotes(symbol: Seq<char>, quotes: Seq<Seq<char>>) -> Seq<char>
    decreases quotes.len(),
{
    if quotes.len() == 0 {
        symbol
    } else {
        let q = quotes[0];
        let b = trim_suffix_all(symbol.subrange(0, symbol.len() - q.len()), "-PERP"@);
        if q.is_suffix_of(symbol) && b.len() > 0 {
            b
        } else {
            base_by_quotes(symbol, quotes.drop_first())
        }
    }
}

/// The base coin of a Bybit symbol: with any `-PERP` endings removed
/// first, the part before its first `-` where it has one, else the symbol
/// stripped of a known quote (see `base_by_quotes`).
pub open spec fn base_coin_of(symbol: Seq<char>) -> Seq<char> {
    if symbol.len() == 0 {
        Seq::empty()
    } else {
        let s = trim_suffix_all(symbol, "-PERP"@);
        match index_of_from(s, '-', 0) {
            Some(pos) => s.subrange(0, pos),
            None => base_by_quotes(s, seq!["USDT"@, "USDC"@, "BUSD"@, "USD"@, "BTC"@, "ETH"@]),
        }
    }
}

/// Extracts the base coin from a Bybit symbol for grouping and filtering:
/// "BTCUSDT" gives "BTC", "BTC-10JAN25-50000-C" gives "BTC",
/// "SOLUSDT-PERP" gives "SOL", "" gives "".
pub fn extract_base_coin(symbol: &str) -> (r: String)
    ensures
        r@ == base_coin_of(symbol@),
{
    if symbol.is_empty() {
        return String::new();
    }
    let c = chars_of(symbol);
    let perp = chars_of("-PERP");
    let s = trim_end_matches(c.as_slice(), perp.as_slice());
    let ghost st = trim_suffix_all(symbol@, "-PERP"@);
    assert(s@ == st);
    if let Some(pos) = find_char_from(s.as_slice(), '-', 0) {
        let b = chars_slice(s.as_slice(), 0, pos);
        return string_from_chars(b.as_slice());
    }
    let quotes: [&str; 6] = ["USDT", "USDC", "BUSD", "USD", "BTC", "ETH"];
    let ghost all = seq!["USDT"@, "USDC"@, "BUSD"@, "USD"@, "BTC"@, "ETH"@];
    assert(all.subrange(0, 6) =~= all);
    let mut i: usize = 0;
    while i < 6
        invariant
            i <= 6,
            all.len() == 6,
            s@ == st,
            symbol@.len() > 0,
            st == trim_suffix_all(symbol@, "-PERP"@),
            index_of_from(st, '-', 0) is None,
            perp@ == "-PERP"@,
            forall|k: int| 0 <= k < 6 ==> (#[trigger] quotes@[k])@ == all[k],
            base_coin_of(symbol@) == base_by_quotes(st, all.subrange(i as int, 6)),
        decreases 6 - i,
    {
        let q = chars_of(quotes[i]);
        assert(all.subrange(i as int, 6)[0] == all[i as int]);
        assert(all.subrange(i as int, 6).drop_first() =~= all.subrange(i + 1, 6));
        if chars_end_with(s.as_slice(), q.as_slice()) {
            let stripped = chars_slice(s.as_slice(), 0, s.len() - q.len());
            let b = trim_end_matches(stripped.as_slice(), perp.as_slice());
            if b.len() > 0 {
                return string_from_chars(b.as_slice());
            }
        }
        i = i + 1;
    }
    assert(all.subrange(6, 6) =~= Seq::<Seq<char>>::empty());
    string_from_chars(s.as_slice())
}

/// The receive window, in milliseconds, sent with every signed request.
pub const RECV_WINDOW: u64 = 5000;

/// The text signed for a request: the timestamp, the API key, the receive
/// window and the payload (the query string of a GET, the body of a POST).
pub open spec fn auth_payload(api_key: Seq<char>, ts: u64, payload: Seq<char>) -> Seq<char> {
    decimal(ts as nat) + api_key + decimal(RECV_WINDOW as nat) + payload
}

/// The signature of a request made at `ts`.
pub fn auth_signature(api_key: &str, secret: &str, ts: u64, payload: &str) -> (r: String)
    ensures
        r@ == hmac_hex(auth_payload(api_key@, ts, payload@), secret@),
{
    let mut v: Vec<char> = Vec::new();
    let t = u64_decimal(ts);
    append_chars(&mut v, t.as_slice());
    append_str(&mut v, api_key);
    let w = u64_decimal(RECV_WINDOW);
    append_chars(&mut v, w.as_slice());
    append_str(&mut v, payload);
    assert(v@ =~= auth_payload(api_key@, ts, payload@));
    let msg = string_from_chars(v.as_slice());
    sign(msg.as_str(), secret)
}

/// The span of one ledger request: seven days in milliseconds.
pub const LEDGER_SPAN_MS: i64 = 604_800_000;

/// The windows in which the range from `start` to `end` is requested: each
/// from its start to seven days later, cut at `end`, the next starting a
/// millisecond after; none once a window would start at or after `end`.
pub open spec fn ledger_windows(start: int, end: int) -> Seq<(int, int)>
    decreases end + 1 - start,
{
    if start >= end {
        Seq::empty()
    } else {
        let stop = if start + LEDGER_SPAN_MS < end { start + LEDGER_SPAN_MS } else { end };
        seq![(start, stop)] + ledger_windows(stop + 1, end)
    }
}

/// Splits a requested range into the windows that are fetched one after
/// another (the ledger, and the fills of each category).
pub fn ledger_request_windows(start_ms: i64, end_ms: i64) -> (r: Vec<(i64, i64)>)
    requires
        end_ms < i64::MAX,
    ensures
        r@.len() == ledger_windows(start_ms as int, end_ms as int).len(),
        forall|k: int| 0 <= k < r@.len() ==> (#[trigger] r@[k]).0 == ledger_windows(start_ms as int, end_ms as int)[k].0
            && r@[k].1 == ledger_windows(start_ms as int, end_ms as int)[k].1,
{
    let ghost all = ledger_windows(start_ms as int, end_ms as int);
    let mut out: Vec<(i64, i64)> = Vec::new();
    let mut chunk_start: i64 = start_ms;
    while chunk_start < end_ms
        invariant
            end_ms < i64::MAX,
            all == ledger_windows(start_ms as int, end_ms as int),
            all == out@.map_values(|w: (i64, i64)| (w.0 as int, w.1 as int))
                + ledger_windows(chunk_start as int, end_ms as int),
        decreases end_ms as int + 1 - chunk_start as int,
    {
        let stop: i64 = if (chunk_start as i128) + (LEDGER_SPAN_MS as i128) < (end_ms as i128) {
            chunk_start + LEDGER_SPAN_MS
        } else {
            end_ms
        };
        let ghost before = out@.map_values(|w: (i64, i64)| (w.0 as int, w.1 as int));
        let ghost rest = ledger_windows(stop as int + 1, end_ms as int);
        out.push((chunk_start, stop));
        proof {
            assert(ledger_windows(chunk_start as int, end_ms as int) == seq![(chunk_start as int, stop as int)] + rest);
            assert(out@.map_values(|w: (i64, i64)| (w.0 as int, w.1 as int)) =~= before.push((chunk_start as int, stop as int)));
            assert(before.push((chunk_start as int, stop as int)) + rest =~= before + (seq![(chunk_start as int, stop as int)] + rest));
        }
        chunk_start = stop + 1;
    }
    proof {
        let outs = out@.map_values(|w: (i64, i64)| (w.0 as int, w.1 as int));
        assert(ledger_windows(chunk_start as int, end_ms as int) =~= Seq::<(int, int)>::empty());
        assert(all =~= outs);
        assert forall|k: int| 0 <= k < out@.len() implies (#[trigger] out@[k]).0 == all[k].0 && out@[k].1 == all[k].1 by {
            assert(outs[k] == (out@[k].0 as int, out@[k].1 as int));
        }
    }
    out
}

/// The windows of a range tile it: the first starts at the range's start,
/// each ends after it starts and at most seven days later, the next starts
/// a millisecond after it ends, and the last ends at the range's end. The
/// range's end is left out where it falls a whole number of windows (each
/// seven days and a millisecond) after its start: a window would start
/// there, and none does.
pub proof fn lemma_ledger_windows_tile(start: int, end: int)
    requires
        start < end,
        (end - start) % (LEDGER_SPAN_MS + 1) != 0,
    ensures
        ({
            let w = ledger_windows(start, end);
            &&& w.len() > 0
            &&& w[0].0 == start
            &&& w[w.len() - 1].1 == end
            &&& forall|k: int| 0 <= k < w.len() ==> (#[trigger] w[k]).0 < w[k].1 <= w[k].0 + LEDGER_SPAN_MS
            &&& forall|k: int| 0 <= k < w.len() - 1 ==> #[trigger] w[k + 1].0 == w[k].1 + 1
        }),
    decreases end - start,
{
    let span = LEDGER_SPAN_MS as int;
    let stop = if start + span < end { start + span } else { end };
    let w = ledger_windows(start, end);
    let rest = ledger_windows(stop + 1, end);
    assert(w == seq![(start, stop)] + rest);
    if stop < end {
        assert(stop + 1 < end) by {
            if stop + 1 == end {
                vstd::arithmetic::div_mod::lemma_mod_self_0(span + 1);
                assert((end - start) % (span + 1) == 0);
            }
        }
        assert((end - (stop + 1)) % (span + 1) == (end - start) % (span + 1)) by {
            assert(end - (stop + 1) == (end - start) - (span + 1));
            vstd::arithmetic::div_mod::lemma_mod_sub_multiples_vanish(end - start, span + 1);
        }
        lemma_ledger_windows_tile(stop + 1, end);
        assert forall|k: int| 0 <= k < w.len() implies (#[trigger] w[k]).0 < w[k].1 <= w[k].0 + LEDGER_SPAN_MS by {
            if k > 0 {
                assert(w[k] == rest[k - 1]);
            }
        }
        assert forall|k: int| 0 <= k < w.len() - 1 implies #[trigger] w[k + 1].0 == w[k].1 + 1 by {
            assert(w[0] == (start, stop));
            assert(w[k + 1] == rest[k]);
            if k > 0 {
                let j = k - 1;
                assert(w[k] == rest[j]);
                assert(rest[j + 1].0 == rest[j].1 + 1);
            }
        }
        assert(w[w.len() - 1] == rest[rest.len() - 1]);
    } else {
        assert(rest =~= Seq::<(int, int)>::empty());
    }
}

/// The non-empty texts of a sequence, each kept once, in order of first
/// sight.
pub open spec fn first_seen_nonempty(s: Seq<Seq<char>>) -> Seq<Seq<char>>
    decreases s.len(),
{
    if s.len() == 0 {
        Seq::empty()
    } else {
        let rest = first_seen_nonempty(s.drop_last());
        let c = s.last();
        if c.len() == 0 || rest.contains(c) {
            rest
        } else {
            rest.push(c)
        }
    }
}

/// The settlement currencies of a ledger, given the fee currency of each
/// entry: each non-empty one once, in order of first sight.
pub fn settlement_currencies(fee_currencies: &Vec<String>) -> (r: Vec<String>)
    ensures
        r@.map_values(|c: String| c@) == first_seen_nonempty(fee_currencies@.map_values(|c: String| c@)),
{
    let ghost all = fee_currencies@.map_values(|c: String| c@);
    let mut out: Vec<String> = Vec::new();
    let mut i: usize = 0;
    while i < fee_currencies.len()
        invariant
            i <= fee_currencies@.len(),
            all == fee_currencies@.map_values(|c: String| c@),
            out@.map_values(|c: String| c@) == first_seen_nonempty(all.subrange(0, i as int)),
        decreases fee_currencies.len() - i,
    {
        let c = &fee_currencies[i];
        let ghost outs = out@.map_values(|x: String| x@);
        proof {
            assert(all.subrange(0, i + 1).drop_last() =~= all.subrange(0, i as int));
            assert(all.subrange(0, i + 1).last() == c@);
        }
        let mut seen = false;
        let mut j: usize = 0;
        while j < out.len()
            invariant
                j <= out@.len(),
                outs == out@.map_values(|x: String| x@),
                seen == outs.subrange(0, j as int).contains(c@),
            decreases out.len() - j,
        {
            let same = str_eq(out[j].as_str(), c.as_str());
            proof {
                let a = outs.subrange(0, j as int);
                let b = outs.subrange(0, j + 1);
                assert(b =~= a.push(outs[j as int]));
                assert(b.contains(c@) <==> (a.contains(c@) || outs[j as int] == c@)) by {
                    if b.contains(c@) {
                        let k = choose|k: int| 0 <= k < b.len() && b[k] == c@;
                        if k < j {
                            assert(a[k] == c@);
                        }
                    }
                    if a.contains(c@) {
                        let k = choose|k: int| 0 <= k < a.len() && a[k] == c@;
                        assert(b[k] == c@);
                    }
                    if outs[j as int] == c@ {
                        assert(b[j as int] == c@);
                    }
                }
            }
            if same {
                seen = true;
            }
            j = j + 1;
        }
        assert(outs.subrange(0, out@.len() as int) =~= outs);
        if !c.as_str().is_empty() && !seen {
            out.push(String::from_str(c.as_str()));
            proof {
                assert(out@.map_values(|x: String| x@) =~= outs.push(c@));
            }
        }
        i = i + 1;
    }
    assert(all.subrange(0, fee_currencies@.len() as int) =~= all);
    out
}

/// Each settlement currency is walked once: what `first_seen_nonempty`
/// keeps has no repeats and no empty text, and holds exactly the non-empty
/// texts of its input.
pub proof fn lemma_first_seen_nonempty(s: Seq<Seq<char>>)
    ensures
        first_seen_nonempty(s).no_duplicates(),
        forall|k: int| 0 <= k < first_seen_nonempty(s).len() ==> (#[trigger] first_seen_nonempty(s)[k]).len() > 0,
        forall|c: Seq<char>| #[trigger] first_seen_nonempty(s).contains(c) <==> (c.len() > 0 && s.contains(c)),
    decreases s.len(),
{
    if s.len() > 0 {
        let before = s.drop_last();
        lemma_first_seen_nonempty(before);
        let rest = first_seen_nonempty(before);
        let last = s.last();
        let out = first_seen_nonempty(s);
        assert forall|c: Seq<char>| #[trigger] out.contains(c) <==> (c.len() > 0 && s.contains(c)) by {
            if out.contains(c) {
                let k = choose|k: int| 0 <= k < out.len() && out[k] == c;
                if k < rest.len() {
                    assert(rest[k] == c);
                    assert(rest.contains(c));
                    let m = choose|m: int| 0 <= m < before.len() && before[m] == c;
                    assert(s[m] == c);
                } else {
                    assert(c == last);
                    assert(s[s.len() - 1] == c);
                }
            }
            if c.len() > 0 && s.contains(c) {
                let k = choose|k: int| 0 <= k < s.len() && s[k] == c;
                if k < before.len() {
                    assert(before[k] == c);
                    assert(rest.contains(c));
                    let m = choose|m: int| 0 <= m < rest.len() && rest[m] == c;
                    assert(out[m] == c);
                } else {
                    assert(c == last);
                    if !rest.contains(c) {
                        assert(out[rest.len() as int] == c);
                    }
                }
            }
        }
    }
}

/// The side of a ledger entry: `buy` for `Buy`, `sell` for `Sell`, else
/// empty.
pub fn ledger_side(side: &str) -> (r: &'static str)
    ensures
        r@ == (if side@ == "Buy"@ { "buy"@ } else if side@ == "Sell"@ { "sell"@ } else { Seq::<char>::empty() }),
{
    proof {
        reveal_strlit("");
    }
    if str_eq(side, "Buy") {
        "buy"
    } else if str_eq(side, "Sell") {
        "sell"
    } else {
        ""
    }
}

/// The currency a ledger entry is grouped under: the base coin of its
/// symbol, or its settlement currency where it has no symbol.
pub fn ledger_currency(symbol: &str, settle_ccy: &str) -> (r: String)
    ensures
        r@ == (if symbol@.len() == 0 { settle_ccy@ } else { base_coin_of(symbol@) }),
{
    if symbol.is_empty() {
        String::from_str(settle_ccy)
    } else {
        extract_base_coin(symbol)
    }
}

/// The cursor of the next page: the one the reply gives, unless it is empty
/// or the page had no rows.
pub fn next_ledger_cursor(next_cursor: &str, page_len: usize) -> (r: Option<String>)
    ensures
        match r {
            Some(c) => c@ == next_cursor@ && next_cursor@.len() > 0 && page_len > 0,
            None => next_cursor@.len() == 0 || page_len == 0,
        },
{
    if next_cursor.is_empty() || page_len == 0 {
        None
    } else {
        Some(String::from_str(next_cursor))
    }
}

/// The numeric status code of a record, given as a number or as text.
pub open spec fn status_code(number: Option<i64>, text: Option<&str>) -> Option<int> {
    match number {
        Some(n) => Some(n as int),
        None => match text {
            Some(t) => parse_signed(t@, i64::MAX as nat),
            None => None,
        },
    }
}

/// The label of a deposit's status: the name of codes 0 to 4, else the
/// status text as given (empty where it is no text).
pub open spec fn deposit_status_of(number: Option<i64>, text: Option<&str>) -> Seq<char> {
    let code = status_code(number, text);
    if code == Some(0int) {
        "Unknown"@
    } else if code == Some(1int) {
        "Pending"@
    } else if code == Some(2int) {
        "Processing"@
    } else if code == Some(3int) {
        "Success"@
    } else if code == Some(4int) {
        "Failed"@
    } else {
        match text {
            Some(t) => t@,
            None => Seq::empty(),
        }
    }
}

/// Labels a deposit's status, given as a number or as text.
pub fn deposit_status_label(number: Option<i64>, text: Option<&str>) -> (r: String)
    ensures
        r@ == deposit_status_of(number, text),
{
    proof {
        reveal_strlit("");
    }
    let code: Option<i64> = match number {
        Some(n) => Some(n),
        None => match text {
            Some(t) => {
                let cs = chars_of(t);
                parse_i64_chars(cs.as_slice())
            },
            None => None,
        },
    };
    let label = match code {
        Some(0) => "Unknown",
        Some(1) => "Pending",
        Some(2) => "Processing",
        Some(3) => "Success",
        Some(4) => "Failed",
        _ => match text {
            Some(t) => t,
            None => "",
        },
    };
    String::from_str(label)
}

/// An `i64` quotient rounded toward zero, as Rust's `/` gives it.
pub open spec fn quotient_toward_zero(n: int, d: int) -> int {
    if n >= 0 { n / d } else { -((-n) / d) }
}

/// The server's time in milliseconds from Bybit's time reply: the
/// nanosecond text divided down, or else the second text multiplied up;
/// `None` where neither reads as an `i64`.
pub open spec fn server_time_of(time_nano: Option<&str>, time_second: Option<&str>) -> Option<int> {
    let nano = match time_nano {
        Some(t) => parse_signed(t@, i64::MAX as nat),
        None => None,
    };
    match nano {
        Some(n) => Some(quotient_toward_zero(n, 1_000_000)),
        None => match time_second {
            Some(t) => match parse_signed(t@, i64::MAX as nat) {
                Some(secs) => Some(secs * 1000),
                None => None,
            },
            None => None,
        },
    }
}

/// Reads the server's time from Bybit's time reply.
pub fn server_time_ms(time_nano: Option<&str>, time_second: Option<&str>) -> (r: Option<i64>)
    requires
        (server_time_of(time_nano, time_second) matches Some(ms) ==> i64::MIN <= ms <= i64::MAX),
    ensures
        match r {
            Some(ms) => server_time_of(time_nano, time_second) == Some(ms as int),
            None => server_time_of(time_nano, time_second) is None,
        },
{
    let nano: Option<i64> = match time_nano {
        Some(t) => {
            let cs = chars_of(t);
            parse_i64_chars(cs.as_slice())
        },
        None => None,
    };
    match nano {
        Some(n) => {
            let q: i128 = if n >= 0 {
                (n as i128) / 1_000_000
            } else {
                -((-(n as i128)) / 1_000_000)
            };
            Some(q as i64)
        },
        None => match time_second {
            Some(t) => {
                let cs = chars_of(t);
                match parse_i64_chars(cs.as_slice()) {
                    Some(secs) => Some(((secs as i128) * 1000) as i64),
                    None => None,
                }
            },
            None => None,
        },
    }
}


/// The most bytes of an order link id Bybit takes; longer ids are cut.
pub const CLIENT_ID_MAX_BYTES: usize = 36;

/// The Bybit side of a request: `Buy` for `buy`, else `Sell`.
pub fn order_side(side: &str) -> (r: &'static str)
    ensures
        r@ == (if side@ == "buy"@ { "Buy"@ } else { "Sell"@ }),
{
    if str_eq(side, "buy") { "Buy" } else { "Sell" }
}

/// The Bybit order type of a request: a post-only order is a limit order
/// (its post-only flag goes in the time in force), else market or limit.
pub fn order_type_code(order_type: &str, post_only: Option<bool>) -> (r: &'static str)
    ensures
        r@ == (if post_only != Some(true) && order_type@ == "market"@ { "Market"@ } else { "Limit"@ }),
{
    if post_only == Some(true) {
        "Limit"
    } else if str_eq(order_type, "market") {
        "Market"
    } else {
        "Limit"
    }
}

/// The Bybit time in force of a request: `PostOnly` for a post-only order,
/// else IOC, FOK or (also where none is given) GTC.
pub fn order_tif(time_in_force: Option<&str>, post_only: Option<bool>) -> (r: &'static str)
    ensures
        r@ == (if post_only == Some(true) {
            "PostOnly"@
        } else if time_in_force matches Some(t) && t@ == "immediate_or_cancel"@ {
            "IOC"@
        } else if time_in_force matches Some(t) && t@ == "fill_or_kill"@ {
            "FOK"@
        } else {
            "GTC"@
        }),
{
    if post_only == Some(true) {
        return "PostOnly";
    }
    match time_in_force {
        Some(t) => if str_eq(t, "immediate_or_cancel") {
            "IOC"
        } else if str_eq(t, "fill_or_kill") {
            "FOK"
        } else {
            "GTC"
        },
        None => "GTC",
    }
}

/// The date field of a symbol: its second `-`-separated part, if it has one
/// (`07JUN26` in `BTC-07JUN26-50000-C`).
pub open spec fn date_field(symbol: Seq<char>) -> Option<Seq<char>> {
    let parts = split_char(symbol, '-');
    if parts.len() >= 2 { Some(parts[1]) } else { None }
}

/// Whether the day, month and year of a seven-byte date field can be cut
/// out of its bytes (at bytes 2 and 5) without cutting a character.
pub open spec fn date_slices_whole(symbol: Seq<char>) -> bool {
    match date_field(symbol) {
        Some(f) => utf8(f).len() == 7 ==> is_char_start(utf8(f), 2) && is_char_start(utf8(f), 5),
        None => true,
    }
}

/// A two-byte number field as `str::parse::<i32>` reads it, 0 where it does
/// not read.
pub open spec fn number_field(b: Seq<u8>) -> int {
    match ascii_text(b) {
        Some(t) => match parse_signed(t, i32::MAX as nat) {
            Some(v) => v,
            None => 0,
        },
        None => 0,
    }
}

/// A three-byte month field (`JAN` to `DEC`) as 1 to 12, 0 where it is no
/// month.
pub open spec fn month_field(b: Seq<u8>) -> int {
    match ascii_text(b) {
        Some(t) => match month_index(t) {
            Some(m) => m + 1,
            None => 0,
        },
        None => 0,
    }
}

/// The (year, month, day) a symbol's seven-byte `DDMMMYY` date field names,
/// in the 2000s; `None` where it has none or its day or month is not valid.
pub open spec fn symbol_date(symbol: Seq<char>) -> Option<(int, int, int)> {
    match date_field(symbol) {
        None => None,
        Some(f) => {
            let b = utf8(f);
            if b.len() != 7 {
                None
            } else {
                let dd = number_field(b.subrange(0, 2));
                let mm = month_field(b.subrange(2, 5));
                let yy = number_field(b.subrange(5, 7));
                if dd > 0 && mm > 0 { Some((2000 + yy, mm, dd)) } else { None }
            }
        },
    }
}

/// Days from 1970-01-01 to January 1 of year `y`, by counting leap days
/// (with Rust's division, which rounds toward zero).
pub open spec fn days_to_year(y: int) -> int {
    365 * (y - 1970) + trunc_div(y - 1969, 4) - trunc_div(y - 1901, 100) + trunc_div(y - 1601, 400)
}

/// Days from January 1 to the first of month `mm` (1 to 12) in a common year.
pub open spec fn days_before_month_of(mm: int) -> int {
    if mm <= 1 { 0 }
    else if mm == 2 { 31 }
    else if mm == 3 { 59 }
    else if mm == 4 { 90 }
    else if mm == 5 { 120 }
    else if mm == 6 { 151 }
    else if mm == 7 { 181 }
    else if mm == 8 { 212 }
    else if mm == 9 { 243 }
    else if mm == 10 { 273 }
    else if mm == 11 { 304 }
    else { 334 }
}

/// The expiry an option symbol names: 08:00 UTC on its date, in Unix
/// milliseconds.
pub open spec fn symbol_expiry_of(symbol: Seq<char>) -> Option<int> {
    match symbol_date(symbol) {
        Some((y, mm, dd)) => {
            let leap_day = if is_leap(y) && mm > 2 { 1int } else { 0int };
            let days = days_to_year(y) + days_before_month_of(mm) + leap_day + dd - 1;
            Some(days * 86_400_000 + 8 * 3_600_000)
        },
        None => None,
    }
}

fn exact_month(t: &[char]) -> (r: Option<u32>)
    ensures
        r == month_index(t@),
{
    let s = string_from_chars(t);
    let m = s.as_str();
    if str_eq(m, "JAN") {
        Some(0)
    } else if str_eq(m, "FEB") {
        Some(1)
    } else if str_eq(m, "MAR") {
        Some(2)
    } else if str_eq(m, "APR") {
        Some(3)
    } else if str_eq(m, "MAY") {
        Some(4)
    } else if str_eq(m, "JUN") {
        Some(5)
    } else if str_eq(m, "JUL") {
        Some(6)
    } else if str_eq(m, "AUG") {
        Some(7)
    } else if str_eq(m, "SEP") {
        Some(8)
    } else if str_eq(m, "OCT") {
        Some(9)
    } else if str_eq(m, "NOV") {
        Some(10)
    } else if str_eq(m, "DEC") {
        Some(11)
    } else {
        None
    }
}

fn read_number_field(b: &[u8], from: usize) -> (r: i64)
    requires
        from <= 5,
        from + 2 <= b@.len(),
    ensures
        r == number_field(b@.subrange(from as int, from + 2)),
        -99 <= r <= 99,
{
    match ascii_chars(b, from, from + 2) {
        Some(t) => {
            proof {
                lemma_two_digits(t@);
            }
            match parse_i64_chars(t.as_slice()) {
                Some(v) => v,
                None => 0,
            }
        },
        None => 0,
    }
}

/// Reads the expiry an option symbol names (see `symbol_expiry_of`).
pub fn symbol_expiry_ms(symbol: &str) -> (r: Option<i64>)
    requires
        date_slices_whole(symbol@),
    ensures
        match r {
            Some(v) => symbol_expiry_of(symbol@) == Some(v as int),
            None => symbol_expiry_of(symbol@) is None,
        },
{
    let c = chars_of(symbol);
    let parts = split_chars(c.as_slice(), '-');
    proof {
        assert(parts@.map_values(|p: Vec<char>| p@).len() == parts@.len());
    }
    if parts.len() < 2 {
        return None;
    }
    let field = string_from_chars(parts[1].as_slice());
    proof {
        assert(parts@.map_values(|p: Vec<char>| p@)[1] == parts@[1]@);
    }
    let b = field.as_str().as_bytes();
    if b.len() != 7 {
        return None;
    }
    let dd = read_number_field(b, 0);
    let yy = read_number_field(b, 5);
    let mm: i64 = match ascii_chars(b, 2, 5) {
        Some(t) => match exact_month(t.as_slice()) {
            Some(m) => m as i64 + 1,
            None => 0,
        },
        None => 0,
    };
    if dd > 0 && mm > 0 {
        let y: i64 = 2000 + yy;
        let days_to_year: i64 = 365 * (y - 1970) + (y - 1969) / 4 - (y - 1901) / 100 + (y - 1601) / 400;
        let before: i64 = if mm <= 1 { 0 }
            else if mm == 2 { 31 }
            else if mm == 3 { 59 }
            else if mm == 4 { 90 }
            else if mm == 5 { 120 }
            else if mm == 6 { 151 }
            else if mm == 7 { 181 }
            else if mm == 8 { 212 }
            else if mm == 9 { 243 }
            else if mm == 10 { 273 }
            else if mm == 11 { 304 }
            else { 334 };
        let leap = (y % 4 == 0 && y % 100 != 0) || y % 400 == 0;
        let leap_day: i64 = if leap && mm > 2 { 1 } else { 0 };
        let days: i64 = days_to_year + before + leap_day + (dd - 1);
        Some(days * 86_400_000 + 8 * 3_600_000)
    } else {
        None
    }
}

/// Whether an instrument with this status is listed: all but `Closed` and
/// `Settling` (in either case as written); a missing status reads as
/// trading.
pub fn is_listed_status(status: Option<&str>) -> (r: bool)
    ensures
        r == (match status {
            Some(s) => !(s@ == "Closed"@ || s@ == "Settling"@ || s@ == "CLOSED"@ || s@ == "SETTLING"@),
            None => true,
        }),
{
    match status {
        Some(s) => !(str_eq(s, "Closed") || str_eq(s, "Settling") || str_eq(s, "CLOSED") || str_eq(s, "SETTLING")),
        None => true,
    }
}

/// The page size of an instrument listing: 1000 for options (many strikes
/// per expiry), 500 otherwise.
pub fn instruments_limit(category: &str) -> (r: u32)
    ensures
        r == (if category@ == "option"@ { 1000u32 } else { 500u32 }),
{
    if str_eq(category, "option") { 1000 } else { 500 }
}

/// The listing categories fetched for an instrument kind, each with the
/// kind its instruments are given: options, spot, or else both linear and
/// inverse futures.
pub open spec fn categories_of(kind: Seq<char>) -> Seq<(Seq<char>, Seq<char>)> {
    if kind == "option"@ {
        seq![("option"@, "option"@)]
    } else if kind == "spot"@ {
        seq![("spot"@, "spot"@)]
    } else {
        seq![("linear"@, "future"@), ("inverse"@, "future"@)]
    }
}

/// Lists the categories fetched for an instrument kind.
pub fn instrument_categories(kind: &str) -> (r: Vec<(&'static str, &'static str)>)
    ensures
        r@.map_values(|c: (&'static str, &'static str)| (c.0@, c.1@)) == categories_of(kind@),
{
    let r = if str_eq(kind, "option") {
        vec![("option", "option")]
    } else if str_eq(kind, "spot") {
        vec![("spot", "spot")]
    } else {
        vec![("linear", "future"), ("inverse", "future")]
    };
    assert(r@.map_values(|c: (&'static str, &'static str)| (c.0@, c.1@)) =~= categories_of(kind@));
    r
}

/// The option type of a listed instrument: its `optionsType` field
/// lowercased where the field is given and not empty; else the last
/// `-`-separated part of its symbol lowercased, where that is `c`, `p`,
/// `call` or `put`.
pub open spec fn option_type_of(field: Option<&str>, symbol: Seq<char>) -> Option<Seq<char>> {
    if field matches Some(f) && f@.len() > 0 {
        Some(unicode_lowercase(field.unwrap()@))
    } else {
        let parts = split_char(symbol, '-');
        let last = unicode_lowercase(parts[parts.len() - 1]);
        if last == "c"@ || last == "p"@ || last == "call"@ || last == "put"@ {
            Some(last)
        } else {
            None
        }
    }
}

/// Reads the option type of a listed instrument.
pub fn option_type(field: Option<&str>, symbol: &str) -> (r: Option<String>)
    ensures
        match r {
            Some(t) => option_type_of(field, symbol@) == Some(t@),
            None => option_type_of(field, symbol@) is None,
        },
{
    if let Some(f) = field {
        if !f.is_empty() {
            return Some(to_lowercase(f));
        }
    }
    let c = chars_of(symbol);
    let parts = split_chars(c.as_slice(), '-');
    proof {
        crate::text::lemma_split_char_nonempty(symbol@, '-');
        assert(parts@.map_values(|p: Vec<char>| p@).len() == parts@.len());
        assert(parts@.map_values(|p: Vec<char>| p@)[parts@.len() - 1] == parts@[parts@.len() - 1]@);
    }
    let last_text = string_from_chars(parts[parts.len() - 1].as_slice());
    let last = to_lowercase(last_text.as_str());
    let t = last.as_str();
    if str_eq(t, "c") || str_eq(t, "p") || str_eq(t, "call") || str_eq(t, "put") {
        Some(last)
    } else {
        None
    }
}

/// The expiry of a listed instrument: its delivery time where that is
/// positive (Bybit gives 0 on the day of expiry), else the date its symbol
/// names.
pub fn listed_expiry(delivery_ms: Option<i64>, symbol_expiry: Option<i64>) -> (r: Option<i64>)
    ensures
        r == (if delivery_ms matches Some(t) && t > 0 { delivery_ms } else { symbol_expiry }),
{
    match delivery_ms {
        Some(t) => if t > 0 { Some(t) } else { symbol_expiry },
        None => symbol_expiry,
    }
}

proof fn lemma_number_field_bounds(b: Seq<u8>)
    requires
        b.len() == 2,
    ensures
        -9 <= number_field(b) <= 99,
{
    match ascii_text(b) {
        Some(t) => {
            assert(t.len() == 2);
            lemma_two_digits(t);
            if t[0] == '-' {
                let body = t.drop_first();
                if all_digits(body) {
                    assert(body.drop_last() =~= Seq::<char>::empty());
                    assert(is_digit(body.last()));
                    assert(digits_value(body) == digits_value(body.drop_last()) * 10 + crate::decimal::digit_value(body.last()));
                }
            }
        },
        None => {},
    }
}

/// The leap-day count gives the days before a year from 1970 on.
pub proof fn lemma_days_to_year(y: int)
    requires
        y >= 1970,
    ensures
        days_to_year(y) == days_before_year(y),
    decreases y - 1970,
{
    if y > 1970 {
        lemma_days_to_year(y - 1);
        let p = y - 1;
        assert(days_before_year(y) == days_before_year(p) + year_len(p));
        let a = p - 1969;
        let b = p - 1901;
        let c = p - 1601;
        assert(a >= 0 && b >= 0 && c >= 0);
        assert((a + 1) / 4 == a / 4 + (if (a + 1) % 4 == 0 { 1int } else { 0int }));
        assert((b + 1) / 100 == b / 100 + (if (b + 1) % 100 == 0 { 1int } else { 0int }));
        assert((c + 1) / 400 == c / 400 + (if (c + 1) % 400 == 0 { 1int } else { 0int }));
        assert(((a + 1) % 4 == 0) == (p % 4 == 0));
        assert(((b + 1) % 100 == 0) == (p % 100 == 0));
        assert(((c + 1) % 400 == 0) == (p % 400 == 0));
        assert(p % 400 == 0 ==> p % 100 == 0);
        assert(p % 100 == 0 ==> p % 4 == 0);
    }
}

/// The expiry a symbol names is 08:00 UTC on its calendar date: the days
/// before its year and before its month in the proleptic Gregorian
/// calendar, plus its day less one, in milliseconds, plus eight hours.
pub proof fn lemma_symbol_expiry_is_calendar_date(symbol: Seq<char>)
    requires
        symbol_date(symbol) is Some,
    ensures
        ({
            let (y, mm, dd) = symbol_date(symbol).unwrap();
            symbol_expiry_of(symbol) == Some(
                (days_before_year(y) + days_before_month(y, mm - 1) + dd - 1) * 86_400_000 + 8 * 3_600_000,
            )
        }),
{
    let f = date_field(symbol).unwrap();
    let b = utf8(f);
    lemma_number_field_bounds(b.subrange(5, 7));
    let (y, mm, dd) = symbol_date(symbol).unwrap();
    assert(y >= 1991);
    lemma_days_to_year(y);
    assert(1 <= mm <= 12) by {
        let t = ascii_text(b.subrange(2, 5)).unwrap();
        assert(month_index(t) is Some);
    }
    reveal_with_fuel(days_before_month, 12);
    let leap_day = if is_leap(y) && mm > 2 { 1int } else { 0int };
    assert(days_before_month_of(mm) + leap_day == days_before_month(y, mm - 1));
}

} // verus!
