//! Option instrument names: month codes, underlying names and expiry dates.
//!
//! Accepted names look like `BTC-27JUN25-100000-C` (Deribit, Bybit) or
//! `BTCUSD-27JUN25-100000-C` (CoInCall).

use vstd::prelude::*;
use crate::calendar::trunc_div;
use crate::decimal::{
    all_digits, digits_value, parse_i64_chars, parse_signed, parse_unsigned, parse_unsigned_chars,
    unsigned_body,
};
use crate::text::{
    ascii_upper, chars_end_with, chars_of, chars_slice, split_char, split_chars, str_eq,
    string_from_chars, upper_ascii_char, utf8,
};

verus! {

/// The ASCII uppercase of a text (`str::to_ascii_uppercase`).
pub fn ascii_uppercase(s: &str) -> (r: Vec<char>)
    ensures
        r@ == ascii_upper(s@),
{
    let c = chars_of(s);
    let mut v: Vec<char> = Vec::new();
    let mut i: usize = 0;
    while i < c.len()
        invariant
            i <= c.len(),
            c@ == s@,
            v@ == ascii_upper(c@.subrange(0, i as int)),
        decreases c.len() - i,
    {
        v.push(upper_ascii_char(c[i]));
        i = i + 1;
        assert(v@ =~= ascii_upper(c@.subrange(0, i as int)));
    }
    assert(c@.subrange(0, c.len() as int) =~= c@);
    v
}

/// The month index (0 = January) of an uppercased three-letter month code.
pub open spec fn month_index(upper: Seq<char>) -> Option<u32> {
    if upper == "JAN"@ {
        Some(0u32)
    } else if upper == "FEB"@ {
        Some(1u32)
    } else if upper == "MAR"@ {
        Some(2u32)
    } else if upper == "APR"@ {
        Some(3u32)
    } else if upper == "MAY"@ {
        Some(4u32)
    } else if upper == "JUN"@ {
        Some(5u32)
    } else if upper == "JUL"@ {
        Some(6u32)
    } else if upper == "AUG"@ {
        Some(7u32)
    } else if upper == "SEP"@ {
        Some(8u32)
    } else if upper == "OCT"@ {
        Some(9u32)
    } else if upper == "NOV"@ {
        Some(10u32)
    } else if upper == "DEC"@ {
        Some(11u32)
    } else {
        None
    }
}

/// The month index (0 = January) of a three-letter month code, any ASCII case.
pub fn month_num(s: &str) -> (r: Option<u32>)
    ensures
        r == month_index(ascii_upper(s@)),
{
    let u = ascii_uppercase(s);
    let us = string_from_chars(u.as_slice());
    let t = us.as_str();
    if str_eq(t, "JAN") {
        Some(0)
    } else if str_eq(t, "FEB") {
        Some(1)
    } else if str_eq(t, "MAR") {
        Some(2)
    } else if str_eq(t, "APR") {
        Some(3)
    } else if str_eq(t, "MAY") {
        Some(4)
    } else if str_eq(t, "JUN") {
        Some(5)
    } else if str_eq(t, "JUL") {
        Some(6)
    } else if str_eq(t, "AUG") {
        Some(7)
    } else if str_eq(t, "SEP") {
        Some(8)
    } else if str_eq(t, "OCT") {
        Some(9)
    } else if str_eq(t, "NOV") {
        Some(10)
    } else if str_eq(t, "DEC") {
        Some(11)
    } else {
        None
    }
}

/// The quote suffixes stripped from an underlying, in the order tried.
pub open spec fn quote_suffixes() -> Seq<Seq<char>> {
    seq!["USDT"@, "USD"@, "BUSD"@, "USDC"@]
}

/// `upper` without the first suffix in `suffixes` that it ends with while
/// being longer than it; `upper` itself when there is none.
pub open spec fn strip_first_suffix(upper: Seq<char>, suffixes: Seq<Seq<char>>) -> Seq<char>
    decreases suffixes.len(),
{
    if suffixes.len() == 0 {
        upper
    } else if suffixes[0].is_suffix_of(upper) && upper.len() > suffixes[0].len() {
        upper.subrange(0, upper.len() - suffixes[0].len())
    } else {
        strip_first_suffix(upper, suffixes.drop_first())
    }
}

/// The bare coin name of an underlying: uppercased, without a trailing
/// quote currency (BTCUSD gives BTC, ETHUSDT gives ETH).
pub fn strip_quote_suffix(raw: &str) -> (r: String)
    ensures
        r@ == strip_first_suffix(ascii_upper(raw@), quote_suffixes()),
{
    let upper = ascii_uppercase(raw);
    let suffixes: [&str; 4] = ["USDT", "USD", "BUSD", "USDC"];
    let ghost all = quote_suffixes();
    assert(all.subrange(0, 4) =~= all);
    let mut i: usize = 0;
    while i < 4
        invariant
            i <= 4,
            all == quote_suffixes(),
            all.len() == 4,
            upper@ == ascii_upper(raw@),
            forall|k: int| 0 <= k < 4 ==> (#[trigger] suffixes@[k])@ == all[k],
            strip_first_suffix(upper@, all) == strip_first_suffix(upper@, all.subrange(i as int, 4)),
        decreases 4 - i,
    {
        let suf = chars_of(suffixes[i]);
        assert(all.subrange(i as int, 4)[0] == all[i as int]);
        assert(all.subrange(i as int, 4).drop_first() =~= all.subrange(i + 1, 4));
        if chars_end_with(upper.as_slice(), suf.as_slice()) && upper.len() > suf.len() {
            let b = chars_slice(upper.as_slice(), 0, upper.len() - suf.len());
            assert(suf@ == all[i as int]);
            return string_from_chars(b.as_slice());
        }
        i = i + 1;
    }
    assert(all.subrange(4, 4) =~= Seq::<Seq<char>>::empty());
    string_from_chars(upper.as_slice())
}

/// Days from 1970-01-01 of a (year, month 1-12, day) by the Julian Day
/// Number formula, in Rust's rounding-toward-zero integer division.
pub open spec fn jdn_days(y: int, m: int, d: int) -> int {
    let a = trunc_div(14 - m, 12);
    let yy = y + 4800 - a;
    let mm = m + 12 * a - 3;
    d + trunc_div(153 * mm + 2, 5) + 365 * yy + trunc_div(yy, 4) - trunc_div(yy, 100) + trunc_div(yy, 400) - 32045
        - 2440588
}

/// The bound on inputs that keeps the day count within 64 bits.
pub open spec fn jdn_in_range(y: int, m: int, d: int) -> bool {
    -1_000_000_000_000_000 <= y <= 1_000_000_000_000_000 && -1_000_000_000_000_000 <= m
        <= 1_000_000_000_000_000 && -1_000_000_000_000_000 <= d <= 1_000_000_000_000_000
}

/// Days from 1970-01-01 to (y, m, d), m counted from 1.
pub fn days_from_epoch(y: i64, m: i64, d: i64) -> (r: Option<i64>)
    requires
        jdn_in_range(y as int, m as int, d as int),
    ensures
        r == Some(jdn_days(y as int, m as int, d as int) as i64),
        jdn_days(y as int, m as int, d as int) == r.unwrap() as int,
{
    let a = (14 - m) / 12;
    let yy = y + 4800 - a;
    let mm = m + 12 * a - 3;
    let jdn = d + (153 * mm + 2) / 5 + 365 * yy + yy / 4 - yy / 100 + yy / 400 - 32045;
    Some(jdn - 2440588)
}

/// Unix time (seconds) of hour `h` UTC on a date, the month counted from 0;
/// minutes and seconds are not counted.
pub fn ymd_to_unix(year: i32, month: u32, day: u32, h: u32, _m: u32, _s: u32) -> (r: Option<i64>)
    ensures
        r == Some((jdn_days(year as int, month as int + 1, day as int) * 86400 + h as int * 3600) as i64),
{
    let y = year as i64;
    let m = month as i64;
    let d = day as i64;
    let days = match days_from_epoch(y, m + 1, d) {
        Some(x) => x,
        None => return None,
    };
    Some(days * 86400 + h as i64 * 3600)
}

/// Whether byte `k` of UTF-8 text `b` starts a character (or is its end).
pub open spec fn is_char_start(b: Seq<u8>, k: int) -> bool {
    k == b.len() || (0 <= k < b.len() && !(0x80 <= b[k] && b[k] < 0xC0))
}

/// The characters of bytes that are all ASCII; `None` where one is not.
pub open spec fn ascii_text(b: Seq<u8>) -> Option<Seq<char>> {
    if forall|i: int| 0 <= i < b.len() ==> b[i] < 128 {
        Some(b.map_values(|x: u8| x as char))
    } else {
        None
    }
}

/// What the day, month and year fields of an uppercased option date read
/// as: `None` where a field's bytes would cut a character, `Some(None)`
/// where the date is not valid, else the day, the month (0 = January) and
/// the year (2000 plus the two-digit field). Only the first seven bytes are
/// read: two of day, three of month, two of year.
pub open spec fn option_date(b: Seq<u8>) -> Option<Option<(int, int, int)>> {
    if b.len() < 7 {
        Some(None)
    } else if !is_char_start(b, 2) {
        None
    } else {
        let day = match ascii_text(b.subrange(0, 2)) {
            Some(t) => parse_unsigned(t, u32::MAX as nat),
            None => None,
        };
        match day {
            None => Some(None),
            Some(d) => if !is_char_start(b, 5) {
                None
            } else {
                let month = match ascii_text(b.subrange(2, 5)) {
                    Some(t) => month_index(ascii_upper(t)),
                    None => None,
                };
                match month {
                    None => Some(None),
                    Some(m) => if !is_char_start(b, 7) {
                        None
                    } else {
                        let year = match ascii_text(b.subrange(5, 7)) {
                            Some(t) => parse_signed(t, i32::MAX as nat),
                            None => None,
                        };
                        match year {
                            None => Some(None),
                            Some(y) => Some(Some((d as int, m as int, 2000 + y))),
                        }
                    },
                }
            },
        }
    }
}

/// Texts joined with a separator.
pub open spec fn join_with(parts: Seq<Seq<char>>, sep: char) -> Seq<char>
    decreases parts.len(),
{
    if parts.len() == 0 {
        Seq::empty()
    } else if parts.len() == 1 {
        parts[0]
    } else {
        join_with(parts.drop_last(), sep).push(sep) + parts.last()
    }
}

/// What an option name is made of: the underlying, the expiry (08:00 UTC,
/// Unix seconds), the strike as written, and whether it is a call.
pub struct OptionParts {
    pub underlying: String,
    pub expiry_ts: i64,
    pub strike_text: String,
    pub is_call: bool,
}

/// The outcome of reading an option name.
pub enum OptionName {
    /// The name reads as an option.
    Parsed(OptionParts),
    /// The name is not an option name.
    NotAnOption,
    /// The date field's bytes cut a character: the name cannot be sliced
    /// into day, month and year.
    CutsCharacter,
}

/// What an option name reads as: at least four `-`-separated parts, the
/// last `C` or `P` (any ASCII case), the one before it the strike, the one
/// before that the date (`DDMMMYY`); the underlying is everything before
/// the date, rejoined and stripped of a quote suffix.
pub open spec fn option_name_of(name: Seq<char>) -> Option<Option<(Seq<char>, int, Seq<char>, bool)>> {
    let parts = split_char(name, '-');
    let n = parts.len() as int;
    if n < 4 {
        Some(None)
    } else {
        let t = ascii_upper(parts[n - 1]);
        if t != "C"@ && t != "P"@ {
            Some(None)
        } else {
            match option_date(utf8(ascii_upper(parts[n - 3]))) {
                None => None,
                Some(None) => Some(None),
                Some(Some((d, m, y))) => Some(
                    Some(
                        (
                            strip_first_suffix(ascii_upper(join_with(parts.subrange(0, n - 3), '-')), quote_suffixes()),
                            jdn_days(y, m + 1, d) * 86400 + 8 * 3600,
                            parts[n - 2],
                            t == "C"@,
                        ),
                    ),
                ),
            }
        }
    }
}

pub(crate) fn ascii_chars(b: &[u8], from: usize, to: usize) -> (r: Option<Vec<char>>)
    requires
        from <= to <= b@.len(),
    ensures
        match r {
            Some(v) => ascii_text(b@.subrange(from as int, to as int)) == Some(v@),
            None => ascii_text(b@.subrange(from as int, to as int)) is None,
        },
{
    let ghost sub = b@.subrange(from as int, to as int);
    let mut v: Vec<char> = Vec::new();
    let mut i: usize = from;
    while i < to
        invariant
            from <= i <= to,
            to <= b@.len(),
            sub == b@.subrange(from as int, to as int),
            forall|k: int| 0 <= k < i - from ==> sub[k] < 128,
            v@ == sub.subrange(0, i - from).map_values(|x: u8| x as char),
        decreases to - i,
    {
        if b[i] >= 128 {
            assert(sub[i - from] >= 128);
            return None;
        }
        v.push(b[i] as char);
        i = i + 1;
        assert(v@ =~= sub.subrange(0, i - from).map_values(|x: u8| x as char));
    }
    assert(sub.subrange(0, to - from) =~= sub);
    Some(v)
}

fn char_start(b: &[u8], k: usize) -> (r: bool)
    requires
        k <= b@.len(),
    ensures
        r == is_char_start(b@, k as int),
{
    k == b.len() || !(0x80 <= b[k] && b[k] < 0xC0)
}

proof fn lemma_small_digits(s: Seq<char>)
    requires
        s.len() <= 2,
        all_digits(s),
    ensures
        digits_value(s) <= 99,
{
    if s.len() > 0 {
        let p = s.drop_last();
        assert(all_digits(p)) by {
            assert forall|i: int| 0 <= i < p.len() implies crate::decimal::is_digit(#[trigger] p[i]) by {
                assert(p[i] == s[i]);
            }
        }
        if p.len() > 0 {
            assert(p.drop_last() =~= Seq::<char>::empty());
            assert(crate::decimal::is_digit(p.last()));
            assert(digits_value(p.drop_last()) == 0);
            assert(crate::decimal::digit_value(p.last()) <= 9);
            assert(digits_value(p) == digits_value(p.drop_last()) * 10 + crate::decimal::digit_value(p.last()));
            assert(digits_value(p) <= 9);
        } else {
            assert(digits_value(p) == 0);
        }
        assert(crate::decimal::is_digit(s.last()));
        assert(crate::decimal::digit_value(s.last()) <= 9);
        assert(digits_value(s) == digits_value(p) * 10 + crate::decimal::digit_value(s.last()));
    }
}

pub(crate) proof fn lemma_two_digits(t: Seq<char>)
    requires
        t.len() == 2,
    ensures
        parse_signed(t, i32::MAX as nat) == parse_signed(t, i64::MAX as nat),
        parse_signed(t, i64::MAX as nat) matches Some(v) ==> -99 <= v <= 99,
{
    if t[0] == '-' {
        let body = t.drop_first();
        if all_digits(body) {
            lemma_small_digits(body);
        }
    } else {
        let body = unsigned_body(t);
        if all_digits(body) {
            lemma_small_digits(body);
        }
    }
}

/// Reads the day, month and year of an uppercased option date from its bytes.
fn read_option_date(b: &[u8]) -> (r: Option<Option<(u32, u32, i32)>>)
    ensures
        match r {
            None => option_date(b@) is None,
            Some(None) => option_date(b@) == Some(None::<(int, int, int)>),
            Some(Some((d, m, y))) => option_date(b@) == Some(Some((d as int, m as int, y as int))),
        },
{
    if b.len() < 7 {
        return Some(None);
    }
    if !char_start(b, 2) {
        return None;
    }
    let day = match ascii_chars(b, 0, 2) {
        Some(t) => match parse_unsigned_chars(t.as_slice(), 0xffff_ffff) {
            Some(d) => d,
            None => return Some(None),
        },
        None => return Some(None),
    };
    if !char_start(b, 5) {
        return None;
    }
    let month = match ascii_chars(b, 2, 5) {
        Some(t) => {
            let s = string_from_chars(t.as_slice());
            match month_num(s.as_str()) {
                Some(m) => m,
                None => return Some(None),
            }
        },
        None => return Some(None),
    };
    if !char_start(b, 7) {
        return None;
    }
    let year = match ascii_chars(b, 5, 7) {
        Some(t) => {
            proof {
                lemma_two_digits(t@);
            }
            match parse_i64_chars(t.as_slice()) {
                Some(y) => y,
                None => return Some(None),
            }
        },
        None => return Some(None),
    };
    assert(-99 <= year <= 99);
    Some(Some((day as u32, month, 2000 + year as i32)))
}

/// Reads an option name into its parts; see `option_name_of`.
pub fn parse_option_parts(instrument_name: &str) -> (r: OptionName)
    ensures
        match r {
            OptionName::CutsCharacter => option_name_of(instrument_name@) is None,
            OptionName::NotAnOption => option_name_of(instrument_name@) == Some(
                None::<(Seq<char>, int, Seq<char>, bool)>,
            ),
            OptionName::Parsed(p) => option_name_of(instrument_name@) == Some(
                Some((p.underlying@, p.expiry_ts as int, p.strike_text@, p.is_call)),
            ),
        },
{
    let c = chars_of(instrument_name);
    let parts = split_chars(c.as_slice(), '-');
    let ghost ps = parts@.map_values(|p: Vec<char>| p@);
    let n = parts.len();
    if n < 4 {
        return OptionName::NotAnOption;
    }
    let type_chars = upper_chars(parts[n - 1].as_slice());
    let type_str = string_from_chars(type_chars.as_slice());
    proof {
        assert(ps[n - 1] == parts@[n - 1]@);
    }
    let is_c = str_eq(type_str.as_str(), "C");
    if !is_c && !str_eq(type_str.as_str(), "P") {
        return OptionName::NotAnOption;
    }
    let date_chars = upper_chars(parts[n - 3].as_slice());
    let date_str = string_from_chars(date_chars.as_slice());
    proof {
        assert(ps[n - 3] == parts@[n - 3]@);
        assert(ps[n - 2] == parts@[n - 2]@);
    }
    let date = read_option_date(date_str.as_str().as_bytes());
    let (day, month, year) = match date {
        None => return OptionName::CutsCharacter,
        Some(None) => return OptionName::NotAnOption,
        Some(Some(x)) => x,
    };
    let under = join_parts(&parts, n - 3);
    let underlying = strip_quote_suffix(under.as_str());
    let expiry_ts = match ymd_to_unix(year, month, day, 8, 0, 0) {
        Some(t) => t,
        None => return OptionName::NotAnOption,
    };
    proof {
        assert(jdn_in_range(year as int, month as int + 1, day as int));
    }
    let strike_text = string_from_chars(parts[n - 2].as_slice());
    OptionName::Parsed(OptionParts { underlying, expiry_ts, strike_text, is_call: is_c })
}

fn upper_chars(s: &[char]) -> (r: Vec<char>)
    ensures
        r@ == ascii_upper(s@),
{
    let mut v: Vec<char> = Vec::new();
    let mut i: usize = 0;
    while i < s.len()
        invariant
            i <= s@.len(),
            v@ == ascii_upper(s@.subrange(0, i as int)),
        decreases s.len() - i,
    {
        v.push(upper_ascii_char(s[i]));
        i = i + 1;
        assert(v@ =~= ascii_upper(s@.subrange(0, i as int)));
    }
    assert(s@.subrange(0, s@.len() as int) =~= s@);
    v
}

fn join_parts(parts: &Vec<Vec<char>>, k: usize) -> (r: String)
    requires
        k <= parts@.len(),
    ensures
        r@ == join_with(parts@.map_values(|p: Vec<char>| p@).subrange(0, k as int), '-'),
{
    let ghost ps = parts@.map_values(|p: Vec<char>| p@);
    let mut v: Vec<char> = Vec::new();
    let mut i: usize = 0;
    while i < k
        invariant
            i <= k,
            k <= parts@.len(),
            ps == parts@.map_values(|p: Vec<char>| p@),
            v@ == join_with(ps.subrange(0, i as int), '-'),
        decreases k - i,
    {
        if i > 0 {
            v.push('-');
        }
        let ghost before = v@;
        let mut j: usize = 0;
        while j < parts[i].len()
            invariant
                i < k <= parts@.len(),
                j <= parts@[i as int]@.len(),
                v@ == before + parts@[i as int]@.subrange(0, j as int),
            decreases parts@[i as int]@.len() - j,
        {
            v.push(parts[i][j]);
            j = j + 1;
            assert(v@ =~= before + parts@[i as int]@.subrange(0, j as int));
        }
        proof {
            assert(parts@[i as int]@.subrange(0, j as int) =~= parts@[i as int]@);
            assert(ps.subrange(0, i + 1).drop_last() =~= ps.subrange(0, i as int));
            assert(ps[i as int] == parts@[i as int]@);
        }
        i = i + 1;
        assert(v@ =~= join_with(ps.subrange(0, i as int), '-'));
    }
    string_from_chars(v.as_slice())
}

} // verus!
