//! Decimal text of unsigned integers: formatting and parsing.
//!
//! Parsing follows the grammar that `str::parse` accepts for unsigned
//! integer types: an optional leading `+`, then one or more ASCII digits,
//! with the value in range for the target type.

use vstd::prelude::*;

verus! {

/// The ASCII digit for `d` (0 to 9).
pub open spec fn digit_char(d: int) -> char {
    (48 + d) as char
}

/// Whether `c` is an ASCII decimal digit.
pub open spec fn is_digit(c: char) -> bool {
    '0' <= c && c <= '9'
}

/// The value of the ASCII digit `c`.
pub open spec fn digit_value(c: char) -> nat {
    (c as int - 48) as nat
}

/// The shortest decimal text of `n` (no sign, no leading zeros but for `0` itself).
pub open spec fn decimal(n: nat) -> Seq<char>
    decreases n,
{
    if n < 10 {
        seq![digit_char(n as int)]
    } else {
        decimal(n / 10).push(digit_char((n % 10) as int))
    }
}

/// `s` preceded by as many `'0'` as needed to reach `width` characters.
pub open spec fn zero_padded(s: Seq<char>, width: nat) -> Seq<char> {
    if s.len() >= width {
        s
    } else {
        Seq::new((width - s.len()) as nat, |i: int| '0') + s
    }
}

/// Whether every character of `s` is an ASCII digit.
pub open spec fn all_digits(s: Seq<char>) -> bool {
    forall|i: int| 0 <= i < s.len() ==> is_digit(#[trigger] s[i])
}

/// The value of a string of ASCII digits, most significant first.
pub open spec fn digits_value(s: Seq<char>) -> nat
    decreases s.len(),
{
    if s.len() == 0 {
        0
    } else {
        digits_value(s.drop_last()) * 10 + digit_value(s.last())
    }
}

/// The digits that `str::parse` reads for an unsigned type: a leading `+`
/// is dropped when more follows it.
pub open spec fn unsigned_body(s: Seq<char>) -> Seq<char> {
    if s.len() > 1 && s[0] == '+' {
        s.drop_first()
    } else {
        s
    }
}

/// What `str::parse` gives for an unsigned type whose largest value is `max`.
pub open spec fn parse_unsigned(s: Seq<char>, max: nat) -> Option<nat> {
    let body = unsigned_body(s);
    if body.len() > 0 && all_digits(body) && digits_value(body) <= max {
        Some(digits_value(body))
    } else {
        None
    }
}

proof fn lemma_decimal_digits(n: nat)
    ensures
        all_digits(decimal(n)),
        decimal(n).len() >= 1,
        digits_value(decimal(n)) == n,
    decreases n,
{
    if n < 10 {
        lemma_digit_char_value(n as int);
        assert(decimal(n).drop_last() =~= Seq::<char>::empty());
        assert(digits_value(Seq::<char>::empty()) == 0);
        assert(decimal(n).last() == digit_char(n as int));
    } else {
        assert(decimal(n).last() == digit_char((n % 10) as int));
        lemma_digit_char_value((n % 10) as int);
        lemma_decimal_digits(n / 10);
        let s = decimal(n);
        assert(s.drop_last() =~= decimal(n / 10));
        assert forall|i: int| 0 <= i < s.len() implies is_digit(#[trigger] s[i]) by {
            if i < s.len() - 1 {
                assert(s[i] == decimal(n / 10)[i]);
            }
        }
    }
}

proof fn lemma_digit_char_value(d: int)
    requires
        0 <= d < 10,
    ensures
        is_digit(digit_char(d)),
        digit_value(digit_char(d)) == d,
{
}

proof fn lemma_zeros_value(z: Seq<char>, s: Seq<char>)
    requires
        forall|i: int| 0 <= i < z.len() ==> z[i] == '0',
    ensures
        digits_value(z + s) == digits_value(s) + digits_value(z) * pow10(s.len()),
        digits_value(z) == 0,
    decreases s.len() + z.len(),
{
    if s.len() == 0 {
        assert(z + s =~= z);
        lemma_zero_seq_value(z);
    } else {
        assert((z + s).drop_last() =~= z + s.drop_last());
        lemma_zeros_value(z, s.drop_last());
        lemma_zero_seq_value(z);
    }
}

proof fn lemma_zero_seq_value(z: Seq<char>)
    requires
        forall|i: int| 0 <= i < z.len() ==> z[i] == '0',
    ensures
        digits_value(z) == 0,
    decreases z.len(),
{
    if z.len() > 0 {
        lemma_zero_seq_value(z.drop_last());
    }
}

/// Ten to the power `k`.
pub open spec fn pow10(k: nat) -> nat
    decreases k,
{
    if k == 0 {
        1
    } else {
        10 * pow10((k - 1) as nat)
    }
}

/// Reading back the zero-padded decimal text of `n` gives `n`.
pub proof fn lemma_padded_decimal_value(n: nat, width: nat)
    ensures
        all_digits(zero_padded(decimal(n), width)),
        zero_padded(decimal(n), width).len() >= 1,
        digits_value(zero_padded(decimal(n), width)) == n,
{
    lemma_decimal_digits(n);
    let s = decimal(n);
    if s.len() < width {
        let z = Seq::new((width - s.len()) as nat, |i: int| '0');
        lemma_zeros_value(z, s);
        let t = z + s;
        assert forall|i: int| 0 <= i < t.len() implies is_digit(#[trigger] t[i]) by {
            if i >= z.len() {
                assert(t[i] == s[i - z.len()]);
            }
        }
    }
}

/// The decimal text of `n`.
pub fn u64_decimal(n: u64) -> (v: Vec<char>)
    ensures
        v@ == decimal(n as nat),
    decreases n,
{
    if n < 10 {
        let c = ((48 + n) as u8) as char;
        let mut v: Vec<char> = Vec::new();
        v.push(c);
        assert(v@ =~= seq![digit_char(n as int)]);
        v
    } else {
        let mut v = u64_decimal(n / 10);
        let c = ((48 + n % 10) as u8) as char;
        v.push(c);
        v
    }
}

/// The decimal text of `n`, preceded by zeros up to `width` characters.
pub fn u64_decimal_padded(n: u64, width: usize) -> (v: Vec<char>)
    ensures
        v@ == zero_padded(decimal(n as nat), width as nat),
{
    let d = u64_decimal(n);
    if d.len() >= width {
        return d;
    }
    let mut v: Vec<char> = Vec::new();
    let pad = width - d.len();
    let mut i: usize = 0;
    while i < pad
        invariant
            i <= pad,
            v@ =~= Seq::new(i as nat, |j: int| '0'),
        decreases pad - i,
    {
        v.push('0');
        i = i + 1;
    }
    let mut k: usize = 0;
    while k < d.len()
        invariant
            k <= d.len(),
            v@ =~= Seq::new(pad as nat, |j: int| '0') + d@.subrange(0, k as int),
        decreases d.len() - k,
    {
        v.push(d[k]);
        k = k + 1;
    }
    assert(d@.subrange(0, d.len() as int) =~= d@);
    v
}

/// Reads unsigned decimal text the way `str::parse` does for a type whose
/// largest value is `max`.
pub fn parse_unsigned_chars(s: &[char], max: u64) -> (r: Option<u64>)
    ensures
        match r {
            Some(v) => parse_unsigned(s@, max as nat) == Some(v as nat),
            None => parse_unsigned(s@, max as nat) is None,
        },
{
    let start: usize = if s.len() > 1 && s[0] == '+' { 1 } else { 0 };
    let ghost body = unsigned_body(s@);
    assert(body =~= s@.subrange(start as int, s.len() as int));
    if start >= s.len() {
        return None;
    }
    let mut acc: u64 = 0;
    let mut i: usize = start;
    while i < s.len()
        invariant
            start <= i <= s.len(),
            body == unsigned_body(s@),
            body =~= s@.subrange(start as int, s.len() as int),
            all_digits(s@.subrange(start as int, i as int)),
            acc as nat == digits_value(s@.subrange(start as int, i as int)),
            acc <= max,
        decreases s.len() - i,
    {
        let c = s[i];
        assert(s@.subrange(start as int, i + 1).drop_last() =~= s@.subrange(start as int, i as int));
        if !('0' <= c && c <= '9') {
            proof {
                assert(body[i - start] == c);
                assert(!is_digit(body[i - start]));
            }
            return None;
        }
        let d = (c as u32 - 48) as u64;
        assert(d as nat == digit_value(c));
        if d > max || acc > (max - d) / 10 {
            proof {
                assert(acc * 10 + d > max) by (nonlinear_arith)
                    requires d > max || acc > (max - d) / 10, d <= 9;
                assert(s@.subrange(start as int, i + 1).last() == c);
                assert(s@.subrange(start as int, i + 1) =~= body.subrange(0, (i + 1 - start) as int));
            }
            proof {
                lemma_value_prefix_bound(body, (i + 1 - start) as nat, max as nat);
            }
            return None;
        }
        assert(acc * 10 + d <= max) by (nonlinear_arith)
            requires d <= max, acc <= (max - d) / 10;
        acc = acc * 10 + d;
        proof {
            let t = s@.subrange(start as int, i + 1);
            assert(t.last() == c);
            assert forall|j: int| 0 <= j < t.len() implies is_digit(#[trigger] t[j]) by {
                if j < t.len() - 1 {
                    assert(t[j] == s@.subrange(start as int, i as int)[j]);
                }
            }
        }
        i = i + 1;
    }
    assert(s@.subrange(start as int, s.len() as int) =~= body);
    Some(acc)
}

/// A digit string whose prefix already exceeds `max` exceeds it too.
proof fn lemma_value_prefix_bound(s: Seq<char>, k: nat, max: nat)
    requires
        k <= s.len(),
        digits_value(s.subrange(0, k as int)) > max,
    ensures
        digits_value(s) > max,
    decreases s.len() - k,
{
    if k < s.len() {
        let t = s.subrange(0, (k + 1) as int);
        assert(t.drop_last() =~= s.subrange(0, k as int));
        lemma_value_prefix_bound(s, k + 1, max);
    } else {
        assert(s.subrange(0, k as int) =~= s);
    }
}

/// What `str::parse` gives for a signed type whose largest value is `max`:
/// an optional sign (`-` or `+`, with more text after it), then digits; the
/// least value is `-(max + 1)`.
pub open spec fn parse_signed(s: Seq<char>, max: nat) -> Option<int> {
    if s.len() > 1 && s[0] == '-' {
        let body = s.drop_first();
        if all_digits(body) && digits_value(body) <= max + 1 {
            Some(-digits_value(body))
        } else {
            None
        }
    } else {
        match parse_unsigned(s, max) {
            Some(v) => Some(v as int),
            None => None,
        }
    }
}

/// Reads decimal text as an `i64` the way `str::parse::<i64>` does.
pub fn parse_i64_chars(s: &[char]) -> (r: Option<i64>)
    ensures
        match r {
            Some(v) => parse_signed(s@, i64::MAX as nat) == Some(v as int),
            None => parse_signed(s@, i64::MAX as nat) is None,
        },
{
    if s.len() > 1 && s[0] == '-' {
        let body = slice_chars(s, 1);
        assert(body@ =~= s@.drop_first());
        if body[0] == '+' {
            assert(!is_digit(body@[0]));
            return None;
        }
        assert(unsigned_body(body@) =~= body@);
        match parse_unsigned_chars(body.as_slice(), 0x8000_0000_0000_0000) {
            Some(v) => {
                if v == 0x8000_0000_0000_0000 {
                    Some(i64::MIN)
                } else {
                    Some(-(v as i64))
                }
            },
            None => None,
        }
    } else {
        match parse_unsigned_chars(s, i64::MAX as u64) {
            Some(v) => Some(v as i64),
            None => None,
        }
    }
}

fn slice_chars(s: &[char], from: usize) -> (r: Vec<char>)
    requires
        from <= s.len(),
    ensures
        r@ == s@.subrange(from as int, s.len() as int),
{
    let mut r: Vec<char> = Vec::new();
    let mut i: usize = from;
    while i < s.len()
        invariant
            from <= i <= s.len(),
            r@ == s@.subrange(from as int, i as int),
        decreases s.len() - i,
    {
        r.push(s[i]);
        i = i + 1;
        assert(r@ =~= s@.subrange(from as int, i as int));
    }
    r
}

/// The decimal text of an integer, with a `-` before a negative one.
pub open spec fn signed_decimal(n: int) -> Seq<char> {
    if n < 0 {
        seq!['-'] + decimal((-n) as nat)
    } else {
        decimal(n as nat)
    }
}

/// The decimal text of an `i64`.
pub fn i64_decimal(n: i64) -> (v: Vec<char>)
    ensures
        v@ == signed_decimal(n as int),
{
    if n < 0 {
        let m: u64 = if n == i64::MIN { 0x8000_0000_0000_0000 } else { (-n) as u64 };
        let d = u64_decimal(m);
        let mut v: Vec<char> = Vec::new();
        v.push('-');
        let mut i: usize = 0;
        while i < d.len()
            invariant
                i <= d.len(),
                v@ == seq!['-'] + d@.subrange(0, i as int),
            decreases d.len() - i,
        {
            v.push(d[i]);
            i = i + 1;
            assert(v@ =~= seq!['-'] + d@.subrange(0, i as int));
        }
        assert(d@.subrange(0, d.len() as int) =~= d@);
        v
    } else {
        u64_decimal(n as u64)
    }
}

} // verus!
