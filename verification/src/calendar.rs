//! The proleptic Gregorian calendar counted in days from 1970-01-01.

use vstd::prelude::*;
use crate::decimal::{decimal, u64_decimal_padded, zero_padded};

verus! {

/// Whether `y` is a Gregorian leap year.
pub open spec fn is_leap(y: int) -> bool {
    (y % 4 == 0 && y % 100 != 0) || y % 400 == 0
}

/// Days in year `y`.
pub open spec fn year_len(y: int) -> int {
    if is_leap(y) { 366 } else { 365 }
}

/// Days in month `m` (0 = January) of year `y`.
pub open spec fn month_len(y: int, m: int) -> int {
    if m == 1 {
        if is_leap(y) { 29 } else { 28 }
    } else if m == 3 || m == 5 || m == 8 || m == 10 {
        30
    } else {
        31
    }
}

/// Days from 1970-01-01 to January 1 of year `y` (for `y >= 1970`).
pub open spec fn days_before_year(y: int) -> int
    decreases y - 1970,
{
    if y <= 1970 {
        0
    } else {
        days_before_year(y - 1) + year_len(y - 1)
    }
}

/// Days from January 1 to the first day of month `m` (0 = January) of year `y`.
pub open spec fn days_before_month(y: int, m: int) -> int
    decreases m,
{
    if m <= 0 {
        0
    } else {
        days_before_month(y, m - 1) + month_len(y, m - 1)
    }
}

/// Rust's integer division, which rounds toward zero.
pub open spec fn trunc_div(a: int, b: int) -> int {
    if a >= 0 {
        a / b
    } else {
        -((-a) / b)
    }
}

/// `n` written in decimal as `format!("{:0w$}", n)` does: zero-padded to
/// width `w`, a minus sign counting toward the width.
pub open spec fn signed_padded(n: int, w: nat) -> Seq<char> {
    if n >= 0 {
        zero_padded(decimal(n as nat), w)
    } else {
        seq!['-'] + zero_padded(decimal((-n) as nat), if w >= 1 { (w - 1) as nat } else { 0 })
    }
}

pub proof fn lemma_year_len_total(y: int)
    ensures
        days_before_month(y, 12) == year_len(y),
{
    reveal_with_fuel(days_before_month, 13);
}

pub proof fn lemma_days_before_year_grows(y: int)
    requires
        y >= 1970,
    ensures
        days_before_year(y) >= 365 * (y - 1970),
    decreases y - 1970,
{
    if y > 1970 {
        lemma_days_before_year_grows(y - 1);
    }
}

proof fn lemma_days_before_year_monotone(a: int, b: int)
    requires
        1970 <= a <= b,
    ensures
        days_before_year(a) + (b - a) * 365 <= days_before_year(b),
    decreases b - a,
{
    if a < b {
        lemma_days_before_year_monotone(a, b - 1);
        assert((b - 1 - a) * 365 + 365 == (b - a) * 365) by (nonlinear_arith);
    }
}

proof fn lemma_days_before_month_monotone(y: int, a: int, b: int)
    requires
        0 <= a <= b,
    ensures
        days_before_month(y, a) + (b - a) * 28 <= days_before_month(y, b),
    decreases b - a,
{
    if a < b {
        lemma_days_before_month_monotone(y, a, b - 1);
        assert((b - 1 - a) * 28 + 28 == (b - a) * 28) by (nonlinear_arith);
    }
}

/// A day number names at most one civil date: the year, month and day of
/// month that `days` falls on are unique.
pub proof fn lemma_civil_date_unique(days: int, y1: int, m1: int, r1: int, y2: int, m2: int, r2: int)
    requires
        y1 >= 1970 && 0 <= m1 < 12 && 0 <= r1 < month_len(y1, m1),
        y2 >= 1970 && 0 <= m2 < 12 && 0 <= r2 < month_len(y2, m2),
        days == days_before_year(y1) + days_before_month(y1, m1) + r1,
        days == days_before_year(y2) + days_before_month(y2, m2) + r2,
    ensures
        y1 == y2 && m1 == m2 && r1 == r2,
{
    lemma_year_len_total(y1);
    lemma_year_len_total(y2);
    lemma_days_before_month_monotone(y1, m1 + 1, 12);
    lemma_days_before_month_monotone(y2, m2 + 1, 12);
    lemma_days_before_month_monotone(y1, 0, m1);
    lemma_days_before_month_monotone(y2, 0, m2);
    assert(days_before_month(y1, m1 + 1) == days_before_month(y1, m1) + month_len(y1, m1));
    assert(days_before_month(y2, m2 + 1) == days_before_month(y2, m2) + month_len(y2, m2));
    assert(days_before_year(y1 + 1) == days_before_year(y1) + year_len(y1));
    assert(days_before_year(y2 + 1) == days_before_year(y2) + year_len(y2));
    if y1 < y2 {
        lemma_days_before_year_monotone(y1 + 1, y2);
    }
    if y2 < y1 {
        lemma_days_before_year_monotone(y2 + 1, y1);
    }
    assert(y1 == y2);
    if m1 < m2 {
        lemma_days_before_month_monotone(y1, m1 + 1, m2);
    }
    if m2 < m1 {
        lemma_days_before_month_monotone(y1, m2 + 1, m1);
    }
}

/// `n` in decimal, zero-padded to width `w` with the sign counted in the width.
pub fn i32_padded(n: i32, w: usize) -> (v: Vec<char>)
    ensures
        v@ == signed_padded(n as int, w as nat),
{
    if n >= 0 {
        u64_decimal_padded(n as u64, w)
    } else {
        let m: i64 = -(n as i64);
        let digits = u64_decimal_padded(m as u64, if w >= 1 { w - 1 } else { 0 });
        let mut v: Vec<char> = Vec::new();
        v.push('-');
        let mut i: usize = 0;
        while i < digits.len()
            invariant
                i <= digits.len(),
                v@ == seq!['-'] + digits@.subrange(0, i as int),
            decreases digits.len() - i,
        {
            v.push(digits[i]);
            i = i + 1;
            assert(v@ =~= seq!['-'] + digits@.subrange(0, i as int));
        }
        assert(digits@.subrange(0, digits.len() as int) =~= digits@);
        v
    }
}

} // verus!
