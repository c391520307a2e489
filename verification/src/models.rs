//! Settings, client and messaging records, and the canonical date text of
//! instrument expiries.

use vstd::prelude::*;
use crate::calendar::{
    days_before_month, days_before_year, i32_padded, is_leap, lemma_civil_date_unique,
    lemma_days_before_year_grows, lemma_year_len_total, month_len, signed_padded, trunc_div, year_len,
};
use crate::api::bybit::{days_before_month_of, lemma_days_to_year};
use crate::bs::jdn_days;
use crate::text::{all_ascii, append_str, ascii_upper, chars_of, str_eq, string_from_chars, to_uppercase, unicode_uppercase};

verus! {

/// The default time-in-force of a new account.
pub fn default_tif() -> (r: String)
    ensures
        r@ == "good_til_cancelled"@,
{
    String::from_str("good_til_cancelled")
}

/// The default rate-limit tier name of a new account.
pub fn default_rate_tier() -> (r: String)
    ensures
        r@ == "tier1"@,
{
    String::from_str("tier1")
}

/// The default UI theme.
pub fn default_theme() -> (r: String)
    ensures
        r@ == "dark"@,
{
    String::from_str("dark")
}

/// The default currency shown.
pub fn default_currency() -> (r: String)
    ensures
        r@ == "BTC"@,
{
    String::from_str("BTC")
}

/// The default number locale.
pub fn default_number_locale() -> (r: String)
    ensures
        r@ == "en-US"@,
{
    String::from_str("en-US")
}

/// The default number of price decimals.
pub fn default_price_decimals() -> (r: i32)
    ensures
        r == 2,
{
    2
}

/// The default number of size decimals.
pub fn default_size_decimals() -> (r: i32)
    ensures
        r == 4,
{
    4
}

/// Orders are confirmed by default.
pub fn default_confirm_orders() -> (r: bool)
    ensures
        r,
{
    true
}

/// The default bot ID.
pub fn default_bot_id() -> (r: u16)
    ensures
        r == 1,
{
    1
}

/// The default interval between book and ticker emits, in milliseconds.
pub fn default_book_emit_interval_ms() -> (r: u32)
    ensures
        r == 80,
{
    80
}

/// The default exchange for spot and volatility sources of the RFQ pricer.
pub fn rfq_default_source() -> (r: String)
    ensures
        r@ == "deribit"@,
{
    String::from_str("deribit")
}

/// The default coin the RFQ pricer trades.
pub fn rfq_default_coin() -> (r: String)
    ensures
        r@ == "BTC"@,
{
    String::from_str("BTC")
}

/// The default lifetime of an auto-submitted quote, in seconds.
pub fn rfq_default_auto_quote_timeout() -> (r: u32)
    ensures
        r == 30,
{
    30
}

/// The default colour of a new tag.
pub fn default_tag_color() -> (r: String)
    ensures
        r@ == "#5087f2"@,
{
    String::from_str("#5087f2")
}

/// General application settings.
#[derive(Debug, Clone)]
pub struct GeneralSettings {
    pub theme: String,
    pub default_currency: String,
    pub number_locale: String,
    pub price_decimals: i32,
    pub size_decimals: i32,
    pub confirm_orders: bool,
    /// Comma-separated list of coins to show in the account summary (empty = all).
    pub watched_coins: String,
    /// Bot/instance ID encoded into client order IDs.
    pub bot_id: u16,
    /// Interval between book/ticker emits to the frontend, in milliseconds.
    pub book_emit_interval_ms: u32,
}

impl Default for GeneralSettings {
    fn default() -> (r: Self)
        ensures
            r.theme@ == "dark"@,
            r.default_currency@ == "BTC"@,
            r.number_locale@ == "en-US"@,
            r.price_decimals == 2,
            r.size_decimals == 4,
            r.confirm_orders,
            r.watched_coins@ == Seq::<char>::empty(),
            r.bot_id == 1,
            r.book_emit_interval_ms == 80,
    {
        GeneralSettings {
            theme: default_theme(),
            default_currency: default_currency(),
            number_locale: default_number_locale(),
            price_decimals: default_price_decimals(),
            size_decimals: default_size_decimals(),
            confirm_orders: default_confirm_orders(),
            watched_coins: String::new(),
            bot_id: default_bot_id(),
            book_emit_interval_ms: default_book_emit_interval_ms(),
        }
    }
}

/// Single-client information (legacy).
#[derive(Debug, Clone, Default)]
pub struct ClientInfo {
    pub company_name: String,
    pub contact_name: String,
    pub phone: String,
    pub email: String,
    pub telegram_handle: String,
    /// Comma-separated tags.
    pub tags: String,
    pub notes: String,
}

/// A client tag.
#[derive(Debug, Clone, Default)]
pub struct Tag {
    pub id: String,
    pub name: String,
    pub color: String,
}

/// A client.
#[derive(Debug, Clone, Default)]
pub struct Client {
    pub id: String,
    pub company_name: String,
    pub contact_name: String,
    pub phone: String,
    pub email: String,
    /// Comma-separated tag IDs.
    pub tag_ids: String,
    pub notes: String,
}

/// A Telegram chat that belongs to a client.
#[derive(Debug, Clone, Default)]
pub struct ClientTelegramChat {
    pub id: String,
    pub client_id: String,
    pub chat_id: String,
    pub label: String,
}

/// Telegram bot settings.
#[derive(Debug, Clone, Default)]
pub struct TelegramSettings {
    pub bot_token: String,
    pub default_chat_id: String,
}

/// A Telegram chat as the bot sees it.
#[derive(Debug, Clone)]
pub struct TelegramChat {
    pub id: i64,
    /// "private" | "group" | "supergroup" | "channel"
    pub kind: String,
    pub title: Option<String>,
    pub username: Option<String>,
}

/// The outcome of one Telegram send.
#[derive(Debug, Clone)]
pub struct TelegramResult {
    pub ok: bool,
    pub message_id: Option<i64>,
    pub error: Option<String>,
}

/// A Deribit access token.
#[derive(Debug, Clone)]
pub struct AuthToken {
    pub access_token: String,
    pub expires_in: i64,
    pub scope: String,
    pub token_type: String,
}

/// One part (text, photo or document) of a broadcast.
#[derive(Debug, Clone)]
pub struct BroadcastPart {
    pub id: String,
    pub broadcast_id: String,
    /// "text" | "photo" | "document"
    pub part_type: String,
    pub file_path: String,
    pub caption: String,
    pub sort_order: i32,
}

/// One delivery of one broadcast part to one chat.
#[derive(Debug, Clone)]
pub struct BroadcastSend {
    pub id: String,
    pub broadcast_id: String,
    pub part_id: String,
    pub chat_id: i64,
    pub client_name: String,
    /// "pending" | "sent" | "failed"
    pub status: String,
    pub error_msg: String,
    pub message_id: Option<i64>,
    pub attempt_count: i32,
    pub last_attempt: i64,
}

/// A broadcast to a group, a list of clients or a tag.
#[derive(Debug, Clone)]
pub struct Broadcast {
    pub id: String,
    pub subject: String,
    pub text_body: String,
    pub parse_mode: String,
    /// "group" | "clients" | "tag"
    pub recip_type: String,
    pub recip_value: String,
    /// "pending" | "sending" | "done" | "partial_fail"
    pub status: String,
    pub created_at: i64,
    pub total: i32,
    pub sent: i32,
    pub failed: i32,
}

/// A request to create a broadcast.
#[derive(Debug, Clone)]
pub struct CreateBroadcastRequest {
    pub subject: String,
    pub text_body: String,
    pub parse_mode: String,
    pub recip_type: String,
    pub recip_value: String,
    pub attachments: Vec<BroadcastAttachment>,
}

/// A file attached to a broadcast.
#[derive(Debug, Clone)]
pub struct BroadcastAttachment {
    /// "photo" | "document"
    pub kind: String,
    pub file_path: String,
    pub caption: String,
}

/// The day number (days since 1970-01-01) of a Unix timestamp in
/// milliseconds: whole days rounded toward zero, then cut to 32 bits.
pub open spec fn day_number(ts_ms: i64) -> int {
    (trunc_div(ts_ms as int, 86400000) as i32) as int
}

/// Year `y`, month `m` (0 = January) and day `r` (0 = first) name day
/// number `days`.
pub open spec fn is_civil_date(days: int, y: int, m: int, r: int) -> bool {
    &&& y >= 1970
    &&& 0 <= m < 12
    &&& 0 <= r < month_len(y, m)
    &&& days == days_before_year(y) + days_before_month(y, m) + r
}

/// The "YYYYMMDD" text of a year, a month (1 to 12) and a day of month.
pub open spec fn date_text(y: int, month: int, day: int) -> Seq<char> {
    signed_padded(y, 4) + signed_padded(month, 2) + signed_padded(day, 2)
}

/// The "YYYYMMDD" text of the day of a Unix timestamp in milliseconds;
/// days before 1970-01-01 are written as non-positive days of January 1970.
pub open spec fn expiry_text(ts_ms: i64) -> Seq<char> {
    let d = day_number(ts_ms);
    if d >= 0 {
        let (y, m, r) = choose|y: int, m: int, r: int| is_civil_date(d, y, m, r);
        date_text(y, m + 1, r + 1)
    } else {
        date_text(1970, 1, d + 1)
    }
}

proof fn lemma_days_before_year_bounded(y: int)
    requires
        y >= 1970,
    ensures
        0 <= days_before_year(y) <= 366 * (y - 1970),
    decreases y - 1970,
{
    if y > 1970 {
        lemma_days_before_year_bounded(y - 1);
    }
}

proof fn lemma_days_before_month_bounded(y: int, m: int)
    requires
        0 <= m <= 12,
    ensures
        0 <= days_before_month(y, m) <= 31 * m,
    decreases m,
{
    if m > 0 {
        lemma_days_before_month_bounded(y, m - 1);
    }
}

proof fn lemma_jdn_counts_days(y: int, m: int, d: int)
    requires
        y >= 1970,
        1 <= m <= 12,
    ensures
        jdn_days(y, m, d) == days_before_year(y) + days_before_month(y, m - 1) + d - 1,
{
    lemma_days_to_year(y);
    reveal_with_fuel(days_before_month, 12);
    let leap_day = if is_leap(y) && m > 2 { 1int } else { 0int };
    assert(days_before_month_of(m) + leap_day == days_before_month(y, m - 1));
    if m <= 2 {
        let yy = y + 4799;
        assert(trunc_div(14 - m, 12) == 1);
        assert(trunc_div(yy, 4) == (y - 1) / 4 + 1200);
        assert(trunc_div(yy, 100) == (y - 1) / 100 + 48);
        assert(trunc_div(yy, 400) == (y - 1) / 400 + 12);
        assert(trunc_div(y - 1969, 4) == (y - 1) / 4 - 492);
        assert(trunc_div(y - 1901, 100) == (y - 1) / 100 - 19);
        assert(trunc_div(y - 1601, 400) == (y - 1) / 400 - 4);
        assert(trunc_div(153 * (m + 9) + 2, 5) == if m == 1 { 306int } else { 337int });
    } else {
        let yy = y + 4800;
        assert(trunc_div(14 - m, 12) == 0);
        assert(trunc_div(yy, 4) == y / 4 + 1200);
        assert(trunc_div(yy, 100) == y / 100 + 48);
        assert(trunc_div(yy, 400) == y / 400 + 12);
        assert(trunc_div(y - 1969, 4) == (y - 1) / 4 - 492);
        assert(trunc_div(y - 1901, 100) == (y - 1) / 100 - 19);
        assert(trunc_div(y - 1601, 400) == (y - 1) / 400 - 4);
        assert(y / 4 == (y - 1) / 4 + (if y % 4 == 0 { 1int } else { 0int }));
        assert(y / 100 == (y - 1) / 100 + (if y % 100 == 0 { 1int } else { 0int }));
        assert(y / 400 == (y - 1) / 400 + (if y % 400 == 0 { 1int } else { 0int }));
        assert(y % 400 == 0 ==> y % 100 == 0);
        assert(y % 100 == 0 ==> y % 4 == 0);
        assert(trunc_div(153 * (m - 3) + 2, 5) == days_before_month_of(m) - 59);
    }
}

/// `ts_ms_to_date` inverts the day count of `days_from_epoch`: any time on
/// the day that `days_from_epoch` counts for a calendar date from 1970 to
/// 9999 is written as that date's "YYYYMMDD".
pub proof fn lemma_date_of_day_count(y: int, m: int, d: int, r: int)
    requires
        1970 <= y <= 9999,
        1 <= m <= 12,
        1 <= d <= month_len(y, m - 1),
        0 <= r < 86_400_000,
    ensures
        0 <= jdn_days(y, m, d) * 86_400_000 + r <= i64::MAX,
        expiry_text((jdn_days(y, m, d) * 86_400_000 + r) as i64) == date_text(y, m, d),
{
    lemma_jdn_counts_days(y, m, d);
    let n = jdn_days(y, m, d);
    lemma_days_before_year_bounded(y);
    lemma_days_before_month_bounded(y, m - 1);
    assert(0 <= n < 3_000_000);
    let ts = n * 86_400_000 + r;
    assert(0 <= ts < 3_000_000 * 86_400_000) by (nonlinear_arith)
        requires 0 <= n < 3_000_000, 0 <= r < 86_400_000, ts == n * 86_400_000 + r;
    assert(trunc_div(ts, 86_400_000) == n) by (nonlinear_arith)
        requires ts == n * 86_400_000 + r, 0 <= r < 86_400_000, n >= 0;
    assert(((ts as i64) as int) == ts);
    assert(day_number(ts as i64) == n);
    assert(is_civil_date(n, y, m - 1, d - 1));
    let (y2, m2, r2) = choose|y2: int, m2: int, r2: int| is_civil_date(n, y2, m2, r2);
    lemma_civil_date_unique(n, y, m - 1, d - 1, y2, m2, r2);
}

/// Converts a Unix timestamp in milliseconds to a "YYYYMMDD" string.
/// Days before 1970-01-01 are not counted back: they are written as
/// non-positive days of January 1970.
pub fn ts_ms_to_date(ts_ms: i64) -> (s: String)
    ensures
        s@ == expiry_text(ts_ms),
        day_number(ts_ms) >= 0 ==> exists|y: int, m: int, r: int|
            #[trigger] is_civil_date(day_number(ts_ms), y, m, r) && s@ == date_text(y, m + 1, r + 1),
        day_number(ts_ms) < 0 ==> s@ == date_text(1970, 1, day_number(ts_ms) + 1),
{
    let days: i32 = #[verifier::truncate] ((ts_ms / 86_400_000) as i32);
    let mut rem: i32 = days;
    let mut year: i32 = 1970;
    proof {
        lemma_days_before_year_grows(1970);
    }
    loop
        invariant_except_break
            year >= 1970,
            days >= 0 ==> rem >= 0 && rem as int == days as int - days_before_year(year as int),
            days < 0 ==> rem == days && year == 1970,
            days_before_year(year as int) >= 365 * (year - 1970),
            days_before_year(year as int) <= days as int || days < 0,
        ensures
            year >= 1970,
            days >= 0 ==> rem >= 0 && rem as int == days as int - days_before_year(year as int),
            days < 0 ==> rem == days && year == 1970,
            rem < year_len(year as int),
        decreases 2147483647 - year,
    {
        let leap = (year % 4 == 0 && year % 100 != 0) || year % 400 == 0;
        let days_in_year: i32 = if leap { 366 } else { 365 };
        assert(days_in_year == year_len(year as int));
        if rem < days_in_year {
            break;
        }
        rem = rem - days_in_year;
        year = year + 1;
        proof {
            lemma_days_before_year_grows(year as int);
        }
    }
    let leap = (year % 4 == 0 && year % 100 != 0) || year % 400 == 0;
    assert(leap == is_leap(year as int));
    let month_days: [i32; 12] = [31, if leap { 29 } else { 28 }, 31, 30, 31, 30, 31, 31, 30, 31, 30, 31];
    let mut month: usize = 0;
    proof {
        lemma_year_len_total(year as int);
    }
    while month < 12 && rem >= month_days[month]
        invariant
            month <= 12,
            forall|k: int| 0 <= k < 12 ==> month_days@[k] == month_len(year as int, k),
            days >= 0 ==> rem >= 0 && rem as int == days as int - days_before_year(year as int)
                - days_before_month(year as int, month as int),
            days < 0 ==> rem == days && month == 0,
            rem as int + days_before_month(year as int, month as int) < year_len(year as int) || days < 0,
            days_before_month(year as int, 12) == year_len(year as int),
        decreases 12 - month,
    {
        let md = month_days[month];
        assert(md == month_len(year as int, month as int));
        assert(md >= 28);
        rem = rem - md;
        month = month + 1;
    }
    assert(month < 12) by {
        if month == 12 && days >= 0 {
            assert(false);
        }
    }
    let mut v = i32_padded(year, 4);
    let m = i32_padded((month + 1) as i32, 2);
    let d = i32_padded(rem + 1, 2);
    let mut i: usize = 0;
    let ghost v0 = v@;
    while i < m.len()
        invariant
            i <= m.len(),
            v@ == v0 + m@.subrange(0, i as int),
        decreases m.len() - i,
    {
        v.push(m[i]);
        i = i + 1;
    }
    assert(m@.subrange(0, m.len() as int) =~= m@);
    let ghost v1 = v@;
    let mut k: usize = 0;
    while k < d.len()
        invariant
            k <= d.len(),
            v@ == v1 + d@.subrange(0, k as int),
        decreases d.len() - k,
    {
        v.push(d[k]);
        k = k + 1;
    }
    assert(d@.subrange(0, d.len() as int) =~= d@);
    assert(v@ =~= date_text(year as int, month + 1, rem + 1));
    proof {
        if days >= 0 {
            assert(is_civil_date(days as int, year as int, month as int, rem as int));
            let (y, m, r) = choose|y: int, m: int, r: int| is_civil_date(days as int, y, m, r);
            lemma_civil_date_unique(days as int, year as int, month as int, rem as int, y, m, r);
        }
    }
    crate::text::string_from_chars(v.as_slice())
}

/// Expiries after this time (about the year 2100) mark a perpetual.
pub const FAR_FUTURE_MS: i64 = 4_102_444_800_000;

/// The canonical kind of an instrument: a future without an expiry, with
/// expiry 0 or with one beyond `FAR_FUTURE_MS` is a perpetual, and a kind
/// not known is a future.
pub open spec fn canonical_kind_of(kind: Seq<char>, expiration: Option<i64>) -> Seq<char> {
    if kind == "spot"@ {
        "spot"@
    } else if kind == "option"@ {
        "option"@
    } else if kind == "perpetual"@ {
        "perpetual"@
    } else if kind == "future"@ {
        match expiration {
            None => "perpetual"@,
            Some(ts) => if ts == 0 || ts > FAR_FUTURE_MS { "perpetual"@ } else { "future"@ },
        }
    } else {
        "future"@
    }
}

/// The canonical kind of an instrument of kind `kind` expiring at
/// `expiration_timestamp` (milliseconds).
pub fn canonical_kind(kind: &str, expiration_timestamp: Option<i64>) -> (r: &'static str)
    ensures
        r@ == canonical_kind_of(kind@, expiration_timestamp),
{
    if str_eq(kind, "spot") {
        "spot"
    } else if str_eq(kind, "option") {
        "option"
    } else if str_eq(kind, "perpetual") {
        "perpetual"
    } else if str_eq(kind, "future") {
        match expiration_timestamp {
            None => "perpetual",
            Some(ts) => if ts == 0 || ts > FAR_FUTURE_MS { "perpetual" } else { "future" },
        }
    } else {
        "future"
    }
}

/// The option type an uppercased text names: `C` for `C` or `CALL`, `P` for
/// `P` or `PUT`.
pub open spec fn option_type_of(upper: Seq<char>) -> Option<Seq<char>> {
    if upper == "C"@ || upper == "CALL"@ {
        Some("C"@)
    } else if upper == "P"@ || upper == "PUT"@ {
        Some("P"@)
    } else {
        None
    }
}

/// Calls are written `C` or `CALL` and puts `P` or `PUT`, in any ASCII
/// case: those name the option types `C` and `P`, and no other text names
/// one.
pub proof fn lemma_option_type_names(s: Seq<char>)
    ensures
        (ascii_upper(s) == "C"@ || ascii_upper(s) == "CALL"@) ==> option_type_of(ascii_upper(s)) == Some("C"@),
        (ascii_upper(s) == "P"@ || ascii_upper(s) == "PUT"@) ==> option_type_of(ascii_upper(s)) == Some("P"@),
        ascii_upper(s) != "C"@ && ascii_upper(s) != "CALL"@ && ascii_upper(s) != "P"@ && ascii_upper(s) != "PUT"@
            ==> option_type_of(ascii_upper(s)) is None,
{
    reveal_strlit("C");
    reveal_strlit("CALL");
    reveal_strlit("P");
    reveal_strlit("PUT");
    assert("C"@[0] != "P"@[0]);
    assert("C"@.len() != "PUT"@.len());
    assert("CALL"@.len() != "P"@.len());
    assert("CALL"@.len() != "PUT"@.len());
}

/// The option type (`C` or `P`) a text names, compared without regard to case.
pub fn norm_option_type(s: &str) -> (r: Option<String>)
    ensures
        r matches Some(t) ==> option_type_of(unicode_uppercase(s@)) == Some(t@),
        r is None ==> option_type_of(unicode_uppercase(s@)) is None,
        all_ascii(s@) ==> option_type_of(unicode_uppercase(s@)) == option_type_of(ascii_upper(s@)),
        all_ascii(s@) && (ascii_upper(s@) == "C"@ || ascii_upper(s@) == "CALL"@) ==> (r matches Some(t)
            && t@ == "C"@),
        all_ascii(s@) && (ascii_upper(s@) == "P"@ || ascii_upper(s@) == "PUT"@) ==> (r matches Some(t)
            && t@ == "P"@),
        all_ascii(s@) && ascii_upper(s@) != "C"@ && ascii_upper(s@) != "CALL"@ && ascii_upper(s@) != "P"@
            && ascii_upper(s@) != "PUT"@ ==> r is None,
{
    proof {
        lemma_option_type_names(s@);
    }
    let u = to_uppercase(s);
    let t = u.as_str();
    if str_eq(t, "C") || str_eq(t, "CALL") {
        Some(string_from_chars(chars_of("C").as_slice()))
    } else if str_eq(t, "P") || str_eq(t, "PUT") {
        Some(string_from_chars(chars_of("P").as_slice()))
    } else {
        None
    }
}

/// The canonical symbol of an instrument from its uppercased parts:
/// `BASE-QUOTE` for spot, `BASE-QUOTE-PERPETUAL` for a perpetual (and a
/// future without expiry), `BASE-QUOTE-EXPIRY` for a future,
/// `BASE-QUOTE-STRIKE-EXPIRY-TYPE` for an option (expiry `00000000` and
/// type `C` where missing), and the base alone for anything else.
pub open spec fn symbol_of(
    kind: Seq<char>,
    base: Seq<char>,
    quote: Seq<char>,
    strike_text: Seq<char>,
    expiry: Option<Seq<char>>,
    option_type: Option<Seq<char>>,
) -> Seq<char> {
    let b = unicode_uppercase(base);
    let q = unicode_uppercase(quote);
    if kind == "spot"@ {
        b + "-"@ + q
    } else if kind == "perpetual"@ {
        b + "-"@ + q + "-PERPETUAL"@
    } else if kind == "future"@ {
        match expiry {
            Some(e) => b + "-"@ + q + "-"@ + e,
            None => b + "-"@ + q + "-PERPETUAL"@,
        }
    } else if kind == "option"@ {
        let e = match expiry {
            Some(e) => e,
            None => "00000000"@,
        };
        let o = unicode_uppercase(
            match option_type {
                Some(o) => o,
                None => "C"@,
            },
        );
        b + "-"@ + q + "-"@ + strike_text + "-"@ + e + "-"@ + o
    } else {
        b
    }
}

/// Builds a canonical symbol; `strike_text` is the strike as written in
/// the symbol.
pub fn build_symbol(
    kind: &str,
    base: &str,
    quote: &str,
    strike_text: &str,
    expiry: Option<&str>,
    option_type: Option<&str>,
) -> (r: String)
    ensures
        r@ == symbol_of(
            kind@,
            base@,
            quote@,
            strike_text@,
            match expiry {
                Some(e) => Some(e@),
                None => None,
            },
            match option_type {
                Some(o) => Some(o@),
                None => None,
            },
        ),
{
    let b = to_uppercase(base);
    let q = to_uppercase(quote);
    let mut v: Vec<char> = Vec::new();
    append_str(&mut v, b.as_str());
    if str_eq(kind, "spot") {
        append_str(&mut v, "-");
        append_str(&mut v, q.as_str());
    } else if str_eq(kind, "perpetual") {
        append_str(&mut v, "-");
        append_str(&mut v, q.as_str());
        append_str(&mut v, "-PERPETUAL");
    } else if str_eq(kind, "future") {
        append_str(&mut v, "-");
        append_str(&mut v, q.as_str());
        match expiry {
            Some(e) => {
                append_str(&mut v, "-");
                append_str(&mut v, e);
            },
            None => {
                append_str(&mut v, "-PERPETUAL");
            },
        }
    } else if str_eq(kind, "option") {
        let e = match expiry {
            Some(e) => e,
            None => "00000000",
        };
        let o = match option_type {
            Some(o) => to_uppercase(o),
            None => to_uppercase("C"),
        };
        append_str(&mut v, "-");
        append_str(&mut v, q.as_str());
        append_str(&mut v, "-");
        append_str(&mut v, strike_text);
        append_str(&mut v, "-");
        append_str(&mut v, e);
        append_str(&mut v, "-");
        append_str(&mut v, o.as_str());
    }
    string_from_chars(v.as_slice())
}

/// The canonical names of an instrument: symbol, kind, base, quote, expiry
/// date and option type.
pub struct CanonicalNames {
    pub symbol: String,
    pub kind: &'static str,
    pub base: String,
    pub quote: String,
    pub expiry: Option<String>,
    pub option_type: Option<String>,
}

/// The canonical names of an exchange's instrument: its canonical kind;
/// the expiry date of a future or option; the option type; the uppercased
/// base and quote; and the symbol built from them (`strike_text` is the
/// strike as the symbol writes it).
pub fn canonical_names(
    kind: &str,
    expiration_timestamp: Option<i64>,
    option_type: Option<&str>,
    base_currency: &str,
    quote_currency: &str,
    strike_text: &str,
) -> (r: CanonicalNames)
    ensures
        r.kind@ == canonical_kind_of(kind@, expiration_timestamp),
        (r.kind@ == "future"@ || r.kind@ == "option"@) && expiration_timestamp is Some
            <==> r.expiry is Some,
        r.expiry matches Some(e) ==> e@ == expiry_text(expiration_timestamp->0),
        r.option_type matches Some(t) ==> option_type matches Some(o) && option_type_of(
            unicode_uppercase(o@),
        ) == Some(t@),
        r.option_type is None ==> (option_type matches Some(o) ==> option_type_of(unicode_uppercase(o@)) is None),
        r.base@ == unicode_uppercase(base_currency@),
        r.quote@ == unicode_uppercase(quote_currency@),
        r.symbol@ == symbol_of(
            r.kind@,
            r.base@,
            r.quote@,
            strike_text@,
            match r.expiry {
                Some(e) => Some(e@),
                None => None,
            },
            match r.option_type {
                Some(o) => Some(o@),
                None => None,
            },
        ),
{
    let k = canonical_kind(kind, expiration_timestamp);
    let expiry: Option<String> = if str_eq(k, "future") || str_eq(k, "option") {
        match expiration_timestamp {
            Some(ts) => Some(ts_ms_to_date(ts)),
            None => None,
        }
    } else {
        None
    };
    let opt: Option<String> = match option_type {
        Some(o) => norm_option_type(o),
        None => None,
    };
    let base = to_uppercase(base_currency);
    let quote = to_uppercase(quote_currency);
    let symbol = build_symbol(
        k,
        base.as_str(),
        quote.as_str(),
        strike_text,
        match &expiry {
            Some(e) => Some(e.as_str()),
            None => None,
        },
        match &opt {
            Some(o) => Some(o.as_str()),
            None => None,
        },
    );
    CanonicalNames { symbol, kind: k, base, quote, expiry, option_type: opt }
}

} // verus!
