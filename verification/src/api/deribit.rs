//! Deribit: REST endpoint and the reading of ledger entries.

use vstd::prelude::*;
use crate::text::{replace_text, replaced};

verus! {

/// The REST base URL.
pub fn base_url(testnet: bool) -> (r: &'static str)
    ensures
        r@ == if testnet { "https://test.deribit.com/api/v2"@ } else { "https://www.deribit.com/api/v2"@ },
{
    if testnet { "https://test.deribit.com/api/v2" } else { "https://www.deribit.com/api/v2" }
}


/// A ledger time as milliseconds: a positive value below 10^10 is taken
/// for seconds and multiplied up; any other is already milliseconds.
pub open spec fn ms_of_raw(raw: int) -> int {
    if 0 < raw && raw < 10_000_000_000 { raw * 1000 } else { raw }
}

/// Reads a ledger time as milliseconds.
pub fn ledger_ms(raw: i64) -> (r: i64)
    ensures
        r == ms_of_raw(raw as int),
{
    if raw > 0 && raw < 10_000_000_000 { raw * 1000 } else { raw }
}

/// The time of a ledger entry: its `date`, or its `timestamp` where the
/// date reads as 0.
pub fn entry_ms(date_raw: i64, timestamp_raw: i64) -> (r: i64)
    ensures
        r == (if ms_of_raw(date_raw as int) != 0 { ms_of_raw(date_raw as int) } else { ms_of_raw(timestamp_raw as int) }),
{
    let candidate = ledger_ms(date_raw);
    if candidate != 0 { candidate } else { ledger_ms(timestamp_raw) }
}

/// The canonical type of a ledger entry: `transfer_from` reads as
/// `transfer_in` and `transfer_to` as `transfer_out`, wherever they occur.
pub open spec fn ledger_type_of(raw: Seq<char>) -> Seq<char> {
    replaced(replaced(raw, "transfer_from"@, "transfer_in"@), "transfer_to"@, "transfer_out"@)
}

/// Maps a Deribit ledger type to the canonical one.
pub fn ledger_type(raw: &str) -> (r: String)
    ensures
        r@ == ledger_type_of(raw@),
{
    proof {
        reveal_strlit("transfer_from");
        reveal_strlit("transfer_to");
    }
    let first = replace_text(raw, "transfer_from", "transfer_in");
    replace_text(first.as_str(), "transfer_to", "transfer_out")
}

} // verus!
