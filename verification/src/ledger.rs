//! Transaction ledgers across venues: which venues serve one and how, and
//! the order in which the entries of a merged ledger are listed.

use vstd::prelude::*;
use crate::text::{append_str, chars_of, str_eq, string_from_chars};

verus! {

/// How the ledger of a venue is gathered.
#[derive(Debug, Clone, Copy, PartialEq, Eq, Structural)]
pub enum LedgerSource {
    /// One request series per currency, merged.
    DeribitPerCurrency,
    Bybit,
    Coincall,
    Bullish,
}

/// The ledger source of a venue, where it has one.
pub open spec fn ledger_source_of(exchange: Seq<char>) -> Option<LedgerSource> {
    if exchange == "deribit"@ {
        Some(LedgerSource::DeribitPerCurrency)
    } else if exchange == "bybit"@ {
        Some(LedgerSource::Bybit)
    } else if exchange == "coincall"@ {
        Some(LedgerSource::Coincall)
    } else if exchange == "bullish"@ {
        Some(LedgerSource::Bullish)
    } else {
        None
    }
}

/// Chooses how the ledger of a venue is gathered; other venues are refused.
pub fn ledger_source(exchange: &str) -> (r: Result<LedgerSource, String>)
    ensures
        match r {
            Ok(s) => ledger_source_of(exchange@) == Some(s),
            Err(e) => ledger_source_of(exchange@) is None
                && e@ == "get_transaction_log not supported for "@ + exchange@,
        },
{
    if str_eq(exchange, "deribit") {
        Ok(LedgerSource::DeribitPerCurrency)
    } else if str_eq(exchange, "bybit") {
        Ok(LedgerSource::Bybit)
    } else if str_eq(exchange, "coincall") {
        Ok(LedgerSource::Coincall)
    } else if str_eq(exchange, "bullish") {
        Ok(LedgerSource::Bullish)
    } else {
        let mut v: Vec<char> = chars_of("get_transaction_log not supported for ");
        append_str(&mut v, exchange);
        Err(string_from_chars(v.as_slice()))
    }
}

/// The currencies whose Deribit ledgers are merged, in the order fetched.
pub open spec fn deribit_currencies() -> Seq<Seq<char>> {
    seq![
        "BTC"@, "ETH"@, "SOL"@, "USDC"@, "USDT"@, "USED"@, "STETH"@, "BUIDL"@, "BNB"@, "PAXG"@, "USYC"@,
    ]
}

/// The currencies whose Deribit ledgers are merged.
pub fn deribit_ledger_currencies() -> (r: Vec<&'static str>)
    ensures
        r@.map_values(|c: &'static str| c@) == deribit_currencies(),
{
    let r = vec!["BTC", "ETH", "SOL", "USDC", "USDT", "USED", "STETH", "BUIDL", "BNB", "PAXG", "USYC"];
    assert(r@.map_values(|c: &'static str| c@) =~= deribit_currencies());
    r
}

/// Whether entry `i` is listed before entry `j`: it is newer, or as new
/// and earlier in the order received.
pub open spec fn listed_before(ts: Seq<i64>, i: int, j: int) -> bool {
    ts[i] > ts[j] || (ts[i] == ts[j] && i < j)
}

/// Whether `p` lists each entry exactly once, newest first, entries of the
/// same time in the order received (a stable sort by time, descending).
pub open spec fn is_newest_first(p: Seq<usize>, ts: Seq<i64>) -> bool {
    &&& p.len() == ts.len()
    &&& forall|i: int| 0 <= i < p.len() ==> (#[trigger] p[i]) < ts.len()
    &&& forall|x: usize| x < ts.len() ==> #[trigger] p.contains(x)
    &&& forall|i: int, j: int| 0 <= i < j < p.len() ==> listed_before(ts, #[trigger] p[i] as int, #[trigger] p[j] as int)
}

/// The order in which ledger entries with the times `ts` are listed.
pub fn newest_first(ts: &Vec<i64>) -> (p: Vec<usize>)
    ensures
        is_newest_first(p@, ts@),
{
    let mut p: Vec<usize> = Vec::new();
    let mut i: usize = 0;
    while i < ts.len()
        invariant
            i <= ts@.len(),
            p@.len() == i,
            forall|a: int| 0 <= a < p@.len() ==> (#[trigger] p@[a]) < i,
            forall|x: usize| x < i ==> #[trigger] p@.contains(x),
            forall|a: int, b: int| 0 <= a < b < p@.len() ==> listed_before(ts@, #[trigger] p@[a] as int, #[trigger] p@[b] as int),
        decreases ts.len() - i,
    {
        // The new entry goes after every entry at least as new as it.
        let mut pos: usize = p.len();
        while pos > 0 && ts[i] > ts[p[pos - 1]]
            invariant
                pos <= p@.len(),
                i < ts@.len(),
                forall|a: int| 0 <= a < p@.len() ==> (#[trigger] p@[a]) < i,
                forall|a: int| pos <= a < p@.len() ==> ts@[i as int] > ts@[#[trigger] p@[a] as int],
            decreases pos,
        {
            pos = pos - 1;
        }
        proof {
            assert forall|a: int| 0 <= a < pos implies listed_before(ts@, #[trigger] p@[a] as int, i as int) by {
                let last = pos - 1;
                if a < last {
                    assert(listed_before(ts@, p@[a] as int, p@[last] as int));
                }
            }
        }
        let ghost old_p = p@;
        p.insert(pos, i);
        proof {
            assert(p@ =~= old_p.insert(pos as int, i));
            assert forall|a: int, b: int| 0 <= a < b < p@.len() implies listed_before(ts@, #[trigger] p@[a] as int, #[trigger] p@[b] as int) by {
                if a < pos && b < pos {
                    assert(p@[a] == old_p[a] && p@[b] == old_p[b]);
                } else if a < pos && b == pos {
                } else if a < pos {
                    assert(p@[a] == old_p[a] && p@[b] == old_p[b - 1]);
                } else if a == pos {
                    assert(p@[b] == old_p[b - 1]);
                } else {
                    assert(p@[a] == old_p[a - 1] && p@[b] == old_p[b - 1]);
                }
            }
            assert forall|x: usize| x < i + 1 implies #[trigger] p@.contains(x) by {
                if x == i {
                    assert(p@[pos as int] == x);
                } else {
                    assert(old_p.contains(x));
                    let a = choose|a: int| 0 <= a < old_p.len() && old_p[a] == x;
                    if a < pos {
                        assert(p@[a] == x);
                    } else {
                        assert(p@[a + 1] == x);
                    }
                }
            }
        }
        i = i + 1;
    }
    p
}

/// Whether `p` lists each entry whose time lies in `[start, end]` exactly
/// once and no other, newest first, entries of the same time in the order
/// received.
pub open spec fn is_window_listing(p: Seq<usize>, ts: Seq<i64>, start: i64, end: i64) -> bool {
    &&& forall|i: int| 0 <= i < p.len() ==> (#[trigger] p[i]) < ts.len() && start <= ts[p[i] as int] <= end
    &&& forall|x: usize| x < ts.len() && start <= ts[x as int] <= end ==> #[trigger] p.contains(x)
    &&& forall|i: int, j: int| 0 <= i < j < p.len() ==> listed_before(ts, #[trigger] p[i] as int, #[trigger] p[j] as int)
}

/// The rows of a ledger window: those whose time lies in `[start, end]`,
/// newest first (the rows outside it are dropped).
pub fn window_listing(ts: &Vec<i64>, start: i64, end: i64) -> (p: Vec<usize>)
    ensures
        is_window_listing(p@, ts@, start, end),
        p@.no_duplicates(),
{
    let mut p: Vec<usize> = Vec::new();
    let mut i: usize = 0;
    while i < ts.len()
        invariant
            i <= ts@.len(),
            forall|a: int| 0 <= a < p@.len() ==> (#[trigger] p@[a]) < i && start <= ts@[p@[a] as int] <= end,
            forall|x: usize| x < i && start <= ts@[x as int] <= end ==> #[trigger] p@.contains(x),
            forall|a: int, b: int| 0 <= a < b < p@.len() ==> listed_before(ts@, #[trigger] p@[a] as int, #[trigger] p@[b] as int),
        decreases ts.len() - i,
    {
        if start <= ts[i] && ts[i] <= end {
            let mut pos: usize = p.len();
            while pos > 0 && ts[i] > ts[p[pos - 1]]
                invariant
                    pos <= p@.len(),
                    i < ts@.len(),
                    forall|a: int| 0 <= a < p@.len() ==> (#[trigger] p@[a]) < i,
                    forall|a: int| pos <= a < p@.len() ==> ts@[i as int] > ts@[#[trigger] p@[a] as int],
                decreases pos,
            {
                pos = pos - 1;
            }
            proof {
                assert forall|a: int| 0 <= a < pos implies listed_before(ts@, #[trigger] p@[a] as int, i as int) by {
                    let last = pos - 1;
                    if a < last {
                        assert(listed_before(ts@, p@[a] as int, p@[last] as int));
                    }
                }
            }
            let ghost old_p = p@;
            p.insert(pos, i);
            proof {
                assert(p@ =~= old_p.insert(pos as int, i));
                assert forall|a: int, b: int| 0 <= a < b < p@.len() implies listed_before(ts@, #[trigger] p@[a] as int, #[trigger] p@[b] as int) by {
                    if a < pos && b < pos {
                        assert(p@[a] == old_p[a] && p@[b] == old_p[b]);
                    } else if a < pos && b == pos {
                    } else if a < pos {
                        assert(p@[a] == old_p[a] && p@[b] == old_p[b - 1]);
                    } else if a == pos {
                        assert(p@[b] == old_p[b - 1]);
                    } else {
                        assert(p@[a] == old_p[a - 1] && p@[b] == old_p[b - 1]);
                    }
                }
                assert forall|a: int| 0 <= a < p@.len() implies (#[trigger] p@[a]) < i + 1 && start <= ts@[p@[a] as int] <= end by {
                    if a < pos {
                        assert(p@[a] == old_p[a]);
                    } else if a > pos {
                        assert(p@[a] == old_p[a - 1]);
                    }
                }
                assert forall|x: usize| x < i + 1 && start <= ts@[x as int] <= end implies #[trigger] p@.contains(x) by {
                    if x == i {
                        assert(p@[pos as int] == x);
                    } else {
                        assert(old_p.contains(x));
                        let a = choose|a: int| 0 <= a < old_p.len() && old_p[a] == x;
                        if a < pos {
                            assert(p@[a] == x);
                        } else {
                            assert(p@[a + 1] == x);
                        }
                    }
                }
            }
        }
        i = i + 1;
    }
    proof {
        assert forall|a: int, b: int| 0 <= a < p@.len() && 0 <= b < p@.len() && a != b implies p@[a] != p@[b] by {
            if a < b {
                assert(listed_before(ts@, p@[a] as int, p@[b] as int));
            } else {
                assert(listed_before(ts@, p@[b] as int, p@[a] as int));
            }
        }
    }
    p
}

proof fn lemma_listed_orders_equal(p1: Seq<usize>, p2: Seq<usize>, ts: Seq<i64>)
    requires
        p1.len() == p2.len(),
        forall|i: int, j: int| 0 <= i < j < p1.len() ==> listed_before(ts, #[trigger] p1[i] as int, #[trigger] p1[j] as int),
        forall|i: int, j: int| 0 <= i < j < p2.len() ==> listed_before(ts, #[trigger] p2[i] as int, #[trigger] p2[j] as int),
        forall|x: usize| p1.contains(x) <==> p2.contains(x),
    ensures
        p1 == p2,
    decreases p1.len(),
{
    if p1.len() == 0 {
        assert(p1 =~= p2);
    } else {
        let x = p1[0];
        let y = p2[0];
        assert(p1.contains(x));
        assert(p2.contains(y));
        if x != y {
            let j = choose|j: int| 0 <= j < p2.len() && p2[j] == x;
            let k = choose|k: int| 0 <= k < p1.len() && p1[k] == y;
            assert(listed_before(ts, y as int, x as int));
            assert(listed_before(ts, x as int, y as int));
        }
        let t1 = p1.drop_first();
        let t2 = p2.drop_first();
        assert forall|z: usize| t1.contains(z) implies t2.contains(z) by {
            let a = choose|a: int| 0 <= a < t1.len() && t1[a] == z;
            assert(p1[a + 1] == z);
            assert(listed_before(ts, x as int, z as int));
            assert(p2.contains(z));
            let b = choose|b: int| 0 <= b < p2.len() && p2[b] == z;
            assert(b != 0);
            assert(t2[b - 1] == z);
        }
        assert forall|z: usize| t2.contains(z) implies t1.contains(z) by {
            let a = choose|a: int| 0 <= a < t2.len() && t2[a] == z;
            assert(p2[a + 1] == z);
            assert(listed_before(ts, y as int, z as int));
            assert(p1.contains(z));
            let b = choose|b: int| 0 <= b < p1.len() && p1[b] == z;
            assert(b != 0);
            assert(t1[b - 1] == z);
        }
        assert forall|i: int, j: int| 0 <= i < j < t1.len() implies listed_before(ts, #[trigger] t1[i] as int, #[trigger] t1[j] as int) by {
            assert(listed_before(ts, p1[i + 1] as int, p1[j + 1] as int));
        }
        assert forall|i: int, j: int| 0 <= i < j < t2.len() implies listed_before(ts, #[trigger] t2[i] as int, #[trigger] t2[j] as int) by {
            assert(listed_before(ts, p2[i + 1] as int, p2[j + 1] as int));
        }
        lemma_listed_orders_equal(t1, t2, ts);
        assert(p1 =~= seq![x] + t1);
        assert(p2 =~= seq![y] + t2);
    }
}

/// The listing order of a ledger is determined by its entries' times:
/// two lists that both meet `is_newest_first` are the same.
pub proof fn lemma_newest_first_unique(p1: Seq<usize>, p2: Seq<usize>, ts: Seq<i64>)
    requires
        is_newest_first(p1, ts),
        is_newest_first(p2, ts),
    ensures
        p1 == p2,
{
    assert forall|x: usize| p1.contains(x) implies p2.contains(x) by {
        let i = choose|i: int| 0 <= i < p1.len() && p1[i] == x;
        assert(p1[i] < ts.len());
    }
    assert forall|x: usize| p2.contains(x) implies p1.contains(x) by {
        let i = choose|i: int| 0 <= i < p2.len() && p2[i] == x;
        assert(p2[i] < ts.len());
    }
    lemma_listed_orders_equal(p1, p2, ts);
}

/// The cursor of the next page of a ledger window: the one a page gives,
/// unless the page came back empty; `None` ends the paging.
pub fn next_window_cursor(next: Option<i64>, page_empty: bool) -> (r: Option<i64>)
    ensures
        r == if page_empty { None } else { next },
{
    if page_empty { None } else { next }
}

} // verus!
