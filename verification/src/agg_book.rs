//! Aggregated order book: which instruments feed a configured book, and
//! which exchanges stream public books.

use vstd::prelude::*;
use crate::tasks::{key_view, TaskTable};
use crate::book::{ascending_listing, first_n, is_ascending_listing, lemma_ascending_listing_unique};
use crate::text::{
    all_ascii, ascii_upper, chars_contain, chars_of, str_eq, to_uppercase, unicode_uppercase,
    contains_text,
};

verus! {

/// Whether an uppercased currency code is a stablecoin.
pub open spec fn is_stable_code(upper: Seq<char>) -> bool {
    upper == "USDT"@ || upper == "USDC"@ || upper == "USD"@ || upper == "BUSD"@ || upper == "USDS"@
        || upper == "DAI"@
}

/// Whether a currency is a stablecoin, compared without regard to case.
pub fn is_stablecoin(currency: &str) -> (r: bool)
    ensures
        r == is_stable_code(unicode_uppercase(currency@)),
        all_ascii(currency@) ==> r == is_stable_code(ascii_upper(currency@)),
{
    let u = to_uppercase(currency);
    let s = u.as_str();
    str_eq(s, "USDT") || str_eq(s, "USDC") || str_eq(s, "USD") || str_eq(s, "BUSD") || str_eq(s, "USDS")
        || str_eq(s, "DAI")
}

/// What instrument matching reads of an instrument.
#[derive(Debug, Clone)]
pub struct InstrumentTraits {
    pub instrument_name: String,
    pub kind: String,
    pub base_currency: String,
    pub settlement_currency: String,
    pub is_active: bool,
    pub expiration_timestamp: Option<i64>,
}

/// Whether an instrument is a perpetual: kind "perpetual", a "future"
/// without expiry, or a name containing "PERPETUAL" (uppercased).
pub open spec fn is_perpetual(inst: InstrumentTraits) -> bool {
    inst.kind@ == "perpetual"@ || (inst.kind@ == "future"@ && inst.expiration_timestamp is None)
        || contains_text(unicode_uppercase(inst.instrument_name@), "PERPETUAL"@)
}

/// Whether an instrument feeds a book configured for `base_symbol` and
/// `instrument_kind` ("perpetual_linear", "perpetual_inverse", "future",
/// "spot" or "option").
pub open spec fn matches_config(inst: InstrumentTraits, base_symbol: Seq<char>, instrument_kind: Seq<char>) -> bool {
    &&& unicode_uppercase(inst.base_currency@) == unicode_uppercase(base_symbol)
    &&& inst.is_active
    &&& if instrument_kind == "perpetual_linear"@ {
        is_perpetual(inst) && is_stable_code(unicode_uppercase(inst.settlement_currency@))
    } else if instrument_kind == "perpetual_inverse"@ {
        is_perpetual(inst) && !is_stable_code(unicode_uppercase(inst.settlement_currency@))
    } else if instrument_kind == "future"@ {
        inst.kind@ == "future"@ && inst.expiration_timestamp is Some
    } else if instrument_kind == "spot"@ {
        inst.kind@ == "spot"@
    } else if instrument_kind == "option"@ {
        inst.kind@ == "option"@
    } else {
        false
    }
}

/// Whether an instrument belongs to an aggregated book with the given base
/// symbol and instrument kind.
pub fn is_matching_instrument(inst: &InstrumentTraits, base_symbol: &str, instrument_kind: &str) -> (r: bool)
    ensures
        r == matches_config(*inst, base_symbol@, instrument_kind@),
        inst.kind@ == "perpetual"@ && inst.is_active && unicode_uppercase(inst.base_currency@) == unicode_uppercase(
            base_symbol@,
        ) && instrument_kind@ == "perpetual_linear"@ ==> r == is_stable_code(
            unicode_uppercase(inst.settlement_currency@),
        ),
        inst.kind@ == "perpetual"@ && inst.is_active && unicode_uppercase(inst.base_currency@) == unicode_uppercase(
            base_symbol@,
        ) && instrument_kind@ == "perpetual_inverse"@ ==> r == !is_stable_code(
            unicode_uppercase(inst.settlement_currency@),
        ),
{
    proof {
        if inst.kind@ == "perpetual"@ && inst.is_active && unicode_uppercase(inst.base_currency@)
            == unicode_uppercase(base_symbol@) {
            lemma_perpetual_kind_feeds_perpetual_books(*inst, base_symbol@);
        }
    }
    let a = to_uppercase(inst.base_currency.as_str());
    let b = to_uppercase(base_symbol);
    if !str_eq(a.as_str(), b.as_str()) {
        return false;
    }
    if !inst.is_active {
        return false;
    }
    let name_upper = to_uppercase(inst.instrument_name.as_str());
    let name_chars = chars_of(name_upper.as_str());
    let needle = chars_of("PERPETUAL");
    let is_perp = str_eq(inst.kind.as_str(), "perpetual") || (str_eq(inst.kind.as_str(), "future")
        && inst.expiration_timestamp.is_none()) || chars_contain(name_chars.as_slice(), needle.as_slice());
    if str_eq(instrument_kind, "perpetual_linear") {
        is_perp && is_stablecoin(inst.settlement_currency.as_str())
    } else if str_eq(instrument_kind, "perpetual_inverse") {
        is_perp && !is_stablecoin(inst.settlement_currency.as_str())
    } else if str_eq(instrument_kind, "future") {
        str_eq(inst.kind.as_str(), "future") && inst.expiration_timestamp.is_some()
    } else if str_eq(instrument_kind, "spot") {
        str_eq(inst.kind.as_str(), "spot")
    } else if str_eq(instrument_kind, "option") {
        str_eq(inst.kind.as_str(), "option")
    } else {
        false
    }
}

/// An active instrument of kind `perpetual` whose base is the book's base
/// is a perpetual: it feeds the linear-perpetual book exactly when it
/// settles in a stablecoin, and the inverse-perpetual book exactly when it
/// does not; it feeds no dated-future, spot or option book.
pub proof fn lemma_perpetual_kind_feeds_perpetual_books(inst: InstrumentTraits, base_symbol: Seq<char>)
    requires
        inst.kind@ == "perpetual"@,
        inst.is_active,
        unicode_uppercase(inst.base_currency@) == unicode_uppercase(base_symbol),
    ensures
        matches_config(inst, base_symbol, "perpetual_linear"@) == is_stable_code(
            unicode_uppercase(inst.settlement_currency@),
        ),
        matches_config(inst, base_symbol, "perpetual_inverse"@) == !is_stable_code(
            unicode_uppercase(inst.settlement_currency@),
        ),
        !matches_config(inst, base_symbol, "future"@),
        !matches_config(inst, base_symbol, "spot"@),
        !matches_config(inst, base_symbol, "option"@),
{
    reveal_strlit("perpetual");
    reveal_strlit("perpetual_linear");
    reveal_strlit("perpetual_inverse");
    reveal_strlit("future");
    reveal_strlit("spot");
    reveal_strlit("option");
    assert("perpetual"@[0] != "future"@[0]);
    assert("perpetual"@[0] != "spot"@[0]);
    assert("perpetual"@[0] != "option"@[0]);
    assert("perpetual_inverse"@[10] != "perpetual_linear"@[10]);
    assert("future"@.len() != "perpetual_linear"@.len());
    assert("future"@.len() != "perpetual_inverse"@.len());
    assert("spot"@.len() != "perpetual_linear"@.len());
    assert("spot"@.len() != "perpetual_inverse"@.len());
    assert("spot"@[0] != "future"@[0]);
    assert("option"@.len() != "perpetual_linear"@.len());
    assert("option"@.len() != "perpetual_inverse"@.len());
    assert("option"@[0] != "future"@[0]);
    assert("option"@[0] != "spot"@[0]);
}

/// Perpetuals are told three ways: kind `perpetual`, a `future` without
/// expiry, or a name holding `PERPETUAL` in any case (such as Deribit's
/// `BTC-PERPETUAL`, listed with a far expiry). An active one whose base is
/// the book's feeds the linear-perpetual book exactly when it settles in a
/// stablecoin, and the inverse one exactly when it does not.
pub proof fn lemma_perpetuals_feed_perpetual_books(inst: InstrumentTraits, base_symbol: Seq<char>)
    requires
        (inst.kind@ == "future"@ && inst.expiration_timestamp is None) || inst.kind@ == "perpetual"@
            || contains_text(unicode_uppercase(inst.instrument_name@), "PERPETUAL"@),
        inst.is_active,
        unicode_uppercase(inst.base_currency@) == unicode_uppercase(base_symbol),
    ensures
        matches_config(inst, base_symbol, "perpetual_linear"@) == is_stable_code(
            unicode_uppercase(inst.settlement_currency@),
        ),
        matches_config(inst, base_symbol, "perpetual_inverse"@) == !is_stable_code(
            unicode_uppercase(inst.settlement_currency@),
        ),
{
    reveal_strlit("perpetual_linear");
    reveal_strlit("perpetual_inverse");
    assert("perpetual_inverse"@[10] != "perpetual_linear"@[10]);
}

/// An active instrument whose base is the book's feeds the dated-futures
/// book exactly when it is a `future` with an expiry, the spot book exactly
/// when its kind is `spot`, and the options book exactly when its kind is
/// `option`; a book of any other kind takes no instrument.
pub proof fn lemma_dated_spot_option_books(inst: InstrumentTraits, base_symbol: Seq<char>, kind: Seq<char>)
    requires
        inst.is_active,
        unicode_uppercase(inst.base_currency@) == unicode_uppercase(base_symbol),
    ensures
        matches_config(inst, base_symbol, "future"@) == (inst.kind@ == "future"@ && inst.expiration_timestamp is Some),
        matches_config(inst, base_symbol, "spot"@) == (inst.kind@ == "spot"@),
        matches_config(inst, base_symbol, "option"@) == (inst.kind@ == "option"@),
        kind != "perpetual_linear"@ && kind != "perpetual_inverse"@ && kind != "future"@ && kind != "spot"@ && kind
            != "option"@ ==> !matches_config(inst, base_symbol, kind),
{
    reveal_strlit("perpetual_linear");
    reveal_strlit("perpetual_inverse");
    reveal_strlit("future");
    reveal_strlit("spot");
    reveal_strlit("option");
    assert("future"@.len() != "perpetual_linear"@.len());
    assert("future"@.len() != "perpetual_inverse"@.len());
    assert("spot"@.len() != "perpetual_linear"@.len());
    assert("spot"@.len() != "perpetual_inverse"@.len());
    assert("spot"@[0] != "future"@[0]);
    assert("option"@.len() != "perpetual_linear"@.len());
    assert("option"@.len() != "perpetual_inverse"@.len());
    assert("option"@[0] != "future"@[0]);
    assert("option"@[0] != "spot"@[0]);
}

/// The stablecoins, in upper case: USDC, USDT, USD, BUSD, USDS and DAI;
/// no other code is one.
pub proof fn lemma_stablecoin_codes(code: Seq<char>)
    ensures
        is_stable_code(code) <==> (code == "USDC"@ || code == "USDT"@ || code == "USD"@ || code == "BUSD"@ || code
            == "USDS"@ || code == "DAI"@),
{
}

/// An active instrument feeds at most one of the two perpetual books of
/// its base, and an instrument that is inactive, or whose base differs
/// from the book's, feeds none.
pub proof fn lemma_instrument_feeds_one_perpetual_book(inst: InstrumentTraits, base_symbol: Seq<char>, kind: Seq<char>)
    ensures
        !(matches_config(inst, base_symbol, "perpetual_linear"@) && matches_config(
            inst,
            base_symbol,
            "perpetual_inverse"@,
        )),
        !inst.is_active ==> !matches_config(inst, base_symbol, kind),
        unicode_uppercase(inst.base_currency@) != unicode_uppercase(base_symbol) ==> !matches_config(
            inst,
            base_symbol,
            kind,
        ),
{
    reveal_strlit("perpetual_linear");
    reveal_strlit("perpetual_inverse");
    assert("perpetual_inverse"@[10] != "perpetual_linear"@[10]);
}

/// Whether an exchange offers a public WebSocket order book feed.
pub fn has_ws_book(exchange: &str) -> (r: bool)
    ensures
        r == (exchange@ == "deribit"@ || exchange@ == "okx"@ || exchange@ == "bybit"@ || exchange@ == "binance"@
            || exchange@ == "hyperliquid"@),
{
    str_eq(exchange, "deribit") || str_eq(exchange, "okx") || str_eq(exchange, "bybit") || str_eq(
        exchange,
        "binance",
    ) || str_eq(exchange, "hyperliquid")
}

/// The positions of `keys` that hold `k`, in increasing order.
pub open spec fn positions_of(keys: Seq<i64>, k: i64) -> Seq<usize>
    decreases keys.len(),
{
    if keys.len() == 0 {
        Seq::empty()
    } else {
        let before = positions_of(keys.drop_last(), k);
        if keys.last() == k {
            before.push((keys.len() - 1) as usize)
        } else {
            before
        }
    }
}

/// The levels of merged books: each price key that occurs, with the
/// positions of the entries at it in arrival order.
pub open spec fn key_groups(keys: Seq<i64>) -> Map<i64, Seq<usize>> {
    Map::new(|k: i64| keys.contains(k), |k: i64| positions_of(keys, k))
}

/// The merged side of a book: up to `max_levels` price keys, best first
/// (highest for bids, lowest for asks), each with its entries.
pub open spec fn merged_side(keys: Seq<i64>, max_levels: int, highest_first: bool) -> Seq<(i64, Seq<usize>)> {
    let listing = ascending_listing(key_groups(keys));
    first_n(if highest_first { listing.reverse() } else { listing }, max_levels)
}

proof fn lemma_positions_nonempty(keys: Seq<i64>, k: i64)
    ensures
        keys.contains(k) <==> positions_of(keys, k).len() > 0,
    decreases keys.len(),
{
    if keys.len() > 0 {
        lemma_positions_nonempty(keys.drop_last(), k);
        if keys.drop_last().contains(k) {
            let i = choose|i: int| 0 <= i < keys.drop_last().len() && keys.drop_last()[i] == k;
            assert(keys[i] == k);
        }
        if keys.contains(k) && keys.last() != k {
            let i = choose|i: int| 0 <= i < keys.len() && keys[i] == k;
            assert(keys.drop_last()[i] == k);
        }
        if keys.last() == k {
            assert(keys[keys.len() - 1] == k);
        }
    }
}

/// Every entry lands in the level of its own key, once, in arrival order:
/// the positions listed for `k` are exactly those that hold `k`, increasing.
pub proof fn lemma_positions_exact(keys: Seq<i64>, k: i64)
    requires
        keys.len() <= usize::MAX,
    ensures
        forall|p: int| 0 <= p < keys.len() ==> (positions_of(keys, k).contains(p as usize) <==> keys[p] == k),
        forall|a: int, b: int| 0 <= a < b < positions_of(keys, k).len() ==> positions_of(keys, k)[a] < positions_of(keys, k)[b],
        forall|a: int| 0 <= a < positions_of(keys, k).len() ==> positions_of(keys, k)[a] < keys.len(),
    decreases keys.len(),
{
    if keys.len() > 0 {
        let pre = keys.drop_last();
        lemma_positions_exact(pre, k);
        let ps = positions_of(pre, k);
        let last = (keys.len() - 1) as usize;
        let all = positions_of(keys, k);
        if keys.last() == k {
            assert(all == ps.push(last));
        } else {
            assert(all == ps);
        }
        assert forall|a: int, b: int| 0 <= a < b < all.len() implies all[a] < all[b] by {
            if b == ps.len() {
                assert(all[a] == ps[a]);
            }
        }
        assert forall|p: int| 0 <= p < keys.len() implies (positions_of(keys, k).contains(p as usize) <==> keys[p] == k) by {
            if p < pre.len() {
                assert(pre[p] == keys[p]);
                if positions_of(keys, k).contains(p as usize) {
                    let a = choose|a: int| 0 <= a < positions_of(keys, k).len() && positions_of(keys, k)[a] == p as usize;
                    if a < ps.len() {
                        assert(ps.contains(p as usize));
                    }
                }
                if ps.contains(p as usize) {
                    let a = choose|a: int| 0 <= a < ps.len() && ps[a] == p as usize;
                    assert(positions_of(keys, k)[a] == p as usize);
                }
            } else {
                if keys.last() == k {
                    assert(positions_of(keys, k)[ps.len() as int] == last);
                } else if positions_of(keys, k).contains(p as usize) {
                    let a = choose|a: int| 0 <= a < ps.len() && ps[a] == p as usize;
                    assert(ps[a] < pre.len());
                }
            }
        }
    }
}

/// The levels as keys with their positions.
pub open spec fn level_views(levels: Seq<(i64, Vec<usize>)>) -> Seq<(i64, Seq<usize>)> {
    levels.map_values(|e: (i64, Vec<usize>)| (e.0, e.1@))
}

/// Whether levels run best first: strictly descending keys for bids
/// (`highest_first`), strictly ascending for asks.
pub open spec fn is_best_first(levels: Seq<(i64, Seq<usize>)>, highest_first: bool) -> bool {
    forall|a: int, b: int|
        0 <= a < b < levels.len() ==> if highest_first {
            levels[a].0 > levels[b].0
        } else {
            levels[a].0 < levels[b].0
        }
}

/// Groups entries of one side of several books by price key: the result
/// lists the keys best first, at most `max_levels` of them, each with the
/// positions of its entries in `keys`, in arrival order.
pub fn merge_book_side(keys: &[i64], max_levels: usize, highest_first: bool) -> (r: Vec<(i64, Vec<usize>)>)
    ensures
        level_views(r@) == merged_side(keys@, max_levels as int, highest_first),
        is_best_first(level_views(r@), highest_first),
{
    let mut levels: Vec<(i64, Vec<usize>)> = Vec::new();
    let mut i: usize = 0;
    proof {
        assert(key_groups(keys@.subrange(0, 0)) =~= Map::empty());
    }
    while i < keys.len()
        invariant
            i <= keys@.len(),
            is_ascending_listing(level_views(levels@), key_groups(keys@.subrange(0, i as int))),
        decreases keys.len() - i,
    {
        let k = keys[i];
        let ghost pre = keys@.subrange(0, i as int);
        let ghost now = keys@.subrange(0, i + 1);
        let ghost old_view = level_views(levels@);
        proof {
            assert(now.drop_last() =~= pre);
            assert(now.last() == k);
            assert forall|key: i64| now.contains(key) <==> (pre.contains(key) || key == k) by {
                if now.contains(key) {
                    let a = choose|a: int| 0 <= a < now.len() && now[a] == key;
                    if a < pre.len() {
                        assert(pre[a] == key);
                    }
                }
                if pre.contains(key) {
                    let a = choose|a: int| 0 <= a < pre.len() && pre[a] == key;
                    assert(now[a] == key);
                }
                if key == k {
                    assert(now[i as int] == key);
                }
            }
            assert forall|key: i64| key != k implies positions_of(now, key) == positions_of(pre, key) by {}
            assert(positions_of(now, k) == positions_of(pre, k).push(i as usize));
        }
        let mut j: usize = 0;
        while j < levels.len() && levels[j].0 < k
            invariant
                j <= levels@.len(),
                forall|a: int| 0 <= a < j ==> levels@[a].0 < k,
            decreases levels.len() - j,
        {
            j = j + 1;
        }
        if j < levels.len() && levels[j].0 == k {
            let (key, mut g) = levels.remove(j);
            g.push(i);
            levels.insert(j, (key, g));
            proof {
                let nv = level_views(levels@);
                assert(nv =~= old_view.update(j as int, (k, old_view[j as int].1.push(i as usize))));
                assert(pre.contains(k));
                assert(key_groups(pre)[k] == old_view[j as int].1);
                assert(is_ascending_listing(nv, key_groups(now))) by {
                    assert forall|a: int| 0 <= a < nv.len() implies key_groups(now).contains_key(#[trigger] nv[a].0)
                        && key_groups(now)[nv[a].0] == nv[a].1 by {
                        assert(key_groups(pre).contains_key(old_view[a].0));
                    }
                    assert forall|key: i64| #[trigger] key_groups(now).contains_key(key) implies exists|a: int|
                        0 <= a < nv.len() && nv[a].0 == key by {
                        assert(key_groups(pre).contains_key(key));
                        let a = choose|a: int| 0 <= a < old_view.len() && old_view[a].0 == key;
                        assert(nv[a].0 == key);
                    }
                }
            }
        } else {
            proof {
                if pre.contains(k) {
                    assert(key_groups(pre).contains_key(k));
                    let a = choose|a: int| 0 <= a < old_view.len() && old_view[a].0 == k;
                    if a < j {
                        assert(levels@[a].0 < k);
                    } else if a > j {
                        assert(old_view[j as int].0 < old_view[a].0);
                    }
                    assert(false);
                }
                lemma_positions_nonempty(pre, k);
                assert(positions_of(pre, k) =~= Seq::<usize>::empty());
            }
            let mut g: Vec<usize> = Vec::new();
            g.push(i);
            levels.insert(j, (k, g));
            proof {
                let nv = level_views(levels@);
                assert(nv =~= old_view.insert(j as int, (k, seq![i as usize])));
                assert(positions_of(now, k) =~= seq![i as usize]);
                assert(is_ascending_listing(nv, key_groups(now))) by {
                    assert forall|a: int, b: int| 0 <= a < b < nv.len() implies nv[a].0 < nv[b].0 by {
                        if a < j && b > j {
                            assert(old_view[a].0 < k);
                            if b - 1 > j {
                                assert(old_view[j as int].0 < old_view[b - 1].0);
                            }
                            assert(old_view[j as int].0 != k);
                        } else if a == j as int {
                            if b - 1 > j {
                                assert(old_view[j as int].0 < old_view[b - 1].0);
                            }
                        }
                    }
                    assert forall|a: int| 0 <= a < nv.len() implies key_groups(now).contains_key(#[trigger] nv[a].0)
                        && key_groups(now)[nv[a].0] == nv[a].1 by {
                        if a < j {
                            assert(key_groups(pre).contains_key(old_view[a].0));
                        } else if a > j {
                            assert(key_groups(pre).contains_key(old_view[a - 1].0));
                        }
                    }
                    assert forall|key: i64| #[trigger] key_groups(now).contains_key(key) implies exists|a: int|
                        0 <= a < nv.len() && nv[a].0 == key by {
                        if key == k {
                            assert(nv[j as int].0 == key);
                        } else {
                            assert(key_groups(pre).contains_key(key));
                            let a = choose|a: int| 0 <= a < old_view.len() && old_view[a].0 == key;
                            if a < j {
                                assert(nv[a].0 == key);
                            } else {
                                assert(nv[a + 1].0 == key);
                            }
                        }
                    }
                }
            }
        }
        i = i + 1;
    }
    proof {
        assert(keys@.subrange(0, keys@.len() as int) =~= keys@);
        lemma_ascending_listing_unique(level_views(levels@), ascending_listing(key_groups(keys@)), key_groups(keys@));
    }
    let ghost listing = level_views(levels@);
    assert(forall|a: int, b: int| 0 <= a < b < listing.len() ==> listing[a].0 < listing[b].0);
    let mut out: Vec<(i64, Vec<usize>)> = Vec::new();
    if highest_first {
        while out.len() < max_levels && levels.len() > 0
            invariant
                out@.len() <= max_levels,
                levels@.len() + out@.len() == listing.len(),
                level_views(levels@) == listing.subrange(0, levels@.len() as int),
                level_views(out@) == listing.reverse().subrange(0, out@.len() as int),
            decreases levels.len(),
        {
            let ghost old_levels = levels@;
            let ghost old_out = out@;
            let e = levels.pop().unwrap();
            out.push(e);
            proof {
                let n = levels@.len();
                assert(levels@ =~= old_levels.drop_last());
                assert(e == old_levels.last());
                assert(level_views(old_levels)[n as int] == listing[n as int]);
                assert(level_views(levels@) =~= listing.subrange(0, n as int));
                assert(level_views(out@) =~= level_views(old_out).push((e.0, e.1@)));
                assert(listing.reverse()[old_out.len() as int] == listing[n as int]);
                assert(level_views(out@) =~= listing.reverse().subrange(0, out@.len() as int));
            }
        }
        proof {
            assert(level_views(out@) =~= first_n(listing.reverse(), max_levels as int));
            assert forall|a: int, b: int| 0 <= a < b < level_views(out@).len() implies level_views(out@)[a].0
                > level_views(out@)[b].0 by {
                assert(level_views(out@)[a] == listing[listing.len() - 1 - a]);
                assert(level_views(out@)[b] == listing[listing.len() - 1 - b]);
            }
        }
    } else {
        let mut k: usize = 0;
        while k < max_levels && levels.len() > 0
            invariant
                k == out@.len(),
                k <= max_levels,
                levels@.len() + out@.len() == listing.len(),
                level_views(levels@) == listing.subrange(out@.len() as int, listing.len() as int),
                level_views(out@) == listing.subrange(0, out@.len() as int),
            decreases levels.len(),
        {
            let ghost old_levels = levels@;
            let ghost old_out = out@;
            let e = levels.remove(0);
            out.push(e);
            k = k + 1;
            proof {
                assert(levels@ =~= old_levels.subrange(1, old_levels.len() as int));
                assert(e == old_levels[0]);
                assert(level_views(old_levels)[0] == listing[old_out.len() as int]);
                assert forall|a: int| 0 <= a < levels@.len() implies level_views(levels@)[a] == listing[out@.len() + a] by {
                    assert(levels@[a] == old_levels[a + 1]);
                    assert(level_views(old_levels)[a + 1] == listing[old_out.len() + a + 1]);
                }
                assert(level_views(levels@) =~= listing.subrange(out@.len() as int, listing.len() as int));
                assert(level_views(out@) =~= level_views(old_out).push((e.0, e.1@)));
                assert(level_views(out@) =~= listing.subrange(0, out@.len() as int));
            }
        }
        proof {
            assert(level_views(out@) =~= first_n(listing, max_levels as int));
            assert forall|a: int, b: int| 0 <= a < b < level_views(out@).len() implies level_views(out@)[a].0
                < level_views(out@)[b].0 by {
                assert(level_views(out@)[a] == listing[a]);
                assert(level_views(out@)[b] == listing[b]);
            }
        }
    }
    out
}

/// The most levels per side in an emitted update of an aggregated book.
pub const EMIT_LEVELS: usize = 20;

/// The most contributions per level in an emitted update.
pub const EMIT_CONTRIBUTIONS: usize = 8;

/// What an update shows of merged levels: the first `EMIT_LEVELS` of them,
/// each with its first `EMIT_CONTRIBUTIONS` contributions.
pub open spec fn emitted_side(levels: Seq<(i64, Seq<usize>)>) -> Seq<(i64, Seq<usize>)> {
    first_n(levels, EMIT_LEVELS as int).map_values(
        |e: (i64, Seq<usize>)| (e.0, first_n(e.1, EMIT_CONTRIBUTIONS as int)),
    )
}

/// Caps merged levels for an update (see `emitted_side`).
pub fn emit_side(levels: &Vec<(i64, Vec<usize>)>) -> (r: Vec<(i64, Vec<usize>)>)
    ensures
        level_views(r@) == emitted_side(level_views(levels@)),
        r@.len() <= EMIT_LEVELS,
        forall|i: int| 0 <= i < r@.len() ==> r@[i].1@.len() <= EMIT_CONTRIBUTIONS,
{
    let n: usize = if levels.len() < EMIT_LEVELS { levels.len() } else { EMIT_LEVELS };
    let mut out: Vec<(i64, Vec<usize>)> = Vec::new();
    let mut i: usize = 0;
    while i < n
        invariant
            n <= levels@.len(),
            n == (if levels@.len() < EMIT_LEVELS { levels@.len() as int } else { EMIT_LEVELS as int }),
            i <= n,
            out@.len() == i,
            forall|a: int| 0 <= a < i ==> level_views(out@)[a] == emitted_side(level_views(levels@))[a],
            forall|a: int| 0 <= a < i ==> out@[a].1@.len() <= EMIT_CONTRIBUTIONS,
        decreases n - i,
    {
        let mut c: Vec<usize> = levels[i].1.clone();
        c.truncate(EMIT_CONTRIBUTIONS);
        proof {
            assert(c@ == first_n(levels@[i as int].1@, EMIT_CONTRIBUTIONS as int));
        }
        let ghost old_out = out@;
        out.push((levels[i].0, c));
        proof {
            assert(level_views(out@)[i as int] == emitted_side(level_views(levels@))[i as int]);
            assert forall|a: int| 0 <= a < i implies level_views(out@)[a] == emitted_side(level_views(levels@))[a] by {
                assert(out@[a] == old_out[a]);
                assert(level_views(out@)[a] == level_views(old_out)[a]);
            }
        }
        i = i + 1;
    }
    assert(level_views(out@) =~= emitted_side(level_views(levels@)));
    out
}

/// One side of an emitted update of an aggregated book: the merged levels
/// (see `merge_book_side`) capped for the update; at most `EMIT_LEVELS`
/// levels, best first, each with at most `EMIT_CONTRIBUTIONS` contributions.
pub fn emitted_book_side(keys: &[i64], max_levels: usize, highest_first: bool) -> (r: Vec<(i64, Vec<usize>)>)
    ensures
        level_views(r@) == emitted_side(merged_side(keys@, max_levels as int, highest_first)),
        r@.len() <= EMIT_LEVELS,
        forall|i: int| 0 <= i < r@.len() ==> r@[i].1@.len() <= EMIT_CONTRIBUTIONS,
        is_best_first(level_views(r@), highest_first),
{
    let merged = merge_book_side(keys, max_levels, highest_first);
    let r = emit_side(&merged);
    proof {
        assert forall|a: int, b: int| 0 <= a < b < level_views(r@).len() implies
            (if highest_first { level_views(r@)[a].0 > level_views(r@)[b].0 } else {
                level_views(r@)[a].0 < level_views(r@)[b].0 }) by {
            assert(level_views(r@)[a].0 == level_views(merged@)[a].0);
            assert(level_views(r@)[b].0 == level_views(merged@)[b].0);
        }
    }
    r
}

/// The instrument kind to fetch for a book's configured kind: perpetuals
/// are listed among futures; `None` for a kind the book does not serve.
pub open spec fn fetch_kind_of(instrument_kind: Seq<char>) -> Option<Seq<char>> {
    if instrument_kind == "perpetual_linear"@ || instrument_kind == "perpetual_inverse"@
        || instrument_kind == "future"@ {
        Some("future"@)
    } else if instrument_kind == "spot"@ {
        Some("spot"@)
    } else if instrument_kind == "option"@ {
        Some("option"@)
    } else {
        None
    }
}

/// The instrument kind to fetch for a book's configured kind.
pub fn fetch_kind(instrument_kind: &str) -> (r: Option<&'static str>)
    ensures
        match r {
            Some(k) => fetch_kind_of(instrument_kind@) == Some(k@),
            None => fetch_kind_of(instrument_kind@) is None,
        },
{
    if str_eq(instrument_kind, "perpetual_linear") || str_eq(instrument_kind, "perpetual_inverse")
        || str_eq(instrument_kind, "future") {
        Some("future")
    } else if str_eq(instrument_kind, "spot") {
        Some("spot")
    } else if str_eq(instrument_kind, "option") {
        Some("option")
    } else {
        None
    }
}

/// The most levels a book keeps per side: its configured count, at most 200.
pub fn level_cap(max_levels: u32) -> (r: usize)
    ensures
        r == if max_levels < 200 { max_levels as int } else { 200 },
{
    if max_levels < 200 {
        max_levels as usize
    } else {
        200
    }
}

/// The configured accounts for which no instrument was found, in
/// configured order.
pub open spec fn missing_accounts(account_ids: Seq<Seq<char>>, found: Seq<Seq<char>>) -> Seq<Seq<char>> {
    account_ids.filter(|id: Seq<char>| !found.contains(id))
}

/// The configured accounts for which no instrument was found.
pub fn accounts_without_instrument(account_ids: &[String], found: &[String]) -> (r: Vec<String>)
    ensures
        r@.map_values(|s: String| s@) == missing_accounts(
            account_ids@.map_values(|s: String| s@),
            found@.map_values(|s: String| s@),
        ),
{
    let ghost ids = account_ids@.map_values(|s: String| s@);
    let ghost fs = found@.map_values(|s: String| s@);
    let mut out: Vec<String> = Vec::new();
    let mut i: usize = 0;
    while i < account_ids.len()
        invariant
            i <= account_ids@.len(),
            ids == account_ids@.map_values(|s: String| s@),
            fs == found@.map_values(|s: String| s@),
            out@.map_values(|s: String| s@) == ids.subrange(0, i as int).filter(|id: Seq<char>| !fs.contains(id)),
        decreases account_ids.len() - i,
    {
        let mut hit = false;
        let mut j: usize = 0;
        while j < found.len()
            invariant
                j <= found@.len(),
                i < account_ids@.len(),
                fs == found@.map_values(|s: String| s@),
                hit <==> exists|b: int| 0 <= b < j && fs[b] == account_ids@[i as int]@,
            decreases found.len() - j,
        {
            let eq = str_eq(found[j].as_str(), account_ids[i].as_str());
            proof {
                assert(fs[j as int] == found@[j as int]@);
                if exists|b: int| 0 <= b < j + 1 && fs[b] == account_ids@[i as int]@ {
                    let b = choose|b: int| 0 <= b < j + 1 && fs[b] == account_ids@[i as int]@;
                    if b < j {
                        assert(hit);
                    } else {
                        assert(eq);
                    }
                }
            }
            if eq {
                hit = true;
            }
            j = j + 1;
        }
        let ghost before = out@.map_values(|s: String| s@);
        proof {
            let pre = ids.subrange(0, i as int);
            let now = ids.subrange(0, i + 1);
            assert(now.drop_last() =~= pre);
            assert(now.last() == account_ids@[i as int]@);
            reveal(Seq::filter);
            if hit {
                let b = choose|b: int| 0 <= b < j && fs[b] == account_ids@[i as int]@;
                assert(fs.contains(account_ids@[i as int]@));
            } else {
                assert(!fs.contains(account_ids@[i as int]@)) by {
                    if fs.contains(account_ids@[i as int]@) {
                        let b = choose|b: int| 0 <= b < fs.len() && fs[b] == account_ids@[i as int]@;
                        assert(b < j);
                    }
                }
            }
        }
        if !hit {
            out.push(account_ids[i].clone());
            assert(out@.map_values(|s: String| s@) =~= before.push(account_ids@[i as int]@));
        }
        i = i + 1;
    }
    assert(ids.subrange(0, account_ids@.len() as int) =~= ids);
    out
}

/// Whether a merged book is emitted now: at least 100 ms after the last
/// emit, and only where the top of the book moved or 10 s have passed.
pub fn emit_due(now_ms: i64, last_emit_ms: i64, top_changed: bool) -> (r: bool)
    ensures
        r == (now_ms - last_emit_ms >= 100 && (top_changed || now_ms - last_emit_ms >= 10_000)),
{
    let since: i128 = now_ms as i128 - last_emit_ms as i128;
    since >= 100 && (top_changed || since >= 10_000)
}

/// The key under which a configured book's task runs.
pub fn book_key(config_id: &str) -> (k: Vec<String>)
    ensures
        key_view(k) == seq![config_id@],
{
    let k = vec![String::from_str(config_id)];
    assert(key_view(k) =~= seq![config_id@]);
    k
}

/// Registers the task of a configured book, replacing any task of the same
/// book: the replaced task's handle is handed back, to be stopped.
pub fn start_book<H>(books: &mut TaskTable<H>, config_id: &str, handle: H) -> (previous: Option<H>)
    requires
        old(books).wf(),
    ensures
        final(books).wf(),
        match previous {
            Some(p) => exists|i: int|
                0 <= i < old(books).keys().len()
                && old(books).keys()[i] == seq![config_id@]
                && p == old(books).handles()[i]
                && final(books).keys() == old(books).keys().remove(i).push(seq![config_id@])
                && final(books).handles() == old(books).handles().remove(i).push(handle),
            None => !old(books).keys().contains(seq![config_id@])
                && final(books).keys() == old(books).keys().push(seq![config_id@])
                && final(books).handles() == old(books).handles().push(handle),
        },
{
    let key = book_key(config_id);
    let previous = books.remove(&key);
    books.insert_new(key, handle);
    previous
}

} // verus!
