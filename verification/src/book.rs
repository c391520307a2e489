//! An order book kept from snapshots and deltas, levels keyed by an integer
//! price key.

use vstd::prelude::*;
use std::collections::BTreeMap;

verus! {

broadcast use vstd::std_specs::btree::group_btree_axioms, vstd::laws_cmp::group_laws_cmp;

/// Whether `s` lists the entries of `m` in strictly increasing key order.
pub open spec fn is_ascending_listing<V>(s: Seq<(i64, V)>, m: Map<i64, V>) -> bool {
    &&& forall|i: int, j: int| 0 <= i < j < s.len() ==> s[i].0 < s[j].0
    &&& forall|i: int| 0 <= i < s.len() ==> m.contains_key(#[trigger] s[i].0) && m[s[i].0] == s[i].1
    &&& forall|k: i64| #[trigger] m.contains_key(k) ==> exists|i: int| 0 <= i < s.len() && s[i].0 == k
}

/// The entries of `m` in increasing key order.
pub open spec fn ascending_listing<V>(m: Map<i64, V>) -> Seq<(i64, V)> {
    choose|s: Seq<(i64, V)>| is_ascending_listing(s, m)
}

/// A map has at most one listing in strictly increasing key order.
pub proof fn lemma_ascending_listing_unique<V>(s1: Seq<(i64, V)>, s2: Seq<(i64, V)>, m: Map<i64, V>)
    requires
        is_ascending_listing(s1, m),
        is_ascending_listing(s2, m),
    ensures
        s1 == s2,
    decreases s1.len(),
{
    if s1.len() == 0 {
        if s2.len() > 0 {
            assert(m.contains_key(s2[0].0));
        }
        assert(s1 =~= s2);
    } else {
        assert(s2.len() > 0) by {
            assert(m.contains_key(s1[0].0));
        }
        let k1 = s1[0].0;
        let k2 = s2[0].0;
        assert(k1 == k2) by {
            assert(m.contains_key(k1));
            assert(m.contains_key(k2));
            let j2 = choose|i: int| 0 <= i < s2.len() && s2[i].0 == k1;
            let j1 = choose|i: int| 0 <= i < s1.len() && s1[i].0 == k2;
            assert(j2 == 0 || s2[0].0 < s2[j2].0);
            assert(j1 == 0 || s1[0].0 < s1[j1].0);
        }
        let rest = m.remove(k1);
        let t1 = s1.drop_first();
        let t2 = s2.drop_first();
        assert(is_ascending_listing(t1, rest)) by {
            assert forall|i: int| 0 <= i < t1.len() implies rest.contains_key(#[trigger] t1[i].0)
                && rest[t1[i].0] == t1[i].1 by {
                assert(s1[0].0 < s1[i + 1].0);
            }
            assert forall|k: i64| #[trigger] rest.contains_key(k) implies exists|i: int|
                0 <= i < t1.len() && t1[i].0 == k by {
                let j = choose|i: int| 0 <= i < s1.len() && s1[i].0 == k;
                assert(t1[j - 1].0 == k);
            }
        }
        assert(is_ascending_listing(t2, rest)) by {
            assert forall|i: int| 0 <= i < t2.len() implies rest.contains_key(#[trigger] t2[i].0)
                && rest[t2[i].0] == t2[i].1 by {
                assert(s2[0].0 < s2[i + 1].0);
            }
            assert forall|k: i64| #[trigger] rest.contains_key(k) implies exists|i: int|
                0 <= i < t2.len() && t2[i].0 == k by {
                let j = choose|i: int| 0 <= i < s2.len() && s2[i].0 == k;
                assert(t2[j - 1].0 == k);
            }
        }
        lemma_ascending_listing_unique(t1, t2, rest);
        assert(s1[0] == s2[0]);
        assert(s1 =~= seq![s1[0]] + t1);
        assert(s2 =~= seq![s2[0]] + t2);
    }
}

fn sorted_entries<V: Copy>(m: &BTreeMap<i64, V>) -> (r: Vec<(i64, V)>)
    ensures
        is_ascending_listing(r@, m@),
        r@ == ascending_listing(m@),
{
    let mut r: Vec<(i64, V)> = Vec::new();
    let ghost all = vstd::std_specs::iter::IteratorSpec::remaining(&vstd::std_specs::btree::spec_btree_map_iter(m));
    for kv in it: m.iter()
        invariant
            it.seq() == all,
            all == vstd::std_specs::iter::IteratorSpec::remaining(&vstd::std_specs::btree::spec_btree_map_iter(m)),
            r@.len() == it.index(),
            forall|i: int| 0 <= i < it.index() ==> r@[i] == (*it.seq()[i].0, *it.seq()[i].1),
    {
        let (k, v) = kv;
        r.push((*k, *v));
    }
    proof {
        let keys = all.map_values(|kv: (&i64, &V)| *kv.0);
        assert(vstd::std_specs::btree::increasing_seq(keys));
        assert(vstd::laws_cmp::obeys_cmp::<i64>());
        vstd::std_specs::btree::axiom_increasing_seq_meaning(keys);
        assert forall|i: int, j: int| 0 <= i < j < r@.len() implies r@[i].0 < r@[j].0 by {
            assert(keys[i] == r@[i].0);
            assert(keys[j] == r@[j].0);
            assert(vstd::std_specs::cmp::OrdSpec::cmp_spec(&keys[i], &keys[j]) is Less);
        }
        assert forall|k: i64| #[trigger] m@.contains_key(k) implies exists|i: int|
            0 <= i < r@.len() && r@[i].0 == k by {
            assert(all.contains((&k, &m@[k])));
            let i = choose|i: int| 0 <= i < all.len() && all[i] == (&k, &m@[k]);
            assert(r@[i].0 == k);
        }
        assert(is_ascending_listing(r@, m@));
        lemma_ascending_listing_unique(r@, ascending_listing(m@), m@);
    }
    r
}

/// One level of an update: the price key and the level that stands at it,
/// or `None` where the update carries no size.
pub type LevelUpdate<V> = (i64, Option<V>);

/// The map `m` after the updates `levels` in turn: a level with a value is
/// written at its key; one without is removed where `remove_empty` holds and
/// skipped otherwise.
pub open spec fn applied<V>(m: Map<i64, V>, levels: Seq<LevelUpdate<V>>, remove_empty: bool) -> Map<i64, V>
    decreases levels.len(),
{
    if levels.len() == 0 {
        m
    } else {
        let before = applied(m, levels.drop_last(), remove_empty);
        let (key, level) = levels.last();
        match level {
            Some(v) => before.insert(key, v),
            None => if remove_empty { before.remove(key) } else { before },
        }
    }
}

/// The last update at a key decides it: a level written last is read back,
/// and a delta's empty level last at a key removes it.
pub proof fn lemma_last_update_decides<V>(m: Map<i64, V>, levels: Seq<LevelUpdate<V>>, key: i64, v: V, remove_empty: bool)
    ensures
        applied(m, levels.push((key, Some(v))), remove_empty).contains_key(key),
        applied(m, levels.push((key, Some(v))), remove_empty)[key] == v,
        !applied(m, levels.push((key, None)), true).contains_key(key),
        applied(m, levels.push((key, None)), false) == applied(m, levels, false),
{
    assert(levels.push((key, Some(v))).drop_last() =~= levels);
    assert(levels.push((key, None::<V>)).drop_last() =~= levels);
}

/// Updates at other keys leave a key's level as it was.
pub proof fn lemma_other_keys_untouched<V>(m: Map<i64, V>, levels: Seq<LevelUpdate<V>>, key: i64, remove_empty: bool)
    requires
        forall|i: int| 0 <= i < levels.len() ==> (#[trigger] levels[i]).0 != key,
    ensures
        applied(m, levels, remove_empty).contains_key(key) == m.contains_key(key),
        m.contains_key(key) ==> applied(m, levels, remove_empty)[key] == m[key],
    decreases levels.len(),
{
    if levels.len() > 0 {
        let before = levels.drop_last();
        assert forall|i: int| 0 <= i < before.len() implies (#[trigger] before[i]).0 != key by {
            assert(before[i] == levels[i]);
        }
        lemma_other_keys_untouched(m, before, key, remove_empty);
        assert(levels.last().0 != key);
    }
}

/// Applying two runs of updates one after the other is applying them
/// joined.
pub proof fn lemma_applied_concat<V>(m: Map<i64, V>, a: Seq<LevelUpdate<V>>, b: Seq<LevelUpdate<V>>, remove_empty: bool)
    ensures
        applied(m, a + b, remove_empty) == applied(applied(m, a, remove_empty), b, remove_empty),
    decreases b.len(),
{
    if b.len() == 0 {
        assert(a + b =~= a);
    } else {
        lemma_applied_concat(m, a, b.drop_last(), remove_empty);
        assert((a + b).drop_last() =~= a + b.drop_last());
        assert((a + b).last() == b.last());
    }
}

/// The last update at a key decides it, wherever it stands in the run: where
/// update `i` is the last one at its key, a level it carries is the one
/// read back, and an empty one leaves no level when empty levels remove
/// (as in a delta).
pub proof fn lemma_last_occurrence_decides<V>(m: Map<i64, V>, levels: Seq<LevelUpdate<V>>, i: int, remove_empty: bool)
    requires
        0 <= i < levels.len(),
        forall|j: int| i < j < levels.len() ==> (#[trigger] levels[j]).0 != levels[i].0,
    ensures
        levels[i].1 matches Some(v) ==> applied(m, levels, remove_empty).contains_key(levels[i].0)
            && applied(m, levels, remove_empty)[levels[i].0] == v,
        levels[i].1 is None && remove_empty ==> !applied(m, levels, remove_empty).contains_key(levels[i].0),
{
    let key = levels[i].0;
    let head = levels.take(i + 1);
    let tail = levels.skip(i + 1);
    assert(levels =~= head + tail);
    lemma_applied_concat(m, head, tail, remove_empty);
    assert(head.drop_last() =~= levels.take(i));
    assert(head.last() == levels[i]);
    let mid = applied(m, head, remove_empty);
    assert forall|j: int| 0 <= j < tail.len() implies (#[trigger] tail[j]).0 != key by {
        assert(tail[j] == levels[i + 1 + j]);
    }
    lemma_other_keys_untouched(mid, tail, key, remove_empty);
}

/// Whether update `i` is the last one at its key.
pub open spec fn last_at_key<V>(levels: Seq<LevelUpdate<V>>, i: int) -> bool {
    forall|j: int| i < j < levels.len() ==> (#[trigger] levels[j]).0 != levels[i].0
}

/// Whether no update is at `key`.
pub open spec fn untouched_key<V>(levels: Seq<LevelUpdate<V>>, key: i64) -> bool {
    forall|j: int| 0 <= j < levels.len() ==> (#[trigger] levels[j]).0 != key
}

/// What a delta leaves on one side of a book: at each key in the update,
/// what its last update there says (the level it carries, or no level);
/// at every other key, the level that stood there before.
pub open spec fn delta_result<V>(before: Map<i64, V>, levels: Seq<LevelUpdate<V>>, after: Map<i64, V>) -> bool {
    &&& forall|i: int|
        #![trigger levels[i]]
        0 <= i < levels.len() && last_at_key(levels, i) ==> match levels[i].1 {
            Some(v) => after.contains_key(levels[i].0) && after[levels[i].0] == v,
            None => !after.contains_key(levels[i].0),
        }
    &&& forall|k: i64|
        #![trigger after.contains_key(k)]
        untouched_key(levels, k) ==> after.contains_key(k) == before.contains_key(k) && (before.contains_key(k)
            ==> after[k] == before[k])
}

/// A delta's updates read key by key: its last update at a key decides the
/// key, and keys it does not name keep their levels.
pub proof fn lemma_delta_result<V>(m: Map<i64, V>, levels: Seq<LevelUpdate<V>>)
    ensures
        delta_result(m, levels, applied(m, levels, true)),
{
    assert forall|i: int| 0 <= i < levels.len() && last_at_key(levels, i) implies match levels[i].1 {
        Some(v) => applied(m, levels, true).contains_key(levels[i].0) && applied(m, levels, true)[levels[i].0] == v,
        None => !applied(m, levels, true).contains_key(levels[i].0),
    } by {
        lemma_last_occurrence_decides(m, levels, i, true);
    }
    assert forall|k: i64| untouched_key(levels, k) implies applied(m, levels, true).contains_key(k) == m.contains_key(k)
        && (m.contains_key(k) ==> applied(m, levels, true)[k] == m[k]) by {
        lemma_other_keys_untouched(m, levels, k, true);
    }
}

/// The first `n` items of `s`, or all of them where it has fewer.
pub open spec fn first_n<A>(s: Seq<A>, n: int) -> Seq<A> {
    if n < s.len() { s.take(n) } else { s }
}

/// What a book shows of itself: its levels best first, at most a given depth
/// on each side.
pub struct BookSnapshot<V> {
    pub instrument_name: String,
    pub bids: Vec<V>,
    pub asks: Vec<V>,
    pub timestamp: i64,
}

/// An order book for one instrument: bid and ask levels by price key.
pub struct LocalBook<V> {
    pub instrument_name: String,
    bids: BTreeMap<i64, V>,
    asks: BTreeMap<i64, V>,
    pub timestamp: i64,
}

impl<V: Copy> LocalBook<V> {
    /// The bid levels by price key.
    pub closed spec fn bid_levels(&self) -> Map<i64, V> {
        self.bids@
    }

    /// The ask levels by price key.
    pub closed spec fn ask_levels(&self) -> Map<i64, V> {
        self.asks@
    }

    /// The instrument's name.
    pub closed spec fn instrument(&self) -> Seq<char> {
        self.instrument_name@
    }

    /// The time of the last update.
    pub closed spec fn updated_at(&self) -> i64 {
        self.timestamp
    }

    /// An empty book for `instrument_name`, at time zero.
    pub fn new(instrument_name: &str) -> (book: Self)
        ensures
            book.instrument() == instrument_name@,
            book.bid_levels() == Map::<i64, V>::empty(),
            book.ask_levels() == Map::<i64, V>::empty(),
            book.updated_at() == 0,
    {
        LocalBook {
            instrument_name: instrument_name.to_string(),
            bids: BTreeMap::new(),
            asks: BTreeMap::new(),
            timestamp: 0,
        }
    }

    /// Replaces the whole book: the levels of the snapshot that carry a size,
    /// the later of two at one key winning.
    pub fn apply_snapshot(&mut self, bids: &[LevelUpdate<V>], asks: &[LevelUpdate<V>], ts: i64)
        ensures
            final(self).bid_levels() == applied(Map::empty(), bids@, false),
            final(self).ask_levels() == applied(Map::empty(), asks@, false),
            final(self).updated_at() == ts,
            final(self).instrument() == old(self).instrument(),
    {
        self.bids.clear();
        self.asks.clear();
        apply_levels(&mut self.bids, bids, false);
        apply_levels(&mut self.asks, asks, false);
        self.timestamp = ts;
    }

    /// Applies an incremental update: a level with a size is written, one
    /// without is removed.
    pub fn apply_delta(&mut self, bids: &[LevelUpdate<V>], asks: &[LevelUpdate<V>], ts: i64)
        ensures
            final(self).bid_levels() == applied(old(self).bid_levels(), bids@, true),
            final(self).ask_levels() == applied(old(self).ask_levels(), asks@, true),
            delta_result(old(self).bid_levels(), bids@, final(self).bid_levels()),
            delta_result(old(self).ask_levels(), asks@, final(self).ask_levels()),
            final(self).updated_at() == ts,
            final(self).instrument() == old(self).instrument(),
    {
        proof {
            lemma_delta_result(self.bid_levels(), bids@);
            lemma_delta_result(self.ask_levels(), asks@);
        }
        apply_levels(&mut self.bids, bids, true);
        apply_levels(&mut self.asks, asks, true);
        self.timestamp = ts;
    }

    /// The level at the highest bid key, if there is a bid.
    pub fn top_bid(&self) -> (r: Option<V>)
        ensures
            r is None <==> self.bid_levels().dom().is_empty(),
            r matches Some(v) ==> exists|k: i64| #[trigger] self.bid_levels().contains_key(k)
                && self.bid_levels()[k] == v
                && forall|j: i64| #[trigger] self.bid_levels().contains_key(j) ==> j <= k,
    {
        let entries = sorted_entries(&self.bids);
        if entries.len() == 0 {
            proof { assert_not_empty_listing(entries@, self.bids@); }
            None
        } else {
            let last = entries.len() - 1;
            proof {
                let s = entries@;
                assert forall|j: i64| #[trigger] self.bids@.contains_key(j) implies j <= s[last as int].0 by {
                    let i = choose|i: int| 0 <= i < s.len() && s[i].0 == j;
                    assert(i == last || s[i].0 < s[last as int].0);
                }
                assert(self.bid_levels().contains_key(s[last as int].0));
            }
            Some(entries[last].1)
        }
    }

    /// The level at the lowest ask key, if there is an ask.
    pub fn top_ask(&self) -> (r: Option<V>)
        ensures
            r is None <==> self.ask_levels().dom().is_empty(),
            r matches Some(v) ==> exists|k: i64| #[trigger] self.ask_levels().contains_key(k)
                && self.ask_levels()[k] == v
                && forall|j: i64| #[trigger] self.ask_levels().contains_key(j) ==> k <= j,
    {
        let entries = sorted_entries(&self.asks);
        if entries.len() == 0 {
            proof { assert_not_empty_listing(entries@, self.asks@); }
            None
        } else {
            proof {
                let s = entries@;
                assert forall|j: i64| #[trigger] self.asks@.contains_key(j) implies s[0].0 <= j by {
                    let i = choose|i: int| 0 <= i < s.len() && s[i].0 == j;
                    assert(i == 0 || s[0].0 < s[i].0);
                }
                assert(self.ask_levels().contains_key(s[0].0));
            }
            Some(entries[0].1)
        }
    }

    /// Whether neither side holds a level.
    pub fn is_empty(&self) -> (r: bool)
        ensures
            r == (self.bid_levels().dom().is_empty() && self.ask_levels().dom().is_empty()),
    {
        self.bids.is_empty() && self.asks.is_empty()
    }

    /// The book at most `depth` levels deep on each side: bids from the
    /// highest key down, asks from the lowest key up.
    pub fn to_snapshot(&self, depth: usize) -> (snap: BookSnapshot<V>)
        ensures
            snap.instrument_name@ == self.instrument(),
            snap.bids@ == first_n(ascending_listing(self.bid_levels()).reverse(), depth as int).map_values(
                |e: (i64, V)| e.1,
            ),
            snap.asks@ == first_n(ascending_listing(self.ask_levels()), depth as int).map_values(
                |e: (i64, V)| e.1,
            ),
            snap.timestamp == self.updated_at(),
    {
        let bid_entries = sorted_entries(&self.bids);
        let ask_entries = sorted_entries(&self.asks);
        let mut bids: Vec<V> = Vec::new();
        let mut i: usize = 0;
        while i < depth && i < bid_entries.len()
            invariant
                i <= bid_entries.len(),
                i <= depth,
                bids@ == bid_entries@.reverse().take(i as int).map_values(|e: (i64, V)| e.1),
            decreases bid_entries.len() - i,
        {
            proof {
                assert(bid_entries@.reverse().take(i as int + 1) =~= bid_entries@.reverse().take(
                    i as int,
                ).push(bid_entries@.reverse()[i as int]));
            }
            bids.push(bid_entries[bid_entries.len() - 1 - i].1);
            i = i + 1;
            proof {
                assert(bids@ =~= bid_entries@.reverse().take(i as int).map_values(|e: (i64, V)| e.1));
            }
        }
        let mut asks: Vec<V> = Vec::new();
        let mut j: usize = 0;
        while j < depth && j < ask_entries.len()
            invariant
                j <= ask_entries.len(),
                j <= depth,
                asks@ == ask_entries@.take(j as int).map_values(|e: (i64, V)| e.1),
            decreases ask_entries.len() - j,
        {
            asks.push(ask_entries[j].1);
            j = j + 1;
            proof {
                assert(asks@ =~= ask_entries@.take(j as int).map_values(|e: (i64, V)| e.1));
            }
        }
        proof {
            assert(bid_entries@.reverse().take(i as int) =~= first_n(bid_entries@.reverse(), depth as int));
            assert(ask_entries@.take(j as int) =~= first_n(ask_entries@, depth as int));
        }
        BookSnapshot {
            instrument_name: self.instrument_name.clone(),
            bids,
            asks,
            timestamp: self.timestamp,
        }
    }
}

proof fn assert_not_empty_listing<V>(s: Seq<(i64, V)>, m: Map<i64, V>)
    requires
        is_ascending_listing(s, m),
        s.len() == 0,
    ensures
        m.dom().is_empty(),
{
    assert forall|k: i64| !m.dom().contains(k) by {
        if m.contains_key(k) {
            let i = choose|i: int| 0 <= i < s.len() && s[i].0 == k;
        }
    }
    assert(m.dom() =~= Set::empty());
}

fn apply_levels<V: Copy>(m: &mut BTreeMap<i64, V>, levels: &[LevelUpdate<V>], remove_empty: bool)
    ensures
        final(m)@ == applied(old(m)@, levels@, remove_empty),
{
    let ghost start = m@;
    let mut i: usize = 0;
    while i < levels.len()
        invariant
            i <= levels.len(),
            m@ == applied(start, levels@.take(i as int), remove_empty),
        decreases levels.len() - i,
    {
        proof {
            assert(levels@.take(i as int + 1).drop_last() =~= levels@.take(i as int));
        }
        let (key, level) = levels[i];
        match level {
            Some(v) => {
                m.insert(key, v);
            },
            None => {
                if remove_empty {
                    m.remove(&key);
                }
            },
        }
        i = i + 1;
    }
    proof {
        assert(levels@.take(i as int) =~= levels@);
    }
}

} // verus!
