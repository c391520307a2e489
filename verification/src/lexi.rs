//! Lexicographic order on text, and a stable sort of indices by text keys.

use vstd::prelude::*;

verus! {

/// Whether `a` comes strictly before `b`: the first differing character is
/// smaller in `a`, or `a` is a proper prefix of `b`. For valid UTF-8 this is
/// the order of `str`'s `<`, which compares bytes.
pub open spec fn text_lt(a: Seq<char>, b: Seq<char>) -> bool
    decreases a.len(),
{
    if b.len() == 0 {
        false
    } else if a.len() == 0 {
        true
    } else if a[0] != b[0] {
        (a[0] as int) < (b[0] as int)
    } else {
        text_lt(a.drop_first(), b.drop_first())
    }
}

/// No text comes before itself, and `text_lt` is asymmetric.
pub proof fn lemma_text_lt_asymmetric(a: Seq<char>, b: Seq<char>)
    ensures
        !(text_lt(a, b) && text_lt(b, a)),
        !text_lt(a, a),
    decreases a.len(),
{
    if a.len() > 0 && b.len() > 0 && a[0] == b[0] {
        lemma_text_lt_asymmetric(a.drop_first(), b.drop_first());
    }
    if a.len() > 0 {
        lemma_text_lt_asymmetric(a.drop_first(), a.drop_first());
    }
}

/// Of two different texts one comes before the other.
pub proof fn lemma_text_lt_total(a: Seq<char>, b: Seq<char>)
    requires
        a != b,
    ensures
        text_lt(a, b) || text_lt(b, a),
    decreases a.len(),
{
    if a.len() == 0 && b.len() == 0 {
        assert(a =~= b);
    } else if a.len() > 0 && b.len() > 0 && a[0] == b[0] {
        if a.drop_first() == b.drop_first() {
            assert(a =~= seq![a[0]] + a.drop_first());
            assert(b =~= seq![b[0]] + b.drop_first());
        }
        lemma_text_lt_total(a.drop_first(), b.drop_first());
    } else if a.len() > 0 && b.len() > 0 {
        assert((a[0] as int) != (b[0] as int));
    }
}

/// `text_lt` is transitive.
pub proof fn lemma_text_lt_transitive(a: Seq<char>, b: Seq<char>, c: Seq<char>)
    requires
        text_lt(a, b),
        text_lt(b, c),
    ensures
        text_lt(a, c),
    decreases a.len(),
{
    if a.len() > 0 && a[0] == b[0] && b[0] == c[0] {
        lemma_text_lt_transitive(a.drop_first(), b.drop_first(), c.drop_first());
    }
}

/// Whether index `i` comes before index `j` when indices are ordered by
/// their keys and, between equal keys, by position.
pub open spec fn key_before(keys: Seq<Seq<char>>, i: int, j: int) -> bool {
    text_lt(keys[i], keys[j]) || (keys[i] == keys[j] && i < j)
}

/// Whether `p` lists each index of `keys` exactly once, in the order of a
/// stable sort by key.
pub open spec fn is_stable_order(p: Seq<usize>, keys: Seq<Seq<char>>) -> bool {
    &&& p.len() == keys.len()
    &&& forall|i: int| 0 <= i < p.len() ==> (#[trigger] p[i]) < keys.len()
    &&& forall|x: usize| x < keys.len() ==> #[trigger] p.contains(x)
    &&& forall|i: int, j: int| 0 <= i < j < p.len() ==> key_before(keys, #[trigger] p[i] as int, #[trigger] p[j] as int)
}

proof fn lemma_key_before_asymmetric(keys: Seq<Seq<char>>, i: int, j: int)
    ensures
        !(key_before(keys, i, j) && key_before(keys, j, i)),
{
    lemma_text_lt_asymmetric(keys[i], keys[j]);
}

proof fn lemma_sorted_lists_equal(p1: Seq<usize>, p2: Seq<usize>, keys: Seq<Seq<char>>)
    requires
        p1.len() == p2.len(),
        forall|i: int, j: int| 0 <= i < j < p1.len() ==> key_before(keys, #[trigger] p1[i] as int, #[trigger] p1[j] as int),
        forall|i: int, j: int| 0 <= i < j < p2.len() ==> key_before(keys, #[trigger] p2[i] as int, #[trigger] p2[j] as int),
        forall|x: usize| p1.contains(x) <==> p2.contains(x),
    ensures
        p1 == p2,
    decreases p1.len(),
{
    if p1.len() == 0 {
        assert(p1 =~= p2);
    } else {
        let x = p1[0];
        let y = p2[0];
        assert(p1.contains(x));
        assert(p2.contains(y));
        let j = choose|j: int| 0 <= j < p2.len() && p2[j] == x;
        let k = choose|k: int| 0 <= k < p1.len() && p1[k] == y;
        if x != y {
            assert(j != 0 && k != 0);
            assert(key_before(keys, y as int, x as int));
            assert(key_before(keys, x as int, y as int));
            lemma_key_before_asymmetric(keys, x as int, y as int);
        }
        let t1 = p1.drop_first();
        let t2 = p2.drop_first();
        assert forall|z: usize| t1.contains(z) implies t2.contains(z) by {
            let a = choose|a: int| 0 <= a < t1.len() && t1[a] == z;
            assert(p1[a + 1] == z);
            assert(key_before(keys, x as int, z as int));
            lemma_key_before_asymmetric(keys, x as int, z as int);
            assert(p2.contains(z));
            let b = choose|b: int| 0 <= b < p2.len() && p2[b] == z;
            assert(b != 0);
            assert(t2[b - 1] == z);
        }
        assert forall|z: usize| t2.contains(z) implies t1.contains(z) by {
            let a = choose|a: int| 0 <= a < t2.len() && t2[a] == z;
            assert(p2[a + 1] == z);
            assert(key_before(keys, y as int, z as int));
            lemma_key_before_asymmetric(keys, y as int, z as int);
            assert(p1.contains(z));
            let b = choose|b: int| 0 <= b < p1.len() && p1[b] == z;
            assert(b != 0);
            assert(t1[b - 1] == z);
        }
        assert forall|i: int, j: int| 0 <= i < j < t1.len() implies key_before(keys, #[trigger] t1[i] as int, #[trigger] t1[j] as int) by {
            assert(key_before(keys, p1[i + 1] as int, p1[j + 1] as int));
        }
        assert forall|i: int, j: int| 0 <= i < j < t2.len() implies key_before(keys, #[trigger] t2[i] as int, #[trigger] t2[j] as int) by {
            assert(key_before(keys, p2[i + 1] as int, p2[j + 1] as int));
        }
        lemma_sorted_lists_equal(t1, t2, keys);
        assert(p1 =~= seq![x] + t1);
        assert(p2 =~= seq![y] + t2);
    }
}

/// A stable sort by key has exactly one outcome.
pub proof fn lemma_stable_order_unique(p1: Seq<usize>, p2: Seq<usize>, keys: Seq<Seq<char>>)
    requires
        is_stable_order(p1, keys),
        is_stable_order(p2, keys),
    ensures
        p1 == p2,
{
    assert forall|x: usize| p1.contains(x) implies p2.contains(x) by {
        let i = choose|i: int| 0 <= i < p1.len() && p1[i] == x;
        assert(p1[i] < keys.len());
    }
    assert forall|x: usize| p2.contains(x) implies p1.contains(x) by {
        let i = choose|i: int| 0 <= i < p2.len() && p2[i] == x;
        assert(p2[i] < keys.len());
    }
    lemma_sorted_lists_equal(p1, p2, keys);
}

/// Whether `a` comes strictly before `b`.
pub fn chars_lt(a: &[char], b: &[char]) -> (r: bool)
    ensures
        r == text_lt(a@, b@),
{
    let mut i: usize = 0;
    assert(a@.subrange(0, a@.len() as int) =~= a@);
    assert(b@.subrange(0, b@.len() as int) =~= b@);
    while i < a.len() && i < b.len()
        invariant
            i <= a@.len(),
            i <= b@.len(),
            text_lt(a@, b@) == text_lt(a@.subrange(i as int, a@.len() as int), b@.subrange(i as int, b@.len() as int)),
        decreases a.len() - i,
    {
        let ca = a[i];
        let cb = b[i];
        proof {
            let sa = a@.subrange(i as int, a@.len() as int);
            let sb = b@.subrange(i as int, b@.len() as int);
            assert(sa[0] == ca && sb[0] == cb);
            assert(sa.drop_first() =~= a@.subrange(i + 1, a@.len() as int));
            assert(sb.drop_first() =~= b@.subrange(i + 1, b@.len() as int));
        }
        if ca != cb {
            return ca < cb;
        }
        i = i + 1;
    }
    i < b.len()
}

/// The stable sort of the indices of `keys` by key.
pub fn stable_order(keys: &Vec<Vec<char>>) -> (p: Vec<usize>)
    ensures
        is_stable_order(p@, keys@.map_values(|k: Vec<char>| k@)),
{
    let ghost ks = keys@.map_values(|k: Vec<char>| k@);
    let mut p: Vec<usize> = Vec::new();
    let mut i: usize = 0;
    while i < keys.len()
        invariant
            i <= keys.len(),
            ks == keys@.map_values(|k: Vec<char>| k@),
            p@.len() == i,
            forall|a: int| 0 <= a < p@.len() ==> (#[trigger] p@[a]) < i,
            forall|x: usize| x < i ==> #[trigger] p@.contains(x),
            forall|a: int, b: int| 0 <= a < b < p@.len() ==> key_before(ks, #[trigger] p@[a] as int, #[trigger] p@[b] as int),
        decreases keys.len() - i,
    {
        // The new index goes after every element whose key it does not precede.
        let mut pos: usize = p.len();
        while pos > 0 && chars_lt(keys[i].as_slice(), keys[p[pos - 1]].as_slice())
            invariant
                pos <= p@.len(),
                i < keys.len(),
                ks == keys@.map_values(|k: Vec<char>| k@),
                forall|a: int| 0 <= a < p@.len() ==> (#[trigger] p@[a]) < i,
                forall|a: int| pos <= a < p@.len() ==> text_lt(ks[i as int], ks[#[trigger] p@[a] as int]),
            decreases pos,
        {
            pos = pos - 1;
        }
        proof {
            assert forall|a: int| 0 <= a < pos implies key_before(ks, #[trigger] p@[a] as int, i as int) by {
                let last = pos - 1;
                if a < last {
                    assert(key_before(ks, p@[a] as int, p@[last] as int));
                }
                let kl = ks[p@[last] as int];
                let ki = ks[i as int];
                assert(!text_lt(ki, kl));
                if kl != ki {
                    lemma_text_lt_total(kl, ki);
                }
                if a < last {
                    let ka = ks[p@[a] as int];
                    if text_lt(ka, kl) && text_lt(kl, ki) {
                        lemma_text_lt_transitive(ka, kl, ki);
                    } else if text_lt(ka, kl) {
                        assert(kl == ki);
                    }
                }
            }
        }
        let ghost old_p = p@;
        p.insert(pos, i);
        proof {
            assert(p@ =~= old_p.insert(pos as int, i));
            assert forall|a: int, b: int| 0 <= a < b < p@.len() implies key_before(ks, #[trigger] p@[a] as int, #[trigger] p@[b] as int) by {
                if a < pos && b < pos {
                    assert(p@[a] == old_p[a] && p@[b] == old_p[b]);
                } else if a < pos && b == pos {
                } else if a < pos {
                    assert(p@[a] == old_p[a] && p@[b] == old_p[b - 1]);
                } else if a == pos {
                    assert(p@[b] == old_p[b - 1]);
                    assert(text_lt(ks[i as int], ks[old_p[b - 1] as int]));
                } else {
                    assert(p@[a] == old_p[a - 1] && p@[b] == old_p[b - 1]);
                }
            }
            assert forall|x: usize| x < i + 1 implies #[trigger] p@.contains(x) by {
                if x == i {
                    assert(p@[pos as int] == x);
                } else {
                    assert(old_p.contains(x));
                    let a = choose|a: int| 0 <= a < old_p.len() && old_p[a] == x;
                    if a < pos {
                        assert(p@[a] == x);
                    } else {
                        assert(p@[a + 1] == x);
                    }
                }
            }
        }
        i = i + 1;
    }
    p
}

} // verus!
