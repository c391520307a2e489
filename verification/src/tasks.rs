//! A table of running background tasks: each is registered under a key
//! made of text parts, with the handle that stops it; no key is held twice.

use vstd::prelude::*;
use crate::text::str_eq;

verus! {

/// The text parts of a key.
pub open spec fn key_view(key: Vec<String>) -> Seq<Seq<char>> {
    key@.map_values(|s: String| s@)
}

/// Whether two keys have the same parts.
pub fn same_key(a: &Vec<String>, b: &Vec<String>) -> (r: bool)
    ensures
        r == (key_view(*a) == key_view(*b)),
{
    if a.len() != b.len() {
        proof {
            assert(key_view(*a).len() != key_view(*b).len());
        }
        return false;
    }
    let mut i: usize = 0;
    while i < a.len()
        invariant
            a@.len() == b@.len(),
            i <= a@.len(),
            forall|j: int| 0 <= j < i ==> (#[trigger] a@[j])@ == b@[j]@,
        decreases a.len() - i,
    {
        if !str_eq(a[i].as_str(), b[i].as_str()) {
            proof {
                assert(key_view(*a)[i as int] != key_view(*b)[i as int]);
            }
            return false;
        }
        i = i + 1;
    }
    proof {
        assert(key_view(*a) =~= key_view(*b));
    }
    true
}

/// Running tasks by key.
pub struct TaskTable<H> {
    entries: Vec<(Vec<String>, H)>,
}

impl<H> TaskTable<H> {
    /// The keys, in the order their tasks were registered.
    pub closed spec fn keys(&self) -> Seq<Seq<Seq<char>>> {
        self.entries@.map_values(|e: (Vec<String>, H)| key_view(e.0))
    }

    /// The handles, in the same order as the keys.
    pub closed spec fn handles(&self) -> Seq<H> {
        self.entries@.map_values(|e: (Vec<String>, H)| e.1)
    }

    /// No key is held twice.
    pub open spec fn wf(&self) -> bool {
        &&& self.keys().no_duplicates()
        &&& self.keys().len() == self.handles().len()
    }

    /// An empty table.
    pub fn new() -> (t: Self)
        ensures
            t.wf(),
            t.keys() == Seq::<Seq<Seq<char>>>::empty(),
            t.handles() == Seq::<H>::empty(),
    {
        let t = TaskTable { entries: Vec::new() };
        assert(t.keys() =~= Seq::<Seq<Seq<char>>>::empty());
        assert(t.handles() =~= Seq::<H>::empty());
        t
    }

    /// The number of running tasks.
    pub fn len(&self) -> (n: usize)
        ensures
            n == self.keys().len(),
    {
        self.entries.len()
    }

    /// Where a key is held, if it is.
    pub fn position(&self, key: &Vec<String>) -> (r: Option<usize>)
        ensures
            match r {
                Some(i) => i < self.keys().len() && self.keys()[i as int] == key_view(*key),
                None => !self.keys().contains(key_view(*key)),
            },
    {
        let mut i: usize = 0;
        while i < self.entries.len()
            invariant
                i <= self.entries@.len(),
                forall|j: int| 0 <= j < i ==> self.keys()[j] != key_view(*key),
            decreases self.entries.len() - i,
        {
            if same_key(&self.entries[i].0, key) {
                return Some(i);
            }
            i = i + 1;
        }
        proof {
            if self.keys().contains(key_view(*key)) {
                let j = choose|j: int| 0 <= j < self.keys().len() && self.keys()[j] == key_view(*key);
                assert(self.keys()[j] != key_view(*key));
            }
        }
        None
    }

    /// Whether a task runs under `key`.
    pub fn contains(&self, key: &Vec<String>) -> (r: bool)
        ensures
            r == self.keys().contains(key_view(*key)),
    {
        match self.position(key) {
            Some(i) => {
                proof {
                    assert(self.keys()[i as int] == key_view(*key));
                }
                true
            },
            None => false,
        }
    }

    /// Registers a task under a key that is not held yet.
    pub fn insert_new(&mut self, key: Vec<String>, handle: H)
        requires
            old(self).wf(),
            !old(self).keys().contains(key_view(key)),
        ensures
            final(self).wf(),
            final(self).keys() == old(self).keys().push(key_view(key)),
            final(self).handles() == old(self).handles().push(handle),
    {
        let ghost kv = key_view(key);
        self.entries.push((key, handle));
        proof {
            assert(self.keys() =~= old(self).keys().push(kv));
            assert(self.handles() =~= old(self).handles().push(handle));
            assert forall|a: int, b: int| 0 <= a < b < self.keys().len() implies self.keys()[a] != self.keys()[b] by {
                if b == self.keys().len() - 1 {
                    assert(old(self).keys()[a] == self.keys()[a]);
                }
            }
        }
    }

    /// Takes out the task under `key`: its handle, where one was held.
    pub fn remove(&mut self, key: &Vec<String>) -> (r: Option<H>)
        requires
            old(self).wf(),
        ensures
            final(self).wf(),
            match r {
                Some(h) => exists|i: int|
                    0 <= i < old(self).keys().len()
                    && old(self).keys()[i] == key_view(*key)
                    && h == old(self).handles()[i]
                    && final(self).keys() == old(self).keys().remove(i)
                    && final(self).handles() == old(self).handles().remove(i),
                None => !old(self).keys().contains(key_view(*key))
                    && final(self).keys() == old(self).keys()
                    && final(self).handles() == old(self).handles(),
            },
            !final(self).keys().contains(key_view(*key)),
    {
        match self.position(key) {
            Some(i) => {
                let ghost ks = self.keys();
                let ghost hs = self.handles();
                let (_, h) = self.entries.remove(i);
                proof {
                    assert(self.keys() =~= ks.remove(i as int));
                    assert(self.handles() =~= hs.remove(i as int));
                    assert forall|a: int, b: int| 0 <= a < b < self.keys().len() implies self.keys()[a] != self.keys()[b] by {
                        let oa = if a < i { a } else { a + 1 };
                        let ob = if b < i { b } else { b + 1 };
                        assert(self.keys()[a] == ks[oa]);
                        assert(self.keys()[b] == ks[ob]);
                    }
                    if self.keys().contains(key_view(*key)) {
                        let j = choose|j: int| 0 <= j < self.keys().len() && self.keys()[j] == key_view(*key);
                        let oj = if j < i { j } else { j + 1 };
                        assert(ks[oj] == key_view(*key));
                        assert(ks[i as int] == key_view(*key));
                    }
                }
                Some(h)
            },
            None => None,
        }
    }

    /// Takes out every task: their handles, in the order registered.
    pub fn drain(&mut self) -> (r: Vec<H>)
        requires
            old(self).wf(),
        ensures
            final(self).wf(),
            r@ == old(self).handles(),
            final(self).keys() == Seq::<Seq<Seq<char>>>::empty(),
    {
        let ghost hs = self.handles();
        let mut taken: Vec<(Vec<String>, H)> = Vec::new();
        std::mem::swap(&mut taken, &mut self.entries);
        let ghost all = taken@;
        let mut out: Vec<H> = Vec::new();
        while taken.len() > 0
            invariant
                hs == all.map_values(|e: (Vec<String>, H)| e.1),
                out@.len() + taken@.len() == all.len(),
                taken@ == all.subrange(out@.len() as int, all.len() as int),
                out@ == hs.subrange(0, out@.len() as int),
            decreases taken.len(),
        {
            let ghost n = out@.len() as int;
            let (_, h) = taken.remove(0);
            out.push(h);
            proof {
                assert(taken@ =~= all.subrange(n + 1, all.len() as int));
                assert(out@ =~= hs.subrange(0, n + 1));
            }
        }
        proof {
            assert(out@ =~= hs);
            assert(self.keys() =~= Seq::<Seq<Seq<char>>>::empty());
        }
        out
    }
}

/// Removing the key that was just registered gives the table back: in a
/// table without `k`, `k` sits only at the end once pushed, and removing
/// that place restores the keys and the handles.
pub proof fn lemma_insert_then_remove<H>(keys: Seq<Seq<Seq<char>>>, handles: Seq<H>, k: Seq<Seq<char>>, h: H)
    requires
        !keys.contains(k),
    ensures
        forall|i: int| 0 <= i < keys.len() + 1 && #[trigger] keys.push(k)[i] == k ==> i == keys.len(),
        keys.push(k).remove(keys.len() as int) == keys,
        handles.push(h).remove(handles.len() as int) == handles,
{
    assert forall|i: int| 0 <= i < keys.len() + 1 && #[trigger] keys.push(k)[i] == k implies i == keys.len() by {
        if i < keys.len() {
            assert(keys[i] == k);
        }
    }
    assert(keys.push(k).remove(keys.len() as int) =~= keys);
    assert(handles.push(h).remove(handles.len() as int) =~= handles);
}

} // verus!
