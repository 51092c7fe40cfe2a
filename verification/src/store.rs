//! A keyed store: the model of a contract's storage entries of one kind.

use vstd::prelude::*;
use crate::address::StoreKey;

verus! {

/// Entries kept under distinct keys, compared by the keys' views.
#[derive(Debug)]
pub struct KeyMap<Key, Val> {
    entries: Vec<(Key, Val)>,
}

impl<Key: StoreKey, Val> KeyMap<Key, Val> {
    /// No key occurs twice.
    pub closed spec fn wf(&self) -> bool {
        forall|i: int, j: int|
            0 <= i < self.entries@.len() && 0 <= j < self.entries@.len() && i != j
                ==> #[trigger] self.entries@[i].0@ != #[trigger] self.entries@[j].0@
    }

    pub closed spec fn has_at(&self, k: Key::V, i: int) -> bool {
        0 <= i < self.entries@.len() && self.entries@[i].0@ == k
    }

    pub closed spec fn slot(&self, k: Key::V) -> int {
        choose|i: int| self.has_at(k, i)
    }

    /// The stored entries as a map from key views to values.
    pub closed spec fn map(&self) -> Map<Key::V, Val> {
        Map::new(|k: Key::V| exists|i: int| self.has_at(k, i), |k: Key::V| self.entries@[self.slot(k)].1)
    }

    proof fn lemma_slot(&self, k: Key::V, i: int)
        requires
            self.wf(),
            self.has_at(k, i),
        ensures
            self.slot(k) == i,
            self.map().contains_key(k),
            self.map()[k] == self.entries@[i].1,
    {
        let j = self.slot(k);
        assert(self.has_at(k, j));
        if j != i {
            assert(self.entries@[i].0@ != self.entries@[j].0@);
        }
    }

    /// An empty store.
    pub fn new() -> (m: Self)
        ensures
            m.wf(),
            m.map() == Map::<Key::V, Val>::empty(),
            m.entries() == Seq::<(Key, Val)>::empty(),
    {
        let m = KeyMap { entries: Vec::new() };
        assert(m.map() =~= Map::<Key::V, Val>::empty());
        m
    }

    fn find(&self, k: &Key) -> (r: Option<usize>)
        requires
            self.wf(),
        ensures
            match r {
                Some(i) => self.has_at(k@, i as int),
                None => !self.map().contains_key(k@),
            },
    {
        let n = self.entries.len();
        let mut i: usize = 0;
        while i < n
            invariant
                n == self.entries@.len(),
                i <= n,
                forall|j: int| 0 <= j < i ==> !self.has_at(k@, j),
            decreases n - i,
        {
            if self.entries[i].0.same_key(k) {
                return Some(i);
            }
            i = i + 1;
        }
        None
    }

    /// Tells whether a value is stored under the key.
    pub fn contains_key(&self, k: &Key) -> (r: bool)
        requires
            self.wf(),
        ensures
            r == self.map().contains_key(k@),
    {
        match self.find(k) {
            Some(i) => {
                proof { self.lemma_slot(k@, i as int); }
                true
            },
            None => false,
        }
    }

    /// The value stored under the key, if any.
    pub fn get(&self, k: &Key) -> (r: Option<&Val>)
        requires
            self.wf(),
        ensures
            match r {
                Some(v) => self.map().contains_key(k@) && *v == self.map()[k@],
                None => !self.map().contains_key(k@),
            },
    {
        match self.find(k) {
            Some(i) => {
                proof { self.lemma_slot(k@, i as int); }
                Some(&self.entries[i].1)
            },
            None => None,
        }
    }

    /// Stores a value under the key, replacing the one stored before.
    pub fn insert(&mut self, k: Key, v: Val)
        requires
            old(self).wf(),
        ensures
            final(self).wf(),
            final(self).map() == old(self).map().insert(k@, v),
            old(self).map().contains_key(k@) ==> exists|i: int|
                0 <= i < old(self).entries().len() && (#[trigger] old(self).entries()[i]).0@ == k@
                    && final(self).entries() == old(self).entries().update(i, (k, v)),
            !old(self).map().contains_key(k@) ==> final(self).entries() == old(self).entries().push((k, v)),
    {
        let ghost old_self = *self;
        let ghost kv = k@;
        match self.find(&k) {
            Some(i) => {
                let ghost pair = (k, v);
                self.entries.set(i, (k, v));
                assert(self.entries@ == old_self.entries@.update(i as int, pair));
                assert(old_self.entries()[i as int].0@ == kv);
                assert(self.wf()) by {
                    assert forall|a: int, b: int|
                        0 <= a < self.entries@.len() && 0 <= b < self.entries@.len() && a != b
                            implies #[trigger] self.entries@[a].0@ != #[trigger] self.entries@[b].0@ by {
                        assert(old_self.entries@[a].0@ != old_self.entries@[b].0@);
                    }
                }
                assert forall|key: Key::V| #![trigger old_self.map().insert(kv, v).contains_key(key)]
                    (exists|j: int| self.has_at(key, j)) == old_self.map().insert(kv, v).contains_key(key) by {
                    if key != kv && old_self.map().contains_key(key) {
                        let j = choose|j: int| old_self.has_at(key, j);
                        assert(self.has_at(key, j));
                    }
                    if key == kv {
                        assert(self.has_at(key, i as int));
                    }
                    if exists|j: int| self.has_at(key, j) {
                        let j = choose|j: int| self.has_at(key, j);
                        if j != i {
                            assert(old_self.has_at(key, j));
                        }
                    }
                }
                assert forall|key: Key::V| #[trigger] old_self.map().insert(kv, v).contains_key(key)
                    implies self.entries@[self.slot(key)].1 == old_self.map().insert(kv, v)[key] by {
                    if key == kv {
                        assert(self.has_at(key, i as int));
                        self.lemma_slot(key, i as int);
                    } else {
                        let j = choose|j: int| old_self.has_at(key, j);
                        old_self.lemma_slot(key, j);
                        assert(self.has_at(key, j));
                        self.lemma_slot(key, j);
                    }
                }
                assert(self.map() =~= old_self.map().insert(kv, v));
            },
            None => {
                self.entries.push((k, v));
                let ghost n = old_self.entries@.len() as int;
                assert(self.wf()) by {
                    assert forall|a: int, b: int|
                        0 <= a < self.entries@.len() && 0 <= b < self.entries@.len() && a != b
                            implies #[trigger] self.entries@[a].0@ != #[trigger] self.entries@[b].0@ by {
                        if a == n {
                            assert(!old_self.has_at(kv, b));
                        } else if b == n {
                            assert(!old_self.has_at(kv, a));
                        } else {
                            assert(old_self.entries@[a].0@ != old_self.entries@[b].0@);
                        }
                    }
                }
                assert forall|key: Key::V| #![trigger old_self.map().insert(kv, v).contains_key(key)]
                    (exists|j: int| self.has_at(key, j)) == old_self.map().insert(kv, v).contains_key(key) by {
                    if key != kv && old_self.map().contains_key(key) {
                        let j = choose|j: int| old_self.has_at(key, j);
                        assert(self.has_at(key, j));
                    }
                    if key == kv {
                        assert(self.has_at(key, n));
                    }
                    if exists|j: int| self.has_at(key, j) {
                        let j = choose|j: int| self.has_at(key, j);
                        if j < n {
                            assert(old_self.has_at(key, j));
                        }
                    }
                }
                assert forall|key: Key::V| #[trigger] old_self.map().insert(kv, v).contains_key(key)
                    implies self.entries@[self.slot(key)].1 == old_self.map().insert(kv, v)[key] by {
                    if key == kv {
                        assert(self.has_at(key, n));
                        self.lemma_slot(key, n);
                    } else {
                        let j = choose|j: int| old_self.has_at(key, j);
                        old_self.lemma_slot(key, j);
                        assert(self.has_at(key, j));
                        self.lemma_slot(key, j);
                    }
                }
                assert(self.map() =~= old_self.map().insert(kv, v));
            },
        }
    }

    /// Removes the value stored under the key, if any.
    pub fn remove(&mut self, k: &Key)
        requires
            old(self).wf(),
        ensures
            final(self).wf(),
            final(self).map() == old(self).map().remove(k@),
            old(self).map().contains_key(k@) ==> exists|i: int|
                0 <= i < old(self).entries().len() && (#[trigger] old(self).entries()[i]).0@ == k@
                    && final(self).entries() == old(self).entries().remove(i),
            !old(self).map().contains_key(k@) ==> final(self).entries() == old(self).entries(),
    {
        let ghost old_self = *self;
        let ghost kv = k@;
        match self.find(k) {
            Some(i) => {
                let _ = self.entries.remove(i);
                let ghost ii = i as int;
                assert(self.entries@ == old_self.entries@.remove(ii));
                assert(old_self.entries()[ii].0@ == kv);
                assert(self.wf()) by {
                    assert forall|a: int, b: int|
                        0 <= a < self.entries@.len() && 0 <= b < self.entries@.len() && a != b
                            implies #[trigger] self.entries@[a].0@ != #[trigger] self.entries@[b].0@ by {
                        let oa = if a < ii { a } else { a + 1 };
                        let ob = if b < ii { b } else { b + 1 };
                        assert(self.entries@[a] == old_self.entries@[oa]);
                        assert(self.entries@[b] == old_self.entries@[ob]);
                        assert(old_self.entries@[oa].0@ != old_self.entries@[ob].0@);
                    }
                }
                assert forall|key: Key::V| #![trigger old_self.map().remove(kv).contains_key(key)]
                    (exists|j: int| self.has_at(key, j)) == old_self.map().remove(kv).contains_key(key) by {
                    if key != kv && old_self.map().contains_key(key) {
                        let j = choose|j: int| old_self.has_at(key, j);
                        assert(j != ii);
                        let nj = if j < ii { j } else { j - 1 };
                        assert(self.entries@[nj] == old_self.entries@[j]);
                        assert(self.has_at(key, nj));
                    }
                    if exists|j: int| self.has_at(key, j) {
                        let j = choose|j: int| self.has_at(key, j);
                        let oj = if j < ii { j } else { j + 1 };
                        assert(self.entries@[j] == old_self.entries@[oj]);
                        assert(old_self.has_at(key, oj));
                        if key == kv {
                            old_self.lemma_slot(kv, ii);
                            old_self.lemma_slot(kv, oj);
                        }
                    }
                }
                assert forall|key: Key::V| #[trigger] old_self.map().remove(kv).contains_key(key)
                    implies self.entries@[self.slot(key)].1 == old_self.map().remove(kv)[key] by {
                    let j = choose|j: int| old_self.has_at(key, j);
                    old_self.lemma_slot(key, j);
                    assert(j != ii);
                    let nj = if j < ii { j } else { j - 1 };
                    assert(self.entries@[nj] == old_self.entries@[j]);
                    assert(self.has_at(key, nj));
                    self.lemma_slot(key, nj);
                }
                assert(self.map().dom() =~= old_self.map().remove(kv).dom());
                assert(self.map() =~= old_self.map().remove(kv));
            },
            None => {
                assert(!old_self.map().dom().contains(kv));
                assert(old_self.map().remove(kv).dom() =~= old_self.map().dom());
                assert(self.map() =~= old_self.map().remove(kv));
            },
        }
    }
}

impl<Key: StoreKey + Copy, Val: Copy> KeyMap<Key, Val> {
    /// A copy of the store.
    pub fn duplicate(&self) -> (r: Self)
        requires
            self.wf(),
        ensures
            r.wf(),
            r.map() == self.map(),
            r.entries() == self.entries(),
    {
        let mut entries: Vec<(Key, Val)> = Vec::new();
        let n = self.entries.len();
        let mut i: usize = 0;
        while i < n
            invariant
                n == self.entries@.len(),
                i <= n,
                entries@ == self.entries@.subrange(0, i as int),
            decreases n - i,
        {
            let e = self.entries[i];
            entries.push(e);
            i = i + 1;
            assert(entries@ =~= self.entries@.subrange(0, i as int));
        }
        assert(entries@ =~= self.entries@);
        let r = KeyMap { entries };
        assert forall|k: Key::V| #![trigger r.map().contains_key(k)]
            r.map().contains_key(k) == self.map().contains_key(k) by {
            if exists|j: int| self.has_at(k, j) {
                let j = choose|j: int| self.has_at(k, j);
                assert(r.has_at(k, j));
            }
            if exists|j: int| r.has_at(k, j) {
                let j = choose|j: int| r.has_at(k, j);
                assert(self.has_at(k, j));
            }
        }
        assert forall|k: Key::V| #[trigger] self.map().contains_key(k) implies r.map()[k] == self.map()[k] by {
            let j = choose|j: int| self.has_at(k, j);
            assert(r.has_at(k, j));
            self.lemma_slot(k, j);
            r.lemma_slot(k, j);
        }
        assert(r.map() =~= self.map());
        r
    }
}

impl<Key: StoreKey, Val> KeyMap<Key, Val> {
    /// The stored entries, in the order they were first stored.
    pub closed spec fn entries(&self) -> Seq<(Key, Val)> {
        self.entries@
    }

    /// The entries are the map's contents, each key once.
    pub proof fn lemma_entries(&self)
        requires
            self.wf(),
        ensures
            forall|i: int| 0 <= i < self.entries().len() ==> self.map().contains_key(#[trigger] self.entries()[i].0@)
                && self.map()[self.entries()[i].0@] == self.entries()[i].1,
            forall|k: Key::V| #[trigger] self.map().contains_key(k) ==> exists|i: int|
                0 <= i < self.entries().len() && self.entries()[i].0@ == k,
            forall|i: int, j: int| 0 <= i < self.entries().len() && 0 <= j < self.entries().len() && i != j
                ==> #[trigger] self.entries()[i].0@ != #[trigger] self.entries()[j].0@,
    {
        assert forall|i: int| 0 <= i < self.entries().len() implies self.map().contains_key(#[trigger] self.entries()[i].0@)
            && self.map()[self.entries()[i].0@] == self.entries()[i].1 by {
            self.lemma_slot(self.entries@[i].0@, i);
        }
        assert forall|k: Key::V| #[trigger] self.map().contains_key(k) implies exists|i: int|
            0 <= i < self.entries().len() && self.entries()[i].0@ == k by {
            let i = choose|i: int| self.has_at(k, i);
            assert(self.has_at(k, i));
            assert(self.entries()[i].0@ == k);
            assert(0 <= i < self.entries().len());
        }
    }

    /// The number of entries.
    pub fn len(&self) -> (r: usize)
        ensures
            r == self.entries().len(),
    {
        self.entries.len()
    }

    /// The entry at position `i`.
    pub fn entry_at(&self, i: usize) -> (r: (&Key, &Val))
        requires
            i < self.entries().len(),
        ensures
            *r.0 == self.entries()[i as int].0,
            *r.1 == self.entries()[i as int].1,
    {
        let e = &self.entries[i];
        (&e.0, &e.1)
    }
}

/// The views of the entries of a store of byte strings.
pub open spec fn byte_entries(entries: Seq<(Vec<u8>, Vec<u8>)>) -> Seq<(Seq<u8>, Seq<u8>)> {
    entries.map_values(|e: (Vec<u8>, Vec<u8>)| (e.0@, e.1@))
}

impl KeyMap<Vec<u8>, Vec<u8>> {
    /// A copy of a store of byte strings.
    pub fn duplicate_bytes(&self) -> (r: Self)
        requires
            self.wf(),
        ensures
            r.wf(),
            byte_entries(r.entries()) == byte_entries(self.entries()),
    {
        let mut entries: Vec<(Vec<u8>, Vec<u8>)> = Vec::new();
        let n = self.entries.len();
        let mut i: usize = 0;
        while i < n
            invariant
                n == self.entries@.len(),
                i <= n,
                entries@.len() == i,
                forall|j: int| 0 <= j < i ==> (#[trigger] entries@[j]).0@ == self.entries@[j].0@
                    && entries@[j].1@ == self.entries@[j].1@,
            decreases n - i,
        {
            let k = crate::address::copy_bytes(&self.entries[i].0);
            let v = crate::address::copy_bytes(&self.entries[i].1);
            entries.push((k, v));
            i = i + 1;
        }
        let r = KeyMap { entries };
        assert(r.wf()) by {
            assert forall|a: int, b: int|
                0 <= a < r.entries@.len() && 0 <= b < r.entries@.len() && a != b
                    implies #[trigger] r.entries@[a].0@ != #[trigger] r.entries@[b].0@ by {
                assert(self.entries@[a].0@ != self.entries@[b].0@);
            }
        }
        assert(byte_entries(r.entries()) =~= byte_entries(self.entries()));
        r
    }
}

} // verus!
