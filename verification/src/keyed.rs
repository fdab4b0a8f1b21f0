//! An insertion-ordered map with unique keys, the backing store of the
//! library's registries (storage entries, indices, peers, rooms, ...).

use vstd::prelude::*;

verus! {

/// Keys that can be compared and copied with a known meaning.
pub trait MapKey: View + Sized {
    fn key_eq(&self, other: &Self) -> (r: bool)
        ensures
            r == (self@ == other@),
    ;

    fn key_copy(&self) -> (r: Self)
        ensures
            r@ == self@,
    ;
}

impl MapKey for String {
    fn key_eq(&self, other: &Self) -> (r: bool) {
        *self == *other
    }

    fn key_copy(&self) -> (r: Self) {
        self.clone()
    }
}

/// A map from keys to values that remembers the order in which keys were
/// first inserted. No key occurs twice.
#[derive(Debug)]
pub struct KeyedMap<K, V> {
    entries: Vec<(K, V)>,
}

impl<K: MapKey, V> KeyedMap<K, V> {
    /// The entries, in insertion order.
    pub closed spec fn entries(&self) -> Seq<(K, V)> {
        self.entries@
    }

    /// The keys, in insertion order.
    pub closed spec fn key_seq(&self) -> Seq<K::V> {
        self.entries@.map_values(|e: (K, V)| e.0@)
    }

    /// No key occurs twice.
    pub closed spec fn wf(&self) -> bool {
        forall|i: int, j: int|
            0 <= i < j < self.entries@.len() ==> #[trigger] self.entries@[i].0@
                != #[trigger] self.entries@[j].0@
    }

    pub closed spec fn has(&self, k: K::V) -> bool {
        exists|i: int| 0 <= i < self.entries@.len() && #[trigger] self.entries@[i].0@ == k
    }

    pub closed spec fn index_of(&self, k: K::V) -> int {
        choose|i: int| 0 <= i < self.entries@.len() && #[trigger] self.entries@[i].0@ == k
    }

    /// The map that this value stands for.
    pub closed spec fn map(&self) -> Map<K::V, V> {
        Map::new(|k: K::V| self.has(k), |k: K::V| self.entries@[self.index_of(k)].1)
    }

    pub proof fn lemma_index_of(&self, i: int)
        requires
            self.wf(),
            0 <= i < self.entries().len(),
        ensures
            self.map().contains_key(self.entries()[i].0@),
            self.index_of(self.entries()[i].0@) == i,
            self.map()[self.entries()[i].0@] == self.entries()[i].1,
            self.key_seq()[i] == self.entries()[i].0@,
            self.key_seq().len() == self.entries().len(),
    {
        let k = self.entries@[i].0@;
        assert(self.has(k));
        let j = self.index_of(k);
        if j != i {
            if j < i {
                assert(self.entries@[j].0@ != self.entries@[i].0@);
            } else {
                assert(self.entries@[i].0@ != self.entries@[j].0@);
            }
        }
    }

    pub proof fn lemma_index_of_key(&self, k: K::V)
        requires
            self.wf(),
            self.map().contains_key(k),
        ensures
            0 <= self.index_of(k) < self.entries().len(),
            self.entries()[self.index_of(k)].0@ == k,
            self.map()[k] == self.entries()[self.index_of(k)].1,
    {
        assert(self.has(k));
    }

    pub proof fn lemma_entries_distinct(&self, a: int, b: int)
        requires
            self.wf(),
            0 <= a < self.entries().len(),
            0 <= b < self.entries().len(),
            a != b,
        ensures
            self.entries()[a].0@ != self.entries()[b].0@,
    {
        if a > b {
            assert(self.entries@[b].0@ != self.entries@[a].0@);
        }
    }

    pub proof fn lemma_key_seq_contains(&self, k: K::V)
        requires
            self.wf(),
        ensures
            self.key_seq().len() == self.entries().len(),
            forall|i: int| 0 <= i < self.entries().len() ==> #[trigger] self.key_seq()[i] == self.entries()[i].0@,
            self.key_seq().contains(k) == self.map().contains_key(k),
            self.key_seq().len() == self.map().len(),
            self.map().dom().finite(),
            self.key_seq().no_duplicates(),
            self.key_seq().to_set() == self.map().dom(),
    {
        let ks = self.key_seq();
        if ks.contains(k) {
            let i = choose|i: int| 0 <= i < ks.len() && ks[i] == k;
            assert(self.entries@[i].0@ == k);
        }
        if self.map().contains_key(k) {
            let i = self.index_of(k);
            assert(ks[i] == k);
        }
        assert forall|i: int, j: int| 0 <= i < j < ks.len() implies ks[i] != ks[j] by {
            assert(self.entries@[i].0@ != self.entries@[j].0@);
        }
        assert forall|x: K::V| ks.to_set().contains(x) == self.map().dom().contains(x) by {
            if ks.contains(x) {
                let i = choose|i: int| 0 <= i < ks.len() && ks[i] == x;
                assert(self.entries@[i].0@ == x);
            }
            if self.map().contains_key(x) {
                let i = self.index_of(x);
                assert(ks[i] == x);
            }
        }
        assert(ks.to_set() =~= self.map().dom());
        ks.unique_seq_to_set();
    }

    pub fn new() -> (r: Self)
        ensures
            r.wf(),
            r.map() == Map::<K::V, V>::empty(),
            r.key_seq() == Seq::<K::V>::empty(),
    {
        let r = KeyedMap { entries: Vec::new() };
        assert(r.map() =~= Map::<K::V, V>::empty());
        assert(r.key_seq() =~= Seq::<K::V>::empty());
        r
    }

    pub fn len(&self) -> (n: usize)
        requires
            self.wf(),
        ensures
            n == self.map().len(),
            n == self.key_seq().len(),
    {
        proof {
            let ghost k = arbitrary::<K::V>();
            self.lemma_key_seq_contains(k);
        }
        self.entries.len()
    }

    /// The position of a key, if it is present.
    pub fn find(&self, k: &K) -> (r: Option<usize>)
        requires
            self.wf(),
        ensures
            r is None <==> !self.map().contains_key(k@),
            r matches Some(i) ==> i < self.entries().len() && self.entries()[i as int].0@ == k@
                && self.index_of(k@) == i && self.map()[k@] == self.entries()[i as int].1,
    {
        let mut i: usize = 0;
        while i < self.entries.len()
            invariant
                self.wf(),
                i <= self.entries@.len(),
                forall|j: int| 0 <= j < i ==> #[trigger] self.entries@[j].0@ != k@,
            decreases self.entries@.len() - i,
        {
            if self.entries[i].0.key_eq(k) {
                proof {
                    self.lemma_index_of(i as int);
                }
                return Some(i);
            }
            i = i + 1;
        }
        assert(!self.has(k@));
        None
    }

    pub fn contains_key(&self, k: &K) -> (r: bool)
        requires
            self.wf(),
        ensures
            r == self.map().contains_key(k@),
    {
        self.find(k).is_some()
    }

    pub fn get(&self, k: &K) -> (r: Option<&V>)
        requires
            self.wf(),
        ensures
            r is None <==> !self.map().contains_key(k@),
            r matches Some(v) ==> *v == self.map()[k@],
    {
        match self.find(k) {
            Some(i) => Some(&self.entries[i].1),
            None => None,
        }
    }

    /// The entry at a position.
    pub fn entry_at(&self, i: usize) -> (r: (&K, &V))
        requires
            self.wf(),
            i < self.entries().len(),
        ensures
            *r.0 == self.entries()[i as int].0,
            *r.1 == self.entries()[i as int].1,
            self.map().contains_key(r.0@),
            self.map()[r.0@] == *r.1,
    {
        proof {
            self.lemma_index_of(i as int);
        }
        (&self.entries[i].0, &self.entries[i].1)
    }

    pub fn entry_count(&self) -> (n: usize)
        ensures
            n == self.entries().len(),
    {
        self.entries.len()
    }

    /// Inserts or replaces. A new key goes last; a present key keeps its place.
    pub fn insert(&mut self, k: K, v: V) -> (old_value: Option<V>)
        requires
            old(self).wf(),
        ensures
            final(self).wf(),
            final(self).map() == old(self).map().insert(k@, v),
            old(self).map().contains_key(k@) ==> final(self).key_seq() == old(self).key_seq(),
            !old(self).map().contains_key(k@) ==> final(self).key_seq() == old(self).key_seq().push(
                k@,
            ),
            old_value is Some == old(self).map().contains_key(k@),
            old_value matches Some(ov) ==> ov == old(self).map()[k@],
    {
        let ghost kv = k@;
        let ghost old_self = *self;
        match self.find(&k) {
            Some(i) => {
                proof {
                    old_self.lemma_index_of(i as int);
                }
                let (_ok, old_v) = self.entries.remove(i);
                self.entries.insert(i, (k, v));
                proof {
                    assert forall|a: int, b: int|
                        0 <= a < b < self.entries@.len() implies #[trigger] self.entries@[a].0@
                        != #[trigger] self.entries@[b].0@ by {
                        assert(old_self.entries@[a].0@ != old_self.entries@[b].0@);
                    }
                    assert forall|x: K::V| #[trigger]
                        self.map().contains_key(x) == old_self.map().insert(kv, v).contains_key(x) by {
                        if old_self.has(x) {
                            let j = old_self.index_of(x);
                            assert(self.entries@[j].0@ == x);
                        }
                        if self.has(x) {
                            let j = self.index_of(x);
                            if j != i {
                                assert(old_self.entries@[j].0@ == x);
                            }
                        }
                    }
                    assert forall|x: K::V| #[trigger] self.map().contains_key(x) implies self.map()[x]
                        == old_self.map().insert(kv, v)[x] by {
                        let j = self.index_of(x);
                        self.lemma_index_of(j);
                        if x != kv {
                            old_self.lemma_index_of(j);
                        }
                    }
                    assert(self.map() =~= old_self.map().insert(kv, v));
                    assert(self.key_seq() =~= old_self.key_seq());
                }
                Some(old_v)
            },
            None => {
                self.entries.push((k, v));
                proof {
                    let n = old_self.entries@.len() as int;
                    assert forall|a: int, b: int|
                        0 <= a < b < self.entries@.len() implies #[trigger] self.entries@[a].0@
                        != #[trigger] self.entries@[b].0@ by {
                        if b == n {
                            assert(!old_self.has(kv));
                            assert(old_self.entries@[a].0@ != kv);
                        } else {
                            assert(old_self.entries@[a].0@ != old_self.entries@[b].0@);
                        }
                    }
                    assert forall|x: K::V| #[trigger]
                        self.map().contains_key(x) == old_self.map().insert(kv, v).contains_key(x) by {
                        if old_self.has(x) {
                            let j = old_self.index_of(x);
                            assert(self.entries@[j].0@ == x);
                        }
                        if x == kv {
                            assert(self.entries@[n].0@ == x);
                        }
                        if self.has(x) {
                            let j = self.index_of(x);
                            if j != n {
                                assert(old_self.entries@[j].0@ == x);
                            }
                        }
                    }
                    assert forall|x: K::V| #[trigger] self.map().contains_key(x) implies self.map()[x]
                        == old_self.map().insert(kv, v)[x] by {
                        let j = self.index_of(x);
                        self.lemma_index_of(j);
                        if j != n {
                            old_self.lemma_index_of(j);
                        }
                    }
                    assert(self.map() =~= old_self.map().insert(kv, v));
                    assert(self.key_seq() =~= old_self.key_seq().push(kv));
                }
                None
            },
        }
    }

    /// Removes a key; the other keys keep their order.
    pub fn remove(&mut self, k: &K) -> (removed: Option<V>)
        requires
            old(self).wf(),
        ensures
            final(self).wf(),
            final(self).map() == old(self).map().remove(k@),
            removed is Some == old(self).map().contains_key(k@),
            removed matches Some(rv) ==> rv == old(self).map()[k@],
            !old(self).map().contains_key(k@) ==> final(self).key_seq() == old(self).key_seq(),
            old(self).map().contains_key(k@) ==> final(self).key_seq()
                == old(self).key_seq().remove(old(self).index_of(k@)),
    {
        let ghost old_self = *self;
        match self.find(k) {
            None => {
                assert(self.map() =~= old_self.map().remove(k@));
                None
            },
            Some(i) => {
                proof {
                    old_self.lemma_index_of(i as int);
                }
                let (_rk, rv) = self.entries.remove(i);
                proof {
                    let ii = i as int;
                    assert forall|a: int, b: int|
                        0 <= a < b < self.entries@.len() implies #[trigger] self.entries@[a].0@
                        != #[trigger] self.entries@[b].0@ by {
                        let oa = if a < ii { a } else { a + 1 };
                        let ob = if b < ii { b } else { b + 1 };
                        assert(self.entries@[a] == old_self.entries@[oa]);
                        assert(self.entries@[b] == old_self.entries@[ob]);
                        assert(old_self.entries@[oa].0@ != old_self.entries@[ob].0@);
                    }
                    assert forall|x: K::V| #[trigger]
                        self.map().contains_key(x) == old_self.map().remove(k@).contains_key(x) by {
                        if old_self.has(x) && x != k@ {
                            let j = old_self.index_of(x);
                            assert(j != ii);
                            if j < ii {
                                assert(self.entries@[j] == old_self.entries@[j]);
                            } else {
                                assert(self.entries@[j - 1] == old_self.entries@[j]);
                            }
                        }
                        if self.has(x) {
                            let j = self.index_of(x);
                            let oj = if j < ii { j } else { j + 1 };
                            assert(self.entries@[j] == old_self.entries@[oj]);
                            old_self.lemma_index_of(oj);
                        }
                    }
                    assert forall|x: K::V| #[trigger] self.map().contains_key(x) implies self.map()[x]
                        == old_self.map().remove(k@)[x] by {
                        let j = self.index_of(x);
                        self.lemma_index_of(j);
                        let oj = if j < ii { j } else { j + 1 };
                        assert(self.entries@[j] == old_self.entries@[oj]);
                        old_self.lemma_index_of(oj);
                    }
                    assert(self.map() =~= old_self.map().remove(k@));
                    assert(self.key_seq() =~= old_self.key_seq().remove(ii));
                }
                Some(rv)
            },
        }
    }

    pub fn clear(&mut self)
        ensures
            final(self).wf(),
            final(self).map() == Map::<K::V, V>::empty(),
            final(self).key_seq() == Seq::<K::V>::empty(),
    {
        self.entries.clear();
        assert(self.map() =~= Map::<K::V, V>::empty());
        assert(self.key_seq() =~= Seq::<K::V>::empty());
    }

    /// Puts a new value at a position, keeping its key and place; hands back
    /// the value that was there.
    pub fn replace_value_at(&mut self, i: usize, v: V) -> (old_value: V)
        requires
            old(self).wf(),
            i < old(self).entries().len(),
        ensures
            final(self).wf(),
            old_value == old(self).entries()[i as int].1,
            final(self).map() == old(self).map().insert(old(self).entries()[i as int].0@, v),
            final(self).key_seq() == old(self).key_seq(),
            final(self).entries().len() == old(self).entries().len(),
            final(self).entries()[i as int].0 == old(self).entries()[i as int].0,
            final(self).entries()[i as int].1 == v,
    {
        let ghost old_self = *self;
        let (k, old_v) = self.entries.remove(i);
        let ghost kv = k@;
        self.entries.insert(i, (k, v));
        proof {
            old_self.lemma_index_of(i as int);
            assert forall|a: int, b: int|
                0 <= a < b < self.entries@.len() implies #[trigger] self.entries@[a].0@
                != #[trigger] self.entries@[b].0@ by {
                assert(old_self.entries@[a].0@ != old_self.entries@[b].0@);
            }
            assert forall|x: K::V| #[trigger]
                self.map().contains_key(x) == old_self.map().insert(kv, v).contains_key(x) by {
                if old_self.has(x) {
                    let j = old_self.index_of(x);
                    assert(self.entries@[j].0@ == x);
                }
                if self.has(x) {
                    let j = self.index_of(x);
                    assert(old_self.entries@[j].0@ == x);
                }
            }
            assert forall|x: K::V| #[trigger] self.map().contains_key(x) implies self.map()[x]
                == old_self.map().insert(kv, v)[x] by {
                let j = self.index_of(x);
                self.lemma_index_of(j);
                if x != kv {
                    old_self.lemma_index_of(j);
                }
            }
            assert(self.map() =~= old_self.map().insert(kv, v));
            assert(self.key_seq() =~= old_self.key_seq());
        }
        old_v
    }

    /// Copies of the keys, in insertion order.
    pub fn keys(&self) -> (r: Vec<K>)
        requires
            self.wf(),
        ensures
            r@.map_values(|k: K| k@) == self.key_seq(),
    {
        let mut out: Vec<K> = Vec::new();
        let mut i: usize = 0;
        while i < self.entries.len()
            invariant
                i <= self.entries@.len(),
                out@.len() == i,
                forall|j: int| 0 <= j < i ==> #[trigger] out@[j]@ == self.entries@[j].0@,
            decreases self.entries@.len() - i,
        {
            out.push(self.entries[i].0.key_copy());
            i = i + 1;
        }
        assert(out@.map_values(|k: K| k@) =~= self.key_seq());
        out
    }
}

} // verus!
