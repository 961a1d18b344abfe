//! A map from text keys to values, kept as a list of entries in which no key
//! occurs twice. Its view is a `Map` from the keys' characters to the values.

use vstd::prelude::*;

use crate::text::str_eq;

verus! {

/// A map keyed by strings. Iteration visits the entries in insertion order.
#[derive(Debug)]
pub struct StrMap<V> {
    entries: Vec<(String, V)>,
}

impl<V> StrMap<V> {
    /// The keys, in entry order.
    pub closed spec fn keys_seq(&self) -> Seq<Seq<char>> {
        self.entries@.map_values(|e: (String, V)| e.0@)
    }

    /// The entries, keys as characters, in entry order.
    pub closed spec fn entry_seq(&self) -> Seq<(Seq<char>, V)> {
        self.entries@.map_values(|e: (String, V)| (e.0@, e.1))
    }

    #[verifier::type_invariant]
    closed spec fn keys_distinct(&self) -> bool {
        self.keys_seq().no_duplicates()
    }

    /// The map the entries describe.
    pub closed spec fn view(&self) -> Map<Seq<char>, V> {
        Map::new(
            |k: Seq<char>| self.keys_seq().contains(k),
            |k: Seq<char>| self.entries@[self.keys_seq().index_of(k)].1,
        )
    }

    proof fn lemma_entry(&self, i: int)
        requires
            self.keys_seq().no_duplicates(),
            0 <= i < self.entries@.len(),
        ensures
            self@.contains_key(self.entries@[i].0@),
            self@[self.entries@[i].0@] == self.entries@[i].1,
            self.entry_seq()[i] == (self.entries@[i].0@, self.entries@[i].1),
    {
        let k = self.entries@[i].0@;
        assert(self.keys_seq()[i] == k);
        let j = self.keys_seq().index_of(k);
        assert(self.keys_seq()[j] == k);
    }

    /// Every key of the map is the key of some entry, and the entries agree
    /// with the map.
    proof fn lemma_entries_describe_map(&self)
        requires
            self.keys_seq().no_duplicates(),
        ensures
            self.entry_seq().len() == self.entries@.len(),
            forall|i: int|
                0 <= i < self.entry_seq().len() ==> #[trigger] self@.contains_key(
                    self.entry_seq()[i].0,
                ) && self@[self.entry_seq()[i].0] == self.entry_seq()[i].1,
            forall|k: Seq<char>|
                #[trigger] self@.contains_key(k) ==> exists|i: int|
                    0 <= i < self.entry_seq().len() && self.entry_seq()[i].0 == k,
    {
        assert forall|i: int| 0 <= i < self.entry_seq().len() implies #[trigger] self@.contains_key(
            self.entry_seq()[i].0,
        ) && self@[self.entry_seq()[i].0] == self.entry_seq()[i].1 by {
            self.lemma_entry(i);
        }
        assert forall|k: Seq<char>| #[trigger] self@.contains_key(k) implies exists|i: int|
            0 <= i < self.entry_seq().len() && self.entry_seq()[i].0 == k by {
            let i = self.keys_seq().index_of(k);
            assert(self.entry_seq()[i].0 == self.keys_seq()[i]);
        }
    }

    /// An empty map.
    pub fn new() -> (m: Self)
        ensures
            m@ == Map::<Seq<char>, V>::empty(),
            m.entry_seq() == Seq::<(Seq<char>, V)>::empty(),
    {
        let m = StrMap { entries: Vec::new() };
        assert(m@ =~= Map::<Seq<char>, V>::empty());
        assert(m.entry_seq() =~= Seq::<(Seq<char>, V)>::empty());
        m
    }

    /// Number of entries; the entries describe the map exactly.
    pub fn len(&self) -> (n: usize)
        ensures
            n == self.entry_seq().len(),
            self.entry_seq().map_values(|e: (Seq<char>, V)| e.0).no_duplicates(),
            forall|i: int|
                0 <= i < self.entry_seq().len() ==> #[trigger] self@.contains_key(
                    self.entry_seq()[i].0,
                ) && self@[self.entry_seq()[i].0] == self.entry_seq()[i].1,
            forall|k: Seq<char>|
                #[trigger] self@.contains_key(k) ==> exists|i: int|
                    0 <= i < self.entry_seq().len() && self.entry_seq()[i].0 == k,
    {
        proof {
            use_type_invariant(self);
            self.lemma_entries_describe_map();
            assert(self.entry_seq().map_values(|e: (Seq<char>, V)| e.0) =~= self.keys_seq());
        }
        self.entries.len()
    }

    /// Whether the map has no entry.
    pub fn is_empty(&self) -> (r: bool)
        ensures
            r == (self@ == Map::<Seq<char>, V>::empty()),
            r == (self.entry_seq().len() == 0),
    {
        proof {
            use_type_invariant(self);
            if self.entries@.len() > 0 {
                self.lemma_entry(0);
            } else {
                assert(self@ =~= Map::<Seq<char>, V>::empty());
            }
        }
        self.entries.len() == 0
    }

    /// The `i`-th entry.
    pub fn entry(&self, i: usize) -> (r: (&String, &V))
        requires
            i < self.entry_seq().len(),
        ensures
            r.0@ == self.entry_seq()[i as int].0,
            *r.1 == self.entry_seq()[i as int].1,
    {
        let e = &self.entries[i];
        (&e.0, &e.1)
    }

    /// Index of the entry with key `k`.
    fn find(&self, k: &str) -> (r: Option<usize>)
        ensures
            match r {
                Some(i) => i < self.entries@.len() && self.entries@[i as int].0@ == k@,
                None => !self.keys_seq().contains(k@),
            },
    {
        let n = self.entries.len();
        for i in 0..n
            invariant
                n == self.entries@.len(),
                forall|j: int| 0 <= j < i ==> self.keys_seq()[j] != k@,
        {
            if str_eq(&self.entries[i].0, k) {
                return Some(i);
            }
        }
        None
    }

    /// Whether `k` is a key.
    pub fn contains_key(&self, k: &str) -> (r: bool)
        ensures
            r == self@.contains_key(k@),
    {
        match self.find(k) {
            Some(i) => {
                assert(self.keys_seq()[i as int] == k@);
                true
            },
            None => false,
        }
    }

    /// The value stored under `k`.
    pub fn get(&self, k: &str) -> (r: Option<&V>)
        ensures
            match r {
                Some(v) => self@.contains_key(k@) && self@[k@] == *v,
                None => !self@.contains_key(k@),
            },
    {
        proof {
            use_type_invariant(self);
        }
        match self.find(k) {
            Some(i) => {
                proof {
                    self.lemma_entry(i as int);
                }
                Some(&self.entries[i].1)
            },
            None => None,
        }
    }

    /// Stores `v` under `k`, returning the value it replaces.
    pub fn insert(&mut self, k: String, v: V) -> (old_v: Option<V>)
        ensures
            final(self)@ == old(self)@.insert(k@, v),
            match old_v {
                Some(x) => old(self)@.contains_key(k@) && old(self)@[k@] == x,
                None => !old(self)@.contains_key(k@),
            },
            old(self)@.contains_key(k@) ==> final(self).entry_seq() == old(self).entry_seq().update(
                old(self).keys_seq().index_of(k@),
                (k@, v),
            ),
            !old(self)@.contains_key(k@) ==> final(self).entry_seq() == old(self).entry_seq().push(
                (k@, v),
            ),
    {
        proof {
            use_type_invariant(&*self);
        }
        let ghost old_self = *self;
        let ghost kv = k@;
        match self.find(k.as_str()) {
            Some(i) => {
                proof {
                    old_self.lemma_entry(i as int);
                    assert(old_self.keys_seq().index_of(kv) == i) by {
                        let j = old_self.keys_seq().index_of(kv);
                        assert(old_self.keys_seq()[j] == kv);
                        assert(old_self.keys_seq()[i as int] == kv);
                    }
                }
                let mut es: Vec<(String, V)> = Vec::new();
                std::mem::swap(&mut es, &mut self.entries);
                let mut e = (k, v);
                std::mem::swap(&mut e, &mut es[i]);
                proof {
                    assert(es@.map_values(|e: (String, V)| e.0@) =~= old_self.keys_seq());
                }
                self.entries = es;
                proof {
                    assert(self.keys_seq() =~= old_self.keys_seq());
                    assert(self.entry_seq() =~= old_self.entry_seq().update(i as int, (kv, v)));
                    assert forall|q: Seq<char>| #[trigger] self@.contains_key(q) == old_self@.insert(
                        kv,
                        v,
                    ).contains_key(q) by {}
                    assert forall|q: Seq<char>| #[trigger] self@.contains_key(q) implies self@[q]
                        == old_self@.insert(kv, v)[q] by {
                        let j = self.keys_seq().index_of(q);
                        assert(self.keys_seq()[j] == q);
                        if q == kv {
                            assert(self.keys_seq()[i as int] == kv);
                        } else {
                            old_self.lemma_entry(j);
                        }
                    }
                    assert(self@ =~= old_self@.insert(kv, v));
                }
                Some(e.1)
            },
            None => {
                let mut es: Vec<(String, V)> = Vec::new();
                std::mem::swap(&mut es, &mut self.entries);
                es.push((k, v));
                proof {
                    assert(es@.map_values(|e: (String, V)| e.0@) =~= old_self.keys_seq().push(kv));
                }
                self.entries = es;
                proof {
                    assert(self.keys_seq() =~= old_self.keys_seq().push(kv));
                    assert(self.entry_seq() =~= old_self.entry_seq().push((kv, v)));
                    let n = old_self.entries@.len() as int;
                    assert forall|q: Seq<char>| #[trigger] self@.contains_key(q) == old_self@.insert(
                        kv,
                        v,
                    ).contains_key(q) by {
                        if q == kv {
                            assert(self.keys_seq()[n] == kv);
                        }
                        if old_self.keys_seq().contains(q) {
                            let j = old_self.keys_seq().index_of(q);
                            assert(self.keys_seq()[j] == q);
                        }
                    }
                    assert forall|q: Seq<char>| #[trigger] self@.contains_key(q) implies self@[q]
                        == old_self@.insert(kv, v)[q] by {
                        let j = self.keys_seq().index_of(q);
                        assert(self.keys_seq()[j] == q);
                        if q == kv {
                            assert(self.keys_seq()[n] == kv);
                        } else {
                            assert(j < n);
                            assert(old_self.keys_seq()[j] == q);
                            old_self.lemma_entry(j);
                        }
                    }
                    assert(self@ =~= old_self@.insert(kv, v));
                }
                None
            },
        }
    }

    /// Removes the entry with key `k`, returning its value.
    pub fn remove(&mut self, k: &str) -> (old_v: Option<V>)
        ensures
            final(self)@ == old(self)@.remove(k@),
            match old_v {
                Some(x) => old(self)@.contains_key(k@) && old(self)@[k@] == x,
                None => !old(self)@.contains_key(k@),
            },
    {
        proof {
            use_type_invariant(&*self);
        }
        let ghost old_self = *self;
        match self.find(k) {
            Some(i) => {
                proof {
                    old_self.lemma_entry(i as int);
                }
                let mut es: Vec<(String, V)> = Vec::new();
                std::mem::swap(&mut es, &mut self.entries);
                let e = es.remove(i);
                proof {
                    assert(es@.map_values(|e: (String, V)| e.0@) =~= old_self.keys_seq().remove(
                        i as int,
                    ));
                }
                self.entries = es;
                proof {
                    assert(self.keys_seq() =~= old_self.keys_seq().remove(i as int));
                    assert forall|q: Seq<char>| old_self@.remove(k@).contains_key(q) implies #[trigger] self@.contains_key(q) by {
                        let j = old_self.keys_seq().index_of(q);
                        assert(old_self.keys_seq()[j] == q);
                        assert(j != i);
                        if j < i {
                            assert(self.keys_seq()[j] == q);
                        } else {
                            assert(self.keys_seq()[j - 1] == q);
                        }
                    }
                    assert forall|q: Seq<char>| #[trigger] self@.contains_key(q) implies old_self@.remove(k@).contains_key(q) by {
                        let j = self.keys_seq().index_of(q);
                        assert(self.keys_seq()[j] == q);
                        let jj = if j < i { j } else { j + 1 };
                        assert(old_self.keys_seq()[jj] == q);
                        assert(jj != i);
                        assert(old_self.keys_seq()[i as int] == k@);
                    }
                    assert forall|q: Seq<char>| #[trigger] self@.contains_key(q) implies self@[q]
                        == old_self@.remove(k@)[q] by {
                        let j = self.keys_seq().index_of(q);
                        assert(self.keys_seq()[j] == q);
                        if j < i {
                            assert(old_self.keys_seq()[j] == q);
                            old_self.lemma_entry(j);
                        } else {
                            assert(old_self.keys_seq()[j + 1] == q);
                            old_self.lemma_entry(j + 1);
                        }
                    }
                    assert(self@ =~= old_self@.remove(k@));
                }
                Some(e.1)
            },
            None => {
                assert(old_self@.remove(k@) =~= old_self@);
                None
            },
        }
    }
}

} // verus!
