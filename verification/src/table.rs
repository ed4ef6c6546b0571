//! A table of values keyed by name, kept in ascending key order. Every service
//! stores its resources in such tables.
use vstd::prelude::*;
use crate::text::{lemma_seq_lt_irreflexive, lemma_seq_lt_transitive, lemma_seq_lt_trichotomy, seq_lt, str_eq, str_lt};

verus! {

/// Entries keyed by strings; the keys are unique and kept in ascending order.
pub struct Table<V> {
    entries: Vec<(String, V)>,
    contents: Ghost<Map<Seq<char>, V>>,
}

impl<V> Table<V> {
    /// What the table maps each key to.
    pub closed spec fn view(&self) -> Map<Seq<char>, V> {
        self.contents@
    }

    /// The keys, in ascending order.
    pub closed spec fn keys(&self) -> Seq<Seq<char>> {
        Seq::new(self.entries@.len(), |i: int| self.entries@[i].0@)
    }

    /// The values, in the order of their keys.
    pub closed spec fn vals(&self) -> Seq<V> {
        Seq::new(self.entries@.len(), |i: int| self.entries@[i].1)
    }

    /// The keys are strictly ascending, and the entries are exactly the map.
    pub closed spec fn wf(&self) -> bool {
        &&& forall|i: int, j: int|
            0 <= i < j < self.entries@.len() ==> seq_lt(
                #[trigger] self.entries@[i].0@,
                #[trigger] self.entries@[j].0@,
            )
        &&& forall|i: int|
            0 <= i < self.entries@.len() ==> {
                &&& #[trigger] self.contents@.contains_key(self.entries@[i].0@)
                &&& self.contents@[self.entries@[i].0@] == self.entries@[i].1
            }
        &&& forall|k: Seq<char>|
            #[trigger] self.contents@.contains_key(k) ==> exists|i: int|
                0 <= i < self.entries@.len() && self.entries@[i].0@ == k
        &&& self.contents@.dom().finite()
        &&& self.contents@.dom().len() == self.entries@.len()
    }

    /// What a well-formed table states about its keys, values and map.
    pub proof fn lemma_wf(&self)
        requires
            self.wf(),
        ensures
            self.keys().len() == self.vals().len(),
            self.keys().len() == self@.len(),
            self@.dom().finite(),
            forall|i: int|
                0 <= i < self.keys().len() ==> #[trigger] self@.contains_key(self.keys()[i])
                    && self@[self.keys()[i]] == self.vals()[i],
            forall|k: Seq<char>|
                #[trigger] self@.contains_key(k) ==> exists|i: int|
                    0 <= i < self.keys().len() && self.keys()[i] == k,
            forall|i: int, j: int|
                0 <= i < j < self.keys().len() ==> seq_lt(
                    #[trigger] self.keys()[i],
                    #[trigger] self.keys()[j],
                ),
    {
        assert forall|i: int| 0 <= i < self.keys().len() implies #[trigger] self@.contains_key(
            self.keys()[i],
        ) && self@[self.keys()[i]] == self.vals()[i] by {
            assert(self.keys()[i] == self.entries@[i].0@);
            assert(self.contents@.contains_key(self.entries@[i].0@));
        }
        assert forall|k: Seq<char>| #[trigger] self@.contains_key(k) implies exists|i: int|
            0 <= i < self.keys().len() && self.keys()[i] == k by {
            let i = choose|i: int| 0 <= i < self.entries@.len() && self.entries@[i].0@ == k;
            assert(self.keys()[i] == k);
        }
    }

    /// An empty table.
    pub fn new() -> (t: Self)
        ensures
            t.wf(),
            t@ == Map::<Seq<char>, V>::empty(),
            t.keys() == Seq::<Seq<char>>::empty(),
    {
        let t = Table { entries: Vec::new(), contents: Ghost(Map::empty()) };
        assert(t.keys() =~= Seq::<Seq<char>>::empty());
        t
    }

    /// The number of entries.
    pub fn len(&self) -> (n: usize)
        requires
            self.wf(),
        ensures
            n == self@.len(),
            n == self.keys().len(),
    {
        self.entries.len()
    }

    /// The position of the first key not below `k`, and whether it equals `k`.
    fn locate(&self, k: &str) -> (r: (usize, bool))
        requires
            self.wf(),
        ensures
            r.0 <= self.entries@.len(),
            forall|i: int| 0 <= i < r.0 ==> seq_lt(#[trigger] self.entries@[i].0@, k@),
            r.1 ==> r.0 < self.entries@.len() && self.entries@[r.0 as int].0@ == k@,
            !r.1 ==> forall|i: int|
                r.0 <= i < self.entries@.len() ==> seq_lt(k@, #[trigger] self.entries@[i].0@),
            r.1 == self@.contains_key(k@),
    {
        let mut i: usize = 0;
        while i < self.entries.len()
            invariant
                self.wf(),
                i <= self.entries@.len(),
                forall|j: int| 0 <= j < i ==> seq_lt(#[trigger] self.entries@[j].0@, k@),
            decreases self.entries.len() - i,
        {
            let key = &self.entries[i].0;
            if str_lt(key.as_str(), k) {
                i = i + 1;
            } else {
                let eq = str_eq(key.as_str(), k);
                proof {
                    lemma_seq_lt_trichotomy(key@, k@);
                    if !eq {
                        assert forall|j: int| i <= j < self.entries@.len() implies seq_lt(
                            k@,
                            #[trigger] self.entries@[j].0@,
                        ) by {
                            if j > i {
                                lemma_seq_lt_transitive(k@, key@, self.entries@[j].0@);
                            }
                        }
                        if self@.contains_key(k@) {
                            let m = choose|m: int|
                                0 <= m < self.entries@.len() && self.entries@[m].0@ == k@;
                            if m < i {
                                lemma_seq_lt_irreflexive(k@);
                            } else {
                                lemma_seq_lt_irreflexive(k@);
                            }
                        }
                    }
                }
                return (i, eq);
            }
        }
        proof {
            if self@.contains_key(k@) {
                let m = choose|m: int| 0 <= m < self.entries@.len() && self.entries@[m].0@ == k@;
                lemma_seq_lt_irreflexive(k@);
            }
        }
        (i, false)
    }

    /// Whether `k` has an entry.
    pub fn contains(&self, k: &str) -> (r: bool)
        requires
            self.wf(),
        ensures
            r == self@.contains_key(k@),
    {
        self.locate(k).1
    }

    /// The value stored under `k`, if any.
    pub fn get(&self, k: &str) -> (r: Option<&V>)
        requires
            self.wf(),
        ensures
            r == (if self@.contains_key(k@) {
                Some(&self@[k@])
            } else {
                None
            }),
    {
        let (i, found) = self.locate(k);
        if found {
            Some(&self.entries[i].1)
        } else {
            None
        }
    }

    /// The key and value at position `i` in key order.
    pub fn entry(&self, i: usize) -> (r: (&String, &V))
        requires
            self.wf(),
            i < self.keys().len(),
        ensures
            r.0@ == self.keys()[i as int],
            *r.1 == self.vals()[i as int],
    {
        let e = &self.entries[i];
        (&e.0, &e.1)
    }

    /// Stores `v` under `k`, replacing any value there.
    pub fn insert(&mut self, k: String, v: V)
        requires
            old(self).wf(),
        ensures
            final(self).wf(),
            final(self)@ == old(self)@.insert(k@, v),
    {
        let (i, found) = self.locate(k.as_str());
        let ghost old_entries = self.entries@;
        let ghost kv = k@;
        let ghost new_map = self.contents@.insert(k@, v);
        if found {
            self.entries.set(i, (k, v));
            self.contents = Ghost(new_map);
            proof {
                assert forall|j: int| 0 <= j < self.entries@.len() implies {
                    &&& #[trigger] self.contents@.contains_key(self.entries@[j].0@)
                    &&& self.contents@[self.entries@[j].0@] == self.entries@[j].1
                } by {
                    if j != i {
                        if self.entries@[j].0@ == kv {
                            if j < i {
                                lemma_seq_lt_irreflexive(kv);
                            } else {
                                lemma_seq_lt_irreflexive(kv);
                            }
                        }
                    }
                }
                assert forall|m: Seq<char>| #[trigger] self.contents@.contains_key(m) implies exists|j: int|
                    0 <= j < self.entries@.len() && self.entries@[j].0@ == m by {
                    if m == kv {
                        assert(self.entries@[i as int].0@ == m);
                    } else {
                        let j = choose|j: int| 0 <= j < old_entries.len() && old_entries[j].0@ == m;
                        assert(self.entries@[j].0@ == m);
                    }
                }
                assert(self.contents@.dom() =~= old(self).contents@.dom());
            }
        } else {
            self.entries.insert(i, (k, v));
            self.contents = Ghost(new_map);
            proof {
                assert forall|a: int, b: int|
                    0 <= a < b < self.entries@.len() implies seq_lt(
                    #[trigger] self.entries@[a].0@,
                    #[trigger] self.entries@[b].0@,
                ) by {
                    if b == i {
                        assert(self.entries@[a].0@ == old_entries[a].0@);
                    } else if a == i {
                        assert(self.entries@[b].0@ == old_entries[b - 1].0@);
                    } else if a < i && b > i {
                        assert(seq_lt(old_entries[a].0@, kv));
                        assert(seq_lt(kv, old_entries[b - 1].0@));
                        lemma_seq_lt_transitive(old_entries[a].0@, kv, old_entries[b - 1].0@);
                    } else if a > i {
                        assert(self.entries@[a].0@ == old_entries[a - 1].0@);
                        assert(self.entries@[b].0@ == old_entries[b - 1].0@);
                    } else {
                        assert(self.entries@[a].0@ == old_entries[a].0@);
                        assert(self.entries@[b].0@ == old_entries[b].0@);
                    }
                }
                assert forall|j: int| 0 <= j < self.entries@.len() implies {
                    &&& #[trigger] self.contents@.contains_key(self.entries@[j].0@)
                    &&& self.contents@[self.entries@[j].0@] == self.entries@[j].1
                } by {
                    if j < i {
                        assert(self.entries@[j] == old_entries[j]);
                        assert(seq_lt(old_entries[j].0@, kv));
                        if old_entries[j].0@ == kv {
                            lemma_seq_lt_irreflexive(kv);
                        }
                    } else if j > i {
                        assert(self.entries@[j] == old_entries[j - 1]);
                        assert(seq_lt(kv, old_entries[j - 1].0@));
                        if old_entries[j - 1].0@ == kv {
                            lemma_seq_lt_irreflexive(kv);
                        }
                    }
                }
                assert forall|m: Seq<char>| #[trigger] self.contents@.contains_key(m) implies exists|j: int|
                    0 <= j < self.entries@.len() && self.entries@[j].0@ == m by {
                    if m == kv {
                        assert(self.entries@[i as int].0@ == m);
                    } else {
                        let j = choose|j: int| 0 <= j < old_entries.len() && old_entries[j].0@ == m;
                        if j < i {
                            assert(self.entries@[j].0@ == m);
                        } else {
                            assert(self.entries@[j + 1].0@ == m);
                        }
                    }
                }
            }
        }
    }

    /// Removes the entry under `k`, handing back its value.
    #[verifier::rlimit(30)]
    pub fn remove(&mut self, k: &str) -> (r: Option<V>)
        requires
            old(self).wf(),
        ensures
            final(self).wf(),
            final(self)@ == old(self)@.remove(k@),
            r == (if old(self)@.contains_key(k@) {
                Some(old(self)@[k@])
            } else {
                None
            }),
    {
        let (i, found) = self.locate(k);
        if !found {
            assert(self.contents@.remove(k@) =~= self.contents@);
            return None;
        }
        let ghost old_entries = self.entries@;
        let ghost kv = k@;
        let ghost new_map = self.contents@.remove(k@);
        let (_, v) = self.entries.remove(i);
        self.contents = Ghost(new_map);
        proof {
            assert forall|a: int, b: int|
                0 <= a < b < self.entries@.len() implies seq_lt(
                #[trigger] self.entries@[a].0@,
                #[trigger] self.entries@[b].0@,
            ) by {
                if a < i && b >= i {
                    assert(self.entries@[a] == old_entries[a]);
                    assert(self.entries@[b] == old_entries[b + 1]);
                } else if a >= i {
                    assert(self.entries@[a] == old_entries[a + 1]);
                    assert(self.entries@[b] == old_entries[b + 1]);
                } else {
                    assert(self.entries@[a] == old_entries[a]);
                    assert(self.entries@[b] == old_entries[b]);
                }
            }
            assert forall|j: int| 0 <= j < self.entries@.len() implies {
                &&& #[trigger] self.contents@.contains_key(self.entries@[j].0@)
                &&& self.contents@[self.entries@[j].0@] == self.entries@[j].1
            } by {
                let ghost oj: int = if j < i { j } else { j + 1 };
                assert(self.entries@[j] == old_entries[oj]);
                assert(old(self).contents@.contains_key(old_entries[oj].0@));
                assert(old(self).contents@[old_entries[oj].0@] == old_entries[oj].1);
                if oj < i {
                    assert(seq_lt(old_entries[oj].0@, old_entries[i as int].0@));
                } else {
                    assert(seq_lt(old_entries[i as int].0@, old_entries[oj].0@));
                }
                if old_entries[oj].0@ == kv {
                    lemma_seq_lt_irreflexive(kv);
                }
                assert(old_entries[oj].0@ != kv);
            }
            assert forall|m: Seq<char>| #[trigger] self.contents@.contains_key(m) implies exists|j: int|
                0 <= j < self.entries@.len() && self.entries@[j].0@ == m by {
                let j = choose|j: int| 0 <= j < old_entries.len() && old_entries[j].0@ == m;
                if j < i {
                    assert(self.entries@[j].0@ == m);
                } else {
                    assert(j != i);
                    assert(self.entries@[j - 1].0@ == m);
                }
            }
        }
        Some(v)
    }

    /// The keys, in ascending order.
    pub fn key_list(&self) -> (r: Vec<String>)
        requires
            self.wf(),
        ensures
            r@.len() == self.keys().len(),
            forall|i: int| 0 <= i < r@.len() ==> #[trigger] r@[i]@ == self.keys()[i],
    {
        let mut r: Vec<String> = Vec::new();
        let mut i: usize = 0;
        while i < self.entries.len()
            invariant
                i <= self.entries@.len(),
                r@.len() == i,
                forall|j: int| 0 <= j < i ==> #[trigger] r@[j]@ == self.keys()[j],
            decreases self.entries.len() - i,
        {
            r.push(self.entries[i].0.clone());
            i = i + 1;
        }
        r
    }

    /// Removes every entry.
    pub fn clear(&mut self)
        requires
            old(self).wf(),
        ensures
            final(self).wf(),
            final(self)@ == Map::<Seq<char>, V>::empty(),
    {
        self.entries.clear();
        self.contents = Ghost(Map::empty());
    }
}

/// Entries keyed by integers, kept in ascending key order.
pub struct IntTable<V> {
    entries: Vec<(i32, V)>,
    contents: Ghost<Map<i32, V>>,
}

impl<V> IntTable<V> {
    /// What the table maps each key to.
    pub closed spec fn view(&self) -> Map<i32, V> {
        self.contents@
    }

    /// The keys, in ascending order.
    pub closed spec fn keys(&self) -> Seq<i32> {
        Seq::new(self.entries@.len(), |i: int| self.entries@[i].0)
    }

    /// The values, in the order of their keys.
    pub closed spec fn vals(&self) -> Seq<V> {
        Seq::new(self.entries@.len(), |i: int| self.entries@[i].1)
    }

    /// The keys are strictly ascending, and the entries are exactly the map.
    pub closed spec fn wf(&self) -> bool {
        &&& forall|i: int, j: int|
            0 <= i < j < self.entries@.len() ==> #[trigger] self.entries@[i].0 < #[trigger] self.entries@[j].0
        &&& forall|i: int|
            0 <= i < self.entries@.len() ==> {
                &&& #[trigger] self.contents@.contains_key(self.entries@[i].0)
                &&& self.contents@[self.entries@[i].0] == self.entries@[i].1
            }
        &&& forall|k: i32|
            #[trigger] self.contents@.contains_key(k) ==> exists|i: int|
                0 <= i < self.entries@.len() && self.entries@[i].0 == k
    }

    /// What a well-formed table states about its keys, values and map.
    pub proof fn lemma_wf(&self)
        requires
            self.wf(),
        ensures
            self.keys().len() == self.vals().len(),
            forall|i: int|
                0 <= i < self.keys().len() ==> #[trigger] self@.contains_key(self.keys()[i])
                    && self@[self.keys()[i]] == self.vals()[i],
            forall|k: i32|
                #[trigger] self@.contains_key(k) ==> exists|i: int|
                    0 <= i < self.keys().len() && self.keys()[i] == k,
            forall|i: int, j: int|
                0 <= i < j < self.keys().len() ==> #[trigger] self.keys()[i] < #[trigger] self.keys()[j],
    {
        assert forall|i: int| 0 <= i < self.keys().len() implies #[trigger] self@.contains_key(
            self.keys()[i],
        ) && self@[self.keys()[i]] == self.vals()[i] by {
            assert(self.keys()[i] == self.entries@[i].0);
            assert(self.contents@.contains_key(self.entries@[i].0));
        }
        assert forall|k: i32| #[trigger] self@.contains_key(k) implies exists|i: int|
            0 <= i < self.keys().len() && self.keys()[i] == k by {
            let i = choose|i: int| 0 <= i < self.entries@.len() && self.entries@[i].0 == k;
            assert(self.keys()[i] == k);
        }
    }

    /// An empty table.
    pub fn new() -> (t: Self)
        ensures
            t.wf(),
            t@ == Map::<i32, V>::empty(),
    {
        IntTable { entries: Vec::new(), contents: Ghost(Map::empty()) }
    }

    /// The number of entries.
    pub fn len(&self) -> (n: usize)
        ensures
            n == self.keys().len(),
    {
        self.entries.len()
    }

    fn locate(&self, k: i32) -> (r: (usize, bool))
        requires
            self.wf(),
        ensures
            r.0 <= self.entries@.len(),
            forall|i: int| 0 <= i < r.0 ==> #[trigger] self.entries@[i].0 < k,
            r.1 ==> r.0 < self.entries@.len() && self.entries@[r.0 as int].0 == k,
            !r.1 ==> forall|i: int| r.0 <= i < self.entries@.len() ==> k < #[trigger] self.entries@[i].0,
            r.1 == self@.contains_key(k),
    {
        let mut i: usize = 0;
        while i < self.entries.len()
            invariant
                self.wf(),
                i <= self.entries@.len(),
                forall|j: int| 0 <= j < i ==> #[trigger] self.entries@[j].0 < k,
            decreases self.entries.len() - i,
        {
            let key = self.entries[i].0;
            if key < k {
                i = i + 1;
            } else {
                proof {
                    if key != k {
                        assert forall|j: int| i <= j < self.entries@.len() implies k < #[trigger] self.entries@[j].0 by {
                            if j > i {
                                assert(self.entries@[i as int].0 < self.entries@[j].0);
                            }
                        }
                        if self@.contains_key(k) {
                            let m = choose|m: int| 0 <= m < self.entries@.len() && self.entries@[m].0 == k;
                        }
                    }
                }
                return (i, key == k);
            }
        }
        proof {
            if self@.contains_key(k) {
                let m = choose|m: int| 0 <= m < self.entries@.len() && self.entries@[m].0 == k;
            }
        }
        (i, false)
    }

    /// The value stored under `k`, if any.
    pub fn get(&self, k: i32) -> (r: Option<&V>)
        requires
            self.wf(),
        ensures
            r == (if self@.contains_key(k) {
                Some(&self@[k])
            } else {
                None
            }),
    {
        let (i, found) = self.locate(k);
        if found {
            Some(&self.entries[i].1)
        } else {
            None
        }
    }

    /// The value at position `i` in key order.
    pub fn entry(&self, i: usize) -> (r: (i32, &V))
        requires
            self.wf(),
            i < self.keys().len(),
        ensures
            r.0 == self.keys()[i as int],
            *r.1 == self.vals()[i as int],
    {
        let e = &self.entries[i];
        (e.0, &e.1)
    }

    /// Stores `v` under `k`, replacing any value there.
    pub fn insert(&mut self, k: i32, v: V)
        requires
            old(self).wf(),
        ensures
            final(self).wf(),
            final(self)@ == old(self)@.insert(k, v),
    {
        let (i, found) = self.locate(k);
        let ghost old_entries = self.entries@;
        let ghost new_map = self.contents@.insert(k, v);
        if found {
            self.entries.set(i, (k, v));
            self.contents = Ghost(new_map);
            proof {
                assert forall|j: int| 0 <= j < self.entries@.len() implies {
                    &&& #[trigger] self.contents@.contains_key(self.entries@[j].0)
                    &&& self.contents@[self.entries@[j].0] == self.entries@[j].1
                } by {
                    if j < i {
                        assert(old_entries[j].0 < old_entries[i as int].0);
                    } else if j > i {
                        assert(old_entries[i as int].0 < old_entries[j].0);
                    }
                }
                assert forall|m: i32| #[trigger] self.contents@.contains_key(m) implies exists|j: int|
                    0 <= j < self.entries@.len() && self.entries@[j].0 == m by {
                    if m == k {
                        assert(self.entries@[i as int].0 == m);
                    } else {
                        let j = choose|j: int| 0 <= j < old_entries.len() && old_entries[j].0 == m;
                        assert(self.entries@[j].0 == m);
                    }
                }
            }
        } else {
            self.entries.insert(i, (k, v));
            self.contents = Ghost(new_map);
            proof {
                assert forall|a: int, b: int| 0 <= a < b < self.entries@.len() implies
                    #[trigger] self.entries@[a].0 < #[trigger] self.entries@[b].0 by {
                    if b == i {
                        assert(self.entries@[a].0 == old_entries[a].0);
                    } else if a == i {
                        assert(self.entries@[b].0 == old_entries[b - 1].0);
                    } else if a < i && b > i {
                        assert(old_entries[a].0 < k);
                        assert(k < old_entries[b - 1].0);
                    } else if a > i {
                        assert(self.entries@[a].0 == old_entries[a - 1].0);
                        assert(self.entries@[b].0 == old_entries[b - 1].0);
                    } else {
                        assert(self.entries@[a].0 == old_entries[a].0);
                        assert(self.entries@[b].0 == old_entries[b].0);
                    }
                }
                assert forall|j: int| 0 <= j < self.entries@.len() implies {
                    &&& #[trigger] self.contents@.contains_key(self.entries@[j].0)
                    &&& self.contents@[self.entries@[j].0] == self.entries@[j].1
                } by {
                    if j < i {
                        assert(self.entries@[j] == old_entries[j]);
                        assert(old_entries[j].0 < k);
                    } else if j > i {
                        assert(self.entries@[j] == old_entries[j - 1]);
                        assert(k < old_entries[j - 1].0);
                    }
                }
                assert forall|m: i32| #[trigger] self.contents@.contains_key(m) implies exists|j: int|
                    0 <= j < self.entries@.len() && self.entries@[j].0 == m by {
                    if m == k {
                        assert(self.entries@[i as int].0 == m);
                    } else {
                        let j = choose|j: int| 0 <= j < old_entries.len() && old_entries[j].0 == m;
                        if j < i {
                            assert(self.entries@[j].0 == m);
                        } else {
                            assert(self.entries@[j + 1].0 == m);
                        }
                    }
                }
            }
        }
    }
}

/// Mapping the values of a map commutes with inserting an entry.
pub proof fn lemma_map_values_insert<K, V, W>(m: Map<K, V>, k: K, v: V, f: spec_fn(V) -> W)
    ensures
        m.insert(k, v).map_values(f) == m.map_values(f).insert(k, f(v)),
{
    assert(m.insert(k, v).map_values(f) =~= m.map_values(f).insert(k, f(v)));
}

/// Mapping the values of a map commutes with removing an entry.
pub proof fn lemma_map_values_remove<K, V, W>(m: Map<K, V>, k: K, f: spec_fn(V) -> W)
    ensures
        m.remove(k).map_values(f) == m.map_values(f).remove(k),
{
    assert(m.remove(k).map_values(f) =~= m.map_values(f).remove(k));
}

/// Mapping the values of a map commutes with removing a set of keys.
pub proof fn lemma_map_values_remove_keys<K, V, W>(m: Map<K, V>, ks: Set<K>, f: spec_fn(V) -> W)
    ensures
        m.remove_keys(ks).map_values(f) == m.map_values(f).remove_keys(ks),
{
    assert(m.remove_keys(ks).map_values(f) =~= m.map_values(f).remove_keys(ks));
}

/// The map built by putting each item under its key, in order: a later item
/// replaces an earlier one with the same key.
pub open spec fn keyed<V>(items: Seq<V>, key: spec_fn(V) -> Seq<char>) -> Map<Seq<char>, V>
    decreases items.len(),
{
    if items.len() == 0 {
        Map::empty()
    } else {
        keyed(items.drop_last(), key).insert(key(items.last()), items.last())
    }
}

/// Putting the values that distinct keys lead to, each under its own key, gives
/// back the map on those keys.
pub proof fn lemma_keyed_values<V>(ks: Seq<Seq<char>>, m: Map<Seq<char>, V>, key: spec_fn(V) -> Seq<char>)
    requires
        forall|i: int, j: int| 0 <= i < j < ks.len() ==> ks[i] != ks[j],
        forall|i: int| 0 <= i < ks.len() ==> #[trigger] m.contains_key(ks[i]) && key(m[ks[i]]) == ks[i],
    ensures
        keyed(Seq::new(ks.len(), |i: int| m[ks[i]]), key) == m.restrict(ks.to_set()),
    decreases ks.len(),
{
    let items = Seq::new(ks.len(), |i: int| m[ks[i]]);
    if ks.len() == 0 {
        assert(keyed(items, key) == Map::<Seq<char>, V>::empty());
        assert(m.restrict(ks.to_set()) =~= Map::empty());
    } else {
        let ks0 = ks.drop_last();
        lemma_keyed_values(ks0, m, key);
        assert(items.drop_last() =~= Seq::new(ks0.len(), |i: int| m[ks0[i]]));
        assert(items.last() == m[ks.last()]);
        assert(m.contains_key(ks[ks.len() - 1]));
        assert(key(items.last()) == ks.last());
        assert(keyed(items, key) == keyed(items.drop_last(), key).insert(ks.last(), m[ks.last()]));
        assert forall|x: Seq<char>| ks.to_set().contains(x) <==> (ks0.to_set().contains(x) || x == ks.last()) by {
            if ks.contains(x) {
                let i = choose|i: int| 0 <= i < ks.len() && ks[i] == x;
                if i < ks.len() - 1 {
                    assert(ks0[i] == x);
                }
            }
            if ks0.contains(x) {
                let i = choose|i: int| 0 <= i < ks0.len() && ks0[i] == x;
                assert(ks[i] == x);
            }
            if x == ks.last() {
                assert(ks[ks.len() - 1] == x);
            }
        }
        assert(m.restrict(ks.to_set()) =~= m.restrict(ks0.to_set()).insert(ks.last(), m[ks.last()]));
    }
}

impl<V> Table<V> {
    /// Putting the table's values, mapped by `f` and taken in key order, each
    /// under its own key, gives back the mapped table.
    pub proof fn lemma_keyed_view<W>(&self, f: spec_fn(V) -> W, key: spec_fn(W) -> Seq<char>)
        requires
            self.wf(),
            forall|k: Seq<char>| #[trigger] self@.contains_key(k) ==> key(f(self@[k])) == k,
        ensures
            keyed(Seq::new(self.keys().len(), |i: int| self@.map_values(f)[self.keys()[i]]), key)
                == self@.map_values(f),
    {
        self.lemma_wf();
        let ks = self.keys();
        let m = self@.map_values(f);
        assert forall|i: int, j: int| 0 <= i < j < ks.len() implies ks[i] != ks[j] by {
            assert(seq_lt(ks[i], ks[j]));
            if ks[i] == ks[j] {
                lemma_seq_lt_irreflexive(ks[i]);
            }
        }
        assert forall|i: int| 0 <= i < ks.len() implies #[trigger] m.contains_key(ks[i]) && key(m[ks[i]]) == ks[i] by {
            assert(self@.contains_key(ks[i]));
        }
        lemma_keyed_values(ks, m, key);
        assert forall|x: Seq<char>| #[trigger] m.contains_key(x) implies ks.to_set().contains(x) by {
            assert(self@.contains_key(x));
            let i = choose|i: int| 0 <= i < ks.len() && ks[i] == x;
            assert(ks.contains(x));
        }
        assert(m.restrict(ks.to_set()) =~= m);
    }
}

} // verus!
