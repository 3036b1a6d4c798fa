//! A list of values under unique string keys, seen as a map from key to value.

use vstd::prelude::*;

verus! {

/// Values under unique keys. Entries keep no particular order.
#[derive(Debug, Clone, PartialEq, Eq)]
pub struct KeyedList<V> {
    pub entries: Vec<(String, V)>,
}

impl<V> KeyedList<V> {
    /// No key stands twice.
    pub open spec fn wf(&self) -> bool {
        forall|i: int, j: int|
            0 <= i < j < self.entries@.len() ==> (#[trigger] self.entries@[i]).0@
                != (#[trigger] self.entries@[j]).0@
    }

    pub open spec fn key_at(&self, i: int) -> Seq<char> {
        self.entries@[i].0@
    }

    pub open spec fn has_key(&self, k: Seq<char>) -> bool {
        exists|i: int| 0 <= i < self.entries@.len() && self.key_at(i) == k
    }

    pub open spec fn index_of(&self, k: Seq<char>) -> int {
        choose|i: int| 0 <= i < self.entries@.len() && self.key_at(i) == k
    }

    /// The map from each key to its value.
    pub open spec fn map(&self) -> Map<Seq<char>, V> {
        Map::new(|k: Seq<char>| self.has_key(k), |k: Seq<char>| self.entries@[self.index_of(k)].1)
    }

    /// The entry at `i` is what the map holds under its key.
    pub proof fn lemma_entry(&self, i: int)
        requires
            self.wf(),
            0 <= i < self.entries@.len(),
        ensures
            self.map().contains_key(self.key_at(i)),
            self.map()[self.key_at(i)] == self.entries@[i].1,
    {
        let k = self.key_at(i);
        assert(self.has_key(k));
        let j = self.index_of(k);
        if i != j {
            if i < j {
                assert(self.entries@[i].0@ != self.entries@[j].0@);
            } else {
                assert(self.entries@[j].0@ != self.entries@[i].0@);
            }
        }
    }

    pub fn new() -> (r: Self)
        ensures
            r.wf(),
            r.map() == Map::<Seq<char>, V>::empty(),
    {
        let r = KeyedList { entries: Vec::new() };
        assert(r.map() =~= Map::<Seq<char>, V>::empty());
        r
    }

    pub fn len(&self) -> (n: usize)
        ensures
            n == self.entries@.len(),
    {
        self.entries.len()
    }

    /// The index of the entry under `k`.
    pub fn find(&self, k: &String) -> (r: Option<usize>)
        requires
            self.wf(),
        ensures
            r matches Some(i) ==> i < self.entries@.len() && self.key_at(i as int) == k@,
            r is None ==> !self.map().contains_key(k@),
            r is None <==> !self.map().contains_key(k@),
    {
        let mut i: usize = 0;
        while i < self.entries.len()
            invariant
                i <= self.entries@.len(),
                forall|j: int| 0 <= j < i ==> self.key_at(j) != k@,
            decreases self.entries@.len() - i,
        {
            if self.entries[i].0 == *k {
                proof {
                    assert(self.key_at(i as int) == k@);
                    assert(self.has_key(k@));
                }
                return Some(i);
            }
            i = i + 1;
        }
        None
    }

    /// The value under `k`.
    pub fn get(&self, k: &String) -> (r: Option<&V>)
        requires
            self.wf(),
        ensures
            r is None <==> !self.map().contains_key(k@),
            r matches Some(v) ==> self.map().contains_key(k@) && *v == self.map()[k@],
    {
        match self.find(k) {
            None => None,
            Some(i) => {
                proof {
                    self.lemma_entry(i as int);
                }
                Some(&self.entries[i].1)
            },
        }
    }

    /// Takes the value under `k` out of the list.
    pub fn take(&mut self, k: &String) -> (r: Option<V>)
        requires
            old(self).wf(),
        ensures
            final(self).wf(),
            r is None <==> !old(self).map().contains_key(k@),
            r matches Some(v) ==> v == old(self).map()[k@],
            r is Some ==> final(self).entries@.len() == old(self).entries@.len() - 1,
            final(self).map() == old(self).map().remove(k@),
    {
        match self.find(k) {
            None => {
                assert(self.map() =~= self.map().remove(k@));
                None
            },
            Some(i) => {
                let ghost before = *self;
                proof {
                    before.lemma_entry(i as int);
                }
                let (_, v) = self.entries.remove(i);
                proof {
                    let after = *self;
                    assert(after.entries@ == before.entries@.remove(i as int));
                    assert forall|a: int, b: int|
                        0 <= a < b < after.entries@.len() implies (#[trigger] after.entries@[a]).0@
                            != (#[trigger] after.entries@[b]).0@ by {
                        let a0 = if a < i { a } else { a + 1 };
                        let b0 = if b < i { b } else { b + 1 };
                        assert(after.entries@[a] == before.entries@[a0]);
                        assert(after.entries@[b] == before.entries@[b0]);
                        assert(before.entries@[a0].0@ != before.entries@[b0].0@);
                    }
                    assert forall|key: Seq<char>|
                        #[trigger] after.map().contains_key(key) == before.map().remove(
                            k@,
                        ).contains_key(key) by {
                        if after.has_key(key) {
                            let j = choose|j: int| 0 <= j < after.entries@.len() && after.key_at(j) == key;
                            let j0 = if j < i { j } else { j + 1 };
                            assert(before.key_at(j0) == key);
                            assert(before.has_key(key));
                            assert(key != k@) by {
                                if j0 < i {
                                    assert(before.entries@[j0].0@ != before.entries@[i as int].0@);
                                } else {
                                    assert(before.entries@[i as int].0@ != before.entries@[j0].0@);
                                }
                            }
                        }
                        if before.has_key(key) && key != k@ {
                            let j0 = choose|j: int| 0 <= j < before.entries@.len() && before.key_at(j) == key;
                            assert(j0 != i);
                            let j = if j0 < i { j0 } else { j0 - 1 };
                            assert(after.key_at(j) == key);
                        }
                    }
                    assert forall|key: Seq<char>| #[trigger]
                        after.map().contains_key(key) implies after.map()[key] == before.map().remove(
                            k@,
                        )[key] by {
                        let j = after.index_of(key);
                        after.lemma_entry(j);
                        let j0 = if j < i { j } else { j + 1 };
                        before.lemma_entry(j0);
                    }
                    assert(after.map() =~= before.map().remove(k@));
                }
                Some(v)
            },
        }
    }

    /// Puts `v` under `k`, in place of any value already there.
    pub fn insert(&mut self, k: String, v: V)
        requires
            old(self).wf(),
        ensures
            final(self).wf(),
            final(self).map() == old(self).map().insert(k@, v),
    {
        let ghost key = k@;
        let _ = self.take(&k);
        assert(!self.map().contains_key(key));
        assert(!self.has_key(key));
        let ghost mid = *self;
        self.entries.push((k, v));
        proof {
            let after = *self;
            let n = mid.entries@.len() as int;
            assert forall|a: int, b: int|
                0 <= a < b < after.entries@.len() implies (#[trigger] after.entries@[a]).0@
                    != (#[trigger] after.entries@[b]).0@ by {
                if b == n {
                    assert(mid.key_at(a) != key) by {
                        if mid.key_at(a) == key {
                            assert(mid.has_key(key));
                        }
                    }
                } else {
                    assert(mid.entries@[a] == after.entries@[a]);
                    assert(mid.entries@[b] == after.entries@[b]);
                }
            }
            assert(after.key_at(n) == key);
            after.lemma_entry(n);
            assert forall|key2: Seq<char>|
                #[trigger] after.map().contains_key(key2) == mid.map().insert(key, v).contains_key(
                    key2,
                ) by {
                if after.has_key(key2) && key2 != key {
                    let j = choose|j: int| 0 <= j < after.entries@.len() && after.key_at(j) == key2;
                    assert(j != n);
                    assert(mid.key_at(j) == key2);
                }
                if mid.has_key(key2) {
                    let j = choose|j: int| 0 <= j < mid.entries@.len() && mid.key_at(j) == key2;
                    assert(after.key_at(j) == key2);
                }
            }
            assert forall|key2: Seq<char>| #[trigger]
                after.map().contains_key(key2) implies after.map()[key2] == mid.map().insert(
                    key,
                    v,
                )[key2] by {
                if key2 != key {
                    let j = after.index_of(key2);
                    after.lemma_entry(j);
                    assert(j != n);
                    assert(after.entries@[j] == mid.entries@[j]);
                    mid.lemma_entry(j);
                }
            }
            assert(after.map() =~= mid.map().insert(key, v));
            assert(mid.map().insert(key, v) =~= old(self).map().insert(key, v));
        }
    }

    /// Moves every entry of `other` here, each over what was stored under its key.
    pub fn absorb(&mut self, other: KeyedList<V>)
        requires
            old(self).wf(),
            other.wf(),
        ensures
            final(self).wf(),
            final(self).map() == old(self).map().union_prefer_right(other.map()),
    {
        let mut rest = other;
        while rest.entries.len() > 0
            invariant
                self.wf(),
                rest.wf(),
                self.map().union_prefer_right(rest.map()) == old(self).map().union_prefer_right(
                    other.map(),
                ),
            decreases rest.entries@.len(),
        {
            let last = rest.entries.len() - 1;
            let k = rest.entries[last].0.clone();
            proof {
                rest.lemma_entry(last as int);
            }
            let ghost before_self = self.map();
            let ghost before_rest = rest.map();
            match rest.take(&k) {
                Some(v) => {
                    self.insert(k, v);
                    assert(self.map().union_prefer_right(rest.map()) =~= before_self.union_prefer_right(
                        before_rest,
                    ));
                },
                None => {},
            }
        }
        assert(rest.map() =~= Map::<Seq<char>, V>::empty()) by {
            assert forall|key: Seq<char>| !rest.map().contains_key(key) by {
                if rest.has_key(key) {
                    let j = choose|j: int| 0 <= j < rest.entries@.len() && rest.key_at(j) == key;
                }
            }
        }
        assert(self.map().union_prefer_right(rest.map()) =~= self.map());
    }
}

} // verus!
