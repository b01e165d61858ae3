use vstd::prelude::*;
use vstd::string::StringExecFns;

verus! {

/// A map keyed by text, kept as a list of entries with distinct keys.
pub struct StringMap<V> {
    entries: Vec<(String, V)>,
}

impl<V> StringMap<V> {
    /// The keys of the entries, in storage order.
    pub closed spec fn key_seq(&self) -> Seq<Seq<char>> {
        self.entries@.map_values(|e: (String, V)| e.0@)
    }

    spec fn index_of(&self, k: Seq<char>) -> int {
        choose|i: int| 0 <= i < self.entries@.len() && self.entries@[i].0@ == k
    }

    /// The map's content.
    pub closed spec fn view(&self) -> Map<Seq<char>, V> {
        Map::new(
            |k: Seq<char>| self.key_seq().contains(k),
            |k: Seq<char>| self.entries@[self.index_of(k)].1,
        )
    }

    /// No key is stored twice.
    #[verifier::type_invariant]
    spec fn wf(&self) -> bool {
        self.key_seq().no_duplicates()
    }

    proof fn lemma_index_of(&self, i: int)
        requires
            self.wf(),
            0 <= i < self.entries@.len(),
        ensures
            self.index_of(self.entries@[i].0@) == i,
            self.view().contains_key(self.entries@[i].0@),
            self.view()[self.entries@[i].0@] == self.entries@[i].1,
    {
        let k = self.entries@[i].0@;
        assert(self.key_seq()[i] == k);
        let j = self.index_of(k);
        assert(self.key_seq()[j] == k);
    }

    proof fn lemma_len(&self)
        requires
            self.wf(),
        ensures
            self.view().dom() == self.key_seq().to_set(),
            self.view().len() == self.entries@.len(),
    {
        assert(self.view().dom() =~= self.key_seq().to_set());
        self.key_seq().unique_seq_to_set();
    }

    /// An empty map.
    pub fn new() -> (m: Self)
        ensures
            m.view() == Map::<Seq<char>, V>::empty(),
    {
        let m = StringMap { entries: Vec::new() };
        proof {
            assert(m.view() =~= Map::<Seq<char>, V>::empty());
        }
        m
    }

    fn find(&self, key: &String) -> (r: Option<usize>)
        ensures
            match r {
                Some(i) => i < self.entries@.len() && self.entries@[i as int].0@ == key@,
                None => !self.view().contains_key(key@),
            },
    {
        proof {
            use_type_invariant(self);
        }
        let n = self.entries.len();
        let mut i: usize = 0;
        while i < n
            invariant
                n == self.entries@.len(),
                i <= n,
                forall|j: int| 0 <= j < i ==> self.entries@[j].0@ != key@,
            decreases n - i,
        {
            if self.entries[i].0 == *key {
                return Some(i);
            }
            i = i + 1;
        }
        proof {
            if self.key_seq().contains(key@) {
                let j = choose|j: int| 0 <= j < self.key_seq().len() && self.key_seq()[j] == key@;
                assert(self.entries@[j].0@ == key@);
            }
        }
        None
    }

    /// The number of keys.
    pub fn len(&self) -> (n: usize)
        ensures
            n == self.view().len(),
    {
        proof {
            use_type_invariant(self);
            self.lemma_len();
        }
        self.entries.len()
    }

    /// The value stored under `key`, if any.
    pub fn get(&self, key: &str) -> (r: Option<&V>)
        ensures
            self.view().contains_key(key@) ==> r == Some(&self.view()[key@]),
            !self.view().contains_key(key@) ==> r is None,
    {
        proof {
            use_type_invariant(self);
        }
        let k = String::from_str(key);
        match self.find(&k) {
            Some(i) => {
                proof {
                    self.lemma_index_of(i as int);
                }
                Some(&self.entries[i].1)
            },
            None => None,
        }
    }

    /// Stores `value` under `key`, replacing what was there.
    pub fn insert(&mut self, key: String, value: V)
        ensures
            final(self).view() == old(self).view().insert(key@, value),
    {
        proof {
            use_type_invariant(&*self);
        }
        let ghost k = key@;
        let found = self.find(&key);
        let mut entries: Vec<(String, V)> = Vec::new();
        std::mem::swap(&mut entries, &mut self.entries);
        let ghost pre = old(self).key_seq();
        match found {
            Some(i) => {
                entries.set(i, (key, value));
                proof {
                    let m = StringMap { entries: entries };
                    assert(m.key_seq() =~= pre);
                }
            },
            None => {
                proof {
                    assert(!pre.contains(k));
                }
                entries.push((key, value));
                proof {
                    let m = StringMap { entries: entries };
                    assert(m.key_seq() =~= pre.push(k));
                }
            },
        }
        let m = StringMap { entries };
        proof {
            assert forall|k2: Seq<char>| #[trigger] m.view().contains_key(k2) implies m.view()[k2] == old(self).view().insert(k, value)[k2] by {
                let j = choose|j: int| 0 <= j < m.key_seq().len() && m.key_seq()[j] == k2;
                m.lemma_index_of(j);
                if j < old(self).entries@.len() {
                    old(self).lemma_index_of(j);
                }
                match found {
                    Some(i) => {
                        if j != i {
                            assert(m.key_seq()[j] != m.key_seq()[i as int]);
                        }
                    },
                    None => {},
                }
            }
            assert forall|k2: Seq<char>| #[trigger] old(self).view().insert(k, value).contains_key(k2) implies m.view().contains_key(k2) by {
                if k2 == k {
                    match found {
                        Some(i) => assert(m.key_seq()[i as int] == k),
                        None => assert(m.key_seq()[old(self).entries@.len() as int] == k),
                    }
                } else {
                    let j = choose|j: int| 0 <= j < pre.len() && pre[j] == k2;
                    assert(m.key_seq()[j] == k2);
                }
            }
            assert(m.view() =~= old(self).view().insert(k, value));
        }
        *self = m;
    }

    /// Removes `key`, returning the value that was stored under it.
    pub fn remove(&mut self, key: &str) -> (r: Option<V>)
        ensures
            final(self).view() == old(self).view().remove(key@),
            old(self).view().contains_key(key@) ==> r == Some(old(self).view()[key@]),
            !old(self).view().contains_key(key@) ==> r is None,
    {
        proof {
            use_type_invariant(&*self);
        }
        let k = String::from_str(key);
        match self.find(&k) {
            Some(i) => {
                proof {
                    old(self).lemma_index_of(i as int);
                }
                let mut entries: Vec<(String, V)> = Vec::new();
                std::mem::swap(&mut entries, &mut self.entries);
                let ghost pre = old(self).key_seq();
                let (_, v) = entries.remove(i);
                proof {
                    let ks = entries@.map_values(|e: (String, V)| e.0@);
                    assert(ks =~= pre.remove(i as int));
                    assert forall|a: int, b: int| 0 <= a < ks.len() && 0 <= b < ks.len() && a != b implies ks[a] != ks[b] by {
                        let a2 = if a < i { a } else { a + 1 };
                        let b2 = if b < i { b } else { b + 1 };
                        assert(ks[a] == pre[a2]);
                        assert(ks[b] == pre[b2]);
                    }
                }
                let m = StringMap { entries };
                proof {
                    assert(m.key_seq() =~= pre.remove(i as int));
                }
                proof {
                    assert forall|k2: Seq<char>| #[trigger] m.view().contains_key(k2) implies m.view()[k2] == old(self).view().remove(key@)[k2] && k2 != key@ by {
                        let j = choose|j: int| 0 <= j < m.key_seq().len() && m.key_seq()[j] == k2;
                        m.lemma_index_of(j);
                        if j < i {
                            old(self).lemma_index_of(j);
                        } else {
                            old(self).lemma_index_of(j + 1);
                        }
                    }
                    assert forall|k2: Seq<char>| old(self).view().remove(key@).contains_key(k2) implies #[trigger] m.view().contains_key(k2) by {
                        let j = choose|j: int| 0 <= j < pre.len() && pre[j] == k2;
                        if j < i {
                            assert(m.key_seq()[j] == k2);
                        } else {
                            assert(m.key_seq()[j - 1] == k2);
                        }
                    }
                    assert(m.view() =~= old(self).view().remove(key@));
                }
                *self = m;
                Some(v)
            },
            None => {
                proof {
                    assert(self.view() =~= old(self).view().remove(key@));
                }
                None
            },
        }
    }

    /// The entries, each key once, in storage order.
    pub fn entries(&self) -> (es: &Vec<(String, V)>)
        ensures
            es@.len() == self.view().len(),
            forall|i: int|
                0 <= i < es@.len() ==> self.view().contains_key(#[trigger] es@[i].0@) && self.view()[es@[i].0@]
                    == es@[i].1,
            forall|k: Seq<char>|
                #[trigger] self.view().contains_key(k) ==> exists|i: int|
                    0 <= i < es@.len() && es@[i].0@ == k,
            forall|i: int, j: int|
                0 <= i < es@.len() && 0 <= j < es@.len() && i != j ==> es@[i].0@ != es@[j].0@,
    {
        proof {
            use_type_invariant(self);
            self.lemma_len();
            assert forall|i: int| 0 <= i < self.entries@.len() implies self.view().contains_key(#[trigger] self.entries@[i].0@) && self.view()[self.entries@[i].0@] == self.entries@[i].1 by {
                self.lemma_index_of(i);
            }
            assert forall|k: Seq<char>| #[trigger] self.view().contains_key(k) implies exists|i: int| 0 <= i < self.entries@.len() && self.entries@[i].0@ == k by {
                let j = choose|j: int| 0 <= j < self.key_seq().len() && self.key_seq()[j] == k;
                assert(self.entries@[j].0@ == k);
            }
            assert forall|i: int, j: int| 0 <= i < self.entries@.len() && 0 <= j < self.entries@.len() && i != j implies self.entries@[i].0@ != self.entries@[j].0@ by {
                assert(self.key_seq()[i] == self.entries@[i].0@);
                assert(self.key_seq()[j] == self.entries@[j].0@);
            }
        }
        &self.entries
    }
}

} // verus!
