//! A small map from strings to values, modelled as a `Map<Seq<char>, V>`.
use vstd::prelude::*;

use crate::text::{str_eq, string_of, chars_of};

verus! {

/// A map keyed by strings; no key occurs twice.
pub struct StringMap<V> {
    entries: Vec<(String, V)>,
}

impl<V> StringMap<V> {
    /// No key occurs twice.
    pub closed spec fn wf(&self) -> bool {
        forall|i: int, j: int|
            0 <= i < self.entries@.len() && 0 <= j < self.entries@.len() && i != j
                ==> #[trigger] self.entries@[i].0@ != #[trigger] self.entries@[j].0@
    }

    closed spec fn has(&self, k: Seq<char>) -> bool {
        exists|i: int| 0 <= i < self.entries@.len() && #[trigger] self.entries@[i].0@ == k
    }

    closed spec fn index_of(&self, k: Seq<char>) -> int {
        choose|i: int| 0 <= i < self.entries@.len() && #[trigger] self.entries@[i].0@ == k
    }

    pub closed spec fn map(&self) -> Map<Seq<char>, V> {
        Map::new(|k: Seq<char>| self.has(k), |k: Seq<char>| self.entries@[self.index_of(k)].1)
    }

    /// The entry at `j` is what the map holds for its key.
    proof fn lemma_entry(&self, j: int)
        requires
            self.wf(),
            0 <= j < self.entries@.len(),
        ensures
            self.map().contains_key(self.entries@[j].0@),
            self.map()[self.entries@[j].0@] == self.entries@[j].1,
    {
        let k = self.entries@[j].0@;
        assert(self.has(k));
        let c = self.index_of(k);
        assert(self.entries@[c].0@ == k);
        if c != j {
            assert(self.entries@[c].0@ != self.entries@[j].0@);
        }
    }

    /// Every key of the map is the key of some entry.
    proof fn lemma_key(&self, k: Seq<char>)
        requires
            self.wf(),
            self.map().contains_key(k),
        ensures
            0 <= self.index_of(k) < self.entries@.len(),
            self.entries@[self.index_of(k)].0@ == k,
    {
        assert(self.has(k));
    }

    /// An empty map.
    pub fn new() -> (m: Self)
        ensures
            m.wf(),
            m@ == Map::<Seq<char>, V>::empty(),
    {
        let m = StringMap { entries: Vec::new() };
        assert(m.map() =~= Map::<Seq<char>, V>::empty());
        m
    }

    fn position(&self, key: &str) -> (r: Option<usize>)
        requires
            self.wf(),
        ensures
            r matches Some(i) ==> i < self.entries@.len() && self.entries@[i as int].0@ == key@,
            r is None ==> !self.map().contains_key(key@),
    {
        let mut i: usize = 0;
        while i < self.entries.len()
            invariant
                i <= self.entries@.len(),
                forall|j: int| 0 <= j < i ==> self.entries@[j].0@ != key@,
            decreases self.entries@.len() - i,
        {
            if str_eq(self.entries[i].0.as_str(), key) {
                return Some(i);
            }
            i += 1;
        }
        None
    }

    /// The number of keys.
    pub fn len(&self) -> (n: usize)
        requires
            self.wf(),
        ensures
            n == self@.dom().len(),
            self@.dom().finite(),
    {
        proof {
            self.lemma_dom();
        }
        self.entries.len()
    }

    proof fn lemma_dom(&self)
        requires
            self.wf(),
        ensures
            self.map().dom() == self.entries@.map_values(|e: (String, V)| e.0@).to_set(),
            self.map().dom().finite(),
            self.map().dom().len() == self.entries@.len(),
    {
        let keys = self.entries@.map_values(|e: (String, V)| e.0@);
        assert forall|k: Seq<char>| self.map().dom().contains(k) <==> keys.to_set().contains(k) by {
            if self.map().dom().contains(k) {
                self.lemma_key(k);
                assert(keys[self.index_of(k)] == k);
            }
            if keys.to_set().contains(k) {
                let i = choose|i: int| 0 <= i < keys.len() && keys[i] == k;
                assert(self.entries@[i].0@ == k);
            }
        }
        assert(self.map().dom() =~= keys.to_set());
        assert(keys.no_duplicates()) by {
            assert forall|i: int, j: int|
                0 <= i < keys.len() && 0 <= j < keys.len() && i != j implies keys[i] != keys[j] by {
                assert(keys[i] == self.entries@[i].0@);
                assert(keys[j] == self.entries@[j].0@);
            }
        }
        keys.unique_seq_to_set();
    }

    /// The value held for `key`.
    pub fn get(&self, key: &str) -> (r: Option<&V>)
        requires
            self.wf(),
        ensures
            r matches Some(v) ==> self@.contains_key(key@) && self@[key@] == *v,
            r is None ==> !self@.contains_key(key@),
    {
        match self.position(key) {
            Some(i) => {
                proof {
                    self.lemma_entry(i as int);
                }
                Some(&self.entries[i].1)
            },
            None => None,
        }
    }

    /// Sets the value held for `key`.
    pub fn insert(&mut self, key: &str, value: V)
        requires
            old(self).wf(),
        ensures
            final(self).wf(),
            final(self)@ == old(self)@.insert(key@, value),
    {
        let ghost old_self = *self;
        let k = string_of(&chars_of(key));
        let pos = self.position(key);
        let ghost i: int;
        match pos {
            Some(p) => {
                self.entries.set(p, (k, value));
                proof {
                    i = p as int;
                }
            },
            None => {
                self.entries.push((k, value));
                proof {
                    i = old_self.entries@.len() as int;
                }
            },
        }
        proof {
            let n = old_self.entries@.len();
            assert(self.entries@[i].0@ == key@ && self.entries@[i].1 == value);
            // Every other entry is unchanged.
            assert forall|j: int| 0 <= j < self.entries@.len() && j != i implies j < n
                && #[trigger] self.entries@[j] == old_self.entries@[j] by {}
            assert(self.wf()) by {
                assert forall|a: int, b: int|
                    0 <= a < self.entries@.len() && 0 <= b < self.entries@.len() && a
                        != b implies #[trigger] self.entries@[a].0@
                    != #[trigger] self.entries@[b].0@ by {
                    if a != i && b != i {
                        assert(old_self.entries@[a].0@ != old_self.entries@[b].0@);
                    } else if a == i {
                        if pos is None {
                            old_self.lemma_entry(b);
                        } else {
                            assert(old_self.entries@[a].0@ != old_self.entries@[b].0@);
                        }
                    } else {
                        if pos is None {
                            old_self.lemma_entry(a);
                        } else {
                            assert(old_self.entries@[a].0@ != old_self.entries@[b].0@);
                        }
                    }
                }
            }
            let target = old_self.map().insert(key@, value);
            assert forall|q: Seq<char>| #[trigger] self.map().contains_key(q) <==> target.contains_key(q) by {
                if self.map().contains_key(q) {
                    self.lemma_key(q);
                    let c = self.index_of(q);
                    if c != i {
                        old_self.lemma_entry(c);
                    }
                }
                if old_self.map().contains_key(q) && q != key@ {
                    old_self.lemma_key(q);
                    let c = old_self.index_of(q);
                    if c == i {
                        assert(old_self.entries@[c].0@ == key@);
                    }
                    assert(self.entries@[c] == old_self.entries@[c]);
                    self.lemma_entry(c);
                }
                if q == key@ {
                    self.lemma_entry(i);
                }
            }
            assert forall|q: Seq<char>| self.map().contains_key(q) implies #[trigger] self.map()[q]
                == target[q] by {
                self.lemma_key(q);
                let c = self.index_of(q);
                self.lemma_entry(c);
                if c == i {
                    assert(q == key@);
                } else {
                    assert(q != key@) by {
                        assert(self.entries@[c].0@ != self.entries@[i].0@);
                    }
                    old_self.lemma_entry(c);
                }
            }
            assert(self.map() =~= target);
        }
    }

    /// Removes `key` and its value.
    pub fn remove(&mut self, key: &str)
        requires
            old(self).wf(),
        ensures
            final(self).wf(),
            final(self)@ == old(self)@.remove(key@),
    {
        let ghost old_self = *self;
        match self.position(key) {
            None => {
                assert(self.map() =~= old_self.map().remove(key@));
            },
            Some(p) => {
                self.entries.remove(p);
                proof {
                    let i = p as int;
                    let n = self.entries@.len();
                    // The entry at `j` came from `back(j)` before the removal.
                    assert forall|j: int| 0 <= j < n implies #[trigger] self.entries@[j] == old_self.entries@[if j < i {
                        j
                    } else {
                        j + 1
                    }] by {}
                    assert(self.wf()) by {
                        assert forall|a: int, b: int|
                            0 <= a < n && 0 <= b < n && a != b implies #[trigger] self.entries@[a].0@
                            != #[trigger] self.entries@[b].0@ by {
                            let oa = if a < i {
                                a
                            } else {
                                a + 1
                            };
                            let ob = if b < i {
                                b
                            } else {
                                b + 1
                            };
                            assert(old_self.entries@[oa].0@ != old_self.entries@[ob].0@);
                        }
                    }
                    let target = old_self.map().remove(key@);
                    assert forall|q: Seq<char>| #[trigger] self.map().contains_key(q)
                        <==> target.contains_key(q) by {
                        if self.map().contains_key(q) {
                            self.lemma_key(q);
                            let c = self.index_of(q);
                            let oc = if c < i {
                                c
                            } else {
                                c + 1
                            };
                            old_self.lemma_entry(oc);
                            assert(oc != i);
                            assert(old_self.entries@[oc].0@ != old_self.entries@[i].0@);
                        }
                        if target.contains_key(q) {
                            old_self.lemma_key(q);
                            let c = old_self.index_of(q);
                            assert(c != i);
                            let nc = if c < i {
                                c
                            } else {
                                c - 1
                            };
                            assert(self.entries@[nc] == old_self.entries@[c]);
                            self.lemma_entry(nc);
                        }
                    }
                    assert forall|q: Seq<char>| self.map().contains_key(q) implies #[trigger] self.map()[q]
                        == target[q] by {
                        self.lemma_key(q);
                        let c = self.index_of(q);
                        self.lemma_entry(c);
                        let oc = if c < i {
                            c
                        } else {
                            c + 1
                        };
                        old_self.lemma_entry(oc);
                    }
                    assert(self.map() =~= target);
                }
            },
        }
    }

    /// The keys, each once, in no particular order.
    pub fn keys(&self) -> (ks: Vec<String>)
        requires
            self.wf(),
        ensures
            ks@.map_values(|k: String| k@).no_duplicates(),
            ks@.map_values(|k: String| k@).to_set() == self@.dom(),
    {
        let mut ks: Vec<String> = Vec::new();
        let mut i: usize = 0;
        while i < self.entries.len()
            invariant
                i <= self.entries@.len(),
                ks@.len() == i,
                forall|j: int| 0 <= j < i ==> #[trigger] ks@[j]@ == self.entries@[j].0@,
            decreases self.entries@.len() - i,
        {
            ks.push(self.entries[i].0.clone());
            i += 1;
        }
        proof {
            self.lemma_dom();
            assert(ks@.map_values(|k: String| k@) =~= self.entries@.map_values(
                |e: (String, V)| e.0@,
            ));
            let keys = ks@.map_values(|k: String| k@);
            assert forall|a: int, b: int|
                0 <= a < keys.len() && 0 <= b < keys.len() && a != b implies keys[a]
                != keys[b] by {
                assert(keys[a] == self.entries@[a].0@);
                assert(keys[b] == self.entries@[b].0@);
            }
        }
        ks
    }
}

impl<V> View for StringMap<V> {
    type V = Map<Seq<char>, V>;

    closed spec fn view(&self) -> Map<Seq<char>, V> {
        self.map()
    }
}

} // verus!
