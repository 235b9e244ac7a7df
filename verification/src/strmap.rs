//! A small string-keyed map kept as an association list with distinct keys.

use vstd::prelude::*;
use crate::text::same_text;

verus! {

/// A map from text keys to values, holding each key at most once.
pub struct StrMap<V> {
    entries: Vec<(String, V)>,
}

impl<V> StrMap<V> {
    /// No key occurs twice.
    pub closed spec fn wf(&self) -> bool {
        forall|i: int, j: int|
            0 <= i < j < self.entries@.len() ==> #[trigger] self.entries@[i].0@
                != #[trigger] self.entries@[j].0@
    }

    /// Whether `key` has an entry.
    pub closed spec fn contains(&self, key: Seq<char>) -> bool {
        exists|i: int| 0 <= i < self.entries@.len() && #[trigger] self.entries@[i].0@ == key
    }

    /// The value stored under `key` (meaningful where `contains(key)` holds).
    pub closed spec fn value(&self, key: Seq<char>) -> V {
        self.entries@[choose|i: int|
            0 <= i < self.entries@.len() && #[trigger] self.entries@[i].0@ == key].1
    }

    /// The value stored under `key`, if any.
    pub open spec fn lookup(&self, key: Seq<char>) -> Option<V> {
        if self.contains(key) {
            Some(self.value(key))
        } else {
            None
        }
    }

    /// The number of keys.
    pub closed spec fn size(&self) -> nat {
        self.entries@.len()
    }

    proof fn lemma_at(&self, i: int)
        requires
            self.wf(),
            0 <= i < self.entries@.len(),
        ensures
            self.lookup(self.entries@[i].0@) == Some(self.entries@[i].1),
    {
        let k = self.entries@[i].0@;
        assert(self.contains(k));
    }

    /// An empty map.
    pub fn new() -> (res: Self)
        ensures
            res.wf(),
            res.size() == 0,
            forall|k: Seq<char>| #[trigger] res.lookup(k) is None,
    {
        StrMap { entries: Vec::new() }
    }

    /// The number of keys.
    pub fn len(&self) -> (res: usize)
        ensures
            res == self.size(),
    {
        self.entries.len()
    }

    /// The position of `key` in the list, if it is there.
    fn find(&self, key: &str) -> (res: Option<usize>)
        requires
            self.wf(),
        ensures
            match res {
                Some(i) => i < self.entries@.len() && self.entries@[i as int].0@ == key@,
                None => !self.contains(key@),
            },
    {
        let mut i: usize = 0;
        while i < self.entries.len()
            invariant
                i <= self.entries@.len(),
                forall|j: int| 0 <= j < i ==> #[trigger] self.entries@[j].0@ != key@,
            decreases self.entries@.len() - i,
        {
            if same_text(self.entries[i].0.as_str(), key) {
                return Some(i);
            }
            i = i + 1;
        }
        None
    }

    /// The value stored under `key`.
    pub fn get(&self, key: &str) -> (res: Option<&V>)
        requires
            self.wf(),
        ensures
            match res {
                Some(v) => self.lookup(key@) == Some(*v),
                None => self.lookup(key@) is None,
            },
    {
        match self.find(key) {
            Some(i) => {
                proof {
                    self.lemma_at(i as int);
                }
                Some(&self.entries[i].1)
            },
            None => None,
        }
    }

    /// Store `value` under `key`, replacing any earlier value.
    pub fn insert(&mut self, key: String, value: V)
        requires
            old(self).wf(),
        ensures
            final(self).wf(),
            final(self).lookup(key@) == Some(value),
            forall|k: Seq<char>| k != key@ ==> #[trigger] final(self).lookup(k) == old(self).lookup(k),
            final(self).size() == if old(self).contains(key@) {
                old(self).size()
            } else {
                old(self).size() + 1
            },
    {
        let ghost kv = key@;
        match self.find(key.as_str()) {
            Some(i) => {
                self.entries.set(i, (key, value));
                proof {
                    self.lemma_at(i as int);
                    assert forall|k: Seq<char>| k != kv implies #[trigger] self.lookup(k) == old(
                        self,
                    ).lookup(k) by {
                        if old(self).contains(k) {
                            let j = choose|j: int|
                                0 <= j < old(self).entries@.len() && #[trigger] old(
                                    self,
                                ).entries@[j].0@ == k;
                            old(self).lemma_at(j);
                            self.lemma_at(j);
                        }
                        if self.contains(k) {
                            let j = choose|j: int|
                                0 <= j < self.entries@.len() && #[trigger] self.entries@[j].0@ == k;
                            self.lemma_at(j);
                        }
                    }
                    assert(old(self).contains(kv));
                }
            },
            None => {
                self.entries.push((key, value));
                proof {
                    let n = old(self).entries@.len() as int;
                    self.lemma_at(n);
                    assert forall|k: Seq<char>| k != kv implies #[trigger] self.lookup(k) == old(
                        self,
                    ).lookup(k) by {
                        if old(self).contains(k) {
                            let j = choose|j: int|
                                0 <= j < old(self).entries@.len() && #[trigger] old(
                                    self,
                                ).entries@[j].0@ == k;
                            old(self).lemma_at(j);
                            self.lemma_at(j);
                        }
                        if self.contains(k) {
                            let j = choose|j: int|
                                0 <= j < self.entries@.len() && #[trigger] self.entries@[j].0@ == k;
                            self.lemma_at(j);
                        }
                    }
                }
            },
        }
    }
    /// Take the value stored under `key` out of the map.
    pub fn remove(&mut self, key: &str) -> (res: Option<V>)
        requires
            old(self).wf(),
        ensures
            final(self).wf(),
            res == old(self).lookup(key@),
            final(self).lookup(key@) is None,
            forall|k: Seq<char>| k != key@ ==> #[trigger] final(self).lookup(k) == old(self).lookup(k),
    {
        match self.find(key) {
            Some(i) => {
                proof {
                    self.lemma_at(i as int);
                }
                let (_, v) = self.entries.remove(i);
                proof {
                    assert forall|k: Seq<char>| k != key@ implies #[trigger] self.lookup(k) == old(
                        self,
                    ).lookup(k) by {
                        if old(self).contains(k) {
                            let j = choose|j: int|
                                0 <= j < old(self).entries@.len() && #[trigger] old(
                                    self,
                                ).entries@[j].0@ == k;
                            old(self).lemma_at(j);
                            if j < i {
                                self.lemma_at(j);
                            } else {
                                self.lemma_at(j - 1);
                            }
                        }
                        if self.contains(k) {
                            let j = choose|j: int|
                                0 <= j < self.entries@.len() && #[trigger] self.entries@[j].0@ == k;
                            self.lemma_at(j);
                            if j < i {
                                old(self).lemma_at(j);
                            } else {
                                old(self).lemma_at(j + 1);
                            }
                        }
                    }
                    if self.contains(key@) {
                        let j = choose|j: int|
                            0 <= j < self.entries@.len() && #[trigger] self.entries@[j].0@ == key@;
                        if j < i {
                            assert(old(self).entries@[j].0@ == key@);
                        } else {
                            assert(old(self).entries@[j + 1].0@ == key@);
                        }
                    }
                }
                Some(v)
            },
            None => None,
        }
    }
}

} // verus!
