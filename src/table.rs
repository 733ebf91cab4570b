//! A table from string keys to values, with at most one entry per key,
//! viewed as a map.
use vstd::prelude::*;

verus! {

/// The map that a sequence of entries describes; a later entry for a key
/// replaces an earlier one.
pub open spec fn entries_map<V>(entries: Seq<(String, V)>) -> Map<Seq<char>, V>
    decreases entries.len(),
{
    if entries.len() == 0 {
        Map::empty()
    } else {
        entries_map(entries.drop_last()).insert(entries.last().0@, entries.last().1)
    }
}

/// No two entries share a key.
pub open spec fn keys_unique<V>(entries: Seq<(String, V)>) -> bool {
    forall|i: int, j: int|
        0 <= i < entries.len() && 0 <= j < entries.len() && i != j ==> #[trigger] entries[i].0@
            != #[trigger] entries[j].0@
}

/// With unique keys, a key is in the map exactly when an entry holds it,
/// and the map gives that entry's value.
proof fn lemma_entries_map<V>(entries: Seq<(String, V)>)
    requires
        keys_unique(entries),
    ensures
        forall|k: Seq<char>|
            #[trigger] entries_map(entries).contains_key(k) <==> exists|j: int|
                0 <= j < entries.len() && entries[j].0@ == k,
        forall|j: int|
            0 <= j < entries.len() ==> #[trigger] entries_map(entries)[entries[j].0@]
                == entries[j].1,
    decreases entries.len(),
{
    if entries.len() > 0 {
        let prev = entries.drop_last();
        assert(keys_unique(prev)) by {
            assert forall|i: int, j: int|
                0 <= i < prev.len() && 0 <= j < prev.len() && i != j implies #[trigger] prev[i].0@
                != #[trigger] prev[j].0@ by {
                assert(prev[i] == entries[i] && prev[j] == entries[j]);
            }
        }
        lemma_entries_map(prev);
        let m = entries_map(entries);
        assert forall|k: Seq<char>|
            #[trigger] m.contains_key(k) <==> exists|j: int|
                0 <= j < entries.len() && entries[j].0@ == k by {
            if m.contains_key(k) && k != entries.last().0@ {
                assert(entries_map(prev).contains_key(k));
                let j = choose|j: int| 0 <= j < prev.len() && prev[j].0@ == k;
                assert(entries[j] == prev[j]);
                assert(0 <= j < entries.len() && entries[j].0@ == k);
            }
            if m.contains_key(k) && k == entries.last().0@ {
                assert(entries[entries.len() - 1].0@ == k);
            }
            if exists|j: int| 0 <= j < entries.len() && entries[j].0@ == k {
                let j = choose|j: int| 0 <= j < entries.len() && entries[j].0@ == k;
                if j < entries.len() - 1 {
                    assert(prev[j] == entries[j]);
                    assert(entries_map(prev).contains_key(k));
                }
            }
        }
        assert forall|j: int| 0 <= j < entries.len() implies #[trigger] m[entries[j].0@]
            == entries[j].1 by {
            if j < entries.len() - 1 {
                assert(prev[j] == entries[j]);
                assert(entries[j].0@ != entries[entries.len() - 1].0@);
                assert(entries_map(prev)[prev[j].0@] == prev[j].1);
            }
        }
    }
}

pub struct StringTable<V> {
    entries: Vec<(String, V)>,
}

impl<V> View for StringTable<V> {
    type V = Map<Seq<char>, V>;

    closed spec fn view(&self) -> Map<Seq<char>, V> {
        entries_map(self.entries@)
    }
}

impl<V> StringTable<V> {
    pub closed spec fn wf(&self) -> bool {
        keys_unique(self.entries@)
    }

    pub fn new() -> (r: StringTable<V>)
        ensures
            r.wf(),
            r@ == Map::<Seq<char>, V>::empty(),
    {
        StringTable { entries: Vec::new() }
    }

    /// The index of the entry for `key`, if any.
    fn index_of(&self, key: &str) -> (r: Option<usize>)
        requires
            self.wf(),
        ensures
            match r {
                Some(i) => i < self.entries@.len() && self.entries@[i as int].0@ == key@
                    && self@.contains_key(key@) && self@[key@] == self.entries@[i as int].1,
                None => !self@.contains_key(key@),
            },
    {
        proof {
            lemma_entries_map(self.entries@);
        }
        let k = key.to_owned();
        let mut i: usize = 0;
        while i < self.entries.len()
            invariant
                i <= self.entries@.len(),
                k@ == key@,
                self.wf(),
                forall|j: int| 0 <= j < i ==> self.entries@[j].0@ != key@,
            decreases self.entries@.len() - i,
        {
            if self.entries[i].0 == k {
                proof {
                    lemma_entries_map(self.entries@);
                }
                assert(entries_map(self.entries@)[self.entries@[i as int].0@]
                    == self.entries@[i as int].1);
                assert(entries_map(self.entries@).contains_key(self.entries@[i as int].0@));
                return Some(i);
            }
            i = i + 1;
        }
        None
    }

    pub fn get(&self, key: &str) -> (r: Option<&V>)
        requires
            self.wf(),
        ensures
            match r {
                Some(v) => self@.contains_key(key@) && self@[key@] == *v,
                None => !self@.contains_key(key@),
            },
    {
        match self.index_of(key) {
            Some(i) => Some(&self.entries[i].1),
            None => None,
        }
    }

    /// Sets the value for `key`, replacing any earlier one.
    pub fn set(&mut self, key: &str, value: V)
        requires
            old(self).wf(),
        ensures
            final(self).wf(),
            final(self)@ == old(self)@.insert(key@, value),
    {
        match self.index_of(key) {
            Some(i) => {
                let ghost e = self.entries@;
                let k2 = key.to_owned();
                let ghost ev = (k2, value);
                self.entries.set(i, (k2, value));
                proof {
                    let e2 = self.entries@;
                    assert(e2 == e.update(i as int, ev));
                    assert forall|a: int, b: int|
                        0 <= a < e2.len() && 0 <= b < e2.len() && a != b implies #[trigger] e2[a].0@
                        != #[trigger] e2[b].0@ by {
                        if a == i {
                            assert(e[b] == e2[b]);
                        } else if b == i {
                            assert(e[a] == e2[a]);
                        } else {
                            assert(e[a] == e2[a] && e[b] == e2[b]);
                        }
                    }
                    lemma_entries_map(e);
                    lemma_entries_map(e2);
                    let m = old(self)@.insert(key@, value);
                    assert forall|k: Seq<char>| #[trigger]
                        entries_map(e2).contains_key(k) == m.contains_key(k) by {
                        if k == key@ {
                            assert(e2[i as int].0@ == k);
                        }
                        if exists|j: int| 0 <= j < e.len() && e[j].0@ == k {
                            let j = choose|j: int| 0 <= j < e.len() && e[j].0@ == k;
                            if j != i {
                                assert(e2[j] == e[j]);
                            }
                        }
                        if exists|j: int| 0 <= j < e2.len() && e2[j].0@ == k {
                            let j = choose|j: int| 0 <= j < e2.len() && e2[j].0@ == k;
                            if j != i {
                                assert(e2[j] == e[j]);
                            }
                        }
                    }
                    assert forall|k: Seq<char>| #[trigger]
                        entries_map(e2).contains_key(k) implies entries_map(e2)[k] == m[k] by {
                        let j = choose|j: int| 0 <= j < e2.len() && e2[j].0@ == k;
                        if j != i {
                            assert(e2[j] == e[j]);
                        }
                    }
                    assert(entries_map(e2) =~= m);
                }
            },
            None => {
                let ghost e = self.entries@;
                proof {
                    lemma_entries_map(e);
                }
                self.entries.push((key.to_owned(), value));
                proof {
                    let e2 = self.entries@;
                    assert(e2.drop_last() =~= e);
                    assert forall|a: int, b: int|
                        0 <= a < e2.len() && 0 <= b < e2.len() && a != b implies #[trigger] e2[a].0@
                        != #[trigger] e2[b].0@ by {
                        if a < e.len() && b < e.len() {
                            assert(e[a] == e2[a] && e[b] == e2[b]);
                        } else if a < e.len() {
                            assert(e[a] == e2[a]);
                            assert(entries_map(e).contains_key(e[a].0@));
                        } else {
                            assert(e[b] == e2[b]);
                            assert(entries_map(e).contains_key(e[b].0@));
                        }
                    }
                }
            },
        }
    }

    /// Removes the entry for `key` and returns its value, if there was one.
    pub fn remove(&mut self, key: &str) -> (r: Option<V>)
        requires
            old(self).wf(),
        ensures
            final(self).wf(),
            final(self)@ == old(self)@.remove(key@),
            match r {
                Some(v) => old(self)@.contains_key(key@) && old(self)@[key@] == v,
                None => !old(self)@.contains_key(key@),
            },
    {
        match self.index_of(key) {
            Some(i) => {
                let ghost e = self.entries@;
                let entry = self.entries.remove(i);
                proof {
                    let e2 = self.entries@;
                    assert(e2 == e.remove(i as int));
                    assert forall|a: int| 0 <= a < e2.len() implies #[trigger] e2[a] == (if a < i {
                        e[a]
                    } else {
                        e[a + 1]
                    }) by {}
                    assert forall|a: int, b: int|
                        0 <= a < e2.len() && 0 <= b < e2.len() && a != b implies #[trigger] e2[a].0@
                        != #[trigger] e2[b].0@ by {
                        let a1 = if a < i {
                            a
                        } else {
                            a + 1
                        };
                        let b1 = if b < i {
                            b
                        } else {
                            b + 1
                        };
                        assert(e2[a] == e[a1] && e2[b] == e[b1]);
                    }
                    lemma_entries_map(e);
                    lemma_entries_map(e2);
                    let m = old(self)@.remove(key@);
                    assert forall|k: Seq<char>| #[trigger]
                        entries_map(e2).contains_key(k) == m.contains_key(k) by {
                        if exists|j: int| 0 <= j < e.len() && e[j].0@ == k {
                            let j = choose|j: int| 0 <= j < e.len() && e[j].0@ == k;
                            if j < i {
                                assert(e2[j] == e[j]);
                            } else if j > i {
                                assert(e2[j - 1] == e[j]);
                            }
                        }
                        if exists|j: int| 0 <= j < e2.len() && e2[j].0@ == k {
                            let j = choose|j: int| 0 <= j < e2.len() && e2[j].0@ == k;
                            if j < i {
                                assert(e2[j] == e[j]);
                            } else {
                                assert(e2[j] == e[j + 1]);
                            }
                        }
                    }
                    assert forall|k: Seq<char>| #[trigger]
                        entries_map(e2).contains_key(k) implies entries_map(e2)[k] == m[k] by {
                        let j = choose|j: int| 0 <= j < e2.len() && e2[j].0@ == k;
                        if j < i {
                            assert(e2[j] == e[j]);
                        } else {
                            assert(e2[j] == e[j + 1]);
                        }
                    }
                    assert(entries_map(e2) =~= m);
                }
                Some(entry.1)
            },
            None => {
                assert(self@ =~= old(self)@.remove(key@));
                None
            },
        }
    }
}

} // verus!
