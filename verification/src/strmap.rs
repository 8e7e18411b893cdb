//! A small map keyed by strings, kept as a list of entries with distinct keys.
//!
//! Entries keep the order in which keys were first inserted.

use vstd::prelude::*;

verus! {

/// Map from string keys to values; no key occurs twice.
#[derive(Debug)]
pub struct StrMap<V> {
    entries: Vec<(String, V)>,
}

/// Keys of a list of entries, as character sequences.
pub open spec fn entry_keys<V>(e: Seq<(String, V)>) -> Seq<Seq<char>> {
    Seq::new(e.len(), |i: int| e[i].0@)
}

/// No key occurs twice in a list of entries.
pub open spec fn keys_distinct<V>(e: Seq<(String, V)>) -> bool {
    forall|i: int, j: int|
        0 <= i < e.len() && 0 <= j < e.len() && i != j ==> #[trigger] e[i].0@ != #[trigger] e[j].0@
}

/// The map that a list of entries with distinct keys stands for.
pub open spec fn entries_map<V>(e: Seq<(String, V)>) -> Map<Seq<char>, V> {
    Map::new(
        |k: Seq<char>| exists|i: int| 0 <= i < e.len() && e[i].0@ == k,
        |k: Seq<char>| e[choose|i: int| 0 <= i < e.len() && e[i].0@ == k].1,
    )
}

/// An entry of a list with distinct keys is what the map holds for its key.
pub proof fn lemma_entry_in_map<V>(e: Seq<(String, V)>, i: int)
    requires
        keys_distinct(e),
        0 <= i < e.len(),
    ensures
        entries_map(e).dom().contains(e[i].0@),
        entries_map(e)[e[i].0@] == e[i].1,
{
    let k = e[i].0@;
    assert(entries_map(e).dom().contains(k));
    let j = choose|j: int| 0 <= j < e.len() && e[j].0@ == k;
    assert(j == i);
}

/// A map over distinct keys has as many keys as entries.
pub proof fn lemma_map_len<V>(e: Seq<(String, V)>)
    requires
        keys_distinct(e),
    ensures
        entries_map(e).dom().finite(),
        entries_map(e).dom().len() == e.len(),
    decreases e.len(),
{
    if e.len() == 0 {
        assert(entries_map(e).dom() =~= Set::<Seq<char>>::empty());
    } else {
        let p = e.drop_last();
        assert(keys_distinct(p)) by {
            assert forall|a: int, b: int|
                0 <= a < p.len() && 0 <= b < p.len() && a != b implies #[trigger] p[a].0@ != #[trigger] p[b].0@ by {
                assert(e[a].0@ != e[b].0@);
            }
        }
        lemma_map_len(p);
        let k = e.last().0@;
        assert(!entries_map(p).dom().contains(k)) by {
            if entries_map(p).dom().contains(k) {
                let j = choose|j: int| 0 <= j < p.len() && p[j].0@ == k;
                assert(e[j].0@ != e[e.len() - 1].0@);
            }
        }
        assert(entries_map(e).dom() =~= entries_map(p).dom().insert(k)) by {
            assert forall|x: Seq<char>| entries_map(e).dom().contains(x) implies #[trigger] entries_map(p).dom().insert(k).contains(x) by {
                let j = choose|j: int| 0 <= j < e.len() && e[j].0@ == x;
                if j < e.len() - 1 {
                    assert(p[j].0@ == x);
                }
            }
            assert forall|x: Seq<char>| entries_map(p).dom().insert(k).contains(x) implies #[trigger] entries_map(e).dom().contains(x) by {
                if x != k {
                    let j = choose|j: int| 0 <= j < p.len() && p[j].0@ == x;
                    assert(e[j].0@ == x);
                } else {
                    assert(e[e.len() - 1].0@ == x);
                }
            }
        }
    }
}

impl<V> StrMap<V> {
    #[verifier::type_invariant]
    spec fn inv(self) -> bool {
        keys_distinct(self.entries@)
    }

    /// The entries in insertion order.
    pub closed spec fn entries(self) -> Seq<(String, V)> {
        self.entries@
    }

    /// The mathematical map.
    pub open spec fn view_map(self) -> Map<Seq<char>, V> {
        entries_map(self.entries())
    }

    /// The keys in insertion order.
    pub open spec fn keys(self) -> Seq<Seq<char>> {
        entry_keys(self.entries())
    }

    pub fn new() -> (m: Self)
        ensures
            m.entries() == Seq::<(String, V)>::empty(),
            m.view_map() == Map::<Seq<char>, V>::empty(),
    {
        let m = StrMap { entries: Vec::new() };
        assert(m.view_map() =~= Map::<Seq<char>, V>::empty());
        m
    }

    pub fn len(&self) -> (n: usize)
        ensures
            n == self.entries().len(),
            keys_distinct(self.entries()),
    {
        proof {
            use_type_invariant(self);
        }
        self.entries.len()
    }

    /// The entry at position `i` (insertion order).
    pub fn entry_at(&self, i: usize) -> (r: (&String, &V))
        requires
            i < self.entries().len(),
        ensures
            *r.0 == self.entries()[i as int].0,
            *r.1 == self.entries()[i as int].1,
    {
        (&self.entries[i].0, &self.entries[i].1)
    }

    /// Position of a key, if present.
    pub fn position(&self, key: &str) -> (r: Option<usize>)
        ensures
            match r {
                Some(i) => i < self.entries().len() && self.entries()[i as int].0@ == key@,
                None => forall|i: int|
                    0 <= i < self.entries().len() ==> #[trigger] self.entries()[i].0@ != key@,
            },
    {
        let mut i: usize = 0;
        while i < self.entries.len()
            invariant
                i <= self.entries@.len(),
                forall|j: int| 0 <= j < i ==> #[trigger] self.entries@[j].0@ != key@,
            decreases self.entries@.len() - i,
        {
            if crate::text::str_eq(self.entries[i].0.as_str(), key) {
                return Some(i);
            }
            i += 1;
        }
        None
    }

    pub fn contains_key(&self, key: &str) -> (b: bool)
        ensures
            b == self.view_map().dom().contains(key@),
    {
        match self.position(key) {
            Some(i) => true,
            None => false,
        }
    }

    pub fn get(&self, key: &str) -> (r: Option<&V>)
        ensures
            match r {
                Some(v) => self.view_map().dom().contains(key@) && *v == self.view_map()[key@],
                None => !self.view_map().dom().contains(key@),
            },
    {
        proof {
            use_type_invariant(self);
        }
        match self.position(key) {
            Some(i) => {
                let ghost e = self.entries@;
                let ghost j = choose|j: int| 0 <= j < e.len() && e[j].0@ == key@;
                assert(e[i as int].0@ == e[j].0@);
                Some(&self.entries[i].1)
            },
            None => None,
        }
    }

    /// Insert or replace; a new key goes at the end, an existing key keeps its place.
    pub fn insert(&mut self, key: String, value: V)
        ensures
            final(self).view_map() == old(self).view_map().insert(key@, value),
            old(self).view_map().dom().contains(key@) ==> final(self).keys() == old(self).keys(),
            !old(self).view_map().dom().contains(key@) ==> final(self).keys() == old(
                self,
            ).keys().push(key@),
            !old(self).view_map().dom().contains(key@) ==> final(self).entries() == old(
                self,
            ).entries().push((key, value)),
            old(self).view_map().dom().contains(key@) ==> exists|i: int|
                0 <= i < old(self).entries().len() && (#[trigger] old(self).entries()[i]).0@ == key@
                    && final(self).entries() == old(self).entries().update(i, (key, value)),
    {
        proof {
            use_type_invariant(&*self);
        }
        let ghost e0 = self.entries@;
        match self.position(key.as_str()) {
            Some(i) => {
                let mut entries = Vec::new();
                std::mem::swap(&mut entries, &mut self.entries);
                entries.set(i, (key, value));
                let ghost e1 = entries@;
                assert(keys_distinct(e1)) by {
                    assert forall|a: int, b: int|
                        0 <= a < e1.len() && 0 <= b < e1.len() && a != b implies #[trigger] e1[a].0@
                        != #[trigger] e1[b].0@ by {
                        assert(e0[a].0@ != e0[b].0@);
                    }
                }
                self.entries = entries;
                assert(e0[i as int].0@ == key@);
                assert(entry_keys(e1) =~= entry_keys(e0));
                assert(entries_map(e1) =~= entries_map(e0).insert(key@, value)) by {
                    assert forall|k: Seq<char>| #[trigger]
                        entries_map(e1).dom().contains(k) implies entries_map(e1)[k]
                        == entries_map(e0).insert(key@, value)[k] by {
                        let j1 = choose|j: int| 0 <= j < e1.len() && e1[j].0@ == k;
                        if k != key@ {
                            let j0 = choose|j: int| 0 <= j < e0.len() && e0[j].0@ == k;
                            assert(e0[j1].0@ == k);
                            assert(j0 == j1);
                        } else {
                            assert(e1[i as int].0@ == k);
                        }
                    }
                    assert forall|k: Seq<char>|
                        entries_map(e0).insert(key@, value).dom().contains(k) implies #[trigger]
                        entries_map(e1).dom().contains(k) by {
                        if k != key@ {
                            let j0 = choose|j: int| 0 <= j < e0.len() && e0[j].0@ == k;
                            assert(e1[j0].0@ == k);
                        } else {
                            assert(e1[i as int].0@ == k);
                        }
                    }
                }
            },
            None => {
                let ghost k0 = key@;
                assert forall|j: int| 0 <= j < e0.len() implies #[trigger] e0[j].0@ != key@ by {
                    assert(self.entries()[j].0@ != key@);
                }
                let mut entries = Vec::new();
                std::mem::swap(&mut entries, &mut self.entries);
                entries.push((key, value));
                let ghost e1 = entries@;
                assert(keys_distinct(e1)) by {
                    assert forall|a: int, b: int|
                        0 <= a < e1.len() && 0 <= b < e1.len() && a != b implies #[trigger] e1[a].0@
                        != #[trigger] e1[b].0@ by {
                        if a < e0.len() && b < e0.len() {
                            assert(e0[a].0@ != e0[b].0@);
                        } else if a < e0.len() {
                            assert(e0[a].0@ != key@);
                        } else {
                            assert(e0[b].0@ != key@);
                        }
                    }
                }
                self.entries = entries;
                assert(e1[e0.len() as int].0@ == k0);
                assert(entry_keys(e1) =~= entry_keys(e0).push(k0));
                assert(entries_map(e1) =~= entries_map(e0).insert(k0, value)) by {
                    assert forall|k: Seq<char>| #[trigger]
                        entries_map(e1).dom().contains(k) implies entries_map(e1)[k]
                        == entries_map(e0).insert(k0, value)[k] by {
                        let j1 = choose|j: int| 0 <= j < e1.len() && e1[j].0@ == k;
                        if k != k0 {
                            let j0 = choose|j: int| 0 <= j < e0.len() && e0[j].0@ == k;
                            assert(e1[j0].0@ == k);
                            assert(j0 == j1);
                        } else {
                            assert(j1 == e0.len());
                        }
                    }
                    assert forall|k: Seq<char>|
                        entries_map(e0).insert(k0, value).dom().contains(k) implies #[trigger]
                        entries_map(e1).dom().contains(k) by {
                        if k != k0 {
                            let j0 = choose|j: int| 0 <= j < e0.len() && e0[j].0@ == k;
                            assert(e1[j0].0@ == k);
                        } else {
                            assert(e1[e0.len() as int].0@ == k);
                        }
                    }
                }
            },
        }
    }

    /// Remove a key, giving back its value; the other entries keep their order.
    pub fn remove(&mut self, key: &str) -> (r: Option<V>)
        ensures
            final(self).view_map() == old(self).view_map().remove(key@),
            match r {
                Some(v) => old(self).view_map().dom().contains(key@) && v == old(self).view_map()[key@],
                None => !old(self).view_map().dom().contains(key@),
            },
    {
        proof {
            use_type_invariant(&*self);
        }
        let ghost e0 = self.entries@;
        match self.position(key) {
            Some(i) => {
                let mut entries = Vec::new();
                std::mem::swap(&mut entries, &mut self.entries);
                let (_, v) = entries.remove(i);
                let ghost e1 = entries@;
                assert(e1 =~= e0.remove(i as int));
                assert(keys_distinct(e1)) by {
                    assert forall|a: int, b: int|
                        0 <= a < e1.len() && 0 <= b < e1.len() && a != b implies #[trigger] e1[a].0@
                        != #[trigger] e1[b].0@ by {
                        let a0 = if a < i { a } else { a + 1 };
                        let b0 = if b < i { b } else { b + 1 };
                        assert(e1[a] == e0[a0]);
                        assert(e1[b] == e0[b0]);
                    }
                }
                self.entries = entries;
                proof {
                    lemma_entry_in_map(e0, i as int);
                }
                assert(entries_map(e1) =~= entries_map(e0).remove(key@)) by {
                    assert forall|k: Seq<char>| #[trigger]
                        entries_map(e1).dom().contains(k) implies entries_map(e0).remove(key@).dom().contains(k)
                        && entries_map(e1)[k] == entries_map(e0).remove(key@)[k] by {
                        let j1 = choose|j: int| 0 <= j < e1.len() && e1[j].0@ == k;
                        let j0 = if j1 < i { j1 } else { j1 + 1 };
                        assert(e1[j1] == e0[j0]);
                        assert(j0 != i);
                        assert(e0[j0].0@ != e0[i as int].0@);
                        lemma_entry_in_map(e0, j0);
                        lemma_entry_in_map(e1, j1);
                    }
                    assert forall|k: Seq<char>|
                        entries_map(e0).remove(key@).dom().contains(k) implies #[trigger]
                        entries_map(e1).dom().contains(k) by {
                        let j0 = choose|j: int| 0 <= j < e0.len() && e0[j].0@ == k;
                        assert(j0 != i);
                        let j1 = if j0 < i { j0 } else { j0 - 1 };
                        assert(e1[j1] == e0[j0]);
                    }
                }
                Some(v)
            },
            None => {
                assert(!entries_map(e0).dom().contains(key@)) by {
                    if entries_map(e0).dom().contains(key@) {
                        let j = choose|j: int| 0 <= j < e0.len() && e0[j].0@ == key@;
                        assert(self.entries()[j].0@ != key@);
                    }
                }
                assert(entries_map(e0).remove(key@) =~= entries_map(e0));
                None
            },
        }
    }
}

} // verus!
