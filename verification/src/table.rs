//! A table that holds one value for each of its keys.

use crate::primitives::{Address, B256};
use vstd::prelude::*;

verus! {

/// What a table can be looked up by.
pub trait Key: View + Sized {
    fn same(&self, other: &Self) -> (r: bool)
        ensures
            r == (self@ == other@),
    ;
}

impl Key for B256 {
    fn same(&self, other: &B256) -> (r: bool) {
        B256::same(self, other)
    }
}

impl Key for (B256, Address) {
    fn same(&self, other: &(B256, Address)) -> (r: bool) {
        B256::same(&self.0, &other.0) && Address::same(&self.1, &other.1)
    }
}

impl Key for (B256, u64) {
    fn same(&self, other: &(B256, u64)) -> (r: bool) {
        B256::same(&self.0, &other.0) && self.1 == other.1
    }
}

/// The value that stands behind a key in a row of entries.
spec fn value_in<K: Key, V: View>(entries: Seq<(K, V)>, k: K::V) -> V::V {
    entries[choose|i: int| 0 <= i < entries.len() && entries[i].0@ == k].1@
}

/// What a row of entries maps to what.
spec fn entries_map<K: Key, V: View>(entries: Seq<(K, V)>) -> Map<K::V, V::V> {
    Map::new(
        |k: K::V| exists|i: int| 0 <= i < entries.len() && #[trigger] entries[i].0@ == k,
        |k: K::V| value_in(entries, k),
    )
}

/// Whether no two entries have the same key.
spec fn keys_differ<K: Key, V: View>(entries: Seq<(K, V)>) -> bool {
    forall|i: int, j: int|
        0 <= i < j < entries.len() ==> #[trigger] entries[i].0@ != #[trigger] entries[j].0@
}

/// A table: a row of entries, no two of which have the same key.
#[derive(Debug)]
pub struct Table<K: Key, V: View> {
    entries: Vec<(K, V)>,
}

impl<K: Key, V: View> View for Table<K, V> {
    type V = Map<K::V, V::V>;

    closed spec fn view(&self) -> Map<K::V, V::V> {
        entries_map(self.entries@)
    }
}

proof fn lemma_entry<K: Key, V: View>(entries: Seq<(K, V)>, i: int)
    requires
        keys_differ(entries),
        0 <= i < entries.len(),
    ensures
        entries_map(entries).dom().contains(entries[i].0@),
        entries_map(entries)[entries[i].0@] == entries[i].1@,
{
    let k = entries[i].0@;
    let j = choose|j: int| 0 <= j < entries.len() && entries[j].0@ == k;
    assert(entries[j].0@ == k);
    assert(i == j);
}

proof fn lemma_place<K: Key, V: View>(entries: Seq<(K, V)>, k: K::V) -> (i: int)
    requires
        keys_differ(entries),
        entries_map(entries).dom().contains(k),
    ensures
        0 <= i < entries.len(),
        entries[i].0@ == k,
        entries_map(entries)[k] == entries[i].1@,
{
    let i = choose|i: int| 0 <= i < entries.len() && entries[i].0@ == k;
    lemma_entry(entries, i);
    i
}

impl<K: Key, V: View> Table<K, V> {
    /// Whether each key stands in the table once.
    pub closed spec fn wf(&self) -> bool {
        keys_differ(self.entries@)
    }

    /// The keys, in the order in which they came.
    pub closed spec fn keys(&self) -> Seq<K::V> {
        self.entries@.map_values(|e: (K, V)| e.0@)
    }

    /// The keys in order are the keys of the map, each once.
    pub proof fn lemma_keys(&self)
        requires
            self.wf(),
        ensures
            self.keys().no_duplicates(),
            forall|k: K::V| self.keys().contains(k) <==> #[trigger] self@.dom().contains(k),
    {
        assert forall|k: K::V| self.keys().contains(k) <==> #[trigger] self@.dom().contains(k) by {
            if self@.dom().contains(k) {
                let i = lemma_place(self.entries@, k);
                assert(self.keys()[i] == k);
            }
            if self.keys().contains(k) {
                let i = choose|i: int| 0 <= i < self.keys().len() && self.keys()[i] == k;
                assert(self.entries@[i].0@ == k);
            }
        }
        assert forall|i: int, j: int|
            0 <= i < self.keys().len() && 0 <= j < self.keys().len() && i
                != j implies self.keys()[i] != self.keys()[j] by {
            assert(self.entries@[i].0@ != self.entries@[j].0@);
        }
    }

    /// A table with nothing in it.
    pub fn new() -> (r: Table<K, V>)
        ensures
            r.wf(),
            r@ == Map::<K::V, V::V>::empty(),
    {
        let r = Table { entries: Vec::new() };
        assert(r@ =~= Map::<K::V, V::V>::empty());
        r
    }

    /// How many keys there are.
    pub fn len(&self) -> (r: usize)
        ensures
            r == self.keys().len(),
    {
        self.entries.len()
    }

    /// The key and the value at a place.
    pub fn at(&self, i: usize) -> (r: (&K, &V))
        requires
            self.wf(),
            i < self.keys().len(),
        ensures
            r.0@ == self.keys()[i as int],
            self@.dom().contains(r.0@),
            self@[r.0@] == r.1@,
    {
        proof {
            lemma_entry(self.entries@, i as int);
        }
        let e = &self.entries[i];
        (&e.0, &e.1)
    }

    fn place_of(&self, key: &K) -> (r: Option<usize>)
        ensures
            match r {
                Some(i) => i < self.entries@.len() && self.entries@[i as int].0@ == key@,
                None => forall|i: int|
                    0 <= i < self.entries@.len() ==> #[trigger] self.entries@[i].0@ != key@,
            },
    {
        let mut i: usize = 0;
        while i < self.entries.len()
            invariant
                i <= self.entries@.len(),
                forall|j: int| 0 <= j < i ==> #[trigger] self.entries@[j].0@ != key@,
            decreases self.entries@.len() - i,
        {
            if Key::same(&self.entries[i].0, key) {
                return Some(i);
            }
            i = i + 1;
        }
        None
    }

    /// The value behind a key.
    pub fn get(&self, key: &K) -> (r: Option<&V>)
        requires
            self.wf(),
        ensures
            match r {
                Some(v) => self@.dom().contains(key@) && self@[key@] == v@,
                None => !self@.dom().contains(key@),
            },
    {
        match self.place_of(key) {
            Some(i) => {
                proof {
                    lemma_entry(self.entries@, i as int);
                }
                Some(&self.entries[i].1)
            },
            None => None,
        }
    }

    /// Puts a value behind a key, in the place of one that was there.
    pub fn insert(&mut self, key: K, value: V)
        requires
            old(self).wf(),
        ensures
            final(self).wf(),
            final(self)@ == old(self)@.insert(key@, value@),
    {
        let ghost before = self.entries@;
        match self.place_of(&key) {
            Some(i) => {
                self.entries.set(i, (key, value));
                let ghost after = self.entries@;
                assert forall|x: int, y: int|
                    0 <= x < y < after.len() implies #[trigger] after[x].0@
                    != #[trigger] after[y].0@ by {
                    assert(after[x].0@ == before[x].0@);
                    assert(after[y].0@ == before[y].0@);
                }
                proof {
                    lemma_same_but_one(before, after, i as int);
                }
            },
            None => {
                self.entries.push((key, value));
                let ghost after = self.entries@;
                assert forall|x: int, y: int|
                    0 <= x < y < after.len() implies #[trigger] after[x].0@
                    != #[trigger] after[y].0@ by {
                    assert(after[x] == before[x]);
                    if y < before.len() {
                        assert(after[y] == before[y]);
                    }
                }
                proof {
                    lemma_one_more(before, after);
                }
            },
        }
    }

    /// Takes out the key at a place, and its value.
    pub fn remove_at(&mut self, i: usize)
        requires
            old(self).wf(),
            i < old(self).keys().len(),
        ensures
            final(self).wf(),
            final(self)@ == old(self)@.remove(old(self).keys()[i as int]),
            final(self).keys() == old(self).keys().remove(i as int),
    {
        let ghost before = self.entries@;
        let _ = self.entries.remove(i);
        let ghost after = self.entries@;
        assert forall|x: int, y: int| 0 <= x < y < after.len() implies #[trigger] after[x].0@
            != #[trigger] after[y].0@ by {
            let bx = if x < i { x } else { x + 1 };
            let by = if y < i { y } else { y + 1 };
            assert(after[x] == before[bx]);
            assert(after[y] == before[by]);
        }
        proof {
            lemma_one_less(before, after, i as int);
        }
        assert(self.keys() =~= old(self).keys().remove(i as int));
    }

    /// Takes out a key and its value, where the table holds it.
    pub fn remove(&mut self, key: &K)
        requires
            old(self).wf(),
        ensures
            final(self).wf(),
            final(self)@ == old(self)@.remove(key@),
    {
        match self.place_of(key) {
            Some(i) => {
                self.remove_at(i);
            },
            None => {
                assert(self@.remove(key@) =~= self@);
            },
        }
    }
}

proof fn lemma_same_but_one<K: Key, V: View>(before: Seq<(K, V)>, after: Seq<(K, V)>, at: int)
    requires
        keys_differ(before),
        keys_differ(after),
        0 <= at < before.len(),
        after == before.update(at, after[at]),
        before[at].0@ == after[at].0@,
    ensures
        entries_map(after) == entries_map(before).insert(after[at].0@, after[at].1@),
{
    let m = entries_map(before).insert(after[at].0@, after[at].1@);
    assert forall|k: K::V| entries_map(after).dom().contains(k) <==> m.dom().contains(k) by {
        if entries_map(after).dom().contains(k) {
            let i = lemma_place(after, k);
            if i != at {
                lemma_entry(before, i);
            }
        }
        if m.dom().contains(k) {
            if k == after[at].0@ {
                lemma_entry(after, at);
            } else {
                let i = lemma_place(before, k);
                lemma_entry(after, i);
            }
        }
    }
    assert forall|k: K::V| entries_map(after).dom().contains(k) implies entries_map(after)[k]
        == m[k] by {
        let i = lemma_place(after, k);
        if i != at {
            lemma_entry(before, i);
        }
    }
    assert(entries_map(after) =~= m);
}

proof fn lemma_one_more<K: Key, V: View>(before: Seq<(K, V)>, after: Seq<(K, V)>)
    requires
        keys_differ(before),
        keys_differ(after),
        after.len() == before.len() + 1,
        after == before.push(after.last()),
    ensures
        entries_map(after) == entries_map(before).insert(after.last().0@, after.last().1@),
{
    let at = before.len() as int;
    let m = entries_map(before).insert(after[at].0@, after[at].1@);
    assert forall|k: K::V| entries_map(after).dom().contains(k) <==> m.dom().contains(k) by {
        if entries_map(after).dom().contains(k) {
            let i = lemma_place(after, k);
            if i != at {
                lemma_entry(before, i);
            }
        }
        if m.dom().contains(k) {
            if k == after[at].0@ {
                lemma_entry(after, at);
            } else {
                let i = lemma_place(before, k);
                lemma_entry(after, i);
            }
        }
    }
    assert forall|k: K::V| entries_map(after).dom().contains(k) implies entries_map(after)[k]
        == m[k] by {
        let i = lemma_place(after, k);
        if i != at {
            lemma_entry(before, i);
        }
    }
    assert(entries_map(after) =~= m);
}

proof fn lemma_one_less<K: Key, V: View>(before: Seq<(K, V)>, after: Seq<(K, V)>, at: int)
    requires
        keys_differ(before),
        keys_differ(after),
        0 <= at < before.len(),
        after == before.remove(at),
    ensures
        entries_map(after) == entries_map(before).remove(before[at].0@),
{
    let m = entries_map(before).remove(before[at].0@);
    assert forall|k: K::V| entries_map(after).dom().contains(k) <==> m.dom().contains(k) by {
        if entries_map(after).dom().contains(k) {
            let i = lemma_place(after, k);
            let b = if i < at { i } else { i + 1 };
            assert(after[i] == before[b]);
            lemma_entry(before, b);
            assert(before[b].0@ != before[at].0@);
        }
        if m.dom().contains(k) {
            let b = lemma_place(before, k);
            let i = if b < at { b } else { b - 1 };
            assert(after[i] == before[b]);
            lemma_entry(after, i);
        }
    }
    assert forall|k: K::V| entries_map(after).dom().contains(k) implies entries_map(after)[k]
        == m[k] by {
        let i = lemma_place(after, k);
        let b = if i < at { i } else { i + 1 };
        assert(after[i] == before[b]);
        lemma_entry(before, b);
    }
    assert(entries_map(after) =~= m);
}

} // verus!
