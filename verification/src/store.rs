//! A small keyed store: `get`, `upsert` and `remove` over string keys.
//!
//! The store is a list of entries with pairwise different keys; its view is
//! the map from each key to its value.

use crate::text::{chars_of, same_chars};
use vstd::prelude::*;

verus! {

/// One entry of a [`Store`].
#[derive(Debug)]
pub struct Entry<V> {
    pub key: String,
    pub value: V,
}

/// Values kept under string keys.
#[derive(Debug)]
pub struct Store<V> {
    entries: Vec<Entry<V>>,
}

/// The map that the first `n` entries describe.
pub open spec fn map_upto<V>(entries: Seq<Entry<V>>, n: int) -> Map<Seq<char>, V>
    decreases n,
{
    if n <= 0 {
        Map::empty()
    } else {
        map_upto(entries, n - 1).insert(entries[n - 1].key@, entries[n - 1].value)
    }
}

/// Whether no two entries have the same key.
pub open spec fn distinct_keys<V>(entries: Seq<Entry<V>>) -> bool {
    forall|i: int, j: int|
        0 <= i < j < entries.len() ==> (#[trigger] entries[i]).key@ != (#[trigger] entries[j]).key@
}

impl<V> View for Store<V> {
    type V = Map<Seq<char>, V>;

    closed spec fn view(&self) -> Map<Seq<char>, V> {
        map_upto(self.entries@, self.entries@.len() as int)
    }
}

/// What the map of a list of entries holds: the keys of the entries and
/// nothing else, and for each key the value of the last entry with that key.
pub proof fn lemma_map_upto<V>(entries: Seq<Entry<V>>, n: int)
    requires
        0 <= n <= entries.len(),
    ensures
        forall|k: Seq<char>| #[trigger]
            map_upto(entries, n).contains_key(k) <==> exists|i: int|
                0 <= i < n && (#[trigger] entries[i]).key@ == k,
        forall|i: int|
            0 <= i < n && (forall|j: int| i < j < n ==> (#[trigger] entries[j]).key@ != entries[i].key@)
                ==> map_upto(entries, n)[(#[trigger] entries[i]).key@] == entries[i].value,
    decreases n,
{
    if n > 0 {
        lemma_map_upto(entries, n - 1);
        assert forall|k: Seq<char>| #[trigger]
            map_upto(entries, n).contains_key(k) <==> exists|i: int|
                0 <= i < n && (#[trigger] entries[i]).key@ == k by {
            assert(map_upto(entries, n).contains_key(k) <==> k == entries[n - 1].key@ || map_upto(
                entries,
                n - 1,
            ).contains_key(k));
        }
    }
}

impl<V> Store<V> {
    /// The invariant of the store: no key occurs twice.
    pub closed spec fn wf(&self) -> bool {
        distinct_keys(self.entries@)
    }

    /// An empty store.
    pub fn new() -> (r: Self)
        ensures
            r.wf(),
            r@ == Map::<Seq<char>, V>::empty(),
    {
        Store { entries: Vec::new() }
    }

    /// Index of the entry for `key`.
    fn position(&self, key: &str) -> (r: Option<usize>)
        ensures
            match r {
                Some(i) => i < self.entries@.len() && self.entries@[i as int].key@ == key@,
                None => forall|k: int|
                    0 <= k < self.entries@.len() ==> (#[trigger] self.entries@[k]).key@ != key@,
            },
    {
        let wanted = chars_of(key);
        let mut i: usize = 0;
        while i < self.entries.len()
            invariant
                i <= self.entries@.len(),
                wanted@ == key@,
                forall|k: int| 0 <= k < i ==> (#[trigger] self.entries@[k]).key@ != key@,
            decreases self.entries@.len() - i,
        {
            let name = chars_of(self.entries[i].key.as_str());
            if same_chars(&name, &wanted) {
                return Some(i);
            }
            i += 1;
        }
        None
    }

    /// The value kept under `key`, if any.
    pub fn get(&self, key: &str) -> (r: Option<&V>)
        requires
            self.wf(),
        ensures
            match r {
                Some(v) => self@.contains_key(key@) && self@[key@] == *v,
                None => !self@.contains_key(key@),
            },
    {
        proof {
            lemma_map_upto(self.entries@, self.entries@.len() as int);
        }
        match self.position(key) {
            Some(i) => {
                Some(&self.entries[i].value)
            },
            None => None,
        }
    }

    /// Whether a value is kept under `key`.
    pub fn contains(&self, key: &str) -> (r: bool)
        requires
            self.wf(),
        ensures
            r == self@.contains_key(key@),
    {
        self.get(key).is_some()
    }

    /// Puts `value` under `key`, in place of the value that was there, if
    /// any.
    pub fn upsert(&mut self, key: &str, value: V)
        requires
            old(self).wf(),
        ensures
            final(self).wf(),
            final(self)@ == old(self)@.insert(key@, value),
    {
        let entry = Entry { key: key.to_owned(), value };
        let ghost at: int;
        match self.position(key) {
            Some(i) => {
                proof {
                    at = i as int;
                }
                self.entries.set(i, entry);
                assert(self.wf());
            },
            None => {
                proof {
                    at = self.entries@.len() as int;
                }
                self.entries.push(entry);
            },
        }
        proof {
            let before = old(self).entries@;
            let after = self.entries@;
            assert(after[at].key@ == key@);
            lemma_map_upto(before, before.len() as int);
            lemma_map_upto(after, after.len() as int);
            let want = old(self)@.insert(key@, value);
            assert forall|k: Seq<char>| self@.contains_key(k) <==> want.contains_key(k) by {
                if want.contains_key(k) && k != key@ {
                    let i = choose|i: int|
                        0 <= i < before.len() && (#[trigger] before[i]).key@ == k;
                    assert(after[i].key@ == k);
                }
            }
        }
    }

    /// Takes out the value kept under `key`, if any.
    pub fn remove(&mut self, key: &str) -> (r: Option<V>)
        requires
            old(self).wf(),
        ensures
            final(self).wf(),
            final(self)@ == old(self)@.remove(key@),
            match r {
                Some(v) => old(self)@.contains_key(key@) && old(self)@[key@] == v,
                None => !old(self)@.contains_key(key@),
            },
    {
        proof {
            lemma_map_upto(self.entries@, self.entries@.len() as int);
        }
        match self.position(key) {
            Some(i) => {
                let entry = self.entries.remove(i);
                proof {
                    let before = old(self).entries@;
                    let after = self.entries@;
                    assert forall|a: int, b: int| 0 <= a < b < after.len() implies (
                    #[trigger] after[a]).key@ != (#[trigger] after[b]).key@ by {}
                    lemma_map_upto(after, after.len() as int);
                    let want = old(self)@.remove(key@);
                    assert forall|k: Seq<char>| self@.contains_key(k) <==> want.contains_key(
                        k,
                    ) by {
                        if want.contains_key(k) {
                            let b = choose|b: int|
                                0 <= b < before.len() && (#[trigger] before[b]).key@ == k;
                            let b1 = if b < i { b } else { b - 1 };
                            assert(after[b1].key@ == k);
                        }
                    }
                    assert forall|k: Seq<char>| self@.contains_key(k) implies self@[k]
                        == want[k] by {}
                }
                Some(entry.value)
            },
            None => None,
        }
    }
}

} // verus!
