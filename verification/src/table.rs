//! A small keyed table: the in-memory form of a keyed record store.

use vstd::prelude::*;
use crate::account::{AccountId, AccountPair};

verus! {

/// A key of a [`Table`]: a plain value that can be compared at run time.
pub trait TableKey: Copy {
    /// Whether the two keys are the same key.
    fn same(self, other: Self) -> (r: bool)
        ensures
            r == (self == other),
    ;
}

impl TableKey for AccountId {
    fn same(self, other: Self) -> (r: bool) {
        self == other
    }
}

impl TableKey for AccountPair {
    fn same(self, other: Self) -> (r: bool) {
        self == other
    }
}

/// Records kept under keys. A key is looked up from the front, so the first
/// entry under a key is the one that counts; writing replaces that entry.
pub struct Table<K, V> {
    pub entries: Vec<(K, V)>,
}

/// `i` is the first entry of `s` that stands under `k`.
pub open spec fn first_entry<K, V>(s: Seq<(K, V)>, k: K, i: int) -> bool {
    &&& 0 <= i < s.len()
    &&& s[i].0 == k
    &&& forall|j: int| 0 <= j < i ==> s[j].0 != k
}

/// Some entry of `s` stands under `k`.
pub open spec fn has_entry<K, V>(s: Seq<(K, V)>, k: K) -> bool {
    exists|i: int| 0 <= i < s.len() && s[i].0 == k
}

/// The map that the entries `s` stand for.
pub open spec fn entries_map<K, V>(s: Seq<(K, V)>) -> Map<K, V> {
    Map::new(|k: K| has_entry(s, k), |k: K| s[choose|i: int| first_entry(s, k, i)].1)
}

/// An entry under `k` has a first one, and the map holds its value.
pub proof fn lemma_first_entry<K, V>(s: Seq<(K, V)>, k: K, i: int)
    requires
        first_entry(s, k, i),
    ensures
        entries_map(s).dom().contains(k),
        entries_map(s)[k] == s[i].1,
{
    assert(has_entry(s, k));
    let c = choose|c: int| first_entry(s, k, c);
    if c < i {
        assert(s[c].0 != k);
    } else if i < c {
        assert(s[i].0 != k);
    }
}

impl<K: TableKey, V: Copy> Table<K, V> {
    /// The map from each key to the record kept under it.
    pub open spec fn view(&self) -> Map<K, V> {
        entries_map(self.entries@)
    }

    /// A table without records.
    pub fn new() -> (table: Self)
        ensures
            table@ == Map::<K, V>::empty(),
            table.entries@.len() == 0,
    {
        let table = Table { entries: Vec::new() };
        assert(table@ =~= Map::<K, V>::empty());
        table
    }

    /// The place of the first entry under `key`.
    fn find(&self, key: K) -> (found: Option<usize>)
        ensures
            match found {
                Some(i) => first_entry(self.entries@, key, i as int),
                None => !has_entry(self.entries@, key),
            },
    {
        let mut i: usize = 0;
        while i < self.entries.len()
            invariant
                i <= self.entries.len(),
                forall|j: int| 0 <= j < i ==> self.entries[j].0 != key,
            decreases self.entries.len() - i,
        {
            if self.entries[i].0.same(key) {
                return Some(i);
            }
            i += 1;
        }
        None
    }

    /// The record kept under `key`, if there is one.
    pub fn get(&self, key: K) -> (found: Option<V>)
        ensures
            found == (if self@.dom().contains(key) {
                Some(self@[key])
            } else {
                None
            }),
    {
        match self.find(key) {
            Some(i) => {
                proof {
                    lemma_first_entry(self.entries@, key, i as int);
                }
                Some(self.entries[i].1)
            },
            None => None,
        }
    }

    /// Keeps `value` under `key`, in place of what was kept there: the first
    /// entry under the key is rewritten, or an entry is added after all others.
    pub fn set(&mut self, key: K, value: V)
        ensures
            final(self)@ == old(self)@.insert(key, value),
            forall|i: int|
                first_entry(old(self).entries@, key, i) ==> final(self).entries@ == old(self)
                    .entries@.update(i, (key, value)),
            !has_entry(old(self).entries@, key) ==> final(self).entries@ == old(self)
                .entries@.push((key, value)),
    {
        let ghost before = self.entries@;
        let found = self.find(key);
        let ghost place: int = match found {
            Some(i) => i as int,
            None => before.len() as int,
        };
        match found {
            Some(i) => {
                self.entries.set(i, (key, value));
            },
            None => {
                self.entries.push((key, value));
            },
        }
        proof {
            let after = self.entries@;
            assert(first_entry(after, key, place));
            assert forall|c: int| first_entry(before, key, c) implies c == place by {
                if c < place {
                    assert(before[c].0 != key);
                } else if place < c {
                    assert(before[place].0 != key);
                }
            }
            assert forall|k: K| has_entry(after, k) == (k == key || has_entry(before, k)) by {
                if has_entry(after, k) {
                    let j = choose|j: int| 0 <= j < after.len() && after[j].0 == k;
                    if k != key {
                        assert(before[j].0 == k);
                    }
                }
                if k == key {
                    assert(after[place].0 == k);
                } else if has_entry(before, k) {
                    let j = choose|j: int| 0 <= j < before.len() && before[j].0 == k;
                    assert(after[j].0 == k);
                }
            }
            assert forall|k: K| has_entry(after, k) implies entries_map(after)[k] == (if k == key {
                value
            } else {
                entries_map(before)[k]
            }) by {
                if k == key {
                    lemma_first_entry(after, key, place);
                } else {
                    let w = choose|w: int| 0 <= w < before.len() && before[w].0 == k;
                    lemma_has_first(before, k, w);
                    let c = choose|c: int| first_entry(before, k, c);
                    assert(first_entry(after, k, c));
                    lemma_first_entry(after, k, c);
                }
            }
            assert(entries_map(after) =~= entries_map(before).insert(key, value));
        }
    }
}

/// Where some entry stands under `k`, a first one does.
pub proof fn lemma_has_first<K, V>(s: Seq<(K, V)>, k: K, w: int)
    requires
        0 <= w < s.len(),
        s[w].0 == k,
    ensures
        exists|c: int| first_entry(s, k, c),
    decreases w,
{
    if forall|j: int| 0 <= j < w ==> s[j].0 != k {
        assert(first_entry(s, k, w));
    } else {
        let j = choose|j: int| 0 <= j < w && s[j].0 == k;
        lemma_has_first(s, k, j);
    }
}

} // verus!
