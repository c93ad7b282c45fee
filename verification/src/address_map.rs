use crate::address::Address;
use vstd::prelude::*;

verus! {

/// A map from addresses to values that remembers the order in which its keys
/// first came. It is small enough everywhere it is used that a list serves.
#[derive(Debug)]
pub struct AddressMap<V> {
    pub entries: Vec<(Address, V)>,
}

/// Whether some entry of `entries` stands under `key`.
pub open spec fn has_key<V>(entries: Seq<(Address, V)>, key: Address) -> bool {
    exists|i: int| 0 <= i < entries.len() && (#[trigger] entries[i]).0 == key
}

/// Where `key` stands in `entries`, if no key stands twice.
pub open spec fn key_index<V>(entries: Seq<(Address, V)>, key: Address) -> int {
    choose|i: int| 0 <= i < entries.len() && (#[trigger] entries[i]).0 == key
}

/// No key stands twice in `entries`.
pub open spec fn keys_unique<V>(entries: Seq<(Address, V)>) -> bool {
    forall|i: int, j: int|
        0 <= i < j < entries.len() ==> (#[trigger] entries[i]).0 != (#[trigger] entries[j]).0
}

/// The entries as a map.
pub open spec fn as_map<V>(entries: Seq<(Address, V)>) -> Map<Address, V> {
    Map::new(|key: Address| has_key(entries, key), |key: Address| entries[key_index(entries, key)].1)
}

/// In a list without repeated keys, the entry at `i` is the one that the map
/// holds under its key.
pub proof fn lemma_entry_in_map<V>(entries: Seq<(Address, V)>, i: int)
    requires
        keys_unique(entries),
        0 <= i < entries.len(),
    ensures
        has_key(entries, entries[i].0),
        key_index(entries, entries[i].0) == i,
        as_map(entries)[entries[i].0] == entries[i].1,
{
    let key = entries[i].0;
    let k = key_index(entries, key);
    if k < i {
        assert(entries[k].0 != entries[i].0);
    } else if i < k {
        assert(entries[i].0 != entries[k].0);
    }
}

impl<V> AddressMap<V> {
    /// No key stands twice.
    pub open spec fn wf(&self) -> bool {
        keys_unique(self.entries@)
    }

    /// Whether the map holds `key`.
    pub open spec fn contains(&self, key: Address) -> bool {
        has_key(self.entries@, key)
    }

    /// What the map holds under `key`.
    pub open spec fn value(&self, key: Address) -> V {
        self.entries@[key_index(self.entries@, key)].1
    }

    /// The map without any key.
    pub fn new() -> (r: AddressMap<V>)
        ensures
            r.wf(),
            r.entries@.len() == 0,
    {
        AddressMap { entries: Vec::new() }
    }

    /// The number of keys.
    pub fn len(&self) -> (n: usize)
        ensures
            n == self.entries@.len(),
    {
        self.entries.len()
    }

    /// Where `key` stands, if the map holds it.
    pub fn position(&self, key: &Address) -> (r: Option<usize>)
        ensures
            match r {
                Some(i) => i < self.entries@.len() && self.entries@[i as int].0 == *key,
                None => !self.contains(*key),
            },
            self.wf() && r.is_some() ==> r.unwrap() == key_index(self.entries@, *key),
    {
        let mut i: usize = 0;
        while i < self.entries.len()
            invariant
                i <= self.entries@.len(),
                forall|j: int| 0 <= j < i ==> (#[trigger] self.entries@[j]).0 != *key,
            decreases self.entries@.len() - i,
        {
            if self.entries[i].0 == *key {
                proof {
                    if self.wf() {
                        lemma_entry_in_map(self.entries@, i as int);
                    }
                }
                return Some(i);
            }
            i += 1;
        }
        None
    }

    /// What the map holds under `key`, if it holds it.
    pub fn get(&self, key: &Address) -> (r: Option<&V>)
        requires
            self.wf(),
        ensures
            r.is_some() == self.contains(*key),
            r.is_some() ==> *r.unwrap() == self.value(*key),
    {
        match self.position(key) {
            Some(i) => Some(&self.entries[i].1),
            None => None,
        }
    }

    /// Puts `value` under `key`. A key that the map held keeps its place and
    /// gives back what it held; a new key goes to the end.
    pub fn insert(&mut self, key: Address, value: V) -> (r: Option<V>)
        requires
            old(self).wf(),
        ensures
            final(self).wf(),
            r.is_some() == old(self).contains(key),
            r.is_some() ==> r.unwrap() == old(self).value(key),
            final(self).entries@ == if old(self).contains(key) {
                old(self).entries@.update(key_index(old(self).entries@, key), (key, value))
            } else {
                old(self).entries@.push((key, value))
            },
            final(self).contains(key),
            final(self).value(key) == value,
            forall|other: Address|
                other != key ==> final(self).contains(other) == old(self).contains(other),
            forall|other: Address|
                other != key && old(self).contains(other) ==> final(self).value(other) == old(
                    self,
                ).value(other),
    {
        let ghost before = self.entries@;
        match self.position(&key) {
            Some(i) => {
                let held = self.entries.remove(i);
                self.entries.insert(i, (key, value));
                proof {
                    let after = self.entries@;
                    assert(after =~= before.update(i as int, (key, value)));
                    lemma_entry_in_map(after, i as int);
                    assert forall|other: Address| other != key implies has_key(after, other)
                        == has_key(before, other) by {
                        if has_key(before, other) {
                            let k = key_index(before, other);
                            assert(after[k].0 == other);
                        }
                        if has_key(after, other) {
                            let k = key_index(after, other);
                            assert(before[k].0 == other);
                        }
                    }
                    assert forall|other: Address|
                        other != key && has_key(before, other) implies after[key_index(
                        after,
                        other,
                    )].1 == before[key_index(before, other)].1 by {
                        let k = key_index(before, other);
                        assert(after[k].0 == other);
                        lemma_entry_in_map(after, k);
                    }
                }
                Some(held.1)
            },
            None => {
                self.entries.push((key, value));
                proof {
                    let after = self.entries@;
                    let n = before.len() as int;
                    assert(after[n].0 == key);
                    lemma_entry_in_map(after, n);
                    assert forall|other: Address| other != key implies has_key(after, other)
                        == has_key(before, other) by {
                        if has_key(before, other) {
                            let k = key_index(before, other);
                            assert(after[k].0 == other);
                        }
                        if has_key(after, other) {
                            let k = key_index(after, other);
                            assert(before[k].0 == other);
                        }
                    }
                    assert forall|other: Address|
                        other != key && has_key(before, other) implies after[key_index(
                        after,
                        other,
                    )].1 == before[key_index(before, other)].1 by {
                        let k = key_index(before, other);
                        assert(after[k].0 == other);
                        lemma_entry_in_map(after, k);
                        lemma_entry_in_map(before, k);
                    }
                }
                None
            },
        }
    }

    /// Puts `value` in the place `i` under the key that stands there, and
    /// gives back what stood there.
    pub fn replace_at(&mut self, i: usize, value: V) -> (r: V)
        requires
            old(self).wf(),
            i < old(self).entries@.len(),
        ensures
            final(self).wf(),
            r == old(self).entries@[i as int].1,
            final(self).entries@ == old(self).entries@.update(
                i as int,
                (old(self).entries@[i as int].0, value),
            ),
            forall|key: Address| final(self).contains(key) == old(self).contains(key),
            final(self).value(old(self).entries@[i as int].0) == value,
            forall|other: Address|
                other != old(self).entries@[i as int].0 && old(self).contains(other)
                    ==> final(self).value(other) == old(self).value(other),
    {
        let ghost before = self.entries@;
        let held = self.entries.remove(i);
        let key = held.0;
        self.entries.insert(i, (key, value));
        proof {
            let after = self.entries@;
            assert(after =~= before.update(i as int, (key, value)));
            lemma_entry_in_map(before, i as int);
            lemma_entry_in_map(after, i as int);
            assert forall|other: Address| has_key(after, other) == has_key(before, other) by {
                if has_key(before, other) {
                    let k = key_index(before, other);
                    assert(after[k].0 == other);
                }
                if has_key(after, other) {
                    let k = key_index(after, other);
                    assert(before[k].0 == other);
                }
            }
            assert forall|other: Address|
                other != key && has_key(before, other) implies after[key_index(after, other)].1
                == before[key_index(before, other)].1 by {
                let k = key_index(before, other);
                assert(after[k].0 == other);
                lemma_entry_in_map(after, k);
            }
        }
        held.1
    }

    /// Takes `key` out of the map and gives back what stood under it. The
    /// other keys keep their order.
    pub fn remove(&mut self, key: &Address) -> (r: Option<V>)
        requires
            old(self).wf(),
        ensures
            final(self).wf(),
            r.is_some() == old(self).contains(*key),
            r.is_some() ==> r.unwrap() == old(self).value(*key),
            !final(self).contains(*key),
            final(self).entries@ == if old(self).contains(*key) {
                old(self).entries@.remove(key_index(old(self).entries@, *key))
            } else {
                old(self).entries@
            },
            forall|other: Address|
                other != *key ==> final(self).contains(other) == old(self).contains(other),
            forall|other: Address|
                other != *key && old(self).contains(other) ==> final(self).value(other) == old(
                    self,
                ).value(other),
    {
        match self.position(key) {
            Some(i) => {
                let ghost before = self.entries@;
                let held = self.entries.remove(i);
                proof {
                    let after = self.entries@;
                    assert forall|j: int| 0 <= j < after.len() implies (#[trigger] after[j]).0
                        != *key by {
                        if j < i {
                            assert(before[j].0 != before[i as int].0);
                        } else {
                            assert(before[i as int].0 != before[j + 1].0);
                        }
                    }
                    assert forall|other: Address| other != *key implies has_key(after, other)
                        == has_key(before, other) by {
                        if has_key(before, other) {
                            let k = key_index(before, other);
                            if k < i {
                                assert(after[k].0 == other);
                            } else {
                                assert(after[k - 1].0 == other);
                            }
                        }
                        if has_key(after, other) {
                            let k = key_index(after, other);
                            if k < i {
                                assert(before[k].0 == other);
                            } else {
                                assert(before[k + 1].0 == other);
                            }
                        }
                    }
                    assert forall|other: Address|
                        other != *key && has_key(before, other) implies after[key_index(
                        after,
                        other,
                    )].1 == before[key_index(before, other)].1 by {
                        let k = key_index(before, other);
                        lemma_entry_in_map(before, k);
                        if k < i {
                            assert(after[k].0 == other);
                            lemma_entry_in_map(after, k);
                        } else {
                            assert(after[k - 1].0 == other);
                            lemma_entry_in_map(after, k - 1);
                        }
                    }
                }
                Some(held.1)
            },
            None => None,
        }
    }
}

} // verus!
