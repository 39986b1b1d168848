//! A map kept as a list of entries, for keys that are compared and not
//! hashed. No key occurs twice.
use crate::ids::{bytes_equal, NodeId};
use crate::lsps0::msgs::RequestId;
use vstd::prelude::*;

verus! {

/// A key that can be told apart from another of its kind.
pub trait MapKey: Sized {
    /// What the key stands for in a contract.
    type Id;

    /// What this key stands for.
    spec fn id(&self) -> Self::Id;

    /// Whether the two keys stand for the same.
    fn same_key(&self, other: &Self) -> (same: bool)
        ensures
            same == (self.id() == other.id()),
    ;
}

impl MapKey for NodeId {
    type Id = NodeId;

    open spec fn id(&self) -> NodeId {
        *self
    }

    fn same_key(&self, other: &NodeId) -> (same: bool) {
        bytes_equal(&self.0, &other.0)
    }
}

impl MapKey for u128 {
    type Id = u128;

    open spec fn id(&self) -> u128 {
        *self
    }

    fn same_key(&self, other: &u128) -> (same: bool) {
        *self == *other
    }
}

impl MapKey for RequestId {
    type Id = Seq<char>;

    open spec fn id(&self) -> Seq<char> {
        self@
    }

    fn same_key(&self, other: &RequestId) -> (same: bool) {
        self.matches(other)
    }
}

/// The map that a list of entries stands for. Of two entries under one key
/// the later one counts.
pub open spec fn entries_map<K: MapKey, V>(entries: Seq<(K, V)>) -> Map<K::Id, V>
    decreases entries.len(),
{
    if entries.len() == 0 {
        Map::empty()
    } else {
        entries_map(entries.drop_last()).insert(entries.last().0.id(), entries.last().1)
    }
}

/// Whether no key occurs twice among the entries.
pub open spec fn keys_distinct<K: MapKey, V>(entries: Seq<(K, V)>) -> bool {
    forall|i: int, j: int|
        0 <= i < j < entries.len() ==> (#[trigger] entries[i]).0.id() != (#[trigger] entries[j]).0.id()
}

/// The map holds exactly the keys of the entries.
pub proof fn lemma_entries_map_keys<K: MapKey, V>(entries: Seq<(K, V)>, id: K::Id)
    ensures
        entries_map(entries).contains_key(id) <==> exists|i: int|
            0 <= i < entries.len() && (#[trigger] entries[i]).0.id() == id,
    decreases entries.len(),
{
    if entries.len() > 0 {
        let front = entries.drop_last();
        lemma_entries_map_keys(front, id);
        if entries_map(entries).contains_key(id) {
            if entries.last().0.id() == id {
                assert(entries[entries.len() - 1].0.id() == id);
            } else {
                let i = choose|i: int| 0 <= i < front.len() && (#[trigger] front[i]).0.id() == id;
                assert(entries[i].0.id() == id);
            }
        }
        if exists|i: int| 0 <= i < entries.len() && (#[trigger] entries[i]).0.id() == id {
            let i = choose|i: int| 0 <= i < entries.len() && (#[trigger] entries[i]).0.id() == id;
            if i < front.len() {
                assert(front[i].0.id() == id);
            }
        }
    }
}

/// Where no key occurs twice, the map gives each entry's value under its
/// key.
pub proof fn lemma_entries_map_value<K: MapKey, V>(entries: Seq<(K, V)>, i: int)
    requires
        keys_distinct(entries),
        0 <= i < entries.len(),
    ensures
        entries_map(entries).contains_key(entries[i].0.id()),
        entries_map(entries)[entries[i].0.id()] == entries[i].1,
    decreases entries.len(),
{
    let front = entries.drop_last();
    if i < entries.len() - 1 {
        assert(keys_distinct(front)) by {
            assert forall|a: int, b: int| 0 <= a < b < front.len() implies (#[trigger] front[a]).0.id()
                != (#[trigger] front[b]).0.id() by {
                assert(entries[a].0.id() != entries[b].0.id());
            }
        }
        lemma_entries_map_value(front, i);
        assert(front[i] == entries[i]);
        assert(entries[i].0.id() != entries[entries.len() - 1].0.id());
    }
}

/// A map from keys to values, kept as a list in which no key occurs twice.
pub struct AssocList<K: MapKey, V> {
    entries: Vec<(K, V)>,
}

impl<K: MapKey, V> View for AssocList<K, V> {
    type V = Map<K::Id, V>;

    closed spec fn view(&self) -> Map<K::Id, V> {
        entries_map(self.entries@)
    }
}

impl<K: MapKey, V> AssocList<K, V> {
    /// Whether the list is in order: no key occurs twice in it. Every list
    /// that this module hands out is.
    pub closed spec fn wf(&self) -> bool {
        keys_distinct(self.entries@)
    }

    /// An empty map.
    pub fn new() -> (list: AssocList<K, V>)
        ensures
            list.wf(),
            list@ == Map::<K::Id, V>::empty(),
    {
        AssocList { entries: Vec::new() }
    }

    /// The place of the entry under the given key, if there is one.
    fn position(&self, key: &K) -> (place: Option<usize>)
        ensures
            match place {
                Some(i) => i < self.entries@.len() && self.entries@[i as int].0.id() == key.id(),
                None => !self@.contains_key(key.id()),
            },
    {
        let mut i: usize = 0;
        while i < self.entries.len()
            invariant
                0 <= i <= self.entries@.len(),
                forall|j: int| 0 <= j < i ==> (#[trigger] self.entries@[j]).0.id() != key.id(),
            decreases self.entries@.len() - i,
        {
            if self.entries[i].0.same_key(key) {
                return Some(i);
            }
            i += 1;
        }
        proof {
            lemma_entries_map_keys(self.entries@, key.id());
        }
        None
    }

    /// The value under the given key, if there is one.
    pub fn get(&self, key: &K) -> (value: Option<&V>)
        requires
            self.wf(),
        ensures
            match value {
                Some(v) => self@.contains_key(key.id()) && self@[key.id()] == *v,
                None => !self@.contains_key(key.id()),
            },
    {
        match self.position(key) {
            Some(i) => {
                proof {
                    lemma_entries_map_value(self.entries@, i as int);
                }
                Some(&self.entries[i].1)
            },
            None => None,
        }
    }

    /// Takes the entry at the given place out of the list.
    fn remove_at(&mut self, i: usize) -> (entry: (K, V))
        requires
            old(self).wf(),
            i < old(self).entries@.len(),
        ensures
            final(self).wf(),
            entry == old(self).entries@[i as int],
            final(self).entries@ == old(self).entries@.remove(i as int),
            old(self)@.contains_key(entry.0.id()),
            old(self)@[entry.0.id()] == entry.1,
            final(self)@ == old(self)@.remove(entry.0.id()),
    {
        let ghost before = self.entries@;
        let ghost key = before[i as int].0.id();
        let entry = self.entries.remove(i);
        let ghost after = self.entries@;
        proof {
            lemma_entries_map_value(before, i as int);
            assert(keys_distinct(after)) by {
                assert forall|a: int, b: int| 0 <= a < b < after.len() implies (
                #[trigger] after[a]).0.id() != (#[trigger] after[b]).0.id() by {
                    let a0 = if a < i { a } else { a + 1 };
                    let b0 = if b < i { b } else { b + 1 };
                    assert(after[a] == before[a0]);
                    assert(after[b] == before[b0]);
                }
            }
            assert forall|id: K::Id|
                entries_map(after).contains_key(id) <==> entries_map(before).remove(
                    key,
                ).contains_key(id) by {
                lemma_entries_map_keys(after, id);
                lemma_entries_map_keys(before, id);
                if entries_map(after).contains_key(id) {
                    let a = choose|a: int|
                        0 <= a < after.len() && (#[trigger] after[a]).0.id() == id;
                    let a0 = if a < i { a } else { a + 1 };
                    assert(after[a] == before[a0]);
                    assert(before[a0].0.id() == id);
                    assert(before[a0].0.id() != before[i as int].0.id());
                }
                if entries_map(before).remove(key).contains_key(id) {
                    let b = choose|b: int|
                        0 <= b < before.len() && (#[trigger] before[b]).0.id() == id;
                    let b1 = if b < i { b } else { b - 1 };
                    assert(after[b1] == before[b]);
                    assert(after[b1].0.id() == id);
                }
            }
            assert forall|id: K::Id| entries_map(after).contains_key(id) implies entries_map(
                after,
            )[id] == entries_map(before).remove(key)[id] by {
                lemma_entries_map_keys(after, id);
                let a = choose|a: int| 0 <= a < after.len() && (#[trigger] after[a]).0.id() == id;
                let a0 = if a < i { a } else { a + 1 };
                assert(after[a] == before[a0]);
                lemma_entries_map_value(after, a);
                lemma_entries_map_value(before, a0);
            }
            assert(entries_map(after) =~= entries_map(before).remove(key));
        }
        entry
    }

    /// Takes the entry under the given key out of the map and returns its
    /// value, if there is one.
    pub fn remove(&mut self, key: &K) -> (value: Option<V>)
        requires
            old(self).wf(),
        ensures
            final(self).wf(),
            final(self)@ == old(self)@.remove(key.id()),
            match value {
                Some(v) => old(self)@.contains_key(key.id()) && old(self)@[key.id()] == v,
                None => !old(self)@.contains_key(key.id()),
            },
    {
        match self.position(key) {
            Some(i) => {
                let entry = self.remove_at(i);
                Some(entry.1)
            },
            None => {
                assert(self@ =~= old(self)@.remove(key.id()));
                None
            },
        }
    }

    /// Puts the value under the given key, in place of the one that was
    /// there, if there was one.
    pub fn insert(&mut self, key: K, value: V)
        requires
            old(self).wf(),
        ensures
            final(self).wf(),
            final(self)@ == old(self)@.insert(key.id(), value),
    {
        let _ = self.remove(&key);
        let ghost before = self.entries@;
        let ghost id = key.id();
        let ghost content = value;
        proof {
            assert forall|j: int| 0 <= j < before.len() implies (#[trigger] before[j]).0.id()
                != id by {
                lemma_entries_map_keys(before, id);
            }
        }
        self.entries.push((key, value));
        proof {
            assert(self.entries@.drop_last() =~= before);
            assert(self@ =~= old(self)@.insert(id, content));
            assert forall|a: int, b: int| 0 <= a < b < self.entries@.len() implies (
            #[trigger] self.entries@[a]).0.id() != (#[trigger] self.entries@[b]).0.id() by {
                assert(self.entries@[a] == before[a]);
                if b < before.len() {
                    assert(self.entries@[b] == before[b]);
                }
            }
        }
    }
}

/// The map without the entries that hold the given value.
pub open spec fn without_value<I>(map: Map<I, u64>, value: u64) -> Map<I, u64> {
    Map::new(|id: I| map.contains_key(id) && map[id] != value, |id: I| map[id])
}

impl<K: MapKey> AssocList<K, u64> {
    /// Takes every entry that holds the given value out of the map.
    pub fn remove_value(&mut self, value: u64)
        requires
            old(self).wf(),
        ensures
            final(self).wf(),
            final(self)@ == without_value(old(self)@, value),
    {
        let mut i: usize = 0;
        while i < self.entries.len()
            invariant
                self.wf(),
                0 <= i <= self.entries@.len(),
                forall|j: int| 0 <= j < i ==> (#[trigger] self.entries@[j]).1 != value,
                forall|id: K::Id| #[trigger]
                    self@.contains_key(id) ==> old(self)@.contains_key(id) && old(self)@[id]
                        == self@[id],
                forall|id: K::Id|
                    old(self)@.contains_key(id) && old(self)@[id] != value
                        ==> #[trigger] self@.contains_key(id),
            decreases self.entries@.len() - i,
        {
            if self.entries[i].1 == value {
                let _ = self.remove_at(i);
            } else {
                i += 1;
            }
        }
        proof {
            let entries = self.entries@;
            assert forall|id: K::Id| #[trigger] self@.contains_key(id) implies self@[id]
                != value by {
                lemma_entries_map_keys(entries, id);
                let j = choose|j: int| 0 <= j < entries.len() && (#[trigger] entries[j]).0.id() == id;
                lemma_entries_map_value(entries, j);
            }
            assert(self@ =~= without_value(old(self)@, value));
        }
    }
}

} // verus!
