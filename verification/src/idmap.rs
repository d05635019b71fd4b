//! A small map from node identifiers to values that keeps its entries in
//! the order in which their keys first arrived.

use vstd::prelude::*;
use crate::types::NodeId;

verus! {

/// No identifier occurs twice among the keys of `entries`.
pub open spec fn distinct_keys<V>(entries: Seq<(NodeId, V)>) -> bool {
    forall|i: int, j: int|
        0 <= i < j < entries.len() ==> (#[trigger] entries[i]).0@ != (#[trigger] entries[j]).0@
}

/// Some entry of `entries` has the key `id`.
pub open spec fn has_key<V>(entries: Seq<(NodeId, V)>, id: Seq<u8>) -> bool {
    exists|i: int| 0 <= i < entries.len() && (#[trigger] entries[i]).0@ == id
}

/// The position of the entry with key `id`, where there is one.
pub open spec fn key_index<V>(entries: Seq<(NodeId, V)>, id: Seq<u8>) -> int {
    choose|i: int| 0 <= i < entries.len() && (#[trigger] entries[i]).0@ == id
}

/// Where keys are distinct, the entry found under a key is the only one.
pub proof fn lemma_key_index_unique<V>(entries: Seq<(NodeId, V)>, id: Seq<u8>, i: int)
    requires
        distinct_keys(entries),
        0 <= i < entries.len(),
        entries[i].0@ == id,
    ensures
        has_key(entries, id),
        key_index(entries, id) == i,
{
    let k = key_index(entries, id);
    assert(0 <= k < entries.len() && entries[k].0@ == id);
    if k < i {
        assert(entries[k].0@ != entries[i].0@);
    } else if i < k {
        assert(entries[i].0@ != entries[k].0@);
    }
}

/// A map from node identifiers to values, in order of first insertion.
pub struct IdMap<V> {
    entries: Vec<(NodeId, V)>,
}

impl<V> IdMap<V> {
    /// The entries, oldest key first.
    pub closed spec fn entries(&self) -> Seq<(NodeId, V)> {
        self.entries@
    }

    #[verifier::type_invariant]
    spec fn keys_are_distinct(&self) -> bool {
        distinct_keys(self.entries@)
    }

    /// Whether the map has an entry for `id`.
    pub open spec fn contains(&self, id: Seq<u8>) -> bool {
        has_key(self.entries(), id)
    }

    /// The value stored under `id`, where there is one.
    pub open spec fn value_of(&self, id: Seq<u8>) -> V {
        self.entries()[key_index(self.entries(), id)].1
    }

    /// An empty map.
    pub fn new() -> (m: IdMap<V>)
        ensures
            m.entries() == Seq::<(NodeId, V)>::empty(),
    {
        IdMap { entries: Vec::new() }
    }

    /// The number of entries. (Also a reminder that no key occurs twice.)
    pub fn len(&self) -> (n: usize)
        ensures
            n == self.entries().len(),
            distinct_keys(self.entries()),
    {
        proof {
            use_type_invariant(self);
        }
        self.entries.len()
    }

    /// The position of the entry for `id`, if there is one.
    pub fn find(&self, id: &NodeId) -> (r: Option<usize>)
        ensures
            distinct_keys(self.entries()),
            match r {
                Some(i) => self.contains(id@) && i == key_index(self.entries(), id@) && i
                    < self.entries().len() && self.entries()[i as int].0@ == id@,
                None => !self.contains(id@),
            },
    {
        proof {
            use_type_invariant(self);
        }
        let mut i: usize = 0;
        while i < self.entries.len()
            invariant
                i <= self.entries@.len(),
                distinct_keys(self.entries@),
                forall|j: int| 0 <= j < i ==> (#[trigger] self.entries@[j]).0@ != id@,
            decreases self.entries@.len() - i,
        {
            if self.entries[i].0 == *id {
                proof {
                    lemma_key_index_unique(self.entries@, id@, i as int);
                }
                return Some(i);
            }
            i += 1;
        }
        None
    }

    /// Whether the map has an entry for `id`.
    pub fn contains_key(&self, id: &NodeId) -> (found: bool)
        ensures
            found == self.contains(id@),
    {
        self.find(id).is_some()
    }

    /// The value stored under `id`, if any.
    pub fn get(&self, id: &NodeId) -> (r: Option<&V>)
        ensures
            match r {
                Some(v) => self.contains(id@) && *v == self.value_of(id@),
                None => !self.contains(id@),
            },
    {
        match self.find(id) {
            Some(i) => Some(&self.entries[i].1),
            None => None,
        }
    }

    /// The key of the entry at position `i`.
    pub fn key_at(&self, i: usize) -> (id: NodeId)
        requires
            i < self.entries().len(),
        ensures
            id == self.entries()[i as int].0,
    {
        self.entries[i].0
    }

    /// The value of the entry at position `i`.
    pub fn value_at(&self, i: usize) -> (v: &V)
        requires
            i < self.entries().len(),
        ensures
            *v == self.entries()[i as int].1,
    {
        &self.entries[i].1
    }

    /// Stores `value` under `id`. An entry that was there keeps its place
    /// and hands back its old value; a new key goes to the end.
    pub fn insert(&mut self, id: NodeId, value: V) -> (previous: Option<V>)
        ensures
            distinct_keys(final(self).entries()),
            final(self).contains(id@),
            final(self).value_of(id@) == value,
            match previous {
                Some(v) => {
                    &&& old(self).contains(id@)
                    &&& v == old(self).value_of(id@)
                    &&& final(self).entries() == old(self).entries().update(
                        key_index(old(self).entries(), id@),
                        (id, value),
                    )
                },
                None => {
                    &&& !old(self).contains(id@)
                    &&& final(self).entries() == old(self).entries().push((id, value))
                },
            },
    {
        match self.find(&id) {
            Some(i) => {
                let mut entries: Vec<(NodeId, V)> = Vec::new();
                std::mem::swap(&mut entries, &mut self.entries);
                entries.push((id, value));
                let (_, v) = entries.swap_remove(i);
                proof {
                    assert(entries@ =~= old(self).entries@.update(i as int, (id, value)));
                    assert forall|a: int, b: int| 0 <= a < b < entries@.len() implies (
                    #[trigger] entries@[a]).0@ != (#[trigger] entries@[b]).0@ by {
                        assert(old(self).entries@[a].0@ != old(self).entries@[b].0@);
                    }
                    lemma_key_index_unique(entries@, id@, i as int);
                }
                self.entries = entries;
                Some(v)
            },
            None => {
                let mut entries: Vec<(NodeId, V)> = Vec::new();
                std::mem::swap(&mut entries, &mut self.entries);
                entries.push((id, value));
                proof {
                    let last = entries@.len() - 1;
                    assert forall|a: int, b: int| 0 <= a < b < entries@.len() implies (
                    #[trigger] entries@[a]).0@ != (#[trigger] entries@[b]).0@ by {
                        if b == last {
                            assert(entries@[a] == old(self).entries@[a]);
                        } else {
                            assert(old(self).entries@[a].0@ != old(self).entries@[b].0@);
                        }
                    }
                    lemma_key_index_unique(entries@, id@, last);
                }
                self.entries = entries;
                None
            },
        }
    }

    /// Takes out the entry for `id`, if there is one; the others keep their
    /// order.
    pub fn remove(&mut self, id: &NodeId) -> (removed: Option<V>)
        ensures
            distinct_keys(final(self).entries()),
            !final(self).contains(id@),
            match removed {
                Some(v) => {
                    &&& old(self).contains(id@)
                    &&& v == old(self).value_of(id@)
                    &&& final(self).entries() == old(self).entries().remove(
                        key_index(old(self).entries(), id@),
                    )
                },
                None => !old(self).contains(id@) && final(self).entries() == old(self).entries(),
            },
    {
        match self.find(id) {
            Some(i) => {
                let mut entries: Vec<(NodeId, V)> = Vec::new();
                std::mem::swap(&mut entries, &mut self.entries);
                let ghost before = entries@;
                let (_, v) = entries.remove(i);
                proof {
                    let after = entries@;
                    assert forall|a: int, b: int| 0 <= a < b < after.len() implies (
                    #[trigger] after[a]).0@ != (#[trigger] after[b]).0@ by {
                        let a0 = if a < i { a } else { a + 1 };
                        let b0 = if b < i { b } else { b + 1 };
                        assert(after[a] == before[a0] && after[b] == before[b0]);
                    }
                    assert forall|k: int| 0 <= k < after.len() implies (#[trigger] after[k]).0@
                        != id@ by {
                        let k0 = if k < i { k } else { k + 1 };
                        assert(after[k] == before[k0]);
                        if k0 < i {
                            assert(before[k0].0@ != before[i as int].0@);
                        } else {
                            assert(before[i as int].0@ != before[k0].0@);
                        }
                    }
                }
                self.entries = entries;
                Some(v)
            },
            None => None,
        }
    }
}

impl<V> IdMap<V> {
    /// Puts an entry for a key that the map does not hold at position `i`;
    /// the entries from there on move one place back.
    pub fn insert_at(&mut self, i: usize, id: NodeId, value: V)
        requires
            i <= old(self).entries().len(),
            !old(self).contains(id@),
        ensures
            distinct_keys(final(self).entries()),
            final(self).entries() == old(self).entries().insert(i as int, (id, value)),
    {
        proof {
            use_type_invariant(&*self);
        }
        let mut entries: Vec<(NodeId, V)> = Vec::new();
        std::mem::swap(&mut entries, &mut self.entries);
        let ghost before = entries@;
        entries.insert(i, (id, value));
        proof {
            let after = entries@;
            assert forall|a: int, b: int| 0 <= a < b < after.len() implies (#[trigger] after[a]).0@
                != (#[trigger] after[b]).0@ by {
                let a0 = if a < i { a } else { a - 1 };
                let b0 = if b < i { b } else { b - 1 };
                if a == i {
                    assert(after[b] == before[b0]);
                } else if b == i {
                    assert(after[a] == before[a0]);
                } else {
                    assert(after[a] == before[a0] && after[b] == before[b0]);
                }
            }
        }
        self.entries = entries;
    }
}

impl<V: Copy> IdMap<V> {
    /// A copy of the map.
    pub fn duplicate(&self) -> (copy: IdMap<V>)
        ensures
            copy.entries() == self.entries(),
    {
        proof {
            use_type_invariant(self);
        }
        let mut entries: Vec<(NodeId, V)> = Vec::with_capacity(self.entries.len());
        let mut i: usize = 0;
        while i < self.entries.len()
            invariant
                i <= self.entries@.len(),
                entries@ == self.entries@.subrange(0, i as int),
            decreases self.entries@.len() - i,
        {
            entries.push((self.entries[i].0, self.entries[i].1));
            assert(entries@ =~= self.entries@.subrange(0, i + 1));
            i += 1;
        }
        assert(self.entries@.subrange(0, self.entries@.len() as int) =~= self.entries@);
        IdMap { entries }
    }
}

} // verus!
