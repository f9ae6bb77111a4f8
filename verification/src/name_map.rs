//! A map from names to values, walked in ascending order of the names.

use vstd::prelude::*;
use crate::names::{ascending, NameSet};

verus! {

/// Entries keyed by name; each name at most once.
#[derive(Debug, PartialEq, Eq)]
pub struct NameMap<V> {
    keys: NameSet,
    values: Vec<V>,
}

impl<V: Clone> Clone for NameMap<V> {
    /// A copy with the same names, each with a copy of its value.
    fn clone(&self) -> (copy: Self)
        ensures
            copy.names() == self.names(),
            copy.values().len() == self.values().len(),
            forall|i: int|
                0 <= i < self.values().len() ==> cloned::<V>(
                    #[trigger] self.values()[i],
                    copy.values()[i],
                ),
    {
        proof {
            use_type_invariant(self);
            use_type_invariant(&self.keys);
        }
        let keys = self.keys.clone();
        let mut values: Vec<V> = Vec::new();
        let mut i: usize = 0;
        while i < self.values.len()
            invariant
                i <= self.values.len(),
                values.len() == i,
                forall|k: int| 0 <= k < i ==> cloned::<V>(#[trigger] self.values@[k], values@[k]),
            decreases self.values.len() - i,
        {
            values.push(self.values[i].clone());
            i += 1;
        }
        NameMap { keys, values }
    }
}

impl<V> NameMap<V> {
    /// The names, in ascending order.
    pub closed spec fn names(&self) -> Seq<Seq<char>> {
        self.keys@
    }

    /// The values, each at the place of its name.
    pub closed spec fn values(&self) -> Seq<V> {
        self.values@
    }

    /// Every name has its value, and the names ascend.
    #[verifier::type_invariant]
    pub open spec fn paired(&self) -> bool {
        &&& self.names().len() == self.values().len()
        &&& ascending(self.names())
    }

    /// Whether `name` is a key.
    pub open spec fn has(&self, name: Seq<char>) -> bool {
        self.names().contains(name)
    }

    /// The value under `name`, if it is a key.
    pub open spec fn lookup(&self, name: Seq<char>) -> Option<V> {
        if self.has(name) {
            Some(self.values()[self.names().index_of(name)])
        } else {
            None
        }
    }

    /// The empty map.
    pub fn new() -> (map: Self)
        ensures
            map.names() == Seq::<Seq<char>>::empty(),
            map.values() == Seq::<V>::empty(),
    {
        NameMap { keys: NameSet::new(), values: Vec::new() }
    }

    /// The number of entries.
    pub fn len(&self) -> (n: usize)
        ensures
            n == self.names().len(),
            n == self.values().len(),
    {
        proof {
            use_type_invariant(self);
        }
        self.values.len()
    }

    /// Whether the map has no entry.
    pub fn is_empty(&self) -> (empty: bool)
        ensures
            empty == (self.names().len() == 0),
    {
        self.len() == 0
    }

    /// The name of the entry at place `i`.
    pub fn key_at(&self, i: usize) -> (name: &String)
        requires
            i < self.names().len(),
        ensures
            name@ == self.names()[i as int],
    {
        self.keys.name(i)
    }

    /// The value of the entry at place `i`.
    pub fn value_at(&self, i: usize) -> (value: &V)
        requires
            i < self.names().len(),
        ensures
            *value == self.values()[i as int],
            self.lookup(self.names()[i as int]) == Some(*value),
    {
        proof {
            use_type_invariant(self);
            self.lemma_lookup_at(i as int);
        }
        &self.values[i]
    }

    /// The entry at place `i` is the one that a lookup of its name finds.
    pub proof fn lemma_lookup_at(&self, i: int)
        requires
            self.paired(),
            0 <= i < self.names().len(),
        ensures
            self.has(self.names()[i]),
            self.lookup(self.names()[i]) == Some(self.values()[i]),
    {
        let names = self.names();
        crate::names::lemma_ascending_no_duplicates(names);
        assert(names.contains(names[i]));
        let k = names.index_of(names[i]);
        assert(names[k] == names[i]);
    }

    /// The place of `name`, if it is a key.
    pub fn find(&self, name: &str) -> (place: Option<usize>)
        ensures
            place is Some <==> self.has(name@),
            place matches Some(i) ==> i < self.names().len() && self.names()[i as int] == name@
                && self.lookup(name@) == Some(self.values()[i as int]),
    {
        proof {
            use_type_invariant(self);
        }
        let place = self.keys.find(name);
        proof {
            if let Some(i) = place {
                self.lemma_lookup_at(i as int);
            }
        }
        place
    }

    /// Whether `name` is a key.
    pub fn contains_key(&self, name: &str) -> (found: bool)
        ensures
            found == self.has(name@),
    {
        self.find(name).is_some()
    }

    /// The value under `name`.
    pub fn get(&self, name: &str) -> (value: Option<&V>)
        ensures
            value is Some <==> self.has(name@),
            value matches Some(v) ==> self.lookup(name@) == Some(*v),
    {
        proof {
            use_type_invariant(self);
        }
        match self.find(name) {
            Some(i) => Some(&self.values[i]),
            None => None,
        }
    }

    /// Puts `value` under `key`, in place of what was there; says whether
    /// something was.
    pub fn insert(&mut self, key: String, value: V) -> (replaced: bool)
        ensures
            replaced == old(self).has(key@),
            final(self).lookup(key@) == Some(value),
            forall|x: Seq<char>| x != key@ ==> final(self).lookup(x) == old(self).lookup(x),
            forall|x: Seq<char>| final(self).has(x) <==> (x == key@ || old(self).has(x)),
            final(self).names().len() == old(self).names().len() + (if replaced { 0int } else { 1int }),
    {
        proof {
            use_type_invariant(&*self);
        }
        let ghost before = *self;
        let ghost text = key@;
        let mut taken: NameMap<V> = NameMap::new();
        core::mem::swap(self, &mut taken);
        let NameMap { keys, values } = taken;
        let mut keys = keys;
        let mut values = values;
        let ghost old_keys = keys;
        let placed = keys.insert_at(key);
        let ghost new_keys = keys;
        if placed.1 {
            values.insert(placed.0, value);
        } else {
            values.set(placed.0, value);
        }
        proof {
            use_type_invariant(&keys);
        }
        *self = NameMap { keys, values };
        proof {
            let at = placed.0 as int;
            let names = self.names();
            let old_names = before.names();
            crate::names::lemma_ascending_no_duplicates(names);
            crate::names::lemma_ascending_no_duplicates(old_names);
            self.lemma_lookup_at(at);
            assert forall|x: Seq<char>| self.has(x) <==> (x == text || before.has(x)) by {
                assert(new_keys.has(x) <==> (x == text || old_keys.has(x)));
            }
            assert forall|x: Seq<char>| x != text implies self.lookup(x) == before.lookup(x) by {
                if before.has(x) {
                    let k = old_names.index_of(x);
                    assert(old_names[k] == x);
                    if placed.1 {
                        let nk = if k < at { k } else { k + 1 };
                        assert(names[nk] == x);
                        self.lemma_lookup_at(nk);
                    } else {
                        assert(names[k] == x);
                        self.lemma_lookup_at(k);
                    }
                }
            }
        }
        !placed.1
    }
}

} // verus!
