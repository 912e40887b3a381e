//! A map from locations to values, kept as a list of slots in which no
//! location occurs twice.
use super::node_location::{Location, LocationView};
use vstd::prelude::*;

verus! {

/// One location of a map and the value under it.
pub struct Slot<V> {
    pub key: Location,
    pub value: V,
}

/// A map from locations to values.
pub struct LocationMap<V> {
    slots: Vec<Slot<V>>,
}

impl<V> LocationMap<V> {
    /// The locations of the map, in the order in which they came.
    pub closed spec fn keys(&self) -> Seq<LocationView> {
        self.slots@.map_values(|slot: Slot<V>| slot.key@)
    }

    /// The values of the map, in the order of `keys`.
    pub closed spec fn values(&self) -> Seq<V> {
        self.slots@.map_values(|slot: Slot<V>| slot.value)
    }

    /// No location occurs twice.
    pub open spec fn wf(&self) -> bool {
        self.keys().no_duplicates()
    }

    /// The map that the slots stand for.
    pub open spec fn view(&self) -> Map<LocationView, V> {
        Map::new(
            |key: LocationView| self.keys().contains(key),
            |key: LocationView| self.values()[self.keys().index_of(key)],
        )
    }

    /// The slot at an index is part of the map.
    pub proof fn lemma_slot(&self, index: int)
        requires
            self.wf(),
            0 <= index < self.keys().len(),
        ensures
            self@.contains_key(self.keys()[index]),
            self@[self.keys()[index]] == self.values()[index],
    {
        let key = self.keys()[index];
        assert(self.keys().contains(key));
        let found = self.keys().index_of(key);
        assert(found == index);
    }

    /// The domain of the map is finite and as large as the list of keys.
    pub proof fn lemma_domain(&self)
        requires
            self.wf(),
        ensures
            self@.dom() == self.keys().to_set(),
            self@.dom().finite(),
            self@.dom().len() == self.keys().len(),
    {
        assert(self@.dom() =~= self.keys().to_set());
        vstd::seq_lib::seq_to_set_is_finite(self.keys());
        self.keys().unique_seq_to_set();
    }

    /// A map without entries.
    pub fn new() -> (map: Self)
        ensures
            map.wf(),
            map@ == Map::<LocationView, V>::empty(),
            map.keys().len() == 0,
    {
        let map = LocationMap { slots: Vec::new() };
        assert(map@ =~= Map::<LocationView, V>::empty());
        map
    }

    /// The number of entries.
    pub fn len(&self) -> (count: usize)
        ensures
            count == self.keys().len(),
    {
        self.slots.len()
    }

    /// The index of the slot that holds a location.
    fn position(&self, key: &Location) -> (found: Option<usize>)
        ensures
            match found {
                Some(index) => index < self.keys().len() && self.keys()[index as int] == key@,
                None => !self.keys().contains(key@),
            },
    {
        let mut index: usize = 0;
        while index < self.slots.len()
            invariant
                index <= self.slots.len(),
                forall|i: int| 0 <= i < index ==> self.keys()[i] != key@,
            decreases self.slots.len() - index,
        {
            if self.slots[index].key == *key {
                return Some(index);
            }
            index += 1;
        }
        None
    }

    /// Whether the map has an entry for a location.
    pub fn contains_key(&self, key: &Location) -> (found: bool)
        ensures
            found == self@.contains_key(key@),
    {
        self.position(key).is_some()
    }

    /// The value under a location.
    pub fn get(&self, key: &Location) -> (value: Option<&V>)
        requires
            self.wf(),
        ensures
            match value {
                Some(value) => self@.contains_key(key@) && self@[key@] == *value,
                None => !self@.contains_key(key@),
            },
    {
        match self.position(key) {
            Some(index) => {
                proof {
                    self.lemma_slot(index as int);
                }
                Some(&self.slots[index].value)
            },
            None => None,
        }
    }

    /// Puts a value under a location, and hands back the value that was
    /// there before.
    pub fn insert(&mut self, key: Location, value: V) -> (previous: Option<V>)
        requires
            old(self).wf(),
        ensures
            final(self).wf(),
            final(self)@ == old(self)@.insert(key@, value),
            previous == if old(self)@.contains_key(key@) {
                Some(old(self)@[key@])
            } else {
                None
            },
            !old(self)@.contains_key(key@) ==> final(self).keys() == old(self).keys().push(key@)
                && final(self).values() == old(self).values().push(value),
    {
        let ghost before = *self;
        match self.position(&key) {
            Some(index) => {
                proof {
                    before.lemma_slot(index as int);
                }
                self.slots.push(Slot { key, value });
                let replaced = self.slots.swap_remove(index);
                proof {
                    assert(self.keys() =~= before.keys());
                    assert(self.values() =~= before.values().update(index as int, value));
                    assert forall|k: LocationView| self.keys().contains(k) implies #[trigger] self@[k]
                        == before@.insert(key@, value)[k] by {
                        let i = self.keys().index_of(k);
                        let j = before.keys().index_of(k);
                        assert(i == j);
                    }
                    assert(self@ =~= before@.insert(key@, value));
                }
                Some(replaced.value)
            },
            None => {
                self.slots.push(Slot { key, value });
                proof {
                    assert(self.keys() =~= before.keys().push(key@));
                    assert(self.values() =~= before.values().push(value));
                    assert forall|k: LocationView| #[trigger]
                        self.keys().contains(k) == (before.keys().contains(k) || k == key@) by {
                        if before.keys().contains(k) {
                            let i = before.keys().index_of(k);
                            assert(self.keys()[i] == k);
                        }
                        if k == key@ {
                            assert(self.keys()[before.keys().len() as int] == k);
                        }
                    }
                    assert forall|k: LocationView| self.keys().contains(k) implies #[trigger] self@[k]
                        == before@.insert(key@, value)[k] by {
                        let i = self.keys().index_of(k);
                        if k != key@ {
                            let j = before.keys().index_of(k);
                            assert(self.keys()[j] == k);
                            assert(i == j);
                        }
                    }
                    assert(self@ =~= before@.insert(key@, value));
                }
                None
            },
        }
    }
}

} // verus!
