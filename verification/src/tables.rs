//! Tables from integer keys to values.

use std::collections::HashMap;

use vstd::prelude::*;

verus! {

broadcast use vstd::std_specs::hash::group_hash_axioms;

/// A table with integer keys.
#[derive(Debug)]
pub struct Table<V> {
    map: HashMap<u64, V>,
}

impl<V> View for Table<V> {
    type V = Map<u64, V>;

    closed spec fn view(&self) -> Map<u64, V> {
        self.map@
    }
}

/// The keys of a range, both ends included.
pub open spec fn key_range(low: u64, high: u64) -> Set<u64> {
    Set::new(|key: u64| low <= key <= high)
}

impl<V> Table<V> {
    /// An empty table.
    pub fn new() -> (table: Self)
        ensures
            table@ == Map::<u64, V>::empty(),
    {
        Self { map: HashMap::new() }
    }

    /// The value of a key.
    pub fn get(&self, key: u64) -> (value: Option<&V>)
        ensures
            match value {
                Some(value) => self@.contains_key(key) && self@[key] == *value,
                None => !self@.contains_key(key),
            },
    {
        self.map.get(&key)
    }

    /// Whether a key has a value.
    pub fn contains(&self, key: u64) -> (found: bool)
        ensures
            found == self@.contains_key(key),
    {
        self.map.contains_key(&key)
    }

    /// Set the value of a key.
    pub fn insert(&mut self, key: u64, value: V)
        ensures
            final(self)@ == old(self)@.insert(key, value),
    {
        let _replaced = self.map.insert(key, value);
    }

    /// Take the value of a key out.
    pub fn remove(&mut self, key: u64) -> (value: Option<V>)
        ensures
            final(self)@ == old(self)@.remove(key),
            match value {
                Some(value) => old(self)@.contains_key(key) && old(self)@[key] == value,
                None => !old(self)@.contains_key(key),
            },
    {
        self.map.remove(&key)
    }

    fn keys(&self) -> (keys: Vec<u64>)
        ensures
            forall|key: u64| #[trigger] self@.contains_key(key) <==> keys@.contains(key),
    {
        let mut keys: Vec<u64> = Vec::new();
        for key in it: self.map.keys()
            invariant
                keys@ == it.seq().unref().take(it.index() as int),
                it.seq().unref().to_set() == self.map@.dom(),
                it.index() == it.seq().len() ==> keys@ == it.seq().unref(),
        {
            keys.push(*key);
        }
        assert(keys@.to_set() == self.map@.dom());
        assert forall|key: u64| self@.contains_key(key) <==> keys@.contains(key) by {
            assert(keys@.to_set().contains(key) <==> self.map@.dom().contains(key));
        }
        keys
    }

    /// Forget every key of a range, both ends included.
    pub fn remove_range(&mut self, low: u64, high: u64)
        ensures
            final(self)@ == old(self)@.remove_keys(key_range(low, high)),
    {
        let keys = self.keys();
        let ghost before = self@;
        let ghost gone = key_range(low, high);
        let mut i: usize = 0;
        while i < keys.len()
            invariant
                i <= keys@.len(),
                gone == key_range(low, high),
                self@.remove_keys(gone) == before.remove_keys(gone),
                forall|key: u64| #[trigger] self@.contains_key(key) ==> before.contains_key(key),
                forall|j: int|
                    0 <= j < i && gone.contains(#[trigger] keys@[j]) ==> !self@.contains_key(
                        keys@[j],
                    ),
            decreases keys@.len() - i,
        {
            if low <= keys[i] && keys[i] <= high {
                let ghost so_far = self@;
                let _value = self.remove(keys[i]);
                assert(self@.remove_keys(gone) =~= so_far.remove_keys(gone));
            }
            i = i + 1;
        }
        assert(self@.remove_keys(gone) =~= self@) by {
            assert forall|key: u64| self@.contains_key(key) implies !gone.contains(key) by {
                assert(before.contains_key(key));
                let j = keys@.index_of(key);
                assert(keys@[j] == key);
            }
        }
    }
}

/// The keys of a range, both ends included, that have a value.
pub open spec fn keys_with_value(
    table: Map<u64, u32>,
    low: u64,
    high: u64,
    value: u32,
) -> Set<u64> {
    Set::new(
        |key: u64| low <= key <= high && table.contains_key(key) && table[key] == value,
    )
}

impl Table<u32> {
    /// Forget every key of a range, both ends included, that has the given value.
    pub fn remove_value(&mut self, low: u64, high: u64, value: u32)
        ensures
            final(self)@ == old(self)@.remove_keys(
                keys_with_value(old(self)@, low, high, value),
            ),
    {
        let keys = self.keys();
        let ghost before = self@;
        let ghost gone = keys_with_value(before, low, high, value);
        let mut i: usize = 0;
        while i < keys.len()
            invariant
                i <= keys@.len(),
                gone == keys_with_value(before, low, high, value),
                self@.remove_keys(gone) == before.remove_keys(gone),
                forall|key: u64| #[trigger]
                    self@.contains_key(key) ==> before.contains_key(key) && before[key]
                        == self@[key],
                forall|j: int|
                    0 <= j < i && gone.contains(#[trigger] keys@[j]) ==> !self@.contains_key(
                        keys@[j],
                    ),
            decreases keys@.len() - i,
        {
            let key: u64 = keys[i];
            if low <= key && key <= high {
                let found: Option<u32> = match self.get(key) {
                    Some(found) => Some(*found),
                    None => None,
                };
                if let Some(found) = found {
                    if found == value {
                        let ghost so_far = self@;
                        let _value = self.remove(key);
                        assert(self@.remove_keys(gone) =~= so_far.remove_keys(gone));
                    }
                }
            }
            i = i + 1;
        }
        assert(self@.remove_keys(gone) =~= self@) by {
            assert forall|key: u64| self@.contains_key(key) implies !gone.contains(key) by {
                assert(before.contains_key(key));
                let j = keys@.index_of(key);
                assert(keys@[j] == key);
            }
        }
    }
}

/// A range of keys holds both its ends and what is between; of the keys with a value in it,
/// those that have that value.
pub proof fn lemma_ranges_hold_their_ends(
    table: Map<u64, u32>,
    low: u64,
    high: u64,
    key: u64,
    value: u32,
)
    ensures
        key_range(low, high).contains(key) <==> low <= key && key <= high,
        keys_with_value(table, low, high, value).contains(key) <==> low <= key && key <= high
            && table.contains_key(key) && table[key] == value,
{
}

} // verus!
