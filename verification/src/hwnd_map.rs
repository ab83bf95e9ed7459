//! Per-window state keyed by window handle (as an integer), held in a
//! `HashMap` whose contents verified code sees as a `Map`.

use vstd::prelude::*;

verus! {

broadcast use vstd::std_specs::hash::group_hash_axioms;

/// Per-window state keyed by window handle.
#[derive(Debug)]
pub struct HwndMap<V> {
    entries: std::collections::HashMap<isize, V>,
}

impl<V> View for HwndMap<V> {
    type V = Map<isize, V>;

    closed spec fn view(&self) -> Map<isize, V> {
        self.entries@
    }
}

impl<V> HwndMap<V> {
    /// No window has state.
    pub fn new() -> (map: HwndMap<V>)
        ensures
            map@ == Map::<isize, V>::empty(),
    {
        HwndMap { entries: std::collections::HashMap::new() }
    }

    /// Whether `key` has state.
    pub fn contains(&self, key: isize) -> (present: bool)
        ensures
            present == self@.contains_key(key),
    {
        self.entries.contains_key(&key)
    }

    /// The state of `key`, if any.
    pub fn get(&self, key: isize) -> (value: Option<&V>)
        ensures
            match value {
                Some(v) => self@.contains_key(key) && *v == self@[key],
                None => !self@.contains_key(key),
            },
    {
        self.entries.get(&key)
    }

    /// Drop the state of `key`, handing it back.
    pub fn remove(&mut self, key: isize) -> (value: Option<V>)
        ensures
            final(self)@ == old(self)@.remove(key),
            match value {
                Some(v) => old(self)@.contains_key(key) && v == old(self)@[key],
                None => !old(self)@.contains_key(key),
            },
    {
        self.entries.remove(&key)
    }

    /// Set the state of `key`.
    pub fn insert(&mut self, key: isize, value: V)
        ensures
            final(self)@ == old(self)@.insert(key, value),
    {
        let _ = self.entries.insert(key, value);
    }
}

} // verus!
