//! The dispatch registry: live objects by their dispatch key.

use vstd::prelude::*;
use std::collections::HashMap;

verus! {

broadcast use vstd::std_specs::hash::group_hash_axioms;

/// The key under which a dispatchable object is registered.
///
/// By the loader's convention the first machine word behind a dispatchable
/// handle points at the loader's dispatch table; that word is the key. It is
/// only ever compared, never followed.
pub fn dispatch_key(first_word: usize) -> (r: u64)
    ensures
        r == first_word as u64,
{
    first_word as u64
}

/// Registration records by dispatch key.
pub struct DispatchRegistry<R> {
    map: HashMap<u64, R>,
}

impl<R> DispatchRegistry<R> {
    pub closed spec fn view(&self) -> Map<u64, R> {
        self.map@
    }

    /// An empty registry.
    pub fn new() -> (r: Self)
        ensures
            r.view() == Map::<u64, R>::empty(),
    {
        DispatchRegistry { map: HashMap::new() }
    }

    /// Records `record` under `key`; a record already there is handed back.
    pub fn register(&mut self, key: u64, record: R) -> (prev: Option<R>)
        ensures
            final(self).view() == old(self).view().insert(key, record),
            prev is Some <==> old(self).view().contains_key(key),
            prev matches Some(p) ==> p == old(self).view()[key],
    {
        self.map.insert(key, record)
    }

    /// Removes and hands back the record under `key`, if there is one.
    pub fn deregister(&mut self, key: u64) -> (r: Option<R>)
        ensures
            final(self).view() == old(self).view().remove(key),
            r is Some <==> old(self).view().contains_key(key),
            r matches Some(p) ==> p == old(self).view()[key],
    {
        self.map.remove(&key)
    }

    /// The record under `key`, if there is one.
    pub fn lookup(&self, key: u64) -> (r: Option<&R>)
        ensures
            r is Some <==> self.view().contains_key(key),
            r matches Some(p) ==> *p == self.view()[key],
    {
        self.map.get(&key)
    }

    /// Whether a record is under `key`.
    pub fn contains(&self, key: u64) -> (r: bool)
        ensures
            r == self.view().contains_key(key),
    {
        self.map.contains_key(&key)
    }

    /// The number of records.
    pub fn len(&self) -> (r: usize)
        ensures
            r == self.view().len(),
    {
        self.map.len()
    }
}

} // verus!
