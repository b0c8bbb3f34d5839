//! A key-value store of strings held in memory.

use vstd::prelude::*;
use crate::store::StringMap;

verus! {

/// A store that binds string keys to string values.
pub struct InMemKVStore {
    hashmap: StringMap,
}

impl View for InMemKVStore {
    type V = Map<Seq<char>, Seq<char>>;

    closed spec fn view(&self) -> Map<Seq<char>, Seq<char>> {
        self.hashmap@
    }
}

impl InMemKVStore {
    /// An empty store.
    pub fn new() -> (s: InMemKVStore)
        ensures
            s@ == Map::<Seq<char>, Seq<char>>::empty(),
    {
        InMemKVStore { hashmap: StringMap::new() }
    }

    /// Binds `key` to `value`; what `key` was bound to before is replaced.
    pub fn put(&mut self, key: String, value: String)
        ensures
            final(self)@ == old(self)@.insert(key@, value@),
    {
        self.hashmap.insert(key, value);
    }

    /// The value bound to `key`, or `None` where nothing is.
    pub fn get(&self, key: String) -> (r: Option<String>)
        ensures
            match r {
                Some(v) => self@.contains_key(key@) && v@ == self@[key@],
                None => !self@.contains_key(key@),
            },
    {
        self.hashmap.get(&key)
    }
}

} // verus!
