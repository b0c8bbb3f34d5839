//! A key-value store in the shape of a service: it answers `Put` and
//! `GetByKey` requests.

use vstd::prelude::*;
use crate::store::StringMap;

verus! {

/// The key-value service: string keys bound to string values.
pub struct KVService {
    hashmap: StringMap,
}

impl View for KVService {
    type V = Map<Seq<char>, Seq<char>>;

    closed spec fn view(&self) -> Map<Seq<char>, Seq<char>> {
        self.hashmap@
    }
}

/// A request to bind a key to a value.
pub struct Put {
    key: String,
    value: String,
}

impl View for Put {
    type V = (Seq<char>, Seq<char>);

    closed spec fn view(&self) -> (Seq<char>, Seq<char>) {
        (self.key@, self.value@)
    }
}

impl Put {
    /// A request to bind `key` to `value`.
    pub fn new(key: String, value: String) -> (p: Put)
        ensures
            p@ == (key@, value@),
    {
        Put { key, value }
    }
}

/// A request for the value bound to a key.
pub struct GetByKey(pub String);

impl KVService {
    /// A service whose store is empty.
    pub fn new() -> (s: KVService)
        ensures
            s@ == Map::<Seq<char>, Seq<char>>::empty(),
    {
        KVService { hashmap: StringMap::new() }
    }

    /// Answers a `Put`: binds its key to its value, replacing an earlier binding.
    pub fn call_put(&mut self, req: Put)
        ensures
            final(self)@ == old(self)@.insert(req@.0, req@.1),
    {
        let Put { key, value } = req;
        self.hashmap.insert(key, value);
    }

    /// Answers a `GetByKey`: the value bound to its key, or `None`.
    pub fn call_get(&self, req: GetByKey) -> (r: Option<String>)
        ensures
            match r {
                Some(v) => self@.contains_key(req.0@) && v@ == self@[req.0@],
                None => !self@.contains_key(req.0@),
            },
    {
        let GetByKey(key) = req;
        self.hashmap.get(&key)
    }
}

} // verus!
