//! A key-value store of strings.

use vstd::prelude::*;
use crate::store::StringMap;

verus! {

/// A store that binds string keys to string values.
pub struct KVStore {
    hashmap: StringMap,
}

impl View for KVStore {
    type V = Map<Seq<char>, Seq<char>>;

    closed spec fn view(&self) -> Map<Seq<char>, Seq<char>> {
        self.hashmap@
    }
}

impl KVStore {
    /// An empty store.
    pub fn new() -> (s: KVStore)
        ensures
            s@ == Map::<Seq<char>, Seq<char>>::empty(),
    {
        KVStore { hashmap: StringMap::new() }
    }

    /// Binds `key` to `value`; what `key` was bound to before is replaced.
    pub fn put(&mut self, key: String, value: String)
        ensures
            final(self)@ == old(self)@.insert(key@, value@),
    {
        self.hashmap.insert(key, value);
    }

    /// The value bound to `key`, or `None` where nothing is.
    pub fn get(&self, key: String) -> (r: Option<String>)
        ensures
            match r {
                Some(v) => self@.contains_key(key@) && v@ == self@[key@],
                None => !self@.contains_key(key@),
            },
    {
        self.hashmap.get(&key)
    }
}

/// A get after a put of `key` gives the value put; a get of any other key
/// gives what it gave before the put.
pub proof fn lemma_get_after_put(
    store: Map<Seq<char>, Seq<char>>,
    key: Seq<char>,
    value: Seq<char>,
    other: Seq<char>,
)
    ensures
        store.insert(key, value).contains_key(key),
        store.insert(key, value)[key] == value,
        other != key ==> (store.insert(key, value).contains_key(other) <==> store.contains_key(other)),
        other != key && store.contains_key(other) ==> store.insert(key, value)[other] == store[other],
{
}

/// The store after the puts `puts`, in order, each a key and a value.
pub open spec fn apply_puts(
    store: Map<Seq<char>, Seq<char>>,
    puts: Seq<(Seq<char>, Seq<char>)>,
) -> Map<Seq<char>, Seq<char>>
    decreases puts.len(),
{
    if puts.len() == 0 {
        store
    } else {
        apply_puts(store, puts.drop_last()).insert(puts.last().0, puts.last().1)
    }
}

/// A put of `key` followed only by puts of other keys: a get of `key` still
/// gives the value put.
pub proof fn lemma_get_after_put_and_other_puts(
    store: Map<Seq<char>, Seq<char>>,
    key: Seq<char>,
    value: Seq<char>,
    later: Seq<(Seq<char>, Seq<char>)>,
)
    requires
        forall|i: int| 0 <= i < later.len() ==> (#[trigger] later[i]).0 != key,
    ensures
        apply_puts(store.insert(key, value), later).contains_key(key),
        apply_puts(store.insert(key, value), later)[key] == value,
    decreases later.len(),
{
    if later.len() > 0 {
        let prefix = later.drop_last();
        assert forall|i: int| 0 <= i < prefix.len() implies (#[trigger] prefix[i]).0 != key by {
            assert(prefix[i] == later[i]);
        }
        lemma_get_after_put_and_other_puts(store, key, value, prefix);
        assert(later[later.len() - 1].0 != key);
    }
}

} // verus!
