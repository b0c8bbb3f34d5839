//! An association map from strings to strings, the storage behind every
//! key-value store of the crate.

use vstd::prelude::*;

verus! {

/// The map that a list of pairs denotes: a later pair overrides an earlier one
/// with the same key.
spec fn entries_map(entries: Seq<(String, String)>) -> Map<Seq<char>, Seq<char>>
    decreases entries.len(),
{
    if entries.len() == 0 {
        Map::empty()
    } else {
        let last = entries.last();
        entries_map(entries.drop_last()).insert(last.0@, last.1@)
    }
}

/// No key occurs twice in the list.
spec fn keys_distinct(entries: Seq<(String, String)>) -> bool {
    forall|i: int, j: int|
        #![trigger entries[i], entries[j]]
        0 <= i < entries.len() && 0 <= j < entries.len() && i != j ==> entries[i].0@ != entries[j].0@
}

proof fn lemma_drop_last_distinct(entries: Seq<(String, String)>)
    requires
        entries.len() > 0,
        keys_distinct(entries),
    ensures
        keys_distinct(entries.drop_last()),
{
    let d = entries.drop_last();
    assert forall|i: int, j: int|
        #![trigger d[i], d[j]]
        0 <= i < d.len() && 0 <= j < d.len() && i != j implies d[i].0@ != d[j].0@ by {
        assert(d[i] == entries[i]);
        assert(d[j] == entries[j]);
    }
}

/// A key that no pair holds is not in the map.
proof fn lemma_absent(entries: Seq<(String, String)>, key: Seq<char>)
    requires
        forall|i: int| 0 <= i < entries.len() ==> (#[trigger] entries[i]).0@ != key,
    ensures
        !entries_map(entries).contains_key(key),
    decreases entries.len(),
{
    if entries.len() > 0 {
        let d = entries.drop_last();
        assert forall|i: int| 0 <= i < d.len() implies (#[trigger] d[i]).0@ != key by {
            assert(d[i] == entries[i]);
        }
        lemma_absent(d, key);
        assert(entries[entries.len() - 1].0@ != key);
    }
}

/// With distinct keys, the map sends each pair's key to that pair's value.
proof fn lemma_present(entries: Seq<(String, String)>, i: int)
    requires
        keys_distinct(entries),
        0 <= i < entries.len(),
    ensures
        entries_map(entries).contains_key(entries[i].0@),
        entries_map(entries)[entries[i].0@] == entries[i].1@,
    decreases entries.len(),
{
    let n = entries.len() - 1;
    if i < n {
        let d = entries.drop_last();
        assert(d[i] == entries[i]);
        lemma_drop_last_distinct(entries);
        lemma_present(d, i);
        assert(entries[n].0@ != entries[i].0@);
    }
}

/// Appending a pair inserts it into the map.
proof fn lemma_push(entries: Seq<(String, String)>, e: (String, String))
    ensures
        entries_map(entries.push(e)) == entries_map(entries).insert(e.0@, e.1@),
{
    assert(entries.push(e).drop_last() =~= entries);
}

/// Appending a pair with a new key keeps the keys distinct.
proof fn lemma_push_distinct(entries: Seq<(String, String)>, e: (String, String))
    requires
        keys_distinct(entries),
        forall|i: int| 0 <= i < entries.len() ==> (#[trigger] entries[i]).0@ != e.0@,
    ensures
        keys_distinct(entries.push(e)),
{
    let p = entries.push(e);
    assert forall|i: int, j: int|
        #![trigger p[i], p[j]]
        0 <= i < p.len() && 0 <= j < p.len() && i != j implies p[i].0@ != p[j].0@ by {
        if i < entries.len() {
            assert(p[i] == entries[i]);
        }
        if j < entries.len() {
            assert(p[j] == entries[j]);
        }
    }
}

/// Replacing the pair that holds a key rebinds that key in the map, and the
/// keys stay distinct.
proof fn lemma_update(entries: Seq<(String, String)>, i: int, e: (String, String))
    requires
        keys_distinct(entries),
        0 <= i < entries.len(),
        e.0@ == entries[i].0@,
    ensures
        entries_map(entries.update(i, e)) == entries_map(entries).insert(e.0@, e.1@),
        keys_distinct(entries.update(i, e)),
    decreases entries.len(),
{
    let u = entries.update(i, e);
    let n = entries.len() - 1;
    assert forall|a: int, b: int|
        #![trigger u[a], u[b]]
        0 <= a < u.len() && 0 <= b < u.len() && a != b implies u[a].0@ != u[b].0@ by {
        assert(entries[a].0@ != entries[b].0@);
    }
    if i == n {
        assert(u.drop_last() =~= entries.drop_last());
        assert(entries_map(u) =~= entries_map(entries).insert(e.0@, e.1@));
    } else {
        let d = entries.drop_last();
        assert(u.drop_last() =~= d.update(i, e));
        lemma_drop_last_distinct(entries);
        assert(d[i] == entries[i]);
        lemma_update(d, i, e);
        assert(entries[n].0@ != entries[i].0@);
        assert(u.last() == entries.last());
        assert(entries_map(u) =~= entries_map(entries).insert(e.0@, e.1@));
    }
}

/// A finite map from strings to strings.
pub struct StringMap {
    entries: Vec<(String, String)>,
}

impl View for StringMap {
    type V = Map<Seq<char>, Seq<char>>;

    closed spec fn view(&self) -> Map<Seq<char>, Seq<char>> {
        entries_map(self.entries@)
    }
}

impl StringMap {
    #[verifier::type_invariant]
    spec fn inv(self) -> bool {
        keys_distinct(self.entries@)
    }

    /// An empty map.
    pub fn new() -> (m: StringMap)
        ensures
            m@ == Map::<Seq<char>, Seq<char>>::empty(),
    {
        StringMap { entries: Vec::new() }
    }

    /// The position of the pair that holds `key`, if there is one.
    fn find(&self, key: &String) -> (r: Option<usize>)
        ensures
            match r {
                Some(i) => i < self.entries@.len() && self.entries@[i as int].0@ == key@,
                None => forall|j: int|
                    0 <= j < self.entries@.len() ==> (#[trigger] self.entries@[j]).0@ != key@,
            },
    {
        let n = self.entries.len();
        let mut i: usize = 0;
        while i < n
            invariant
                n == self.entries@.len(),
                i <= n,
                forall|j: int| 0 <= j < i ==> (#[trigger] self.entries@[j]).0@ != key@,
            decreases n - i,
        {
            if self.entries[i].0 == *key {
                return Some(i);
            }
            i = i + 1;
        }
        None
    }

    /// A copy of the value bound to `key`, or `None` where `key` is unbound.
    pub fn get(&self, key: &String) -> (r: Option<String>)
        ensures
            match r {
                Some(v) => self@.contains_key(key@) && self@[key@] == v@,
                None => !self@.contains_key(key@),
            },
    {
        proof {
            use_type_invariant(self);
        }
        match self.find(key) {
            Some(i) => {
                proof {
                    lemma_present(self.entries@, i as int);
                }
                Some(self.entries[i].1.clone())
            },
            None => {
                proof {
                    lemma_absent(self.entries@, key@);
                }
                None
            },
        }
    }

    /// Binds `key` to `value`, replacing what `key` was bound to.
    pub fn insert(&mut self, key: String, value: String)
        ensures
            final(self)@ == old(self)@.insert(key@, value@),
    {
        proof {
            use_type_invariant(&*self);
        }
        let ghost before = self.entries@;
        let found = self.find(&key);
        let mut entries: Vec<(String, String)> = Vec::new();
        std::mem::swap(&mut entries, &mut self.entries);
        assert(entries@ == before);
        match found {
            Some(i) => {
                proof {
                    lemma_update(before, i as int, (key, value));
                }
                entries.set(i, (key, value));
            },
            None => {
                proof {
                    lemma_push(before, (key, value));
                    lemma_push_distinct(before, (key, value));
                }
                entries.push((key, value));
            },
        }
        self.entries = entries;
    }
}

} // verus!
