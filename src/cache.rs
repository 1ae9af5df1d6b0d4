//! The node-local key/value cache.

use vstd::hash_map::StringHashMap;
use vstd::prelude::*;

verus! {

/// An in-memory map from keys to values, with no expiry.
pub struct Cache {
    entries: StringHashMap<String>,
}

impl View for Cache {
    type V = Map<Seq<char>, Seq<char>>;

    closed spec fn view(&self) -> Map<Seq<char>, Seq<char>> {
        self.entries@.map_values(|v: String| v@)
    }
}

impl Cache {
    pub fn new() -> (r: Cache)
        ensures
            r@ == Map::<Seq<char>, Seq<char>>::empty(),
    {
        let r = Cache { entries: StringHashMap::new() };
        assert(r@ =~= Map::<Seq<char>, Seq<char>>::empty());
        r
    }

    /// Looks `key` up; an absent key is a miss, never a failure.
    pub fn get(&self, key: &str) -> (r: Option<&String>)
        ensures
            match r {
                Some(v) => self@.contains_key(key@) && v@ == self@[key@],
                None => !self@.contains_key(key@),
            },
    {
        self.entries.get(key)
    }

    /// Stores `value` under `key`, replacing what was there.
    pub fn set(&mut self, key: String, value: String)
        ensures
            final(self)@ == old(self)@.insert(key@, value@),
    {
        let ghost k = key@;
        let ghost v = value@;
        self.entries.insert(key, value);
        assert(self@ =~= old(self)@.insert(k, v));
    }
}

} // verus!
