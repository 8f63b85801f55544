//! A finite map from strings to strings, and its JSON text.
use crate::assoc::{
    keys_unique, lemma_pairs_map_absent, lemma_pairs_map_index,
    lemma_pairs_map_len, lemma_pairs_map_push, lemma_pairs_map_remove, lemma_pairs_map_update,
    pairs_map,
};
use std::collections::BTreeMap;
use vstd::prelude::*;

verus! {

/// Key/value form data: each key at most once, order of no meaning.
pub struct StringMap {
    pub(crate) entries: Vec<(String, String)>,
}

impl View for StringMap {
    type V = Map<Seq<char>, Seq<char>>;

    closed spec fn view(&self) -> Map<Seq<char>, Seq<char>> {
        pairs_map(self.entries@)
    }
}

/// The JSON object text that `serde_json` writes for a map of strings.
pub uninterp spec fn string_map_json(m: Map<Seq<char>, Seq<char>>) -> Seq<u8>;

/// The map of strings that `serde_json` reads from bytes, if they hold one.
pub uninterp spec fn parse_string_map_json(b: Seq<u8>) -> Option<Map<Seq<char>, Seq<char>>>;

impl StringMap {
    /// Every key occurs once.
    pub closed spec fn wf(&self) -> bool {
        keys_unique(self.entries@)
    }

    /// The empty map.
    pub fn new() -> (r: StringMap)
        ensures
            r.wf(),
            r@ == Map::<Seq<char>, Seq<char>>::empty(),
    {
        StringMap { entries: Vec::new() }
    }

    /// Position of `key` among the entries, if present.
    fn find(&self, key: &str) -> (r: Option<usize>)
        requires
            self.wf(),
        ensures
            match r {
                Some(i) => i < self.entries@.len() && self.entries@[i as int].0@ == key@,
                None => !self@.contains_key(key@),
            },
    {
        let k = key.to_owned();
        let mut i: usize = 0;
        while i < self.entries.len()
            invariant
                i <= self.entries@.len(),
                k@ == key@,
                forall|j: int| 0 <= j < i ==> (#[trigger] self.entries@[j]).0@ != key@,
            decreases self.entries@.len() - i,
        {
            if self.entries[i].0 == k {
                return Some(i);
            }
            i = i + 1;
        }
        proof {
            lemma_pairs_map_absent(self.entries@, key@);
        }
        None
    }

    /// Number of keys.
    pub fn len(&self) -> (r: usize)
        requires
            self.wf(),
        ensures
            r == self@.len(),
    {
        proof {
            lemma_pairs_map_len(self.entries@);
        }
        self.entries.len()
    }

    /// Whether `key` is present.
    pub fn contains_key(&self, key: &str) -> (r: bool)
        requires
            self.wf(),
        ensures
            r == self@.contains_key(key@),
    {
        match self.find(key) {
            Some(i) => {
                proof {
                    lemma_pairs_map_index(self.entries@, i as int);
                }
                true
            },
            None => false,
        }
    }

    /// The value stored under `key`.
    pub fn get(&self, key: &str) -> (r: Option<&String>)
        requires
            self.wf(),
        ensures
            match r {
                Some(v) => self@.contains_key(key@) && self@[key@] == v@,
                None => !self@.contains_key(key@),
            },
    {
        match self.find(key) {
            Some(i) => {
                proof {
                    lemma_pairs_map_index(self.entries@, i as int);
                }
                Some(&self.entries[i].1)
            },
            None => None,
        }
    }

    /// Stores `value` under `key`, replacing an earlier value.
    pub fn insert(&mut self, key: String, value: String)
        requires
            old(self).wf(),
        ensures
            final(self).wf(),
            final(self)@ == old(self)@.insert(key@, value@),
    {
        match self.find(key.as_str()) {
            Some(i) => {
                proof {
                    lemma_pairs_map_update(self.entries@, i as int, (key, value));
                }
                self.entries.set(i, (key, value));
            },
            None => {
                proof {
                    lemma_pairs_map_push(self.entries@, (key, value));
                }
                self.entries.push((key, value));
            },
        }
    }

    /// Removes `key`, handing back its value if it was present.
    pub fn remove(&mut self, key: &str) -> (r: Option<String>)
        requires
            old(self).wf(),
        ensures
            final(self).wf(),
            final(self)@ == old(self)@.remove(key@),
            match r {
                Some(v) => old(self)@.contains_key(key@) && old(self)@[key@] == v@,
                None => !old(self)@.contains_key(key@),
            },
    {
        match self.find(key) {
            Some(i) => {
                proof {
                    lemma_pairs_map_index(self.entries@, i as int);
                    lemma_pairs_map_remove(self.entries@, i as int);
                }
                let (_, v) = self.entries.remove(i);
                Some(v)
            },
            None => {
                assert(old(self)@.remove(key@) =~= old(self)@);
                None
            },
        }
    }

    /// The key/value pairs, in no particular order.
    pub fn entries(&self) -> (r: &Vec<(String, String)>)
        requires
            self.wf(),
        ensures
            keys_unique(r@),
            pairs_map(r@) == self@,
    {
        &self.entries
    }
}

/// Relies on `serde_json::to_vec` over a `BTreeMap<String, String>`: it writes a JSON
/// object that `serde_json::from_slice` reads back as the same map. Writing a map whose
/// keys and values are strings does not fail.
#[verifier::external_body]
pub(crate) fn string_map_to_json(m: &StringMap) -> (r: Vec<u8>)
    requires
        m.wf(),
    ensures
        r@ == string_map_json(m@),
        parse_string_map_json(r@) == Some(m@),
{
    let map: BTreeMap<&String, &String> = m.entries.iter().map(|(k, v)| (k, v)).collect();
    serde_json::to_vec(&map).unwrap_or_default()
}

/// Relies on `serde_json::from_slice` into a `BTreeMap<String, String>`: the map that
/// the bytes hold, or an error when they are no JSON object of strings.
#[verifier::external_body]
pub(crate) fn string_map_from_json(b: &[u8]) -> (r: Option<StringMap>)
    ensures
        match r {
            Some(m) => m.wf() && parse_string_map_json(b@) == Some(m@),
            None => parse_string_map_json(b@) is None,
        },
{
    match serde_json::from_slice::<BTreeMap<String, String>>(b) {
        Ok(map) => Some(StringMap { entries: map.into_iter().collect() }),
        Err(_) => None,
    }
}

} // verus!
