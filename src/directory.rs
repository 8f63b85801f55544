//! The configuration directory: for each item id, the fields of its entry.
use crate::assoc::{
    keys_unique, lemma_pairs_map_absent, lemma_pairs_map_index, lemma_pairs_map_push,
    lemma_pairs_map_remove, lemma_pairs_map_update, pairs_map,
};
use crate::string_map::StringMap;
use std::collections::BTreeMap;
use vstd::prelude::*;

verus! {

/// Field of an entry that holds the display name.
pub const NAME_FIELD: &'static str = "NAME";

/// Field of an entry that holds the item passphrase.
pub const PASSPHRASE_FIELD: &'static str = "PASSWD";

/// What a directory holds: the fields of each entry, by item id.
pub type DirectoryView = Map<Seq<char>, Map<Seq<char>, Seq<char>>>;

/// The JSON object text that `serde_json` writes for a directory.
pub uninterp spec fn directory_json(d: DirectoryView) -> Seq<u8>;

/// The directory that `serde_json` reads from bytes, if they hold a JSON object of
/// string maps.
pub uninterp spec fn parse_directory_json(b: Seq<u8>) -> Option<DirectoryView>;

/// Entries by item id; each entry maps field names to values.
pub struct Directory {
    pub(crate) entries: Vec<(String, StringMap)>,
}

impl View for Directory {
    type V = DirectoryView;

    closed spec fn view(&self) -> DirectoryView {
        pairs_map(self.entries@)
    }
}

impl Directory {
    /// Item ids are unique and every entry is a well-formed map.
    pub closed spec fn wf(&self) -> bool {
        &&& keys_unique(self.entries@)
        &&& forall|i: int| 0 <= i < self.entries@.len() ==> (#[trigger] self.entries@[i]).1.wf()
    }

    /// The empty directory.
    pub fn new() -> (r: Directory)
        ensures
            r.wf(),
            r@ == DirectoryView::empty(),
    {
        Directory { entries: Vec::new() }
    }

    fn find(&self, id: &str) -> (r: Option<usize>)
        requires
            self.wf(),
        ensures
            match r {
                Some(i) => i < self.entries@.len() && self.entries@[i as int].0@ == id@,
                None => !self@.contains_key(id@),
            },
    {
        let k = id.to_owned();
        let mut i: usize = 0;
        while i < self.entries.len()
            invariant
                i <= self.entries@.len(),
                k@ == id@,
                forall|j: int| 0 <= j < i ==> (#[trigger] self.entries@[j]).0@ != id@,
            decreases self.entries@.len() - i,
        {
            if self.entries[i].0 == k {
                return Some(i);
            }
            i = i + 1;
        }
        proof {
            lemma_pairs_map_absent(self.entries@, id@);
        }
        None
    }

    /// The entry of `id`, if present.
    pub fn get(&self, id: &str) -> (r: Option<&StringMap>)
        requires
            self.wf(),
        ensures
            match r {
                Some(e) => e.wf() && self@.contains_key(id@) && self@[id@] == e@,
                None => !self@.contains_key(id@),
            },
    {
        match self.find(id) {
            Some(i) => {
                proof {
                    lemma_pairs_map_index(self.entries@, i as int);
                }
                Some(&self.entries[i].1)
            },
            None => None,
        }
    }

    /// Sets the entry of `id`, replacing an earlier one.
    pub fn insert(&mut self, id: String, entry: StringMap)
        requires
            old(self).wf(),
            entry.wf(),
        ensures
            final(self).wf(),
            final(self)@ == old(self)@.insert(id@, entry@),
    {
        match self.find(id.as_str()) {
            Some(i) => {
                proof {
                    lemma_pairs_map_update(self.entries@, i as int, (id, entry));
                }
                self.entries.set(i, (id, entry));
            },
            None => {
                proof {
                    lemma_pairs_map_push(self.entries@, (id, entry));
                }
                self.entries.push((id, entry));
            },
        }
        assert forall|i: int| 0 <= i < self.entries@.len() implies (#[trigger] self.entries@[i]).1.wf() by {
            if i < old(self).entries@.len() && self.entries@[i] != (id, entry) {
                assert(self.entries@[i] == old(self).entries@[i]);
            }
        }
    }

    /// Removes the entry of `id`, handing it back if there was one.
    pub fn remove(&mut self, id: &str) -> (r: Option<StringMap>)
        requires
            old(self).wf(),
        ensures
            final(self).wf(),
            final(self)@ == old(self)@.remove(id@),
            match r {
                Some(e) => e.wf() && old(self)@.contains_key(id@) && old(self)@[id@] == e@,
                None => !old(self)@.contains_key(id@),
            },
    {
        match self.find(id) {
            Some(i) => {
                proof {
                    lemma_pairs_map_index(self.entries@, i as int);
                    lemma_pairs_map_remove(self.entries@, i as int);
                }
                let (_, e) = self.entries.remove(i);
                assert forall|j: int| 0 <= j < self.entries@.len() implies (#[trigger] self.entries@[j]).1.wf() by {
                    let j1 = if j < i { j } else { j + 1 };
                    assert(self.entries@[j] == old(self).entries@[j1]);
                }
                Some(e)
            },
            None => {
                assert(old(self)@.remove(id@) =~= old(self)@);
                None
            },
        }
    }

    /// The item ids and their entries, in no particular order.
    pub fn entries(&self) -> (r: &Vec<(String, StringMap)>)
        requires
            self.wf(),
        ensures
            keys_unique(r@),
            pairs_map(r@) == self@,
            forall|i: int| 0 <= i < r@.len() ==> (#[trigger] r@[i]).1.wf(),
    {
        &self.entries
    }
}

/// Relies on `serde_json::to_vec` over a `BTreeMap<String, BTreeMap<String, String>>`:
/// it writes a JSON object that `serde_json::from_slice` reads back as the same
/// directory. Writing maps whose keys and values are strings does not fail.
#[verifier::external_body]
pub(crate) fn directory_to_json(d: &Directory) -> (r: Vec<u8>)
    requires
        d.wf(),
    ensures
        r@ == directory_json(d@),
        parse_directory_json(r@) == Some(d@),
{
    let map: BTreeMap<&String, BTreeMap<&String, &String>> = d
        .entries
        .iter()
        .map(|(id, e)| (id, e.entries.iter().map(|(k, v)| (k, v)).collect()))
        .collect();
    serde_json::to_vec(&map).unwrap_or_default()
}

/// Relies on `serde_json::from_slice` into a `BTreeMap<String, BTreeMap<String, String>>`:
/// the directory that the bytes hold, or an error when they hold none.
#[verifier::external_body]
pub(crate) fn directory_from_json(b: &[u8]) -> (r: Option<Directory>)
    ensures
        match r {
            Some(d) => d.wf() && parse_directory_json(b@) == Some(d@),
            None => parse_directory_json(b@) is None,
        },
{
    match serde_json::from_slice::<BTreeMap<String, BTreeMap<String, String>>>(b) {
        Ok(map) => Some(Directory {
            entries: map
                .into_iter()
                .map(|(id, e)| (id, StringMap { entries: e.into_iter().collect() }))
                .collect(),
        }),
        Err(_) => None,
    }
}

} // verus!
