//! Addresses of encrypted blobs, and the key/bytes store that holds them.
use crate::assoc::{
    keys_unique, lemma_pairs_map_absent, lemma_pairs_map_index, lemma_pairs_map_push,
    lemma_pairs_map_remove, lemma_pairs_map_update, pairs_map,
};
use vstd::prelude::*;

verus! {

/// Tag of the objects that hold form configurations.
pub const FORM_TAG: &'static str = "FORM";

/// Where one encrypted blob lives: a partition tag and an id within it.
pub struct ObjectKey {
    pub tag: String,
    pub id: String,
}

impl View for ObjectKey {
    type V = (Seq<char>, Seq<char>);

    open spec fn view(&self) -> (Seq<char>, Seq<char>) {
        (self.tag@, self.id@)
    }
}

impl Clone for ObjectKey {
    fn clone(&self) -> (r: ObjectKey)
        ensures
            r@ == self@,
    {
        ObjectKey { tag: self.tag.clone(), id: self.id.clone() }
    }
}

impl ObjectKey {
    /// The address of a form configuration with the given id.
    pub fn new_with_form_tag(id: String) -> (r: ObjectKey)
        ensures
            r@ == (FORM_TAG@, id@),
    {
        ObjectKey { tag: FORM_TAG.to_owned(), id }
    }

    /// Whether two keys name the same address.
    pub fn same_as(&self, other: &ObjectKey) -> (r: bool)
        ensures
            r == (self@ == other@),
    {
        self.tag == other.tag && self.id == other.id
    }
}

/// What a store holds: bytes by address.
pub type StoreView = Map<(Seq<char>, Seq<char>), Seq<u8>>;

/// A key/bytes store held in memory.
pub struct MemoryStore {
    entries: Vec<(ObjectKey, Vec<u8>)>,
}

impl View for MemoryStore {
    type V = StoreView;

    closed spec fn view(&self) -> StoreView {
        pairs_map(self.entries@)
    }
}

impl MemoryStore {
    /// Each address holds at most one blob.
    pub closed spec fn wf(&self) -> bool {
        keys_unique(self.entries@)
    }

    /// An empty store.
    pub fn new() -> (r: MemoryStore)
        ensures
            r.wf(),
            r@ == StoreView::empty(),
    {
        MemoryStore { entries: Vec::new() }
    }

    fn find(&self, key: &ObjectKey) -> (r: Option<usize>)
        requires
            self.wf(),
        ensures
            match r {
                Some(i) => i < self.entries@.len() && self.entries@[i as int].0@ == key@,
                None => !self@.contains_key(key@),
            },
    {
        let mut i: usize = 0;
        while i < self.entries.len()
            invariant
                i <= self.entries@.len(),
                forall|j: int| 0 <= j < i ==> (#[trigger] self.entries@[j]).0@ != key@,
            decreases self.entries@.len() - i,
        {
            if self.entries[i].0.same_as(key) {
                return Some(i);
            }
            i = i + 1;
        }
        proof {
            lemma_pairs_map_absent(self.entries@, key@);
        }
        None
    }

    /// The bytes stored at `key`, if any.
    pub fn load(&self, key: &ObjectKey) -> (r: Option<Vec<u8>>)
        requires
            self.wf(),
        ensures
            match r {
                Some(b) => self@.contains_key(key@) && self@[key@] == b@,
                None => !self@.contains_key(key@),
            },
    {
        match self.find(key) {
            Some(i) => {
                proof {
                    lemma_pairs_map_index(self.entries@, i as int);
                }
                Some(self.entries[i].1.clone())
            },
            None => None,
        }
    }

    /// Whether anything is stored at `key`.
    pub fn contains(&self, key: &ObjectKey) -> (r: bool)
        requires
            self.wf(),
        ensures
            r == self@.contains_key(key@),
    {
        match self.find(key) {
            Some(i) => {
                proof {
                    lemma_pairs_map_index(self.entries@, i as int);
                }
                true
            },
            None => false,
        }
    }

    /// Stores `value` at `key`, replacing what was there.
    pub fn save(&mut self, key: ObjectKey, value: Vec<u8>)
        requires
            old(self).wf(),
        ensures
            final(self).wf(),
            final(self)@ == old(self)@.insert(key@, value@),
    {
        match self.find(&key) {
            Some(i) => {
                proof {
                    lemma_pairs_map_update(self.entries@, i as int, (key, value));
                }
                self.entries.set(i, (key, value));
            },
            None => {
                proof {
                    lemma_pairs_map_push(self.entries@, (key, value));
                }
                self.entries.push((key, value));
            },
        }
    }

    /// Removes what is stored at `key`; nothing happens when the address is empty.
    pub fn delete(&mut self, key: &ObjectKey)
        requires
            old(self).wf(),
        ensures
            final(self).wf(),
            final(self)@ == old(self)@.remove(key@),
    {
        match self.find(key) {
            Some(i) => {
                proof {
                    lemma_pairs_map_remove(self.entries@, i as int);
                }
                self.entries.remove(i);
            },
            None => {
                assert(old(self)@.remove(key@) =~= old(self)@);
            },
        }
    }

    /// The addresses and blobs, in no particular order.
    pub fn entries(&self) -> (r: &Vec<(ObjectKey, Vec<u8>)>)
        requires
            self.wf(),
        ensures
            keys_unique(r@),
            pairs_map(r@) == self@,
    {
        &self.entries
    }
}

} // verus!
