//! Storage backends: a key/value store of byte strings in which the stores
//! persist their contents, and its in-memory implementation.
use vstd::prelude::*;
use crate::error::DataError;
use crate::assoc::{
    assoc_map, has_key, keys_distinct, lemma_assoc_empty, lemma_assoc_lookup, lemma_assoc_push,
    lemma_assoc_update,
};

verus! {

/// A storage backend: byte strings kept under names.
pub trait Storage: Clone + Send + Sync {
    /// Keeps `values` under `key`, replacing what was kept there.
    fn save(&mut self, key: &str, values: &[u8]) -> Result<(), DataError>;

    /// What is kept under `key`, if anything.
    fn load(&mut self, key: &str) -> Option<Vec<u8>>;
}

/// The view of one stored entry.
pub open spec fn mem_entry_view(e: (String, Vec<u8>)) -> (Seq<char>, Seq<u8>) {
    (e.0@, e.1@)
}

/// The view of a list of stored entries.
pub open spec fn mem_entries_view(s: Seq<(String, Vec<u8>)>) -> Seq<(Seq<char>, Seq<u8>)> {
    s.map_values(|e: (String, Vec<u8>)| mem_entry_view(e))
}

/// In-memory storage backend.
pub struct LuoshuMemStorage {
    storage: Vec<(String, Vec<u8>)>,
}

impl LuoshuMemStorage {
    #[verifier::type_invariant]
    spec fn inv(&self) -> bool {
        keys_distinct(mem_entries_view(self.storage@))
    }

    /// Creates an empty storage.
    pub fn new() -> (r: Self)
        ensures
            r@ == Map::<Seq<char>, Seq<u8>>::empty(),
    {
        let r = LuoshuMemStorage { storage: Vec::new() };
        proof {
            lemma_assoc_empty(mem_entries_view(r.storage@));
        }
        r
    }

    /// Index of the entry kept under `key`, if any.
    fn find(&self, key: &String) -> (r: Option<usize>)
        ensures
            match r {
                Some(i) => i < self.storage@.len() && self.storage@[i as int].0@ == key@,
                None => !has_key(mem_entries_view(self.storage@), key@),
            },
    {
        let mut i: usize = 0;
        while i < self.storage.len()
            invariant
                i <= self.storage@.len(),
                forall|j: int| 0 <= j < i ==> self.storage@[j].0@ != key@,
            decreases self.storage@.len() - i,
        {
            if self.storage[i].0 == *key {
                return Some(i);
            }
            i = i + 1;
        }
        proof {
            let s = mem_entries_view(self.storage@);
            if has_key(s, key@) {
                let j = choose|j: int| 0 <= j < s.len() && s[j].0 == key@;
                assert(s[j] == mem_entry_view(self.storage@[j]));
            }
        }
        None
    }
}

impl View for LuoshuMemStorage {
    type V = Map<Seq<char>, Seq<u8>>;

    closed spec fn view(&self) -> Map<Seq<char>, Seq<u8>> {
        assoc_map(mem_entries_view(self.storage@))
    }
}

impl Default for LuoshuMemStorage {
    fn default() -> (r: Self)
        ensures
            r@ == Map::<Seq<char>, Seq<u8>>::empty(),
    {
        Self::new()
    }
}

impl Clone for LuoshuMemStorage {
    fn clone(&self) -> (r: Self)
        ensures
            r@ == self@,
    {
        proof {
            use_type_invariant(self);
        }
        let mut entries: Vec<(String, Vec<u8>)> = Vec::new();
        let mut i: usize = 0;
        while i < self.storage.len()
            invariant
                i <= self.storage@.len(),
                entries@.len() == i,
                forall|j: int| 0 <= j < i ==> #[trigger] mem_entry_view(entries@[j])
                    == mem_entry_view(self.storage@[j]),
            decreases self.storage@.len() - i,
        {
            let key = self.storage[i].0.clone();
            let bytes = vstd::slice::slice_to_vec(self.storage[i].1.as_slice());
            entries.push((key, bytes));
            assert(mem_entry_view(entries@[i as int]) == mem_entry_view(self.storage@[i as int]));
            i = i + 1;
        }
        assert(mem_entries_view(entries@) =~= mem_entries_view(self.storage@));
        LuoshuMemStorage { storage: entries }
    }
}

impl Storage for LuoshuMemStorage {
    fn save(&mut self, key: &str, values: &[u8]) -> (r: Result<(), DataError>)
        ensures
            r is Ok,
            final(self)@ == old(self)@.insert(key@, values@),
    {
        proof {
            use_type_invariant(&*self);
        }
        let key_s = key.to_owned();
        let bytes = vstd::slice::slice_to_vec(values);
        let ghost old_entries = mem_entries_view(self.storage@);
        match self.find(&key_s) {
            Some(i) => {
                let mut entries: Vec<(String, Vec<u8>)> = Vec::new();
                std::mem::swap(&mut entries, &mut self.storage);
                entries.set(i, (key_s, bytes));
                proof {
                    assert(old_entries[i as int].0 == key@);
                    lemma_assoc_update(old_entries, i as int, values@);
                    assert(mem_entries_view(entries@) =~= old_entries.update(
                        i as int,
                        (old_entries[i as int].0, values@),
                    ));
                }
                self.storage = entries;
            },
            None => {
                let mut entries: Vec<(String, Vec<u8>)> = Vec::new();
                std::mem::swap(&mut entries, &mut self.storage);
                entries.push((key_s, bytes));
                proof {
                    lemma_assoc_push(old_entries, key@, values@);
                    assert(mem_entries_view(entries@) =~= old_entries.push((key@, values@)));
                }
                self.storage = entries;
            },
        }
        Ok(())
    }

    fn load(&mut self, key: &str) -> (r: Option<Vec<u8>>)
        ensures
            final(self)@ == old(self)@,
            r matches Some(v) ==> old(self)@.contains_key(key@) && v@ == old(self)@[key@],
            r is None ==> !old(self)@.contains_key(key@),
    {
        proof {
            use_type_invariant(&*self);
        }
        let key_s = key.to_owned();
        match self.find(&key_s) {
            Some(i) => {
                let bytes = vstd::slice::slice_to_vec(self.storage[i].1.as_slice());
                proof {
                    let s = mem_entries_view(self.storage@);
                    lemma_assoc_lookup(s, i as int);
                    assert(s[i as int] == mem_entry_view(self.storage@[i as int]));
                }
                Some(bytes)
            },
            None => None,
        }
    }
}

} // verus!
