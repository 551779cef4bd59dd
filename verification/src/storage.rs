//! The byte-oriented key-value store capability, and the in-memory store
//! that implements it.

use vstd::prelude::*;
use crate::kv::{assoc_map, keys_unique, lemma_assoc_map_contains, lemma_assoc_map_index,
    lemma_assoc_map_remove_at, str_eq, clone_bytes};

verus! {

/// An abstract contract for byte-oriented storage keyed by strings.
///
/// `contents` is the mapping a store currently holds, and `wf` its internal
/// well-formedness: constructors establish `wf` and every operation keeps it.
/// Operations report errors through the implementor's own error type; a
/// failed operation leaves the contents as they were.
pub trait Storage {
    type Error;

    /// The mapping from keys to byte values that the store currently holds.
    spec fn contents(&self) -> Map<Seq<char>, Seq<u8>>;

    /// Internal well-formedness of the store.
    spec fn wf(&self) -> bool;

    /// True exactly when the store holds a value for `key`.
    fn contains(&self, key: &str) -> (r: Result<bool, Self::Error>)
        requires
            self.wf(),
        ensures
            r matches Ok(b) ==> b == self.contents().contains_key(key@),
    ;

    /// Deletes the entry for `key` if one exists and reports whether one did;
    /// removing an absent key is no error.
    fn remove(&mut self, key: &str) -> (r: Result<bool, Self::Error>)
        requires
            old(self).wf(),
        ensures
            final(self).wf(),
            r matches Ok(b) ==> {
                &&& b == old(self).contents().contains_key(key@)
                &&& final(self).contents() == old(self).contents().remove(key@)
            },
            r is Err ==> final(self).contents() == old(self).contents(),
    ;

    /// The stored bytes for `key`, or absent. Reading never changes the
    /// contents, though it may change a store's internal state.
    fn get_raw(&mut self, key: &str) -> (r: Result<Option<Vec<u8>>, Self::Error>)
        requires
            old(self).wf(),
        ensures
            final(self).wf(),
            final(self).contents() == old(self).contents(),
            r matches Ok(o) ==> match o {
                Some(v) => old(self).contents().contains_key(key@) && v@ == old(
                    self,
                ).contents()[key@],
                None => !old(self).contents().contains_key(key@),
            },
    ;

    /// Inserts or overwrites the value for `key`, reporting whether a
    /// previous value existed.
    fn put_raw(&mut self, key: &str, value: Vec<u8>) -> (r: Result<bool, Self::Error>)
        requires
            old(self).wf(),
        ensures
            final(self).wf(),
            r matches Ok(b) ==> {
                &&& b == old(self).contents().contains_key(key@)
                &&& final(self).contents() == old(self).contents().insert(key@, value@)
            },
            r is Err ==> final(self).contents() == old(self).contents(),
    ;

    /// The byte length of the stored value, or absent; derived from
    /// `get_raw`.
    fn len(&mut self, key: &str) -> (r: Result<Option<usize>, Self::Error>)
        requires
            old(self).wf(),
        ensures
            final(self).wf(),
            final(self).contents() == old(self).contents(),
            r matches Ok(o) ==> match o {
                Some(n) => old(self).contents().contains_key(key@) && n == old(
                    self,
                ).contents()[key@].len(),
                None => !old(self).contents().contains_key(key@),
            },
    {
        match self.get_raw(key) {
            Ok(Some(v)) => Ok(Some(v.len())),
            Ok(None) => Ok(None),
            Err(e) => Err(e),
        }
    }
}

/// A store kept entirely in memory: an association list of distinct keys.
/// All of its operations are total and never fail.
pub struct MemoryStorage {
    entries: Vec<(String, Vec<u8>)>,
}

impl MemoryStorage {
    /// The entries as their mathematical views.
    pub closed spec fn entry_seq(&self) -> Seq<(Seq<char>, Seq<u8>)> {
        self.entries@.map_values(|p: (String, Vec<u8>)| (p.0@, p.1@))
    }

    pub fn new() -> (r: MemoryStorage)
        ensures
            r.wf(),
            r.contents() == Map::<Seq<char>, Seq<u8>>::empty(),
    {
        let r = MemoryStorage { entries: Vec::new() };
        proof {
            assert(r.entry_seq() =~= Seq::<(Seq<char>, Seq<u8>)>::empty());
        }
        r
    }

    /// The index of the entry holding `key`, if any.
    fn find(&self, key: &str) -> (r: Option<usize>)
        ensures
            match r {
                Some(i) => i < self.entry_seq().len() && self.entry_seq()[i as int].0 == key@,
                None => forall|j: int| 0 <= j < self.entry_seq().len() ==> self.entry_seq()[j].0
                    != key@,
            },
    {
        let n = self.entries.len();
        let mut i: usize = 0;
        while i < n
            invariant
                n == self.entries@.len(),
                i <= n,
                forall|j: int| 0 <= j < i ==> self.entry_seq()[j].0 != key@,
            decreases n - i,
        {
            if str_eq(self.entries[i].0.as_str(), key) {
                return Some(i);
            }
            i += 1;
        }
        None
    }
}

impl Storage for MemoryStorage {
    type Error = core::convert::Infallible;

    closed spec fn contents(&self) -> Map<Seq<char>, Seq<u8>> {
        assoc_map(self.entry_seq())
    }

    closed spec fn wf(&self) -> bool {
        keys_unique(self.entry_seq())
    }

    fn contains(&self, key: &str) -> (r: Result<bool, core::convert::Infallible>)
        ensures
            r is Ok,
    {
        proof {
            lemma_assoc_map_contains(self.entry_seq(), key@);
        }
        match self.find(key) {
            Some(_) => Ok(true),
            None => Ok(false),
        }
    }

    fn remove(&mut self, key: &str) -> (r: Result<bool, core::convert::Infallible>)
        ensures
            r is Ok,
    {
        proof {
            lemma_assoc_map_contains(self.entry_seq(), key@);
        }
        match self.find(key) {
            Some(i) => {
                proof {
                    lemma_assoc_map_remove_at(self.entry_seq(), i as int);
                }
                let ghost s0 = self.entry_seq();
                self.entries.remove(i);
                proof {
                    assert(self.entry_seq() =~= s0.remove(i as int));
                }
                Ok(true)
            },
            None => {
                proof {
                    assert(self.contents().remove(key@) =~= self.contents());
                }
                Ok(false)
            },
        }
    }

    fn get_raw(&mut self, key: &str) -> (r: Result<Option<Vec<u8>>, core::convert::Infallible>)
        ensures
            r is Ok,
            *final(self) == *old(self),
    {
        proof {
            lemma_assoc_map_contains(self.entry_seq(), key@);
        }
        match self.find(key) {
            Some(i) => {
                proof {
                    lemma_assoc_map_index(self.entry_seq(), i as int);
                }
                Ok(Some(clone_bytes(&self.entries[i].1)))
            },
            None => Ok(None),
        }
    }

    fn put_raw(&mut self, key: &str, value: Vec<u8>) -> (r: Result<bool, core::convert::Infallible>)
        ensures
            r is Ok,
    {
        proof {
            lemma_assoc_map_contains(self.entry_seq(), key@);
        }
        let ghost s0 = self.entry_seq();
        match self.find(key) {
            Some(i) => {
                proof {
                    lemma_assoc_map_remove_at(s0, i as int);
                }
                self.entries.remove(i);
                let ghost s1 = self.entry_seq();
                proof {
                    assert(s1 =~= s0.remove(i as int));
                    assert forall|j: int| 0 <= j < s1.len() implies s1[j].0 != key@ by {
                        if j < i {
                            assert(s1[j] == s0[j]);
                        } else {
                            assert(s1[j] == s0[j + 1]);
                        }
                    }
                }
                self.entries.push((key.to_owned(), value));
                proof {
                    assert(self.entry_seq() =~= s1.push((key@, value@)));
                    assert(self.entry_seq().drop_last() =~= s1);
                    assert(keys_unique(self.entry_seq()));
                    assert(assoc_map(self.entry_seq()) =~= assoc_map(s0).insert(key@, value@));
                }
                Ok(true)
            },
            None => {
                self.entries.push((key.to_owned(), value));
                proof {
                    assert(self.entry_seq() =~= s0.push((key@, value@)));
                    assert(self.entry_seq().drop_last() =~= s0);
                    assert(keys_unique(self.entry_seq()));
                    assert(assoc_map(self.entry_seq()) =~= assoc_map(s0).insert(key@, value@));
                }
                Ok(false)
            },
        }
    }
}

} // verus!
