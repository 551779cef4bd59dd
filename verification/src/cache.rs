//! A write-through, lazily populated in-memory cache in front of an
//! arbitrary backing store.
//!
//! The decorator owns the backing store and a private cache buffer. A cache
//! entry is a transient copy of a backing value or a marker that the key is
//! confirmed absent; `cache_entry` exposes that three-state view. On a
//! failing backing call the decorator leaves its cache untouched, and writes
//! reach the backing store before the cache, so the two never disagree.

use vstd::prelude::*;
use crate::kv::{assoc_map, keys_unique, lemma_assoc_map_contains, lemma_assoc_map_index,
    lemma_assoc_map_remove_at, str_eq, clone_bytes};
use crate::storage::Storage;

verus! {

/// The view of an optional byte vector.
pub open spec fn opt_view(o: Option<Vec<u8>>) -> Option<Seq<u8>> {
    match o {
        Some(v) => Some(v@),
        None => None,
    }
}

/// A caching decorator over a backing store `T`: reads populate the cache,
/// writes go through it, and `flush` empties it wholesale.
pub struct StorageCache<T: Storage> {
    backing: T,
    cache: Vec<(String, Option<Vec<u8>>)>,
}

impl<T: Storage> StorageCache<T> {
    /// The cache buffer's entries as their mathematical views.
    pub closed spec fn cache_seq(&self) -> Seq<(Seq<char>, Option<Seq<u8>>)> {
        self.cache@.map_values(|p: (String, Option<Vec<u8>>)| (p.0@, opt_view(p.1)))
    }

    /// The map the cache buffer denotes.
    pub closed spec fn cache_map(&self) -> Map<Seq<char>, Option<Seq<u8>>> {
        assoc_map(self.cache_seq())
    }

    /// The three-state view of a key in the cache: `None` means not cached,
    /// `Some(None)` confirmed absent, `Some(Some(v))` a cached copy `v`.
    pub open spec fn cache_entry(&self, k: Seq<char>) -> Option<Option<Seq<u8>>> {
        if self.cache_map().contains_key(k) {
            Some(self.cache_map()[k])
        } else {
            None
        }
    }

    /// The wrapped backing store.
    pub closed spec fn backing_spec(&self) -> T {
        self.backing
    }

    /// Every cache entry agrees with the backing store: a cached copy is the
    /// backing value, and a confirmed-absent marker has no backing value.
    pub closed spec fn cache_ok(&self) -> bool {
        forall|k: Seq<char>| #[trigger]
            self.cache_map().contains_key(k) ==> match self.cache_map()[k] {
                Some(v) => self.backing.contents().contains_key(k) && self.backing.contents()[k]
                    == v,
                None => !self.backing.contents().contains_key(k),
            }
    }

    pub fn new(storage: T) -> (r: StorageCache<T>)
        requires
            storage.wf(),
        ensures
            r.wf(),
            r.contents() == storage.contents(),
            forall|k: Seq<char>| r.cache_entry(k) is None,
    {
        let r = StorageCache { backing: storage, cache: Vec::new() };
        proof {
            assert(r.cache_seq() =~= Seq::<(Seq<char>, Option<Seq<u8>>)>::empty());
        }
        r
    }

    /// Discards the whole cache; the backing store, and so the observable
    /// contents, are untouched. A manual invalidation hatch for callers who
    /// know the backing store changed out of band.
    pub fn flush(&mut self)
        requires
            old(self).wf(),
        ensures
            final(self).wf(),
            final(self).contents() == old(self).contents(),
            final(self).backing_spec() == old(self).backing_spec(),
            forall|k: Seq<char>| final(self).cache_entry(k) is None,
    {
        self.cache = Vec::new();
        proof {
            assert(self.cache_seq() =~= Seq::<(Seq<char>, Option<Seq<u8>>)>::empty());
        }
    }

    /// A read-only handle on the wrapped backing store.
    pub fn backing(&self) -> (r: &T)
        ensures
            *r == self.backing_spec(),
    {
        &self.backing
    }

    /// Cache transparency: the observable contents of the decorator are
    /// exactly those of the store it wraps; caching changes no result, only
    /// how many backing calls are made.
    pub proof fn lemma_transparent(&self)
        ensures
            self.contents() == self.backing_spec().contents(),
    {
    }

    /// The index of the cache entry holding `key`, if any.
    fn cache_find(&self, key: &str) -> (r: Option<usize>)
        ensures
            match r {
                Some(i) => i < self.cache_seq().len() && self.cache_seq()[i as int].0 == key@,
                None => forall|j: int| 0 <= j < self.cache_seq().len() ==> self.cache_seq()[j].0
                    != key@,
            },
    {
        let n = self.cache.len();
        let mut i: usize = 0;
        while i < n
            invariant
                n == self.cache@.len(),
                i <= n,
                forall|j: int| 0 <= j < i ==> self.cache_seq()[j].0 != key@,
            decreases n - i,
        {
            if str_eq(self.cache[i].0.as_str(), key) {
                return Some(i);
            }
            i += 1;
        }
        None
    }

    /// A copy of the cache's three-state entry for `key`.
    fn cache_lookup(&self, key: &str) -> (r: Option<Option<Vec<u8>>>)
        requires
            keys_unique(self.cache_seq()),
        ensures
            match r {
                Some(slot) => self.cache_entry(key@) == Some(opt_view(slot)),
                None => self.cache_entry(key@) is None,
            },
    {
        proof {
            lemma_assoc_map_contains(self.cache_seq(), key@);
        }
        match self.cache_find(key) {
            Some(i) => {
                proof {
                    lemma_assoc_map_index(self.cache_seq(), i as int);
                }
                match &self.cache[i].1 {
                    Some(v) => Some(Some(clone_bytes(v))),
                    None => Some(None),
                }
            },
            None => None,
        }
    }

    /// Records `slot` for `key` in the cache, replacing any earlier entry.
    /// Only the cache buffer changes.
    fn cache_store(&mut self, key: &str, slot: Option<Vec<u8>>)
        requires
            keys_unique(old(self).cache_seq()),
        ensures
            keys_unique(final(self).cache_seq()),
            final(self).cache_map() == old(self).cache_map().insert(key@, opt_view(slot)),
            final(self).backing_spec() == old(self).backing_spec(),
    {
        proof {
            lemma_assoc_map_contains(self.cache_seq(), key@);
        }
        let ghost s0 = self.cache_seq();
        match self.cache_find(key) {
            Some(i) => {
                proof {
                    lemma_assoc_map_remove_at(s0, i as int);
                }
                self.cache.remove(i);
                let ghost s1 = self.cache_seq();
                proof {
                    assert(s1 =~= s0.remove(i as int));
                    assert forall|j: int| 0 <= j < s1.len() implies s1[j].0 != key@ by {
                        if j < i {
                            assert(s1[j] == s0[j]);
                        } else {
                            assert(s1[j] == s0[j + 1]);
                        }
                    }
                }
                self.cache.push((key.to_owned(), slot));
                proof {
                    assert(self.cache_seq() =~= s1.push((key@, opt_view(slot))));
                    assert(self.cache_seq().drop_last() =~= s1);
                    assert(keys_unique(self.cache_seq()));
                    assert(assoc_map(self.cache_seq()) =~= assoc_map(s0).insert(
                        key@,
                        opt_view(slot),
                    ));
                }
            },
            None => {
                self.cache.push((key.to_owned(), slot));
                proof {
                    assert(self.cache_seq() =~= s0.push((key@, opt_view(slot))));
                    assert(self.cache_seq().drop_last() =~= s0);
                    assert(keys_unique(self.cache_seq()));
                    assert(assoc_map(self.cache_seq()) =~= assoc_map(s0).insert(
                        key@,
                        opt_view(slot),
                    ));
                }
            },
        }
    }

    /// Drops any cache entry for `key`. Only the cache buffer changes.
    fn cache_remove(&mut self, key: &str)
        requires
            keys_unique(old(self).cache_seq()),
        ensures
            keys_unique(final(self).cache_seq()),
            final(self).cache_map() == old(self).cache_map().remove(key@),
            final(self).backing_spec() == old(self).backing_spec(),
    {
        proof {
            lemma_assoc_map_contains(self.cache_seq(), key@);
        }
        let ghost s0 = self.cache_seq();
        match self.cache_find(key) {
            Some(i) => {
                proof {
                    lemma_assoc_map_remove_at(s0, i as int);
                }
                self.cache.remove(i);
                proof {
                    assert(self.cache_seq() =~= s0.remove(i as int));
                }
            },
            None => {
                proof {
                    assert(self.cache_map().remove(key@) =~= self.cache_map());
                }
            },
        }
    }
}

impl<T: Storage> Storage for StorageCache<T> {
    type Error = T::Error;

    closed spec fn contents(&self) -> Map<Seq<char>, Seq<u8>> {
        self.backing.contents()
    }

    closed spec fn wf(&self) -> bool {
        &&& self.backing.wf()
        &&& keys_unique(self.cache_seq())
        &&& self.cache_ok()
    }

    fn contains(&self, key: &str) -> (r: Result<bool, T::Error>)
        ensures
            self.cache_entry(key@) matches Some(e) ==> r matches Ok(b) && b == (e is Some),
    {
        match self.cache_lookup(key) {
            Some(Some(_)) => Ok(true),
            Some(None) => Ok(false),
            None => self.backing.contains(key),
        }
    }

    fn remove(&mut self, key: &str) -> (r: Result<bool, T::Error>)
        ensures
            r is Ok ==> final(self).cache_entry(key@) is None,
            r is Err ==> final(self).cache_map() == old(self).cache_map(),
    {
        match self.backing.remove(key) {
            Ok(b) => {
                self.cache_remove(key);
                Ok(b)
            },
            Err(e) => Err(e),
        }
    }

    fn get_raw(&mut self, key: &str) -> (r: Result<Option<Vec<u8>>, T::Error>)
        ensures
            r matches Ok(o) ==> final(self).cache_entry(key@) == Some(opt_view(o)),
            old(self).cache_entry(key@) matches Some(e) ==> *final(self) == *old(self) && (
            r matches Ok(o) && opt_view(o) == e),
            r is Err ==> final(self).cache_map() == old(self).cache_map(),
    {
        match self.cache_lookup(key) {
            Some(Some(v)) => Ok(Some(v)),
            Some(None) => Ok(None),
            None => match self.backing.get_raw(key) {
                Ok(Some(v)) => {
                    let copy = clone_bytes(&v);
                    self.cache_store(key, Some(copy));
                    Ok(Some(v))
                },
                Ok(None) => {
                    self.cache_store(key, None);
                    Ok(None)
                },
                Err(e) => Err(e),
            },
        }
    }

    fn put_raw(&mut self, key: &str, value: Vec<u8>) -> (r: Result<bool, T::Error>)
        ensures
            r is Ok ==> final(self).cache_entry(key@) == Some(Some(value@)),
            r is Err ==> final(self).cache_map() == old(self).cache_map(),
    {
        let copy = clone_bytes(&value);
        match self.backing.put_raw(key, value) {
            Ok(b) => {
                self.cache_store(key, Some(copy));
                Ok(b)
            },
            Err(e) => Err(e),
        }
    }
}

} // verus!
