//! Wrappers around stores: the error-unifying adapter, which re-exposes any
//! store behind the common anyhow error type, and a read-counting wrapper
//! used to observe how often a backing store is consulted.

use vstd::prelude::*;
use crate::storage::Storage;

verus! {

/// Wraps any store whose error type converts into `anyhow::Error` and
/// re-exposes the same capability with that unified error type. Pure
/// forwarding; no state of its own.
pub struct AnyhowStorage<S>(pub S);

#[verifier::external_type_specification]
#[verifier::external_body]
pub struct ExAnyhowError(anyhow::Error);

/// Relies on Into::into to anyhow::Error: converts a wrapped store's error
/// into the unified error type; nothing is claimed of the opaque result.
#[verifier::external_body]
fn into_anyhow<E: Into<anyhow::Error>>(e: E) -> anyhow::Error {
    e.into()
}

impl<E: Into<anyhow::Error>, S: Storage<Error = E>> Storage for AnyhowStorage<S> {
    type Error = anyhow::Error;

    closed spec fn contents(&self) -> Map<Seq<char>, Seq<u8>> {
        self.0.contents()
    }

    closed spec fn wf(&self) -> bool {
        self.0.wf()
    }

    fn contains(&self, key: &str) -> (r: Result<bool, anyhow::Error>) {
        match self.0.contains(key) {
            Ok(b) => Ok(b),
            Err(e) => Err(into_anyhow(e)),
        }
    }

    fn remove(&mut self, key: &str) -> (r: Result<bool, anyhow::Error>) {
        match self.0.remove(key) {
            Ok(b) => Ok(b),
            Err(e) => Err(into_anyhow(e)),
        }
    }

    fn get_raw(&mut self, key: &str) -> (r: Result<Option<Vec<u8>>, anyhow::Error>) {
        match self.0.get_raw(key) {
            Ok(o) => Ok(o),
            Err(e) => Err(into_anyhow(e)),
        }
    }

    fn put_raw(&mut self, key: &str, value: Vec<u8>) -> (r: Result<bool, anyhow::Error>) {
        match self.0.put_raw(key, value) {
            Ok(b) => Ok(b),
            Err(e) => Err(into_anyhow(e)),
        }
    }
}

/// One more than `x`, staying put at the top of the range.
pub open spec fn sat_inc(x: u64) -> u64 {
    if x == u64::MAX {
        x
    } else {
        (x + 1) as u64
    }
}

/// Forwards every operation to the wrapped store and counts how many times
/// the store is asked to read a value; lets a caller observe that a cache in
/// front of it answers reads without consulting it.
pub struct CountingStorage<S> {
    pub inner: S,
    pub gets: u64,
}

impl<S: Storage> CountingStorage<S> {
    pub fn new(inner: S) -> (r: CountingStorage<S>)
        ensures
            r.inner == inner,
            r.gets == 0,
    {
        CountingStorage { inner, gets: 0 }
    }
}

impl<S: Storage> Storage for CountingStorage<S> {
    type Error = S::Error;

    open spec fn contents(&self) -> Map<Seq<char>, Seq<u8>> {
        self.inner.contents()
    }

    open spec fn wf(&self) -> bool {
        self.inner.wf()
    }

    fn contains(&self, key: &str) -> (r: Result<bool, S::Error>) {
        self.inner.contains(key)
    }

    fn remove(&mut self, key: &str) -> (r: Result<bool, S::Error>) {
        self.inner.remove(key)
    }

    fn get_raw(&mut self, key: &str) -> (r: Result<Option<Vec<u8>>, S::Error>)
        ensures
            final(self).gets == sat_inc(old(self).gets),
    {
        self.gets = if self.gets == u64::MAX {
            u64::MAX
        } else {
            self.gets + 1
        };
        self.inner.get_raw(key)
    }

    fn put_raw(&mut self, key: &str, value: Vec<u8>) -> (r: Result<bool, S::Error>) {
        self.inner.put_raw(key, value)
    }
}

} // verus!
