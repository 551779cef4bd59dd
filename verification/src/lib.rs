//! A minimal key-value storage abstraction: a byte-oriented store capability,
//! an in-memory implementation, an error-unifying adapter, and a write-through,
//! lazily populated in-memory cache decorator.

pub mod adapt;
pub mod cache;
mod kv;
pub mod laws;
pub mod role;
pub mod storage;
pub mod typed;
