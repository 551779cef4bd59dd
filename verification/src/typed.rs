//! Typed get and put over the raw operations: a representative serializable
//! record is carried through a JSON encoding supplied by serde_json.
//!
//! The encoding of a record is named, not written out: `record_json` stands
//! for the bytes serde_json produces for a name/tag pair, `json_record` for
//! what it parses back out of arbitrary bytes. Malformed stored bytes are a
//! caller-visible decode failure, never a panic.

use vstd::prelude::*;
use crate::role::{Role, role_index};
use crate::storage::Storage;

verus! {

/// A representative serializable record: an account name and its role.
#[derive(Debug)]
pub struct UserRecord {
    pub name: String,
    pub role: Role,
}

/// A typed read either fails like the backing store or finds bytes that do
/// not decode.
#[derive(Debug)]
pub enum TypedError<E> {
    Backend(E),
    Decode,
}

/// The JSON bytes serde_json produces for a name/tag pair.
pub uninterp spec fn record_json(name: Seq<char>, tag: u64) -> Seq<u8>;

/// The name/tag pair serde_json parses out of the given bytes, if any.
pub uninterp spec fn json_record(bytes: Seq<u8>) -> Option<(Seq<char>, u64)>;

/// The record the given stored bytes denote: the pair serde_json parses from
/// them, with the tag resolved to a role; `None` when the bytes do not parse
/// or the tag is out of range.
pub open spec fn typed_of(bytes: Seq<u8>) -> Option<(Seq<char>, Role)> {
    match json_record(bytes) {
        Some(p) => if p.1 == 0 {
            Some((p.0, Role::NoAccess))
        } else if p.1 == 1 {
            Some((p.0, Role::User))
        } else if p.1 == 2 {
            Some((p.0, Role::Admin))
        } else {
            None
        },
        None => None,
    }
}

/// Relies on serde_json::to_vec for a (&str, u64) pair, which cannot fail for
/// this shape of value and whose output depends on the pair alone; the
/// round-trip clause relies on serde_json::from_slice recovering exactly the
/// pair that was encoded.
#[verifier::external_body]
fn encode_pair(name: &str, tag: u64) -> (r: Vec<u8>)
    ensures
        r@ == record_json(name@, tag),
        json_record(r@) == Some((name@, tag)),
{
    serde_json::to_vec(&(name, tag)).unwrap()
}

/// Relies on serde_json::from_slice for a (String, u64) pair: whether and how
/// the bytes parse depends on the bytes alone.
#[verifier::external_body]
fn decode_pair(bytes: &[u8]) -> (r: Option<(String, u64)>)
    ensures
        r matches Some(p) ==> json_record(bytes@) == Some((p.0@, p.1)),
        r is Some <==> json_record(bytes@) is Some,
{
    serde_json::from_slice::<(String, u64)>(bytes).ok()
}

/// Serializes the record and stores the bytes under `key`, reporting whether
/// a previous value existed.
pub fn put_typed<S: Storage>(store: &mut S, key: &str, rec: &UserRecord) -> (r: Result<
    bool,
    S::Error,
>)
    requires
        old(store).wf(),
    ensures
        final(store).wf(),
        r matches Ok(b) ==> {
            &&& b == old(store).contents().contains_key(key@)
            &&& final(store).contents() == old(store).contents().insert(
                key@,
                record_json(rec.name@, role_index(rec.role)),
            )
            &&& typed_of(record_json(rec.name@, role_index(rec.role))) == Some(
                (rec.name@, rec.role),
            )
        },
        r is Err ==> final(store).contents() == old(store).contents(),
{
    let bytes = encode_pair(rec.name.as_str(), rec.role.index());
    store.put_raw(key, bytes)
}

/// Reads the bytes under `key` and decodes them into a record. An absent key
/// is `Ok(None)`; bytes that do not decode to a record are a `Decode` error;
/// a backing failure is passed through as `Backend`.
pub fn get_typed<S: Storage>(store: &mut S, key: &str) -> (r: Result<
    Option<UserRecord>,
    TypedError<S::Error>,
>)
    requires
        old(store).wf(),
    ensures
        final(store).wf(),
        final(store).contents() == old(store).contents(),
        !(r matches Err(TypedError::Backend(_))) ==> {
            if !old(store).contents().contains_key(key@) {
                r matches Ok(o) && o is None
            } else {
                match typed_of(old(store).contents()[key@]) {
                    Some(p) => r matches Ok(o) && o matches Some(rec) && rec.name@ == p.0
                        && rec.role == p.1,
                    None => r matches Err(TypedError::Decode),
                }
            }
        },
{
    match store.get_raw(key) {
        Ok(Some(bytes)) => match decode_pair(bytes.as_slice()) {
            Some((name, tag)) => match Role::from_index(tag) {
                Some(role) => Ok(Some(UserRecord { name, role })),
                None => Err(TypedError::Decode),
            },
            None => Err(TypedError::Decode),
        },
        Ok(None) => Ok(None),
        Err(e) => Err(TypedError::Backend(e)),
    }
}

/// Typed round-trip: storing the encoding of a record under a key leaves the
/// store with bytes under that key that denote exactly the record's name and
/// role, so a typed read of that key recovers them.
pub proof fn lemma_typed_round_trip(
    m: Map<Seq<char>, Seq<u8>>,
    k: Seq<char>,
    b: Seq<u8>,
    name: Seq<char>,
    role: Role,
)
    requires
        json_record(b) == Some((name, role_index(role))),
    ensures
        m.insert(k, b).contains_key(k),
        typed_of(m.insert(k, b)[k]) == Some((name, role)),
{
    match role {
        Role::NoAccess => {},
        Role::User => {},
        Role::Admin => {},
    }
}

} // verus!
