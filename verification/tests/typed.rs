use edge_config::cache::StorageCache;
use edge_config::role::Role;
use edge_config::storage::{MemoryStorage, Storage};
use edge_config::typed::{get_typed, put_typed, TypedError, UserRecord};

#[test]
fn typed_round_trip() {
    let mut m = MemoryStorage::new();
    let rec = UserRecord { name: "alice".to_string(), role: Role::Admin };
    assert_eq!(put_typed(&mut m, "alice", &rec).ok(), Some(false));
    let back = get_typed(&mut m, "alice").ok().flatten().expect("record");
    assert_eq!(back.name, "alice");
    assert_eq!(back.role, Role::Admin);
}

#[test]
fn typed_round_trip_through_cache() {
    let mut c = StorageCache::new(MemoryStorage::new());
    let rec = UserRecord { name: "bob".to_string(), role: Role::User };
    assert_eq!(put_typed(&mut c, "bob", &rec).ok(), Some(false));
    let back = get_typed(&mut c, "bob").ok().flatten().expect("record");
    assert_eq!(back.name, "bob");
    assert_eq!(back.role, Role::User);
}

#[test]
fn typed_stores_json() {
    // The stored bytes are the real serde_json encoding of the pair.
    let mut m = MemoryStorage::new();
    let rec = UserRecord { name: "alice".to_string(), role: Role::Admin };
    assert_eq!(put_typed(&mut m, "k", &rec).ok(), Some(false));
    let bytes = m.get_raw("k").ok().flatten().expect("bytes");
    assert_eq!(bytes, b"[\"alice\",2]".to_vec());
}

#[test]
fn typed_absent_key() {
    let mut m = MemoryStorage::new();
    let r = get_typed(&mut m, "nobody");
    assert!(matches!(r, Ok(None)));
}

#[test]
fn typed_corrupted_bytes_are_a_decode_error() {
    let mut m = MemoryStorage::new();
    assert_eq!(m.put_raw("k", b"not json at all".to_vec()).ok(), Some(false));
    let r = get_typed(&mut m, "k");
    assert!(matches!(r, Err(TypedError::Decode)));
}

#[test]
fn typed_out_of_range_tag_is_a_decode_error() {
    let mut m = MemoryStorage::new();
    assert_eq!(m.put_raw("k", b"[\"zoe\",9]".to_vec()).ok(), Some(false));
    let r = get_typed(&mut m, "k");
    assert!(matches!(r, Err(TypedError::Decode)));
}

#[test]
fn typed_overwrite_flag() {
    let mut m = MemoryStorage::new();
    let first = UserRecord { name: "zoe".to_string(), role: Role::NoAccess };
    let second = UserRecord { name: "zoe".to_string(), role: Role::User };
    assert_eq!(put_typed(&mut m, "zoe", &first).ok(), Some(false));
    assert_eq!(put_typed(&mut m, "zoe", &second).ok(), Some(true));
    let back = get_typed(&mut m, "zoe").ok().flatten().expect("record");
    assert_eq!(back.role, Role::User);
}
