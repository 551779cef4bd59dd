use edge_config::adapt::CountingStorage;
use edge_config::cache::StorageCache;
use edge_config::storage::{MemoryStorage, Storage};

#[test]
fn cache_round_trip() {
    let mut c = StorageCache::new(MemoryStorage::new());
    assert_eq!(c.put_raw("k", vec![1, 2]).ok(), Some(false));
    assert_eq!(c.get_raw("k").ok(), Some(Some(vec![1, 2])));
}

#[test]
fn cache_overwrite_flag() {
    let mut c = StorageCache::new(MemoryStorage::new());
    assert_eq!(c.put_raw("k", vec![1]).ok(), Some(false));
    assert_eq!(c.put_raw("k", vec![2]).ok(), Some(true));
    assert_eq!(c.get_raw("k").ok(), Some(Some(vec![2])));
}

#[test]
fn cache_remove_idempotent() {
    let mut c = StorageCache::new(MemoryStorage::new());
    assert_eq!(c.remove("ghost").ok(), Some(false));
    assert_eq!(c.remove("ghost").ok(), Some(false));
    assert_eq!(c.put_raw("k", vec![1]).ok(), Some(false));
    assert_eq!(c.remove("k").ok(), Some(true));
    assert_eq!(c.remove("k").ok(), Some(false));
    assert_eq!(c.get_raw("k").ok(), Some(None));
}

#[test]
fn flush_invalidation() {
    let mut c = StorageCache::new(MemoryStorage::new());
    assert_eq!(c.put_raw("k", vec![7, 8]).ok(), Some(false));
    c.flush();
    // The backend retains the truth; the cache repopulates transparently.
    assert_eq!(c.get_raw("k").ok(), Some(Some(vec![7, 8])));
    assert_eq!(c.contains("k").ok(), Some(true));
}

#[test]
fn absence_is_cached() {
    let mut c = StorageCache::new(CountingStorage::new(MemoryStorage::new()));
    assert_eq!(c.get_raw("missing").ok(), Some(None));
    assert_eq!(c.backing().gets, 1);
    // A key once confirmed absent is answered from the cache alone.
    assert_eq!(c.get_raw("missing").ok(), Some(None));
    assert_eq!(c.backing().gets, 1);
}

#[test]
fn present_is_cached() {
    let mut c = StorageCache::new(CountingStorage::new(MemoryStorage::new()));
    assert_eq!(c.put_raw("k", vec![5]).ok(), Some(false));
    // The write-through already populated the cache: reads need no backend.
    assert_eq!(c.get_raw("k").ok(), Some(Some(vec![5])));
    assert_eq!(c.get_raw("k").ok(), Some(Some(vec![5])));
    assert_eq!(c.backing().gets, 0);
    // contains on a cached key consults nothing either.
    assert_eq!(c.contains("k").ok(), Some(true));
    assert_eq!(c.backing().gets, 0);
}

#[test]
fn flush_forgets_cached_absence() {
    let mut c = StorageCache::new(CountingStorage::new(MemoryStorage::new()));
    assert_eq!(c.get_raw("missing").ok(), Some(None));
    c.flush();
    assert_eq!(c.get_raw("missing").ok(), Some(None));
    assert_eq!(c.backing().gets, 2);
}

#[test]
fn cache_transparency() {
    // The same operation sequence, directly and through the decorator,
    // yields identical observable results.
    let ops: [(&str, Option<Vec<u8>>); 6] = [
        ("a", Some(vec![1])),
        ("b", Some(vec![2, 2])),
        ("a", Some(vec![3])),
        ("a", None),
        ("c", None),
        ("b", Some(vec![4])),
    ];
    let mut direct = MemoryStorage::new();
    let mut cached = StorageCache::new(MemoryStorage::new());
    for (key, value) in ops.iter() {
        let (d, c) = match value {
            Some(v) => (
                direct.put_raw(key, v.clone()).ok(),
                cached.put_raw(key, v.clone()).ok(),
            ),
            None => (direct.remove(key).ok(), cached.remove(key).ok()),
        };
        assert_eq!(d, c);
        for probe in ["a", "b", "c", "d"] {
            assert_eq!(direct.get_raw(probe).ok(), cached.get_raw(probe).ok());
            assert_eq!(direct.contains(probe).ok(), cached.contains(probe).ok());
            assert_eq!(direct.len(probe).ok(), cached.len(probe).ok());
        }
    }
}

#[test]
fn cache_len() {
    let mut c = StorageCache::new(MemoryStorage::new());
    assert_eq!(c.len("k").ok(), Some(None));
    assert_eq!(c.put_raw("k", vec![1, 2, 3]).ok(), Some(false));
    assert_eq!(c.len("k").ok(), Some(Some(3)));
}

#[test]
fn nested_caches() {
    // Decorators compose: a cache over a cache still behaves like the store.
    let mut c = StorageCache::new(StorageCache::new(MemoryStorage::new()));
    assert_eq!(c.put_raw("k", vec![9]).ok(), Some(false));
    c.flush();
    assert_eq!(c.get_raw("k").ok(), Some(Some(vec![9])));
}
