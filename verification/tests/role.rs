use edge_config::adapt::AnyhowStorage;
use edge_config::role::{Role, ADMIN_USERNAME};
use edge_config::storage::{MemoryStorage, Storage};

#[test]
fn admin_username_value() {
    assert_eq!(ADMIN_USERNAME, "admin");
}

#[test]
fn role_default_grants_nothing() {
    assert_eq!(Role::default(), Role::NoAccess);
}

#[test]
fn role_index_round_trip() {
    for role in [Role::NoAccess, Role::User, Role::Admin] {
        assert_eq!(Role::from_index(role.index()), Some(role));
    }
    assert_eq!(Role::NoAccess.index(), 0);
    assert_eq!(Role::User.index(), 1);
    assert_eq!(Role::Admin.index(), 2);
    assert_eq!(Role::from_index(3), None);
    assert_eq!(Role::from_index(u64::MAX), None);
}

#[test]
fn role_name_round_trip() {
    for role in [Role::NoAccess, Role::User, Role::Admin] {
        assert_eq!(Role::from_name(role.name().as_str()), Some(role));
    }
    assert_eq!(Role::NoAccess.name(), "none");
    assert_eq!(Role::User.name(), "user");
    assert_eq!(Role::Admin.name(), "admin");
    assert_eq!(Role::from_name("root"), None);
    assert_eq!(Role::from_name(""), None);
    assert_eq!(Role::from_name("Admin"), None);
}

#[test]
fn anyhow_adapter_forwards() {
    let mut s = AnyhowStorage(MemoryStorage::new());
    assert_eq!(s.put_raw("k", vec![1, 2]).ok(), Some(false));
    assert_eq!(s.get_raw("k").ok(), Some(Some(vec![1, 2])));
    assert_eq!(s.contains("k").ok(), Some(true));
    assert_eq!(s.len("k").ok(), Some(Some(2)));
    assert_eq!(s.put_raw("k", vec![3]).ok(), Some(true));
    assert_eq!(s.remove("k").ok(), Some(true));
    assert_eq!(s.remove("k").ok(), Some(false));
}
