use auth_core::AuthError;
use auth_core::SessionCache;
use auth_core::StoreError;
use auth_core::UserStore;
use auth_core::auth_error_of_store;
use auth_core::classify_backend_code;
use auth_core::rand_string;

#[test]
fn cache_insert_then_get_round_trip() {
    let mut cache = SessionCache::new();
    cache.insert(7, "k1".to_string());
    assert_eq!(cache.get(&"k1".to_string(), 0), Some(7));
    cache.remove(&"k1".to_string());
    assert_eq!(cache.get(&"k1".to_string(), 0), None);
}

#[test]
fn cache_overwrites_mapping_under_same_key() {
    let mut cache = SessionCache::new();
    cache.insert(7, "k1".to_string());
    cache.insert(8, "k1".to_string());
    assert_eq!(cache.get(&"k1".to_string(), 0), Some(8));
}

#[test]
fn cache_remove_absent_key_is_noop() {
    let mut cache = SessionCache::new();
    cache.insert(7, "k1".to_string());
    cache.remove(&"nosuch".to_string());
    assert_eq!(cache.get(&"k1".to_string(), 0), Some(7));
}

#[test]
fn cache_expiry_elapsed_means_absent() {
    let mut cache = SessionCache::new();
    cache.insert_for(9, "k2".to_string(), 10, 100);
    assert_eq!(cache.get(&"k2".to_string(), 100), Some(9));
    assert_eq!(cache.get(&"k2".to_string(), 109), Some(9));
    assert_eq!(cache.get(&"k2".to_string(), 110), None);
    assert_eq!(cache.get(&"k2".to_string(), 5000), None);
}

#[test]
fn cache_unexpiring_mapping_never_lapses() {
    let mut cache = SessionCache::new();
    cache.insert(3, "k3".to_string());
    assert_eq!(cache.get(&"k3".to_string(), u64::MAX), Some(3));
}

#[test]
fn store_create_assigns_sequential_ids() {
    let mut store = UserStore::new();
    let a = store.create("a@x.com".to_string(), "h1".to_string(), false, false).unwrap();
    let b = store.create("b@x.com".to_string(), "h2".to_string(), true, true).unwrap();
    assert_eq!(a.id, 1);
    assert_eq!(b.id, 2);
    assert_eq!(store.len(), 2);
    assert!(b.is_admin);
    assert!(b.is_confirmed);
}

#[test]
fn store_create_duplicate_email_fails() {
    let mut store = UserStore::new();
    store.create("a@x.com".to_string(), "h1".to_string(), false, false).unwrap();
    assert!(matches!(
        store.create("a@x.com".to_string(), "h2".to_string(), false, false),
        Err(StoreError::DuplicateEmail)
    ));
    assert_eq!(store.len(), 1);
}

#[test]
fn store_get_by_id_and_email() {
    let mut store = UserStore::new();
    let a = store.create("a@x.com".to_string(), "h1".to_string(), false, false).unwrap();
    let by_id = store.get_by_id(a.id).unwrap();
    assert_eq!(by_id.email, "a@x.com");
    assert_eq!(by_id.password, "h1");
    let by_email = store.get_by_email(&"a@x.com".to_string()).unwrap();
    assert_eq!(by_email.id, a.id);
    assert!(matches!(store.get_by_id(99), Err(StoreError::NotFound)));
    assert!(matches!(store.get_by_email(&"z@x.com".to_string()), Err(StoreError::NotFound)));
}

#[test]
fn store_update_rewrites_record() {
    let mut store = UserStore::new();
    let a = store.create("a@x.com".to_string(), "h1".to_string(), false, false).unwrap();
    assert_eq!(store.update(a.id, "new@x.com".to_string(), "h2".to_string(), true, true), Ok(()));
    let updated = store.get_by_id(a.id).unwrap();
    assert_eq!(updated.email, "new@x.com");
    assert_eq!(updated.password, "h2");
    assert!(updated.is_admin);
    assert!(updated.is_confirmed);
    assert!(matches!(store.get_by_email(&"a@x.com".to_string()), Err(StoreError::NotFound)));
}

#[test]
fn store_update_missing_id_fails() {
    let mut store = UserStore::new();
    assert_eq!(
        store.update(5, "a@x.com".to_string(), "h".to_string(), false, false),
        Err(StoreError::NotFound)
    );
}

#[test]
fn store_update_to_email_of_other_user_fails() {
    let mut store = UserStore::new();
    let a = store.create("a@x.com".to_string(), "h1".to_string(), false, false).unwrap();
    let b = store.create("b@x.com".to_string(), "h2".to_string(), false, false).unwrap();
    assert_eq!(
        store.update(b.id, "a@x.com".to_string(), "h2".to_string(), false, false),
        Err(StoreError::DuplicateEmail)
    );
    let kept = store.get_by_id(a.id).unwrap();
    assert_eq!(kept.email, "a@x.com");
}

#[test]
fn store_update_keeping_own_email_succeeds() {
    let mut store = UserStore::new();
    let a = store.create("a@x.com".to_string(), "h1".to_string(), false, false).unwrap();
    assert_eq!(store.update(a.id, "a@x.com".to_string(), "h2".to_string(), false, false), Ok(()));
    assert_eq!(store.get_by_id(a.id).unwrap().password, "h2");
}

#[test]
fn store_delete_is_not_idempotent() {
    let mut store = UserStore::new();
    let a = store.create("a@x.com".to_string(), "h1".to_string(), false, false).unwrap();
    assert_eq!(store.delete(a.id), Ok(()));
    assert_eq!(store.delete(a.id), Err(StoreError::NotFound));
    assert_eq!(store.len(), 0);
}

#[test]
fn classify_backend_code_maps_unique_violation() {
    assert_eq!(classify_backend_code(Some(&"23000".to_string())), StoreError::DuplicateEmail);
    assert_eq!(classify_backend_code(Some(&"1062".to_string())), StoreError::Backend);
    assert_eq!(classify_backend_code(Some(&"".to_string())), StoreError::Backend);
    assert_eq!(classify_backend_code(None), StoreError::Backend);
}

#[test]
fn store_errors_map_to_domain_errors() {
    assert_eq!(auth_error_of_store(StoreError::DuplicateEmail), AuthError::EmailAlreadyExists);
    assert_eq!(auth_error_of_store(StoreError::NotFound), AuthError::NotFound);
    assert_eq!(auth_error_of_store(StoreError::Backend), AuthError::Backend);
}

#[test]
fn rand_string_has_requested_length_and_printable_chars() {
    let s = rand_string(15);
    assert_eq!(s.chars().count(), 15);
    assert!(s.chars().all(|c| (33..=126).contains(&(c as u32))));
    assert_eq!(rand_string(0).chars().count(), 0);
}

#[test]
fn rand_string_draws_fresh_keys() {
    let a = rand_string(32);
    let b = rand_string(32);
    assert_ne!(a, b);
}

#[test]
fn same_password_gets_distinct_digests() {
    let mut users = auth_core::Users::new();
    assert_eq!(users.signup(&auth_core::Signup {
        email: "a@x.com".to_string(),
        password: "secret123".to_string(),
    }), Ok(()));
    assert_eq!(users.signup(&auth_core::Signup {
        email: "b@x.com".to_string(),
        password: "secret123".to_string(),
    }), Ok(()));
    let a = users.conn.get_by_email(&"a@x.com".to_string()).unwrap();
    let b = users.conn.get_by_email(&"b@x.com".to_string()).unwrap();
    assert_ne!(a.password, b.password);
    assert_ne!(a.password, "secret123");
}
