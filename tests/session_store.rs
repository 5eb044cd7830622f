use logline_daemon::error::AuthError;
use logline_daemon::session::{create_session_token, issue_session_token, SessionStore};

const NOW: i64 = 1_700_000_000_000;

#[test]
fn session_validates_until_its_lifetime_ends() {
    for ttl in [60u64, 61, 3600, 604_799, 604_800] {
        let mut store = SessionStore::new();
        let s = store.create("tok-a".to_string(), NOW, ttl, None).unwrap();
        assert_eq!(s.created_at_unix_ms, NOW);
        assert_eq!(s.expires_at_unix_ms, NOW + ttl as i64 * 1000);
        let end = NOW + ttl as i64 * 1000;
        assert!(store.validate("tok-a", NOW).is_some());
        assert!(store.validate("tok-a", end - 1).is_some());
        assert!(store.validate("tok-a", end).is_none());
    }
}

#[test]
fn session_rejected_after_expiry_even_before_sweep() {
    let mut store = SessionStore::new();
    store.create("tok-b".to_string(), NOW, 60, None).unwrap();
    assert!(store.validate("tok-b", NOW + 60_000).is_none());
    assert!(store.validate("tok-b", NOW).is_none());
}

#[test]
fn ttl_outside_range_is_refused() {
    let mut store = SessionStore::new();
    assert!(matches!(store.create("t".to_string(), NOW, 59, None), Err(AuthError::TtlOutOfRange)));
    assert!(matches!(store.create("t".to_string(), NOW, 604_801, None), Err(AuthError::TtlOutOfRange)));
    assert!(store.list(NOW).is_empty());
}

#[test]
fn revoked_session_is_unresolvable_at_once() {
    let mut store = SessionStore::new();
    store.create("tok-c".to_string(), NOW, 3600, Some("laptop".to_string())).unwrap();
    assert!(store.revoke("tok-c"));
    assert!(store.validate("tok-c", NOW + 1).is_none());
    assert!(!store.revoke("tok-c"));
}

#[test]
fn revoke_leaves_other_sessions() {
    let mut store = SessionStore::new();
    store.create("one".to_string(), NOW, 3600, None).unwrap();
    store.create("two".to_string(), NOW, 3600, None).unwrap();
    assert!(store.revoke("one"));
    assert!(store.validate("two", NOW).is_some());
}

#[test]
fn list_reports_prefixes_of_live_sessions_only() {
    let mut store = SessionStore::new();
    store.create("llt_abcdefghijklmnop".to_string(), NOW, 60, Some("ci".to_string())).unwrap();
    store.create("short".to_string(), NOW, 3600, None).unwrap();
    let items = store.list(NOW + 60_000);
    assert_eq!(items.len(), 1);
    assert_eq!(items[0].token_prefix, "short");
    let items = store.list(NOW);
    assert_eq!(items.len(), 1);
    let mut store = SessionStore::new();
    store.create("llt_abcdefghijklmnop".to_string(), NOW, 60, Some("ci".to_string())).unwrap();
    let items = store.list(NOW);
    assert_eq!(items[0].token_prefix, "llt_abcdef");
    assert_eq!(items[0].label.as_deref(), Some("ci"));
    assert_eq!(items[0].expires_at_unix_ms, NOW + 60_000);
}

#[test]
fn creating_the_same_token_twice_replaces_it() {
    let mut store = SessionStore::new();
    store.create("dup".to_string(), NOW, 60, None).unwrap();
    store.create("dup".to_string(), NOW, 3600, None).unwrap();
    assert_eq!(store.list(NOW).len(), 1);
    assert!(store.validate("dup", NOW + 120_000).is_some());
}

#[test]
fn issued_tokens_have_prefix_and_alphanumeric_body() {
    let a = issue_session_token();
    let b = issue_session_token();
    assert_eq!(a.len(), 44);
    assert!(a.starts_with("llt_"));
    assert!(a[4..].chars().all(|c| c.is_ascii_alphanumeric()));
    assert_ne!(a, b);
}

#[test]
fn create_handler_defaults_to_an_hour() {
    let mut store = SessionStore::new();
    let created = create_session_token(&mut store, None, None, NOW).unwrap();
    assert_eq!(created.session.expires_at_unix_ms, NOW + 3_600_000);
    assert!(store.validate(&created.token, NOW).is_some());
    assert!(matches!(
        create_session_token(&mut store, Some(10), None, NOW),
        Err(AuthError::TtlOutOfRange)
    ));
}
