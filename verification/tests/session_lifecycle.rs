use session_core::config::SessionConfig;
use session_core::service::SessionService;
use session_core::session::Session;
use session_core::store::ExpiringStore;

fn thirty_minutes() -> SessionConfig {
    SessionConfig::new(30, false).unwrap()
}

#[test]
fn config_rejects_bad_lifetimes() {
    assert!(SessionConfig::new(0, false).is_none());
    assert!(SessionConfig::new(-5, true).is_none());
    let c = SessionConfig::new(30, true).unwrap();
    assert_eq!(c.auth_session_expire_time, 30);
    assert!(c.is_dev);
}

#[test]
fn new_session_has_fresh_token_and_lifetime() {
    let s = Session::new("u-1".to_string(), 30, 1_000);
    assert_eq!(s.session_id.len(), 36);
    assert_eq!(s.user_id, "u-1");
    assert_eq!(s.created_at, 1_000);
    assert_eq!(s.expires_at, 1_000 + 30 * 60);
    assert!(s.user_agent.is_none());
    assert!(s.ip_address.is_none());
    let t = Session::new("u-1".to_string(), 30, 1_000);
    assert_ne!(s.session_id, t.session_id);
}

#[test]
fn with_client_info_keeps_identity() {
    let s = Session::new("u-1".to_string(), 30, 0).with_client_info(
        Some("agent".to_string()),
        Some("127.0.0.1".to_string()),
    );
    assert_eq!(s.user_agent.as_deref(), Some("agent"));
    assert_eq!(s.ip_address.as_deref(), Some("127.0.0.1"));
    assert_eq!(s.user_id, "u-1");
}

#[test]
fn redis_key_is_prefixed_token() {
    let s = Session::new("u-1".to_string(), 30, 0);
    assert_eq!(s.redis_key(), format!("session:{}", s.session_id));
}

#[test]
fn expiry_bound_is_strict() {
    let s = Session::new("u-1".to_string(), 30, 0);
    assert!(!s.is_expired(s.expires_at));
    assert!(s.is_expired(s.expires_at + 1));
}

#[test]
fn create_then_get_returns_owner() {
    let mut store = ExpiringStore::new();
    let cfg = thirty_minutes();
    let s = SessionService::create_session(
        &mut store,
        &cfg,
        "u-1".to_string(),
        None,
        None,
        1_000,
    );
    let got = SessionService::get_session(&mut store, &s.session_id, 1_000).unwrap();
    assert_eq!(got.user_id, "u-1");
    assert_eq!(got.session_id, s.session_id);
    assert_eq!(got.expires_at - got.created_at, 30 * 60);
}

#[test]
fn thirty_minute_lifetime_round_trip() {
    let mut store = ExpiringStore::new();
    let cfg = thirty_minutes();
    let s = SessionService::create_session(
        &mut store,
        &cfg,
        "u-1".to_string(),
        None,
        None,
        1_000,
    );
    let got = SessionService::get_session(&mut store, &s.session_id, 1_000).unwrap();
    assert_eq!(got.expires_at - got.created_at, 30 * 60);
    let later = 1_000 + 31 * 60;
    assert!(SessionService::get_session(&mut store, &s.session_id, later).is_none());
}

#[test]
fn expired_record_is_invisible_and_deleted() {
    let mut store = ExpiringStore::new();
    let cfg = thirty_minutes();
    let s = SessionService::create_session(&mut store, &cfg, "u-1".to_string(), None, None, 0);
    let key = s.redis_key();
    // The record is physically present past its logical expiry.
    assert!(store.get(&key).is_some());
    assert!(SessionService::get_session(&mut store, &s.session_id, 1_801).is_none());
    // The lazy-expiry read deleted it on the spot.
    assert!(store.get(&key).is_none());
    assert!(SessionService::get_session(&mut store, &s.session_id, 1_801).is_none());
}

#[test]
fn revoke_twice_never_errors() {
    let mut store = ExpiringStore::new();
    let cfg = thirty_minutes();
    let s = SessionService::create_session(&mut store, &cfg, "u-1".to_string(), None, None, 0);
    SessionService::delete_session(&mut store, &s.session_id);
    assert!(SessionService::get_session(&mut store, &s.session_id, 0).is_none());
    SessionService::delete_session(&mut store, &s.session_id);
    assert!(SessionService::get_session(&mut store, &s.session_id, 0).is_none());
}

#[test]
fn refresh_absent_returns_none_and_writes_nothing() {
    let mut store = ExpiringStore::new();
    let cfg = thirty_minutes();
    assert!(SessionService::refresh_session(&mut store, &cfg, "missing", 0).is_none());
    let prefix = "session:".to_string();
    assert!(store.keys_matching(&prefix).is_empty());
}

#[test]
fn refresh_expired_returns_none() {
    let mut store = ExpiringStore::new();
    let cfg = thirty_minutes();
    let s = SessionService::create_session(&mut store, &cfg, "u-1".to_string(), None, None, 0);
    assert!(SessionService::refresh_session(&mut store, &cfg, &s.session_id, 5_000).is_none());
    assert!(SessionService::get_session(&mut store, &s.session_id, 0).is_none());
}

#[test]
fn refresh_extends_expiry_and_preserves_identity() {
    let mut store = ExpiringStore::new();
    let cfg = thirty_minutes();
    let s = SessionService::create_session(
        &mut store,
        &cfg,
        "u-1".to_string(),
        Some("agent".to_string()),
        None,
        0,
    );
    let refreshed = SessionService::refresh_session(&mut store, &cfg, &s.session_id, 60).unwrap();
    assert_eq!(refreshed.expires_at, 60 + 30 * 60);
    assert!(refreshed.expires_at > s.expires_at);
    assert_eq!(refreshed.session_id, s.session_id);
    assert_eq!(refreshed.user_id, s.user_id);
    assert_eq!(refreshed.created_at, s.created_at);
    assert_eq!(refreshed.user_agent.as_deref(), Some("agent"));
    // Past the original expiry, still inside the refreshed one.
    let got = SessionService::get_session(&mut store, &s.session_id, 1_850).unwrap();
    assert_eq!(got.expires_at, 60 + 30 * 60);
}

#[test]
fn sweep_removes_exactly_expired_sessions_of_user() {
    let mut store = ExpiringStore::new();
    let cfg = thirty_minutes();
    let live_a = SessionService::create_session(&mut store, &cfg, "u-2".to_string(), None, None, 0);
    let live_b = SessionService::create_session(&mut store, &cfg, "u-2".to_string(), None, None, 0);
    let dead = SessionService::create_session(
        &mut store,
        &cfg,
        "u-2".to_string(),
        None,
        None,
        -10_000,
    );
    let other_dead = SessionService::create_session(
        &mut store,
        &cfg,
        "u-3".to_string(),
        None,
        None,
        -10_000,
    );
    SessionService::cleanup_expired_sessions(&mut store, "u-2", 0);
    assert!(SessionService::get_session(&mut store, &live_a.session_id, 0).is_some());
    assert!(SessionService::get_session(&mut store, &live_b.session_id, 0).is_some());
    assert!(store.get(&dead.redis_key()).is_none());
    // Another user's expired session is not this sweep's business.
    assert!(store.get(&other_dead.redis_key()).is_some());
}

#[test]
fn keys_matching_lists_only_prefixed_keys() {
    let mut store = ExpiringStore::new();
    let cfg = thirty_minutes();
    let s = SessionService::create_session(&mut store, &cfg, "u-1".to_string(), None, None, 0);
    let stray = Session::new("u-9".to_string(), 30, 0);
    store.set_with_ttl("other:x".to_string(), stray, 1_800, 0);
    let prefix = "session:".to_string();
    let keys = store.keys_matching(&prefix);
    assert_eq!(keys.len(), 1);
    assert_eq!(keys[0], s.redis_key());
}

#[test]
fn extract_user_agent_defaults_to_empty() {
    assert_eq!(
        session_core::utils::extract_user_agent(Some("agent/1.0".to_string())),
        "agent/1.0"
    );
    assert_eq!(session_core::utils::extract_user_agent(None), "");
}

#[test]
fn eviction_drops_only_entries_past_their_deadline() {
    let mut store = ExpiringStore::new();
    let a = Session::new("u-1".to_string(), 30, 0);
    let b = Session::new("u-1".to_string(), 30, 0);
    let ka = a.redis_key();
    let kb = b.redis_key();
    store.set_with_ttl(ka.clone(), a, 100, 0);
    store.set_with_ttl(kb.clone(), b, 1_000, 0);
    // The deadline instant itself is not yet past.
    store.evict_expired(100);
    assert!(store.get(&ka).is_some());
    store.evict_expired(101);
    assert!(store.get(&ka).is_none());
    assert!(store.get(&kb).is_some());
}
