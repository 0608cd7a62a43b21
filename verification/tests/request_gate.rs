use session_core::anonymous::{
    resolve_anonymous_user, SameSitePolicy, ANONYMOUS_COOKIE_MAX_AGE_SECONDS,
};
use session_core::auth::session_auth;
use session_core::config::SessionConfig;
use session_core::errors::Errors;
use session_core::service::SessionService;
use session_core::store::ExpiringStore;

#[test]
fn anonymous_request_without_cookie_gets_exactly_one_cookie() {
    let (ctx, plan) = resolve_anonymous_user(None, false);
    let plan = plan.unwrap();
    assert_eq!(ctx.anonymous_user_id.len(), 36);
    assert_eq!(plan.name, "anonymous_user_id");
    assert_eq!(plan.value, ctx.anonymous_user_id);
    assert!(plan.http_only);
    assert!(plan.secure);
    assert_eq!(plan.same_site, SameSitePolicy::Lax);
    assert_eq!(plan.path, "/");
    assert_eq!(plan.max_age_seconds, ANONYMOUS_COOKIE_MAX_AGE_SECONDS);
    assert_eq!(plan.max_age_seconds, 365 * 24 * 60 * 60);
}

#[test]
fn anonymous_dev_mode_allows_cross_site() {
    let (_, plan) = resolve_anonymous_user(None, true);
    assert_eq!(plan.unwrap().same_site, SameSitePolicy::AllowCrossSite);
}

#[test]
fn anonymous_request_with_cookie_keeps_it_and_sets_none() {
    let (ctx, plan) = resolve_anonymous_user(Some("abc".to_string()), false);
    assert_eq!(ctx.anonymous_user_id, "abc");
    assert!(plan.is_none());
}

#[test]
fn gate_without_cookie_is_unauthorized() {
    let mut store = ExpiringStore::new();
    let r = session_auth(&mut store, None, 0);
    assert_eq!(r.unwrap_err(), Errors::UserUnauthorized);
}

#[test]
fn gate_with_unknown_token_is_unauthorized() {
    let mut store = ExpiringStore::new();
    let r = session_auth(&mut store, Some("nope".to_string()), 0);
    assert_eq!(r.unwrap_err(), Errors::UserUnauthorized);
}

#[test]
fn gate_with_expired_session_is_unauthorized() {
    let mut store = ExpiringStore::new();
    let cfg = SessionConfig::new(30, false).unwrap();
    let s = SessionService::create_session(
        &mut store,
        &cfg,
        "550e8400-e29b-41d4-a716-446655440000".to_string(),
        None,
        None,
        0,
    );
    let r = session_auth(&mut store, Some(s.session_id.clone()), 2_000);
    assert_eq!(r.unwrap_err(), Errors::UserUnauthorized);
}

#[test]
fn gate_with_corrupted_subject_is_invalid_session_subject() {
    let mut store = ExpiringStore::new();
    let cfg = SessionConfig::new(30, false).unwrap();
    let s = SessionService::create_session(
        &mut store,
        &cfg,
        "not-a-uuid".to_string(),
        None,
        None,
        0,
    );
    let r = session_auth(&mut store, Some(s.session_id.clone()), 10);
    assert_eq!(r.unwrap_err(), Errors::SessionInvalidUserId);
}

#[test]
fn gate_with_valid_session_injects_context() {
    let mut store = ExpiringStore::new();
    let cfg = SessionConfig::new(30, false).unwrap();
    let owner = "550e8400-e29b-41d4-a716-446655440000";
    let s = SessionService::create_session(
        &mut store,
        &cfg,
        owner.to_string(),
        None,
        None,
        0,
    );
    let ctx = session_auth(&mut store, Some(s.session_id.clone()), 10).unwrap();
    assert_eq!(ctx.session_id, s.session_id);
    let expected = uuid::Uuid::parse_str(owner).unwrap().as_u128();
    assert_eq!(ctx.user_id, expected);
    // The successful pass did not refresh the session.
    let got = SessionService::get_session(&mut store, &s.session_id, 10).unwrap();
    assert_eq!(got.expires_at, 30 * 60);
}

#[test]
fn security_schemes_name_both_cookies() {
    let schemes = session_core::openapi::SecurityAddon::cookie_schemes();
    assert_eq!(schemes.len(), 2);
    assert_eq!(schemes[0].0, "anonymous_id_cookie");
    assert_eq!(schemes[0].1, "anonymous_user_id");
    assert_eq!(schemes[1].0, "session_id_cookie");
    assert_eq!(schemes[1].1, "session_id");
}
