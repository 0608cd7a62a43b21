use vstd::prelude::*;
use crate::token;

verus! {

/// The anonymous identity attached to every request: a bare correlation
/// token with no authentication meaning, persisted only in the client's
/// cookie.
pub struct AnonymousUserContext {
    pub anonymous_user_id: String,
}

/// How a response cookie restricts cross-site delivery.
#[derive(Clone, Copy, PartialEq, Eq, Structural, Debug)]
pub enum SameSitePolicy {
    /// Delivered cross-site: needed for local cross-port development.
    AllowCrossSite,
    /// Tightened for production.
    Lax,
}

/// A response cookie the middleware asks the HTTP layer to set.
pub struct CookiePlan {
    pub name: String,
    pub value: String,
    pub http_only: bool,
    pub secure: bool,
    pub same_site: SameSitePolicy,
    pub path: String,
    pub max_age_seconds: i64,
}

/// Seconds in the 365 days an anonymous cookie lives.
pub const ANONYMOUS_COOKIE_MAX_AGE_SECONDS: i64 = 31536000;

/// Resolves the anonymous identity of one request. A request that already
/// carries the cookie keeps its value unchanged and gets no response
/// cookie — the resolver never overwrites an existing value. A request
/// without it gets a freshly minted token and exactly one response
/// cookie carrying that same token: http-only, secure, a year long,
/// cross-site only in development mode.
pub fn resolve_anonymous_user(existing_cookie: Option<String>, is_dev: bool) -> (r: (
    AnonymousUserContext,
    Option<CookiePlan>,
))
    ensures
        (match existing_cookie {
            Some(v) => r.0.anonymous_user_id@ == v@ && r.1 is None,
            None => {
                &&& r.0.anonymous_user_id@.len() == 36
                &&& r.1 matches Some(plan) && plan.name@ == "anonymous_user_id"@
                    && plan.value@ == r.0.anonymous_user_id@
                    && plan.http_only
                    && plan.secure
                    && plan.same_site == (if is_dev {
                        SameSitePolicy::AllowCrossSite
                    } else {
                        SameSitePolicy::Lax
                    })
                    && plan.path@ == "/"@
                    && plan.max_age_seconds == ANONYMOUS_COOKIE_MAX_AGE_SECONDS
            },
        }),
{
    match existing_cookie {
        Some(value) => {
            (AnonymousUserContext { anonymous_user_id: value }, None)
        },
        None => {
            let fresh = token::fresh_token();
            let plan = CookiePlan {
                name: "anonymous_user_id".to_owned(),
                value: fresh.clone(),
                http_only: true,
                secure: true,
                same_site: if is_dev {
                    SameSitePolicy::AllowCrossSite
                } else {
                    SameSitePolicy::Lax
                },
                path: "/".to_owned(),
                max_age_seconds: ANONYMOUS_COOKIE_MAX_AGE_SECONDS,
            };
            (AnonymousUserContext { anonymous_user_id: fresh }, Some(plan))
        },
    }
}

} // verus!
