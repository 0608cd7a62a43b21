use vstd::prelude::*;

verus! {

/// Immutable configuration handed to every session component at startup:
/// the configured session lifetime in minutes and the development-mode
/// flag that relaxes the cookie SameSite policy.
#[derive(Clone, Copy, PartialEq, Eq, Structural, Debug)]
pub struct SessionConfig {
    /// Session lifetime in minutes.
    pub auth_session_expire_time: i64,
    /// Development mode: cookies may travel cross-site.
    pub is_dev: bool,
}

impl SessionConfig {
    /// A usable configuration: the lifetime is at least one minute (so a
    /// fresh record always expires strictly after its creation) and small
    /// enough that the lifetime in seconds fits a signed 64-bit count.
    pub open spec fn wf(self) -> bool {
        1 <= self.auth_session_expire_time
            && self.auth_session_expire_time * 60 <= i64::MAX as int
    }

    /// The configured lifetime in seconds.
    pub open spec fn lifetime_seconds(self) -> int {
        self.auth_session_expire_time * 60
    }

    /// Builds a configuration, rejecting lifetimes that are not positive
    /// or whose second count would overflow.
    pub fn new(auth_session_expire_time: i64, is_dev: bool) -> (r: Option<SessionConfig>)
        ensures
            r is Some <==> (1 <= auth_session_expire_time
                && auth_session_expire_time * 60 <= i64::MAX as int),
            r matches Some(c) ==> c.auth_session_expire_time == auth_session_expire_time
                && c.is_dev == is_dev && c.wf(),
    {
        if auth_session_expire_time >= 1 && auth_session_expire_time <= i64::MAX / 60 {
            Some(SessionConfig { auth_session_expire_time, is_dev })
        } else {
            None
        }
    }
}

} // verus!
