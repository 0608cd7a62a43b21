use vstd::prelude::*;
use vstd::string::StringExecFns;
use crate::token;

verus! {

/// The view of an optional string: its characters, if it is there.
pub open spec fn opt_str_view(o: Option<String>) -> Option<Seq<char>> {
    match o {
        Some(s) => Some(s@),
        None => None,
    }
}

/// The store key under which a session with the given identifier lives.
pub open spec fn session_key(session_id: Seq<char>) -> Seq<char> {
    "session:"@ + session_id
}

/// Spec-level image of a session record: every field as a plain value.
pub struct SessionView {
    pub session_id: Seq<char>,
    pub user_id: Seq<char>,
    pub created_at: int,
    pub expires_at: int,
    pub user_agent: Option<Seq<char>>,
    pub ip_address: Option<Seq<char>>,
}

/// An authenticated session: a server-tracked, time-bounded proof of a
/// prior successful login, identified by an opaque token. Timestamps are
/// UTC seconds; a record is expired once the clock lies strictly beyond
/// `expires_at`.
#[derive(Debug)]
pub struct Session {
    pub session_id: String,
    pub user_id: String,
    pub created_at: i64,
    pub expires_at: i64,
    pub user_agent: Option<String>,
    pub ip_address: Option<String>,
}

impl View for Session {
    type V = SessionView;

    open spec fn view(&self) -> SessionView {
        SessionView {
            session_id: self.session_id@,
            user_id: self.user_id@,
            created_at: self.created_at as int,
            expires_at: self.expires_at as int,
            user_agent: opt_str_view(self.user_agent),
            ip_address: opt_str_view(self.ip_address),
        }
    }
}

impl Clone for Session {
    fn clone(&self) -> (r: Self)
        ensures
            r@ == self@,
    {
        Session {
            session_id: self.session_id.clone(),
            user_id: self.user_id.clone(),
            created_at: self.created_at,
            expires_at: self.expires_at,
            user_agent: match &self.user_agent {
                Some(s) => Some(s.clone()),
                None => None,
            },
            ip_address: match &self.ip_address {
                Some(s) => Some(s.clone()),
                None => None,
            },
        }
    }
}

impl Session {
    /// A fresh record for the given owner: a newly generated opaque token,
    /// created now, expiring `expire_minutes` from now, with no client
    /// metadata yet.
    pub fn new(user_id: String, expire_minutes: i64, now: i64) -> (r: Session)
        requires
            1 <= expire_minutes,
            expire_minutes * 60 <= i64::MAX as int,
            now + expire_minutes * 60 <= i64::MAX as int,
        ensures
            r@.session_id.len() == 36,
            r@.user_id == user_id@,
            r@.created_at == now as int,
            r@.expires_at == now + expire_minutes * 60,
            r@.created_at < r@.expires_at,
            r@.user_agent is None,
            r@.ip_address is None,
    {
        let expires_at: i64 = now + expire_minutes * 60;
        Session {
            session_id: token::fresh_token(),
            user_id,
            created_at: now,
            expires_at,
            user_agent: None,
            ip_address: None,
        }
    }

    /// The same record with the client metadata filled in; the metadata is
    /// informational only and never used for validation.
    pub fn with_client_info(
        self,
        user_agent: Option<String>,
        ip_address: Option<String>,
    ) -> (r: Session)
        ensures
            r@.session_id == self@.session_id,
            r@.user_id == self@.user_id,
            r@.created_at == self@.created_at,
            r@.expires_at == self@.expires_at,
            r@.user_agent == opt_str_view(user_agent),
            r@.ip_address == opt_str_view(ip_address),
    {
        Session { user_agent, ip_address, ..self }
    }

    /// Expiry is a strict bound: the boundary instant itself is still valid.
    pub fn is_expired(&self, now: i64) -> (r: bool)
        ensures
            r == (now > self@.expires_at),
    {
        now > self.expires_at
    }

    /// The store key this record lives under.
    pub fn redis_key(&self) -> (r: String)
        ensures
            r@ == session_key(self@.session_id),
    {
        key_for(self.session_id.as_str())
    }
}

/// The store key for a session identifier.
pub(crate) fn key_for(session_id: &str) -> (r: String)
    ensures
        r@ == session_key(session_id@),
{
    let mut k: String = "session:".to_owned();
    k.append(session_id);
    k
}

/// The verified identity a passed authentication gate injects for the
/// handlers downstream: the parsed owner identity and the raw token.
#[derive(Debug)]
pub struct SessionContext {
    /// The session owner, as the 128-bit value of its identity reference.
    pub user_id: u128,
    /// The opaque token the request presented.
    pub session_id: String,
}

} // verus!
