use vstd::prelude::*;
use crate::errors::Errors;
use crate::service::{opt_session_view, spec_get_result, spec_get_store, SessionService};
use crate::session::{Session, SessionContext};
use crate::store::ExpiringStore;
use crate::token;
use crate::token::parsed_uuid;

verus! {

/// The answer a protected route owes once the session lookup is
/// complete: nothing found is `UserUnauthorized`; a record whose stored
/// subject is not a well-formed identity reference is
/// `SessionInvalidUserId` — corrupted or tampered store data, kept
/// distinct from a merely missing session; otherwise the identity
/// context.
pub open spec fn spec_authorize(
    session_id: Seq<char>,
    fetched: Option<crate::session::SessionView>,
    r: Result<SessionContext, Errors>,
) -> bool {
    match fetched {
        None => r == Err::<SessionContext, Errors>(Errors::UserUnauthorized),
        Some(rec) => match parsed_uuid(rec.user_id) {
            None => r == Err::<SessionContext, Errors>(Errors::SessionInvalidUserId),
            Some(u) => r matches Ok(ctx) && ctx.user_id == u && ctx.session_id@ == session_id,
        },
    }
}

/// Resolves the outcome of a session fetch: parses the stored subject
/// as an identity reference and builds the immutable context, or
/// rejects with the matching error.
pub fn authorize_fetched(session_id: String, fetched: Option<Session>) -> (r: Result<
    SessionContext,
    Errors,
>)
    ensures
        spec_authorize(session_id@, opt_session_view(fetched), r),
{
    match fetched {
        None => Err(Errors::UserUnauthorized),
        Some(session) => match token::parse_identity(session.user_id.as_str()) {
            None => Err(Errors::SessionInvalidUserId),
            Some(user_id) => Ok(SessionContext { user_id, session_id }),
        },
    }
}

/// The authentication gate for a protected route. Each step is an exit
/// point: no cookie fails with `UserUnauthorized` and touches nothing;
/// otherwise the session is fetched with lazy expiry (an expired record
/// is deleted on the spot), and the fetched record is judged as
/// `authorize_fetched` does. No implicit refresh happens on success.
pub fn session_auth(store: &mut ExpiringStore, session_cookie: Option<String>, now: i64) -> (r:
    Result<SessionContext, Errors>)
    requires
        old(store).wf(),
    ensures
        final(store).wf(),
        (match session_cookie {
            None => r == Err::<SessionContext, Errors>(Errors::UserUnauthorized)
                && final(store)@ == old(store)@,
            Some(sid) => {
                &&& final(store)@ == spec_get_store(old(store)@, sid@, now as int)
                &&& spec_authorize(
                    sid@,
                    spec_get_result(old(store)@, sid@, now as int),
                    r,
                )
            },
        }),
{
    match session_cookie {
        None => Err(Errors::UserUnauthorized),
        Some(session_id) => {
            let fetched = SessionService::get_session(store, session_id.as_str(), now);
            authorize_fetched(session_id, fetched)
        },
    }
}

} // verus!
