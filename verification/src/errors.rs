use vstd::prelude::*;

verus! {

/// The errors the session subsystem surfaces to the HTTP layer. How each
/// maps to a status code is the outer server's concern.
#[derive(Clone, Copy, PartialEq, Eq, Structural, Debug)]
pub enum Errors {
    /// No usable session: the cookie is missing, or the session is absent
    /// or expired.
    UserUnauthorized,
    /// A session record was found but its stored subject cannot be read as
    /// an identity reference: corrupted or tampered store data.
    SessionInvalidUserId,
    /// A failure of the backing store or of serialization.
    SysInternalError,
}

} // verus!
