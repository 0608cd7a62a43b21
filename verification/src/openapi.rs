use vstd::prelude::*;

verus! {

/// The registration of this subsystem's security schemes: both
/// credentials travel in cookies. The library states which cookie
/// carries which credential; the HTTP layer copies that into its API
/// description.
pub struct SecurityAddon;

impl SecurityAddon {
    /// The cookie-borne security schemes, as (scheme name, cookie name)
    /// pairs: the anonymous identity cookie and the session cookie.
    pub fn cookie_schemes() -> (r: Vec<(String, String)>)
        ensures
            r@.len() == 2,
            r@[0].0@ == "anonymous_id_cookie"@,
            r@[0].1@ == "anonymous_user_id"@,
            r@[1].0@ == "session_id_cookie"@,
            r@[1].1@ == "session_id"@,
    {
        let mut r: Vec<(String, String)> = Vec::new();
        r.push(("anonymous_id_cookie".to_owned(), "anonymous_user_id".to_owned()));
        r.push(("session_id_cookie".to_owned(), "session_id".to_owned()));
        r
    }
}

} // verus!
