use vstd::prelude::*;
use crate::session::opt_str_view;

verus! {

/// The user-agent string to record for a request: the header's value,
/// or the empty string where the header is absent.
pub fn extract_user_agent(user_agent: Option<String>) -> (r: String)
    ensures
        (match opt_str_view(user_agent) {
            Some(v) => r@ == v,
            None => r@.len() == 0,
        }),
{
    match user_agent {
        Some(v) => v,
        None => String::new(),
    }
}

} // verus!
