use vstd::prelude::*;

verus! {

/// What `uuid::Uuid::parse_str` yields on a given string, as the 128-bit
/// value of the identifier: the result is a function of the characters
/// alone, `None` where the string is not a well-formed identifier.
pub uninterp spec fn parsed_uuid(s: Seq<char>) -> Option<u128>;

/// Relies on `uuid::Uuid::new_v4` and its `Display` impl: a fresh random
/// identifier rendered in the hyphenated form, which is 36 characters long.
#[verifier::external_body]
pub(crate) fn fresh_token() -> (r: String)
    ensures
        r@.len() == 36,
{
    uuid::Uuid::new_v4().to_string()
}

/// Relies on `uuid::Uuid::parse_str`: deterministic in the input string;
/// a parsed identifier is handed back as its 128-bit integer form.
#[verifier::external_body]
pub(crate) fn parse_identity(s: &str) -> (r: Option<u128>)
    ensures
        r == parsed_uuid(s@),
{
    match uuid::Uuid::parse_str(s) {
        Ok(u) => Some(u.as_u128()),
        Err(_) => None,
    }
}

} // verus!
