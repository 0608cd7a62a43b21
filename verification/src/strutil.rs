use vstd::prelude::*;

verus! {

/// `p` is the sequence the characters of `s` begin with.
pub open spec fn is_prefix_of(p: Seq<char>, s: Seq<char>) -> bool {
    p.len() <= s.len() && s.subrange(0, p.len() as int) == p
}

/// Relies on `str::starts_with` with a string pattern: true exactly when
/// the pattern matches a prefix of the string slice.
#[verifier::external_body]
pub(crate) fn starts_with_prefix(s: &String, prefix: &String) -> (r: bool)
    ensures
        r == is_prefix_of(prefix@, s@),
{
    s.as_str().starts_with(prefix.as_str())
}

/// Relies on `str::eq`: string slices compare equal exactly when their
/// characters do.
#[verifier::external_body]
pub(crate) fn str_eq(a: &str, b: &str) -> (r: bool)
    ensures
        r == (a@ == b@),
{
    a == b
}

} // verus!
