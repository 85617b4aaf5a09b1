//! URL well-formedness, decided by the `url` crate.

use vstd::prelude::*;

verus! {

/// Whether a string parses as a well-formed URL.  The answer depends on the
/// characters alone; it is pinned down only by the `url` crate's parser.
pub uninterp spec fn url_ok(s: Seq<char>) -> bool;

/// Relies on url::Url::parse: whether parsing succeeds is a function of the
/// input characters alone.
#[verifier::external_body]
fn parse_url_ok(s: &str) -> (r: bool)
    ensures
        r == url_ok(s@),
{
    url::Url::parse(s).is_ok()
}

/// Reports whether the input is a well-formed URL.
pub fn validate_url(input: &str) -> (r: bool)
    ensures
        r == url_ok(input@),
{
    parse_url_ok(input)
}

} // verus!
