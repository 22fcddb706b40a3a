//! The trusted boundary to the regular-expression engine. Whether a
//! pattern compiles, and whether it matches somewhere in a text, are
//! functions of the pattern and the text alone; the two names below stand
//! for those results, and the two wrappers are the only places the engine
//! is called.

use vstd::prelude::*;

verus! {

/// Whether the regular-expression engine accepts `pattern`.
pub uninterp spec fn regex_valid(pattern: Seq<char>) -> bool;

/// Whether the valid pattern `pattern` matches anywhere in `text`.
pub uninterp spec fn regex_match(pattern: Seq<char>, text: Seq<char>) -> bool;

/// Relies on regex::Regex::new: compilation succeeds or fails on the
/// pattern alone.
#[verifier::external_body]
pub(crate) fn pattern_is_valid(pattern: &str) -> (r: bool)
    ensures
        r == regex_valid(pattern@),
{
    regex::Regex::new(pattern).is_ok()
}

/// Relies on regex::Regex::new and regex::Regex::is_match: for a valid
/// pattern, whether a match exists anywhere in the haystack depends on the
/// pattern and the haystack alone.
#[verifier::external_body]
pub(crate) fn pattern_matches(pattern: &str, text: &str) -> (r: bool)
    requires
        regex_valid(pattern@),
    ensures
        r == regex_match(pattern@, text@),
{
    match regex::Regex::new(pattern) {
        Ok(re) => re.is_match(text),
        Err(_) => false,
    }
}

} // verus!
