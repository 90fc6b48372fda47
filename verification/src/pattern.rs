//! Regular expressions.
//!
//! Matching is left to the `regex` crate; what a pattern matches is named
//! here, not stated.

use vstd::prelude::*;

verus! {

/// Whether `pattern` matches somewhere in `text`; `None` where `pattern`
/// is no regular expression.
pub uninterp spec fn regex_match(pattern: Seq<char>, text: Seq<char>) -> Option<bool>;

/// What the capture group `group` holds in the first match of `pattern` in
/// `text`; `None` where `pattern` is no regular expression, where nothing
/// matches, and where the group took no part in the match.
pub uninterp spec fn regex_group(pattern: Seq<char>, text: Seq<char>, group: usize) -> Option<
    Seq<char>,
>;

/// Whether `pattern` matches somewhere in `text`.
///
/// Trusted: calls `regex::Regex::new`, which is an error for a text that is
/// no regular expression, and `Regex::is_match`.  The contract only names
/// the outcome.
#[verifier::external_body]
pub(crate) fn is_match(pattern: &str, text: &str) -> (r: Option<bool>)
    ensures
        r == regex_match(pattern@, text@),
{
    regex::Regex::new(pattern).ok().map(|re| re.is_match(text))
}

/// What a capture group holds in the first match of `pattern` in `text`.
///
/// Trusted: calls `regex::Regex::new`, `Regex::captures` and `Captures::get`,
/// each of which may find nothing, and copies the matched text.  The contract
/// only names the outcome.
#[verifier::external_body]
pub(crate) fn capture(pattern: &str, text: &str, group: usize) -> (r: Option<String>)
    ensures
        match r {
            Some(s) => regex_group(pattern@, text@, group) == Some(s@),
            None => regex_group(pattern@, text@, group) is None,
        },
{
    regex::Regex::new(pattern).ok()?.captures(text)?.get(group).map(|m| m.as_str().to_string())
}

/// Whether `pattern` is a regular expression that matches somewhere in `text`.
pub open spec fn pattern_matches(pattern: Seq<char>, text: Seq<char>) -> bool {
    regex_match(pattern, text) == Some(true)
}

/// Whether `pattern` is a regular expression that matches somewhere in `text`.
pub fn matches_pattern(pattern: &str, text: &str) -> (r: bool)
    ensures
        r == pattern_matches(pattern@, text@),
{
    match is_match(pattern, text) {
        Some(b) => b,
        None => false,
    }
}

} // verus!
