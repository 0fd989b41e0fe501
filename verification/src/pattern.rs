//! Regular expressions, matched by the `regex` crate.
//!
//! What a pattern matches is not modelled: the result of each search is
//! given a name, and the rules that use the result are stated over it.

use regex::{Regex, RegexBuilder};
use vstd::prelude::*;

verus! {

/// The error that the `regex` crate reports for a pattern it cannot compile.
#[verifier::external_type_specification]
#[verifier::external_body]
pub struct ExRegexError(regex::Error);

/// Whether a pattern matches anywhere in a text: `None` where the pattern
/// does not compile.
pub uninterp spec fn pattern_matches(pattern: Seq<char>, text: Seq<char>) -> Option<bool>;

/// The groups of the leftmost match of a pattern in a text: `None` where the
/// pattern does not compile, `Some(None)` where it matches nowhere, else the
/// text of every group of the pattern in order, group 0 being the whole
/// match, each `None` where the group took no part in the match.
pub uninterp spec fn pattern_captures(pattern: Seq<char>, case_insensitive: bool, text: Seq<char>) -> Option<
    Option<Seq<Option<Seq<char>>>>,
>;

/// `Regex::new` and `Regex::is_match`: compiles the pattern and tells whether
/// it matches anywhere in the text. The result is named, not described.
#[verifier::external_body]
pub(crate) fn regex_is_match(pattern: &str, text: &str) -> (r: Result<bool, regex::Error>)
    ensures
        match r {
            Ok(b) => pattern_matches(pattern@, text@) == Some(b),
            Err(_) => pattern_matches(pattern@, text@) is None,
        },
{
    Regex::new(pattern).map(|re| re.is_match(text))
}

/// `RegexBuilder::build` and `Regex::captures`: compiles the pattern, with
/// or without regard to case, and returns the text of every group of its
/// leftmost match, as `Captures::iter` gives them. The result is named, not
/// described.
#[verifier::external_body]
pub(crate) fn regex_captures(pattern: &str, case_insensitive: bool, text: &str) -> (r: Result<
    Option<Vec<Option<String>>>,
    regex::Error,
>)
    ensures
        match r {
            Ok(found) => pattern_captures(pattern@, case_insensitive, text@) == Some(found.deep_view()),
            Err(_) => pattern_captures(pattern@, case_insensitive, text@) is None,
        },
{
    let re = RegexBuilder::new(pattern).case_insensitive(case_insensitive).build()?;
    Ok(re.captures(text).map(|c| c.iter().map(|g| g.map(|m| m.as_str().to_string())).collect()))
}

} // verus!
