//! Regular expressions.
use regex::Regex;
use vstd::prelude::*;

verus! {

/// `regex::Regex`, a compiled pattern.
#[verifier::external_type_specification]
#[verifier::external_body]
pub struct ExRegex(regex::Regex);

/// The pattern that a regular expression was compiled from.
pub uninterp spec fn regex_pattern(re: Regex) -> Seq<char>;

/// What `regex::Regex::new` says against a pattern; nothing for a valid one.
pub uninterp spec fn regex_error(pattern: Seq<char>) -> Option<Seq<char>>;

/// Whether a regular expression of that pattern matches somewhere in a text, by
/// the rules of `regex`.
pub uninterp spec fn regex_matches(pattern: Seq<char>, haystack: Seq<char>) -> bool;

/// `regex::Regex::new`: the compiled pattern, or the error as text.
#[verifier::external_body]
pub(crate) fn compile_regex(pattern: &str) -> (res: Result<Regex, String>)
    ensures
        match res {
            Ok(re) => regex_error(pattern@) is None && regex_pattern(re) == pattern@,
            Err(e) => regex_error(pattern@) == Some(e@),
        },
{
    Regex::new(pattern).map_err(|e| e.to_string())
}

/// `regex::Regex::is_match`: whether the pattern matches somewhere in a text. What
/// matches is left to the name `regex_matches`.
#[verifier::external_body]
pub(crate) fn regex_is_match(re: &Regex, haystack: &str) -> (res: bool)
    ensures
        res == regex_matches(regex_pattern(*re), haystack@),
{
    re.is_match(haystack)
}

} // verus!
