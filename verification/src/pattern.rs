//! Regular-expression patterns, compiled and searched by the `regex` crate.

use vstd::prelude::*;

verus! {

/// Declares `regex::Regex`, a compiled regular expression, as an opaque
/// type.
#[verifier::external_type_specification]
#[verifier::external_body]
pub struct ExRegex(regex::Regex);

/// Declares `regex::Error`, the reason why a pattern did not compile, as an
/// opaque type.
#[verifier::external_type_specification]
#[verifier::external_body]
pub struct ExRegexError(regex::Error);

/// The pattern text that a compiled regular expression was built from, as
/// `regex::Regex::as_str` returns it.
pub uninterp spec fn regex_source(re: regex::Regex) -> Seq<char>;

/// Whether the `regex` crate compiles this pattern text.
pub uninterp spec fn regex_accepts(pattern: Seq<char>) -> bool;

/// The byte offsets at which the successive non-overlapping, leftmost-first
/// matches of a pattern start in a text.
pub uninterp spec fn regex_match_starts(pattern: Seq<char>, text: Seq<char>) -> Seq<usize>;

/// Calls `regex::RegexBuilder::new(pattern).build()`.
///
/// Trusted: the outcome depends on the pattern text alone, and a compiled
/// expression keeps that text as its source.
#[verifier::external_body]
pub(crate) fn build_regex(pattern: &str) -> (r: Result<regex::Regex, regex::Error>)
    ensures
        r.is_ok() == regex_accepts(pattern@),
        r matches Ok(re) ==> regex_source(re) == pattern@,
{
    regex::RegexBuilder::new(pattern).build()
}

/// Renders a `regex::Error` through its `Display` impl. Nothing is claimed
/// of the text.
#[verifier::external_body]
pub(crate) fn regex_error_text(e: &regex::Error) -> (s: String) {
    format!("{}", e)
}

/// Calls `regex::Regex::find_iter` and collects `Match::start` of each match.
///
/// Trusted: the offsets depend on the expression's source and the text alone.
#[verifier::external_body]
pub(crate) fn find_starts(re: &regex::Regex, text: &str) -> (starts: Vec<usize>)
    ensures
        starts@ == regex_match_starts(regex_source(*re), text@),
{
    re.find_iter(text).map(|m| m.start()).collect()
}

} // verus!
