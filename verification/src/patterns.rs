//! Regular-expression name matching, built on the `regex` crate.
//!
//! The compiled matcher is opaque here: the contracts speak of the pattern
//! text a matcher was built from, and of named match relations over plain
//! character sequences.

use vstd::prelude::*;
use vstd::string::*;

verus! {

#[verifier::external_type_specification]
#[verifier::external_body]
pub struct ExRegex(regex::Regex);

/// Whether regular-expression compilation accepts the pattern: valid
/// syntax, within the compiler's default size limit.
pub uninterp spec fn regex_accepts(pat: Seq<char>) -> bool;

/// The pattern text a compiled matcher was built from.
pub uninterp spec fn regex_pattern(re: regex::Regex) -> Seq<char>;

/// Whether the pattern has a match anywhere within the text.
pub uninterp spec fn regex_matches_within(pat: Seq<char>, text: Seq<char>) -> bool;

/// Relies on regex::Regex::new: it returns Ok exactly for the patterns the
/// compiler accepts, and the compiled matcher keeps the pattern it was
/// given (which regex::Regex::as_str hands back).
#[verifier::external_body]
pub(crate) fn compile_regex(pat: &str) -> (r: Option<regex::Regex>)
    ensures
        r is Some <==> regex_accepts(pat@),
        r is Some ==> regex_pattern(r->0) == pat@,
{
    regex::Regex::new(pat).ok()
}

/// Relies on regex::Regex::is_match: true if and only if there is a match
/// for the compiled pattern anywhere in the haystack.
#[verifier::external_body]
pub(crate) fn regex_is_match(re: &regex::Regex, text: &str) -> (b: bool)
    ensures
        b == regex_matches_within(regex_pattern(*re), text@),
{
    re.is_match(text)
}

/// The pattern wrapped in an anchored non-capturing group, so that only a
/// match over the whole text counts.
pub open spec fn anchored(pat: Seq<char>) -> Seq<char> {
    "^(?:"@ + pat + ")$"@
}

/// Builds the anchored form of a pattern.
pub fn anchor_pattern(pat: &str) -> (r: String)
    ensures
        r@ == anchored(pat@),
{
    let mut s = String::from_str("^(?:");
    s.append(pat);
    s.append(")$");
    s
}

} // verus!
