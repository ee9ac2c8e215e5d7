//! Regular expressions, as the `regex` crate compiles and applies them.
//!
//! What a regular expression matches is not modelled here. The result of a
//! replacement has a name, [`replaced`], and the contracts of this crate
//! speak of that name.

use vstd::prelude::*;
use regex::Regex;

verus! {

/// A compiled regular expression of the `regex` crate.
#[verifier::external_type_specification]
#[verifier::external_body]
pub struct ExRegex(regex::Regex);

/// The error that the `regex` crate gives for a pattern it does not compile.
#[verifier::external_type_specification]
#[verifier::external_body]
pub struct ExRegexError(regex::Error);

/// Whether `Regex::new` compiles `pattern`.
pub uninterp spec fn compiles(pattern: Seq<char>) -> bool;

/// The pattern that `re` was compiled from.
pub uninterp spec fn source_of(re: &Regex) -> Seq<char>;

/// What `Regex::replace_all` returns for the regular expression compiled
/// from `pattern`: `haystack` with every non-overlapping match replaced by
/// the expansion of `replacement`.
pub uninterp spec fn replaced(
    pattern: Seq<char>,
    haystack: Seq<char>,
    replacement: Seq<char>,
) -> Seq<char>;

/// Calls `Regex::new`. Whether it succeeds depends on the pattern alone, and
/// the regular expression it returns keeps the pattern as its source.
#[verifier::external_body]
pub(crate) fn compile(pattern: &str) -> (r: Result<Regex, regex::Error>)
    ensures
        r is Ok <==> compiles(pattern@),
        r is Ok ==> source_of(&r->Ok_0) == pattern@,
{
    Regex::new(pattern)
}

/// Calls `Regex::replace_all` with a string as the replacement. The result
/// is a function of the pattern, the haystack and the replacement.
#[verifier::external_body]
pub(crate) fn replace_all(re: &Regex, haystack: &str, replacement: &str) -> (out: String)
    ensures
        out@ == replaced(source_of(re), haystack@, replacement@),
{
    re.replace_all(haystack, replacement).into_owned()
}

/// Calls the `Display` impl of `regex::Error` for the text of an error.
#[verifier::external_body]
pub(crate) fn error_text(err: &regex::Error) -> (text: String) {
    err.to_string()
}

} // verus!
