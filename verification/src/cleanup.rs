//! The cleanup pass: generated text loses the stretches that look like the
//! end of a sentence and are none, before its boundaries are counted.

use vstd::prelude::*;
use regex::Regex;

verus! {

/// What matches this pattern is taken out of the generated text: an
/// abbreviation of single letters or digits with its periods, a decimal
/// number, and a capitalized abbreviation with the blank and the letter that
/// follow its period.
pub const CLEANUP_PATTERN: &'static str =
    r"([a-zA-Z0-9]?\.[a-zA-Z0-9]*\.|[0-9]+\.[0-9]*|[A-Z]+[a-z]*\.\s[a-zA-Z]{1})";

/// What takes the place of a match: nothing.
pub const CLEANUP_REPLACEMENT: &'static str = "";

/// Why the cleanup pass gave no text.
#[derive(Clone, Copy, Debug, PartialEq, Eq, Structural)]
pub enum CleanupError {
    /// The cleanup pattern was not accepted as a regular expression.
    InvalidPattern,
}

/// The error of `regex::Regex::new`, carried through as it is: nothing is
/// known of what it holds.
#[verifier::external_type_specification]
#[verifier::external_body]
pub struct ExRegexError(regex::Error);

/// Whether `regex::Regex::new` accepts `pattern`.
pub uninterp spec fn pattern_compiles(pattern: Seq<char>) -> bool;

/// What `regex::Regex::replace_all` makes of `haystack`, for the expression
/// compiled from `pattern` and the replacement `replacement`.
pub uninterp spec fn pattern_replaced(
    pattern: Seq<char>,
    haystack: Seq<char>,
    replacement: Seq<char>,
) -> Seq<char>;

/// Compiles `pattern` with `regex::Regex::new` and replaces each of its
/// matches in `haystack` with `regex::Regex::replace_all`. Trusted: the call
/// fails exactly where the pattern is not accepted, with the error of
/// `Regex::new`, and the text that comes back is a function of the three
/// arguments alone.
#[verifier::external_body]
fn replace_all(pattern: &str, haystack: &str, replacement: &str) -> (out: Result<String, regex::Error>)
    ensures
        out is Ok <==> pattern_compiles(pattern@),
        out matches Ok(text) ==> text@ == pattern_replaced(pattern@, haystack@, replacement@),
{
    let expression = Regex::new(pattern)?;
    Ok(expression.replace_all(haystack, replacement).into_owned())
}

/// `text` without the matches of `pattern`.
pub open spec fn without_matches(pattern: Seq<char>, text: Seq<char>) -> Seq<char> {
    pattern_replaced(pattern, text, CLEANUP_REPLACEMENT@)
}

/// The cleaned form of `text`.
pub open spec fn cleaned_text(text: Seq<char>) -> Seq<char> {
    without_matches(CLEANUP_PATTERN@, text)
}

/// Takes out of `text` every stretch that matches `pattern`. Fails where
/// `pattern` is not accepted as a regular expression, and only there.
pub fn remove_matches(pattern: &str, text: &str) -> (out: Result<String, CleanupError>)
    ensures
        out is Ok <==> pattern_compiles(pattern@),
        out matches Ok(cleaned) ==> cleaned@ == without_matches(pattern@, text@),
        out matches Err(error) ==> error == CleanupError::InvalidPattern,
{
    match replace_all(pattern, text, CLEANUP_REPLACEMENT) {
        Ok(cleaned) => Ok(cleaned),
        Err(_) => Err(CleanupError::InvalidPattern),
    }
}

/// Takes out of generated text every stretch that matches the cleanup
/// pattern. Fails where that pattern is not accepted as a regular expression,
/// and only there.
pub fn clean_generated_text(text: &str) -> (out: Result<String, CleanupError>)
    ensures
        out is Ok <==> pattern_compiles(CLEANUP_PATTERN@),
        out matches Ok(cleaned) ==> cleaned@ == cleaned_text(text@),
        out matches Err(error) ==> error == CleanupError::InvalidPattern,
{
    remove_matches(CLEANUP_PATTERN, text)
}

/// Cleaning depends on the text alone: whenever the same text is cleaned
/// again, the outcome is the same.
pub proof fn cleaning_repeats(
    text: Seq<char>,
    first: Result<Seq<char>, CleanupError>,
    second: Result<Seq<char>, CleanupError>,
)
    requires
        cleaning_outcome(text, first),
        cleaning_outcome(text, second),
    ensures
        first == second,
{
}

/// `outcome` is what cleaning `text` gives, the cleaned text taken by its
/// characters.
pub open spec fn cleaning_outcome(text: Seq<char>, outcome: Result<Seq<char>, CleanupError>) -> bool {
    &&& outcome is Ok <==> pattern_compiles(CLEANUP_PATTERN@)
    &&& outcome matches Ok(cleaned) ==> cleaned == cleaned_text(text)
    &&& outcome matches Err(error) ==> error == CleanupError::InvalidPattern
}

} // verus!
