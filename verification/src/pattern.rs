//! The boundary to the `regex` crate: what is believed of it, and nothing else.

use regex::Regex;
use vstd::prelude::*;

verus! {

/// A compiled regular expression of the `regex` crate. Opaque to the verifier.
#[verifier::external_type_specification]
#[verifier::external_body]
pub struct ExRegex(regex::Regex);

/// The error that the `regex` crate reports for a pattern it cannot compile.
#[verifier::external_type_specification]
#[verifier::external_body]
pub struct ExRegexError(regex::Error);

/// The pattern text that a compiled expression was built from, as
/// `Regex::as_str` reports it.
pub uninterp spec fn pattern_text(re: Regex) -> Seq<char>;

/// Whether a compiled expression matches anywhere in a text: the answer of
/// `Regex::is_match`.
pub uninterp spec fn is_match_of(re: Regex, haystack: Seq<char>) -> bool;

/// Whether `Regex::new` accepts a pattern: the text is well formed and the
/// program compiled from it stays within the size limit that `Regex::new`
/// sets.
pub uninterp spec fn compiles(pattern: Seq<char>) -> bool;

/// `Regex::new` succeeds on the patterns that compile and on no others, and
/// keeps the text it was given: a compiled expression reports that very text
/// as its pattern. Nothing is said of the error it gives otherwise.
pub assume_specification[ Regex::new ](re: &str) -> (r: Result<Regex, regex::Error>)
    ensures
        r is Ok <==> compiles(re@),
        r matches Ok(compiled) ==> pattern_text(compiled) == re@,
;

/// `Regex::is_match` answers as a function of the expression and the text.
pub assume_specification[ Regex::is_match ](re: &Regex, haystack: &str) -> (b: bool)
    ensures
        b == is_match_of(*re, haystack@),
;

} // verus!
