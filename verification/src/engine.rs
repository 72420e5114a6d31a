//! The regular-expression engine that does the per-segment matching.
//!
//! Everything in this file is believed, not proved: it states what the
//! `regex` crate does, in the few terms the rest of the library needs.

use regex::Regex;
use vstd::prelude::*;

verus! {

/// `regex::Regex`, a compiled regular expression. Nothing of its inside is
/// visible to the proofs; a value is only handed from where it is built to
/// where it is used.
#[verifier::external_type_specification]
#[verifier::external_body]
pub struct ExRegex(regex::Regex);

/// `regex::Error`, the reason for which the engine refused a source text.
#[verifier::external_type_specification]
#[verifier::external_body]
pub struct ExRegexError(regex::Error);

/// What `Regex::new` returns for a source text: the compiled expression, or
/// the engine's reason for refusing the text. Two expressions compiled from
/// one source text cannot be told apart by any call that this library makes,
/// so they count as the same value.
pub uninterp spec fn regex_new(source: Seq<char>) -> Result<Regex, regex::Error>;

/// What `Regex::is_match` returns: whether the expression matches somewhere
/// in the haystack.
pub uninterp spec fn regex_is_match(re: Regex, haystack: Seq<char>) -> bool;

/// What formatting a `regex::Error` with `Display` yields.
pub uninterp spec fn regex_error_text(err: regex::Error) -> Seq<char>;

/// The characters that mean something to the engine and that
/// `regex::escape` therefore puts a backslash in front of.
pub open spec fn is_meta_character(c: char) -> bool {
    c == '\\' || c == '.' || c == '+' || c == '*' || c == '?' || c == '(' || c == ')' || c == '|'
        || c == '[' || c == ']' || c == '{' || c == '}' || c == '^' || c == '$' || c == '#' || c
        == '&' || c == '-' || c == '~'
}

/// One character as it stands in an escaped text.
pub open spec fn escaped_char(c: char) -> Seq<char> {
    if is_meta_character(c) {
        seq!['\\', c]
    } else {
        seq![c]
    }
}

/// A text with each of its meta characters escaped, so that the engine
/// reads it as a literal.
pub open spec fn escaped(text: Seq<char>) -> Seq<char>
    decreases text.len(),
{
    if text.len() == 0 {
        Seq::empty()
    } else {
        escaped(text.drop_last()) + escaped_char(text.last())
    }
}

/// `Regex::new` compiles with the engine's default options and limits, all
/// of them fixed in the engine, so its outcome is determined by the source
/// text alone. A text that the engine cannot read, or whose compiled form
/// would pass the engine's size limit, is answered with an error.
pub assume_specification[ Regex::new ](re: &str) -> (compiled: Result<Regex, regex::Error>)
    ensures
        compiled == regex_new(re@),
;

/// `Regex::is_match` searches the whole haystack from its start and reports
/// whether any match exists; it depends on the expression and the haystack
/// only.
pub assume_specification[ Regex::is_match ](re: &Regex, haystack: &str) -> (found: bool)
    ensures
        found == regex_is_match(*re, haystack@),
;

/// `regex::escape` copies the text character by character and writes a
/// backslash before each meta character.
pub assume_specification[ regex::escape ](pattern: &str) -> (quoted: String)
    ensures
        quoted@ == escaped(pattern@),
;

/// The engine's own words for an error, as `Display` for `regex::Error`
/// writes them.
#[verifier::external_body]
pub(crate) fn error_text(err: &regex::Error) -> (text: String)
    ensures
        text@ == regex_error_text(*err),
{
    err.to_string()
}

} // verus!
