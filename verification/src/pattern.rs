//! Compiled text patterns: the interface to the `regex` crate.
//!
//! Nothing in this module is proved. Each item states what the `regex` crate
//! documents, over two names: what a pattern captures in a text, and what is
//! left of a text once the matches of a pattern are replaced.

use vstd::prelude::*;
use regex::Regex;

verus! {

/// `regex::Regex`, a compiled pattern. Its inside is not looked at.
#[verifier::external_type_specification]
#[verifier::external_body]
pub struct ExRegex(regex::Regex);

/// `regex::Error`, the reason why a pattern did not compile. Its inside is
/// not looked at.
#[verifier::external_type_specification]
#[verifier::external_body]
pub struct ExRegexError(regex::Error);

/// The pattern text that `re` was compiled from by `Regex::new`; `None` for a
/// pattern that was configured in any other way.
pub uninterp spec fn compiled_from(re: Regex) -> Option<Seq<char>>;

/// Whether `Regex::new` accepts `pattern`: the pattern is well formed and
/// the compiled program stays within the default size limit.
pub uninterp spec fn rule_compiles(pattern: Seq<char>) -> bool;

/// The successive non-overlapping matches of `pattern` in `text`, in order of
/// position. Each match lists the text of every capture group, the whole
/// match at index 0; a group that took no part in the match is `None`.
pub uninterp spec fn pattern_captures(pattern: Seq<char>, text: Seq<char>) -> Seq<
    Seq<Option<Seq<char>>>,
>;

/// `text` with every non-overlapping match of `pattern` replaced by the
/// expansion of `replacement`.
pub uninterp spec fn pattern_replaced(
    pattern: Seq<char>,
    text: Seq<char>,
    replacement: Seq<char>,
) -> Seq<char>;

/// `Regex::new` compiles a pattern with the default configuration. Whether
/// it succeeds depends on the pattern alone, and on success the compiled
/// pattern stands for the text it was given.
pub assume_specification[ regex::Regex::new ](re: &str) -> (r: Result<Regex, regex::Error>)
    ensures
        r is Ok <==> rule_compiles(re@),
        r matches Ok(compiled) ==> compiled_from(compiled) == Some(re@),
;

/// `Regex::captures_iter`, with each `Captures` turned into the text of its
/// groups (`Captures::iter`, `Match::as_str`): the result is what the pattern
/// captures in `text`.
#[verifier::external_body]
pub(crate) fn captures_in(re: &Regex, text: &str) -> (r: Vec<Vec<Option<String>>>)
    requires
        compiled_from(*re) is Some,
    ensures
        r.deep_view() == pattern_captures(compiled_from(*re)->0, text@),
{
    re.captures_iter(text).map(
        |c| c.iter().map(|g| g.map(|m| m.as_str().to_string())).collect(),
    ).collect()
}

/// `Regex::replace_all`: the result is `text` with all matches replaced.
#[verifier::external_body]
pub(crate) fn replace_in(re: &Regex, text: &str, replacement: &str) -> (r: String)
    requires
        compiled_from(*re) is Some,
    ensures
        r@ == pattern_replaced(compiled_from(*re)->0, text@, replacement@),
{
    re.replace_all(text, replacement).into_owned()
}

/// The `Display` text of a compilation error. Nothing is claimed of it.
#[verifier::external_body]
pub(crate) fn error_text(e: &regex::Error) -> String {
    e.to_string()
}

} // verus!
