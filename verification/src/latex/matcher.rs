//! Pattern matching by the `regex` crate.
//!
//! The two functions of this module are trusted: their bodies call the crate,
//! and their contracts state what its source shows, without proof.

use vstd::prelude::*;

verus! {

/// The characters that have a meaning of their own in a pattern.
pub open spec fn is_meta_character(c: char) -> bool {
    c == '\\' || c == '.' || c == '+' || c == '*' || c == '?' || c == '(' || c == ')' || c == '|'
        || c == '[' || c == ']' || c == '{' || c == '}' || c == '^' || c == '$' || c == '#' || c
        == '&' || c == '-' || c == '~'
}

/// The text with a backslash before each of its meta characters.
pub open spec fn escaped(text: Seq<char>) -> Seq<char>
    decreases text.len(),
{
    if text.len() == 0 {
        Seq::empty()
    } else if is_meta_character(text.last()) {
        escaped(text.drop_last()).push('\\').push(text.last())
    } else {
        escaped(text.drop_last()).push(text.last())
    }
}

/// What matching a pattern against a text gives: nothing where the pattern
/// does not compile, because it is no valid expression or because the
/// compiled expression is over the size limit; else the successive matches
/// that do not overlap,
/// in the order in which they stand in the text, each as the texts of its
/// groups, the whole match first, with nothing for a group that took no part.
pub uninterp spec fn regex_captures(pattern: Seq<char>, haystack: Seq<char>) -> Option<
    Seq<Seq<Option<Seq<char>>>>,
>;

/// `regex::escape`: puts a backslash before every meta character of the
/// text and leaves the other characters as they are.
#[verifier::external_body]
pub(crate) fn escape_pattern(text: &str) -> (r: String)
    ensures
        r@ == escaped(text@),
{
    regex::escape(text)
}

/// `Regex::new` and `Regex::captures_iter`: compiles the pattern and collects
/// the groups of every match. The result depends on the pattern and the text
/// alone.
#[verifier::external_body]
pub(crate) fn captures(pattern: &str, haystack: &str) -> (r: Option<Vec<Vec<Option<String>>>>)
    ensures
        r.deep_view() == regex_captures(pattern@, haystack@),
{
    let re = match regex::Regex::new(pattern) {
        Ok(re) => re,
        Err(_) => return None,
    };
    Some(
        re.captures_iter(haystack).map(
            |c| c.iter().map(|m| m.map(|m| m.as_str().to_string())).collect(),
        ).collect(),
    )
}

} // verus!
