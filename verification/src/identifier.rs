//! Keys that need no quotes.
use vstd::prelude::*;

verus! {

/// The identifiers of JavaScript, as far as they are ASCII.
pub const JS_IDENTIFIER: &'static str = "^[_$a-zA-Z][_$a-zA-Z0-9]*$";

/// Whether a character can start an identifier.
pub open spec fn starts_identifier(c: char) -> bool {
    c == '_' || c == '$' || ('a' <= c && c <= 'z') || ('A' <= c && c <= 'Z')
}

/// Whether a text is an identifier.
pub open spec fn is_identifier(s: Seq<char>) -> bool {
    &&& s.len() > 0
    &&& starts_identifier(s[0])
    &&& forall|i: int|
        1 <= i < s.len() ==> starts_identifier(#[trigger] s[i]) || ('0' <= s[i] && s[i] <= '9')
}

/// Calls `regex::Regex::new` and `regex::Regex::is_match`. The pattern for identifiers is valid,
/// and it matches a text that has one character of its first class and then only characters of its
/// second: without flags `^` and `$` stand for the two ends of the text.
#[verifier::external_body]
fn regex_is_match(pattern: &str, s: &str) -> (r: bool)
    requires
        pattern@ == JS_IDENTIFIER@,
    ensures
        r == is_identifier(s@),
{
    regex::Regex::new(pattern).unwrap().is_match(s)
}

/// Whether a key is an identifier, so that it can stand without quotes.
pub fn is_js_identifier(key: &str) -> (r: bool)
    ensures
        r == is_identifier(key@),
{
    regex_is_match(JS_IDENTIFIER, key)
}

} // verus!
