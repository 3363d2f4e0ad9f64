//! Escaping of literal text for use inside a search pattern, done by the
//! pattern library and specified here exactly.

use vstd::prelude::*;

verus! {

/// A character with significance in a search pattern. The set is the pattern
/// library's documented meta-character set, fixed across compatible
/// releases.
pub open spec fn is_pattern_meta(c: char) -> bool {
    c == '\\' || c == '.' || c == '+' || c == '*' || c == '?' || c == '(' || c == ')' || c == '|'
        || c == '[' || c == ']' || c == '{' || c == '}' || c == '^' || c == '$' || c == '#'
        || c == '&' || c == '-' || c == '~'
}

/// What one character contributes to the escaped pattern: a meta character
/// gains a preceding backslash, every other character is kept.
pub open spec fn esc_meta_char(c: char) -> Seq<char> {
    if is_pattern_meta(c) {
        seq!['\\', c]
    } else {
        seq![c]
    }
}

/// Literal text escaped so that a pattern matcher reads it verbatim.
pub open spec fn spec_pattern_escape(s: Seq<char>) -> Seq<char>
    decreases s.len(),
{
    if s.len() == 0 {
        Seq::empty()
    } else {
        esc_meta_char(s[0]) + spec_pattern_escape(s.drop_first())
    }
}

/// Relies on regex::escape: every character of its fixed meta-character set
/// (`\ . + * ? ( ) | [ ] { } ^ $ # & - ~`) gains a preceding backslash, and
/// every other character is kept as it is.
#[verifier::external_body]
pub(crate) fn pattern_escape(s: &str) -> (r: String)
    ensures
        r@ == spec_pattern_escape(s@),
{
    regex::escape(s)
}

} // verus!
