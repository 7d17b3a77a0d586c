//! Regular-expression matching of parameters, through the `regex` crate.

use vstd::prelude::*;

verus! {

/// Pattern accepting non-empty ASCII identifiers: letters, digits, `_` and `-`.
pub open spec fn ident_pattern() -> Seq<char> {
    "^[a-zA-Z0-9_-]+$"@
}

/// Pattern accepting exactly `bybit`.
pub open spec fn exchange_name_pattern() -> Seq<char> {
    "^(bybit)$"@
}

/// Pattern accepting exactly `linear`, `inverse` or `spot`.
pub open spec fn category_pattern() -> Seq<char> {
    "^(linear|inverse|spot)$"@
}

/// Pattern accepting exactly `linear` or `inverse`.
pub open spec fn contract_type_pattern() -> Seq<char> {
    "^(linear|inverse)$"@
}

/// A character of the class `[a-zA-Z0-9_-]`.
pub open spec fn is_ident_char(c: char) -> bool {
    ('a' <= c && c <= 'z') || ('A' <= c && c <= 'Z') || ('0' <= c && c <= '9') || c == '_' || c == '-'
}

/// The whole of `s` matches `[a-zA-Z0-9_-]+`.
pub open spec fn is_ident(s: Seq<char>) -> bool {
    s.len() > 0 && forall|i: int| 0 <= i < s.len() ==> is_ident_char(#[trigger] s[i])
}

/// Name for whether `Regex::new` accepts a pattern.
pub uninterp spec fn regex_compiles(pattern: Seq<char>) -> bool;

/// Name for `Regex::is_match` of a compiled pattern on a haystack.
pub uninterp spec fn regex_matches(pattern: Seq<char>, haystack: Seq<char>) -> bool;

/// Trusted: compiles `pattern` with `regex::Regex::new` and, when it
/// compiles, reports `is_match` on `haystack`. For the anchored patterns
/// this crate uses, the result is stated by the regex syntax: `^`/`$`
/// anchor at the ends of the haystack, a class with `+` accepts one or more
/// of its characters, and a group of alternatives accepts exactly one of them.
#[verifier::external_body]
pub fn regex_is_match(pattern: &str, haystack: &str) -> (r: Option<bool>)
    ensures
        r is Some <==> regex_compiles(pattern@),
        r matches Some(b) ==> b == regex_matches(pattern@, haystack@),
        pattern@ == ident_pattern() ==> r == Some(is_ident(haystack@)),
        pattern@ == exchange_name_pattern() ==> r == Some(haystack@ == "bybit"@),
        pattern@ == category_pattern() ==> r == Some(
            haystack@ == "linear"@ || haystack@ == "inverse"@ || haystack@ == "spot"@,
        ),
        pattern@ == contract_type_pattern() ==> r == Some(haystack@ == "linear"@ || haystack@ == "inverse"@),
{
    regex::Regex::new(pattern).ok().map(|re| re.is_match(haystack))
}

} // verus!
