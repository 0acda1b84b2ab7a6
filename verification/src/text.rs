//! Tests of one text against another, as the standard library makes them.

use vstd::prelude::*;

verus! {

/// The lower-case form of an ASCII capital; any other character unchanged.
pub open spec fn ascii_lower(c: char) -> char {
    if 'A' <= c && c <= 'Z' {
        ((c as u8 + 32) as u8) as char
    } else {
        c
    }
}

/// A text with each ASCII capital in lower case.
pub open spec fn ascii_lowercase(s: Seq<char>) -> Seq<char> {
    s.map_values(|c: char| ascii_lower(c))
}

/// Whether `pattern` stands in `text` at some position, as a run of
/// consecutive characters.
pub open spec fn occurs_in(pattern: Seq<char>, text: Seq<char>) -> bool {
    exists|i: int|
        0 <= i && i + pattern.len() <= text.len() && #[trigger] text.subrange(
            i,
            i + pattern.len(),
        ) == pattern
}

/// The lower-case form of a text under the Unicode case mapping that the
/// standard library carries.
pub uninterp spec fn lowercase(s: Seq<char>) -> Seq<char>;

/// `str`'s `==`: true exactly when both hold the same characters.
#[verifier::external_body]
pub(crate) fn str_eq(a: &str, b: &str) -> (r: bool)
    ensures
        r == (a@ == b@),
{
    a == b
}

/// `str::eq_ignore_ascii_case`: true exactly when both texts are equal once
/// the ASCII capitals of each are put in lower case.
#[verifier::external_body]
pub(crate) fn eq_ignore_ascii_case(a: &str, b: &str) -> (r: bool)
    ensures
        r == (ascii_lowercase(a@) == ascii_lowercase(b@)),
{
    a.eq_ignore_ascii_case(b)
}

/// `str::starts_with` with a text pattern: true exactly when the pattern is a
/// prefix of the text.
#[verifier::external_body]
pub(crate) fn starts_with(text: &str, pattern: &str) -> (r: bool)
    ensures
        r == pattern@.is_prefix_of(text@),
{
    text.starts_with(pattern)
}

/// `str::ends_with` with a text pattern: true exactly when the pattern is a
/// suffix of the text.
#[verifier::external_body]
pub(crate) fn ends_with(text: &str, pattern: &str) -> (r: bool)
    ensures
        r == pattern@.is_suffix_of(text@),
{
    text.ends_with(pattern)
}

/// `str::contains` with a text pattern: true exactly when the pattern occurs
/// somewhere in the text.
#[verifier::external_body]
pub(crate) fn contains(text: &str, pattern: &str) -> (r: bool)
    ensures
        r == occurs_in(pattern@, text@),
{
    text.contains(pattern)
}

/// `str::to_lowercase`: the result is the lower-case form of the text, which
/// depends on the text alone.
#[verifier::external_body]
pub(crate) fn to_lowercase(text: &str) -> (r: String)
    ensures
        r@ == lowercase(text@),
{
    text.to_lowercase()
}

} // verus!
