//! Unicode character classes and case mappings, taken from `std`. Their
//! tables are far too large to restate, so each result is named here and
//! the trusted items below tie the named results to the calls that compute
//! them.

use vstd::prelude::*;

use crate::text::{ascii_lower, ascii_lower_seq};

verus! {

/// Result of `char::is_alphanumeric` (Unicode `Alphabetic` or `Numeric`).
pub uninterp spec fn unicode_alphanumeric(c: char) -> bool;

/// Result of `char::is_alphabetic` (Unicode `Alphabetic`).
pub uninterp spec fn unicode_alphabetic(c: char) -> bool;

/// Result of `char::to_lowercase`: the lower-case mapping of one character.
pub uninterp spec fn unicode_char_lower(c: char) -> Seq<char>;

/// Result of `str::to_lowercase`: the lower-case mapping of a whole text
/// (which, unlike the per-character mapping, treats a final sigma specially).
pub uninterp spec fn unicode_str_lower(s: Seq<char>) -> Seq<char>;

/// An ASCII character.
pub open spec fn is_ascii_char(c: char) -> bool {
    (c as u32) < 128
}

/// An ASCII letter.
pub open spec fn ascii_alpha(c: char) -> bool {
    ('a' <= c <= 'z') || ('A' <= c <= 'Z')
}

/// An ASCII letter or digit.
pub open spec fn ascii_alnum(c: char) -> bool {
    ascii_alpha(c) || ('0' <= c <= '9')
}

/// `char::is_alphanumeric`: the named Unicode property of `c`; on ASCII the
/// letters and digits (the ASCII characters of Unicode `Alphabetic` and
/// `Numeric`).
#[verifier::external_body]
pub(crate) fn is_alphanumeric(c: char) -> (r: bool)
    ensures
        r == unicode_alphanumeric(c),
        is_ascii_char(c) ==> r == ascii_alnum(c),
{
    c.is_alphanumeric()
}

/// `char::is_alphabetic`: the named Unicode property of `c`; on ASCII the
/// letters.
#[verifier::external_body]
pub(crate) fn is_alphabetic(c: char) -> (r: bool)
    ensures
        r == unicode_alphabetic(c),
        is_ascii_char(c) ==> r == ascii_alpha(c),
{
    c.is_alphabetic()
}

/// `char::to_lowercase`, collected. The documentation promises one or more
/// characters; which ones is the named mapping. An ASCII character maps to
/// its ASCII lower case, which maps to itself and is a letter or digit
/// exactly when the character is.
#[verifier::external_body]
pub(crate) fn char_to_lower(c: char) -> (r: Vec<char>)
    ensures
        r@ == unicode_char_lower(c),
        r@.len() >= 1,
        is_ascii_char(c) ==> r@ == seq![ascii_lower(c)] && unicode_char_lower(r@[0]) == r@
            && unicode_alphanumeric(r@[0]) == ascii_alnum(c),
{
    c.to_lowercase().collect()
}

/// `str::to_lowercase`: the named mapping of the input text; on an ASCII
/// text the ASCII lower case.
#[verifier::external_body]
pub(crate) fn str_to_lower(s: &str) -> (r: String)
    ensures
        r@ == unicode_str_lower(s@),
        (forall|i: int| 0 <= i < s@.len() ==> is_ascii_char(#[trigger] s@[i])) ==> r@
            == ascii_lower_seq(s@),
{
    s.to_lowercase()
}

} // verus!
