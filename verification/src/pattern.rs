//! Regular expressions from the `regex` crate. A compiled expression is kept
//! with its source text so that what a match computes can be named as a
//! function of plain values: the source, the text and the replacement.

use vstd::prelude::*;

use crate::text::sseqs;

verus! {

#[verifier::external_type_specification]
#[verifier::external_body]
pub struct ExRegex(regex::Regex);

/// Whether `regex::Regex::new` accepts the pattern.
pub uninterp spec fn regex_compiles(pattern: Seq<char>) -> bool;

/// Result of `Regex::replace_all` for the expression compiled from `pattern`.
pub uninterp spec fn regex_replace_all(pattern: Seq<char>, text: Seq<char>, rep: Seq<char>) -> Seq<
    char,
>;

/// Result of `Regex::is_match` for the expression compiled from `pattern`.
pub uninterp spec fn regex_matches(pattern: Seq<char>, text: Seq<char>) -> bool;

/// Result of `Regex::split` for the expression compiled from `pattern`: the
/// pieces of the text between matches.
pub uninterp spec fn regex_pieces(pattern: Seq<char>, text: Seq<char>) -> Seq<Seq<char>>;

/// The characters `regex::escape` puts a backslash before.
pub open spec fn regex_meta(c: char) -> bool {
    c == '\\' || c == '.' || c == '+' || c == '*' || c == '?' || c == '(' || c == ')' || c == '|'
        || c == '[' || c == ']' || c == '{' || c == '}' || c == '^' || c == '$' || c == '#' || c
        == '&' || c == '-' || c == '~'
}

/// Result of `regex::escape`: the text with a backslash before every meta
/// character, every other character copied.
pub open spec fn regex_escaped(text: Seq<char>) -> Seq<char>
    decreases text.len(),
{
    if text.len() == 0 {
        Seq::empty()
    } else {
        regex_escaped(text.drop_last()) + if regex_meta(text.last()) {
            seq!['\\', text.last()]
        } else {
            seq![text.last()]
        }
    }
}

/// A compiled regular expression and the text it was compiled from.
pub struct Pattern {
    source: String,
    compiled: regex::Regex,
}

impl Pattern {
    /// The source text of the expression.
    pub closed spec fn source(&self) -> Seq<char> {
        self.source@
    }
}

/// `regex::Regex::new`: `Some` exactly when the crate accepts the pattern; the
/// result remembers the pattern's text.
#[verifier::external_body]
pub(crate) fn compile(pattern: &str) -> (r: Option<Pattern>)
    ensures
        r is Some <==> regex_compiles(pattern@),
        r matches Some(p) ==> p.source() == pattern@,
{
    match regex::Regex::new(pattern) {
        Ok(compiled) => Some(Pattern { source: pattern.to_string(), compiled }),
        Err(_) => None,
    }
}

/// `Regex::replace_all`; the contract claims only that the result is the named
/// function of the expression's source, the text and the replacement.
#[verifier::external_body]
pub(crate) fn replace_all(p: &Pattern, text: &str, rep: &str) -> (r: String)
    ensures
        r@ == regex_replace_all(p.source(), text@, rep@),
{
    p.compiled.replace_all(text, rep).into_owned()
}

/// `Regex::is_match`; the contract claims only that the answer is the named
/// function of the expression's source and the text.
#[verifier::external_body]
pub(crate) fn is_match(p: &Pattern, text: &str) -> (r: bool)
    ensures
        r == regex_matches(p.source(), text@),
{
    p.compiled.is_match(text)
}

/// `Regex::split`; the contract claims only that the pieces are the named
/// function of the expression's source and the text.
#[verifier::external_body]
pub(crate) fn split_by(p: &Pattern, text: &str) -> (r: Vec<String>)
    ensures
        sseqs(r@) == regex_pieces(p.source(), text@),
{
    p.compiled.split(text).map(String::from).collect()
}

/// `regex::escape`: a backslash before each of the eighteen meta characters
/// of `regex_syntax::is_meta_character`, every other character copied.
#[verifier::external_body]
pub(crate) fn escape(text: &str) -> (r: String)
    ensures
        r@ == regex_escaped(text@),
{
    regex::escape(text)
}

} // verus!
