//! Name normalisation: the form in which bundle identifiers, application
//! names and file names are compared.

use vstd::prelude::*;

use crate::pattern::{compile, regex_compiles, regex_replace_all, replace_all};
use crate::text::{chars_of, string_of, trim, trim_chars};
use crate::unicode::{
    char_to_lower, is_alphanumeric, is_ascii_char, unicode_alphanumeric, unicode_char_lower,
};

verus! {

/// The letters and digits of `s`, each replaced by its lower-case mapping.
pub open spec fn alnum_lower(s: Seq<char>) -> Seq<char>
    decreases s.len(),
{
    if s.len() == 0 {
        Seq::empty()
    } else {
        let p = alnum_lower(s.drop_last());
        if unicode_alphanumeric(s.last()) {
            p + unicode_char_lower(s.last())
        } else {
            p
        }
    }
}

/// Normal form of a name: its letters and digits, lower-cased; a name with
/// none of them is kept as it is (so that it never becomes the empty name).
pub open spec fn normal_form(s: Seq<char>) -> Seq<char> {
    if alnum_lower(s).len() == 0 {
        s
    } else {
        alnum_lower(s)
    }
}

/// A character that is a letter or digit and its own lower-case mapping.
pub open spec fn lower_fixed(d: char) -> bool {
    unicode_alphanumeric(d) && unicode_char_lower(d) == seq![d]
}

/// A text of such characters is its own `alnum_lower`.
proof fn lemma_alnum_lower_fixed(t: Seq<char>)
    requires
        forall|k: int| 0 <= k < t.len() ==> lower_fixed(#[trigger] t[k]),
    ensures
        alnum_lower(t) == t,
    decreases t.len(),
{
    if t.len() > 0 {
        assert forall|k: int| 0 <= k < t.drop_last().len() implies lower_fixed(
            #[trigger] t.drop_last()[k],
        ) by {
            assert(t.drop_last()[k] == t[k]);
        }
        lemma_alnum_lower_fixed(t.drop_last());
        assert(lower_fixed(t[t.len() - 1]));
        assert(t.drop_last() + seq![t.last()] =~= t);
    }
}

/// Normal form of a name (see `normal_form`). On ASCII text the normal form
/// is its own normal form.
pub fn pear_format(s: &str) -> (r: String)
    ensures
        r@ == normal_form(s@),
        (forall|i: int| 0 <= i < s@.len() ==> is_ascii_char(#[trigger] s@[i])) ==> normal_form(
            r@,
        ) == r@,
{
    let v = chars_of(s);
    let mut out: Vec<char> = Vec::new();
    let mut i: usize = 0;
    while i < v.len()
        invariant
            v@ == s@,
            i <= v.len(),
            out@ == alnum_lower(v@.take(i as int)),
            (forall|k: int| 0 <= k < i ==> is_ascii_char(#[trigger] v@[k])) ==> forall|k: int|
                0 <= k < out@.len() ==> lower_fixed(#[trigger] out@[k]),
        decreases v.len() - i,
    {
        let c = v[i];
        assert(v@.take(i + 1).drop_last() =~= v@.take(i as int));
        if is_alphanumeric(c) {
            let lower = char_to_lower(c);
            let ghost before = out@;
            crate::text::append_chars(&mut out, lower.as_slice());
            proof {
                if forall|k: int| 0 <= k < i + 1 ==> is_ascii_char(#[trigger] v@[k]) {
                    assert(is_ascii_char(v@[i as int]));
                    assert(lower_fixed(lower@[0]));
                    assert forall|k: int| 0 <= k < out@.len() implies lower_fixed(#[trigger] out@[k]) by {
                        if k < before.len() {
                            assert(forall|m: int| 0 <= m < i ==> is_ascii_char(#[trigger] v@[m]));
                            assert(out@[k] == before[k]);
                        } else {
                            assert(out@[k] == lower@[0]);
                        }
                    }
                }
            }
        }
        i = i + 1;
    }
    assert(v@.take(v.len() as int) =~= v@);
    proof {
        if forall|k: int| 0 <= k < s@.len() ==> is_ascii_char(#[trigger] s@[k]) {
            assert(forall|k: int| 0 <= k < v.len() ==> is_ascii_char(#[trigger] v@[k]));
            lemma_alnum_lower_fixed(out@);
        }
    }
    if out.len() == 0 {
        string_of(v.as_slice())
    } else {
        string_of(out.as_slice())
    }
}

/// A name without letters or digits has an empty `alnum_lower`.
pub proof fn lemma_alnum_lower_none(s: Seq<char>)
    requires
        forall|i: int| 0 <= i < s.len() ==> !unicode_alphanumeric(#[trigger] s[i]),
    ensures
        alnum_lower(s).len() == 0,
    decreases s.len(),
{
    if s.len() > 0 {
        assert forall|i: int| 0 <= i < s.drop_last().len() implies !unicode_alphanumeric(
            #[trigger] s.drop_last()[i],
        ) by {
            assert(s.drop_last()[i] == s[i]);
        }
        lemma_alnum_lower_none(s.drop_last());
        assert(!unicode_alphanumeric(s[s.len() - 1]));
    }
}

/// The normal form of a name is empty only for the empty name, and it is the
/// name itself exactly when the name holds no letter or digit.
pub proof fn law_normal_form_nonempty(s: Seq<char>)
    ensures
        normal_form(s).len() == 0 <==> s.len() == 0,
        (forall|i: int| 0 <= i < s.len() ==> !unicode_alphanumeric(#[trigger] s[i]))
            ==> normal_form(s) == s,
{
    if forall|i: int| 0 <= i < s.len() ==> !unicode_alphanumeric(#[trigger] s[i]) {
        lemma_alnum_lower_none(s);
    }
}

/// Source of the trailing-version expression: white space, digits, dotted
/// digit groups and optional white space at the end of the text.
pub open spec fn trailing_version_source() -> Seq<char> {
    seq!['\\', 's', '+', '\\', 'd', '+', '(', '\\', '.', '\\', 'd', '+', ')', '*', '\\', 's', '*', '$']
}

/// A name without its trailing version number, trimmed ("Firefox 120.0" becomes
/// "Firefox").
pub open spec fn without_trailing_version(s: Seq<char>) -> Seq<char> {
    if regex_compiles(trailing_version_source()) {
        trim(regex_replace_all(trailing_version_source(), s, Seq::empty()))
    } else {
        trim(s)
    }
}

/// A name without its trailing version number (see `without_trailing_version`).
pub fn stripping_trailing_digits(s: &str) -> (r: String)
    ensures
        r@ == without_trailing_version(s@),
{
    let src = "\\s+\\d+(\\.\\d+)*\\s*$";
    proof {
        reveal_strlit("\\s+\\d+(\\.\\d+)*\\s*$");
        reveal_strlit("");
    }
    assert(src@ =~= trailing_version_source());
    match compile(src) {
        Some(p) => {
            let replaced = replace_all(&p, s, "");
            assert(""@ =~= Seq::<char>::empty());
            let v = chars_of(replaced.as_str());
            let t = trim_chars(v.as_slice());
            string_of(t.as_slice())
        },
        None => {
            let v = chars_of(s);
            let t = trim_chars(v.as_slice());
            string_of(t.as_slice())
        },
    }
}

} // verus!
