//! Identifiers of an application precomputed for matching: its bundle
//! identifier and names in normal form and the variants derived from them.

use vstd::prelude::*;

use crate::format::{normal_form, pear_format, stripping_trailing_digits, without_trailing_version};
use crate::model::AppInfo;
use crate::paths::{file_name, file_name_of};
use crate::text::{
    append_chars, chars_eq, chars_eq_str, chars_of, join, join_chars, lemma_split_len, opt_seq,
    replace_all, replace_chars, split, split_char, sseqs, string_of, vseqs,
};
use crate::unicode::{is_alphabetic, str_to_lower, unicode_alphabetic, unicode_str_lower};

verus! {

/// Identifiers derived from an `AppInfo`, all in normal form.
#[derive(Clone, Debug)]
pub struct CachedIdentifiers {
    pub formatted_bundle_id: String,
    pub bundle_last_two_components: String,
    pub formatted_app_name: String,
    pub formatted_app_name_stripped: Option<String>,
    pub app_name_letters_only: String,
    pub path_component_name: String,
    pub use_bundle_identifier: bool,
    pub formatted_company_name: Option<String>,
    pub formatted_entitlements: Vec<String>,
    pub formatted_team_identifier: Option<String>,
    pub formatted_base_bundle_id: Option<String>,
}

/// The dot-separated components of a bundle identifier other than `-`,
/// lower-cased.
pub open spec fn lowered_components(pieces: Seq<Seq<char>>) -> Seq<Seq<char>>
    decreases pieces.len(),
{
    if pieces.len() == 0 {
        Seq::empty()
    } else {
        let p = lowered_components(pieces.drop_last());
        if pieces.last() == seq!['-'] {
            p
        } else {
            p.push(unicode_str_lower(pieces.last()))
        }
    }
}

/// The last two of `cs` concatenated (fewer when there are fewer).
pub open spec fn last_two_joined(cs: Seq<Seq<char>>) -> Seq<char> {
    if cs.len() >= 2 {
        cs[cs.len() - 2] + cs[cs.len() - 1]
    } else if cs.len() == 1 {
        cs[0]
    } else {
        Seq::empty()
    }
}

/// The letters of `s`.
pub open spec fn letters_only(s: Seq<char>) -> Seq<char>
    decreases s.len(),
{
    if s.len() == 0 {
        Seq::empty()
    } else if unicode_alphabetic(s.last()) {
        letters_only(s.drop_last()).push(s.last())
    } else {
        letters_only(s.drop_last())
    }
}

/// The non-empty normal forms of `es`, in order.
pub open spec fn formatted_names(es: Seq<Seq<char>>) -> Seq<Seq<char>>
    decreases es.len(),
{
    if es.len() == 0 {
        Seq::empty()
    } else {
        let p = formatted_names(es.drop_last());
        if normal_form(es.last()).len() == 0 {
            p
        } else {
            p.push(normal_form(es.last()))
        }
    }
}

/// Final components of helper bundle identifiers ("com.x.app.helper").
pub open spec fn is_common_suffix(s: Seq<char>) -> bool {
    ||| s == "helper"@
    ||| s == "agent"@
    ||| s == "daemon"@
    ||| s == "service"@
    ||| s == "xpc"@
    ||| s == "launcher"@
    ||| s == "updater"@
    ||| s == "installer"@
    ||| s == "uninstaller"@
    ||| s == "login"@
    ||| s == "extension"@
    ||| s == "plugin"@
}

/// Whether `s` is a helper suffix (see `is_common_suffix`).
pub fn common_suffix(s: &[char]) -> (r: bool)
    ensures
        r == is_common_suffix(s@),
{
    chars_eq_str(s, "helper") || chars_eq_str(s, "agent") || chars_eq_str(s, "daemon")
        || chars_eq_str(s, "service") || chars_eq_str(s, "xpc") || chars_eq_str(s, "launcher")
        || chars_eq_str(s, "updater") || chars_eq_str(s, "installer") || chars_eq_str(
        s,
        "uninstaller",
    ) || chars_eq_str(s, "login") || chars_eq_str(s, "extension") || chars_eq_str(s, "plugin")
}

/// Normal form of the bundle identifier without a helper suffix, for
/// identifiers of four or more components that end in one.
pub open spec fn base_bundle_id(raw: Seq<Seq<char>>) -> Option<Seq<char>> {
    if raw.len() >= 4 && is_common_suffix(unicode_str_lower(raw.last())) {
        Some(normal_form(join(raw.drop_last(), '.')))
    } else {
        None
    }
}

/// The version-less application name in normal form, when it differs from the
/// plain normal form and is not empty.
pub open spec fn stripped_name(name: Seq<char>) -> Option<Seq<char>> {
    let st = normal_form(without_trailing_version(name));
    if st != normal_form(name) && st.len() != 0 {
        Some(st)
    } else {
        None
    }
}

/// The bundle's file name without `.app` (every occurrence), in normal form.
pub open spec fn path_component(path: Seq<char>) -> Seq<char> {
    match file_name(path) {
        Some(n) => normal_form(replace_all(n, ".app"@, Seq::empty())),
        None => Seq::empty(),
    }
}

/// Whether the bundle identifier is usable for matching: a single-component
/// identifier needs at least five characters.
pub open spec fn usable_bundle_id(bid: Seq<char>) -> bool {
    split(bid, '.').len() == 1 ==> bid.len() >= 5
}

/// The company component of a three-component bundle identifier.
pub open spec fn company_name(bid: Seq<char>) -> Option<Seq<char>> {
    if split(bid, '.').len() == 3 {
        Some(normal_form(split(bid, '.')[1]))
    } else {
        None
    }
}

/// `CachedIdentifiers::from_app_info` computes exactly these values.
pub open spec fn identifiers_of(app: AppInfo, ids: CachedIdentifiers) -> bool {
    let bid = app.bundle_identifier@;
    &&& ids.formatted_bundle_id@ == normal_form(bid)
    &&& ids.bundle_last_two_components@ == last_two_joined(lowered_components(split(bid, '.')))
    &&& ids.formatted_app_name@ == normal_form(app.app_name@)
    &&& ids.app_name_letters_only@ == letters_only(normal_form(app.app_name@))
    &&& ids.path_component_name@ == path_component(app.path@)
    &&& ids.use_bundle_identifier == usable_bundle_id(bid)
    &&& opt_seq(ids.formatted_company_name) == company_name(bid)
    &&& sseqs(ids.formatted_entitlements@) == formatted_names(sseqs(app.entitlements@))
    &&& opt_seq(ids.formatted_team_identifier) == match app.team_identifier {
        Some(t) => Some(normal_form(t@)),
        None => None,
    }
    &&& opt_seq(ids.formatted_base_bundle_id) == base_bundle_id(split(bid, '.'))
    &&& opt_seq(ids.formatted_app_name_stripped) == stripped_name(app.app_name@)
}

/// The lower-cased components of a bundle identifier other than `-`.
fn lowered_components_of(raw: &Vec<Vec<char>>) -> (r: Vec<Vec<char>>)
    ensures
        vseqs(r@) == lowered_components(vseqs(raw@)),
{
    let mut r: Vec<Vec<char>> = Vec::new();
    let mut i: usize = 0;
    let dash = ['-'];
    assert(dash@ =~= seq!['-']);
    while i < raw.len()
        invariant
            i <= raw.len(),
            dash@ == seq!['-'],
            vseqs(r@) == lowered_components(vseqs(raw@).take(i as int)),
        decreases raw.len() - i,
    {
        assert(vseqs(raw@).take(i + 1).drop_last() =~= vseqs(raw@).take(i as int));
        assert(vseqs(raw@).take(i + 1).last() == raw@[i as int]@);
        if !chars_eq(raw[i].as_slice(), dash.as_slice()) {
            let piece = string_of(raw[i].as_slice());
            let lower = str_to_lower(piece.as_str());
            let ghost prev = r@;
            r.push(chars_of(lower.as_str()));
            assert(vseqs(r@) =~= vseqs(prev).push(unicode_str_lower(raw@[i as int]@)));
        }
        i = i + 1;
    }
    assert(vseqs(raw@).take(raw.len() as int) =~= vseqs(raw@));
    r
}

/// The letters of `s` (see `letters_only`).
fn letters_of(s: &[char]) -> (r: Vec<char>)
    ensures
        r@ == letters_only(s@),
{
    let mut r: Vec<char> = Vec::new();
    let mut i: usize = 0;
    while i < s.len()
        invariant
            i <= s.len(),
            r@ == letters_only(s@.take(i as int)),
        decreases s.len() - i,
    {
        assert(s@.take(i + 1).drop_last() =~= s@.take(i as int));
        if is_alphabetic(s[i]) {
            r.push(s[i]);
        }
        i = i + 1;
    }
    assert(s@.take(s.len() as int) =~= s@);
    r
}

/// The non-empty normal forms of `es` (see `formatted_names`).
fn formatted_names_of(es: &Vec<String>) -> (r: Vec<String>)
    ensures
        sseqs(r@) == formatted_names(sseqs(es@)),
{
    let mut r: Vec<String> = Vec::new();
    let mut i: usize = 0;
    while i < es.len()
        invariant
            i <= es.len(),
            sseqs(r@) == formatted_names(sseqs(es@).take(i as int)),
        decreases es.len() - i,
    {
        assert(sseqs(es@).take(i + 1).drop_last() =~= sseqs(es@).take(i as int));
        assert(sseqs(es@).take(i + 1).last() == es@[i as int]@);
        let f = pear_format(es[i].as_str());
        if f.as_str().is_empty() {
        } else {
            let ghost prev = r@;
            r.push(f);
            assert(sseqs(r@) =~= sseqs(prev).push(normal_form(es@[i as int]@)));
        }
        i = i + 1;
    }
    assert(sseqs(es@).take(es.len() as int) =~= sseqs(es@));
    r
}

impl CachedIdentifiers {
    /// The identifiers of an application (see `identifiers_of`).
    pub fn from_app_info(app: &AppInfo) -> (ids: CachedIdentifiers)
        ensures
            identifiers_of(*app, ids),
    {
        let bid = chars_of(app.bundle_identifier.as_str());
        let formatted_bundle_id = pear_format(app.bundle_identifier.as_str());

        let raw = split_char(bid.as_slice(), '.');
        proof {
            lemma_split_len(bid@, '.');
        }
        let lowered = lowered_components_of(&raw);
        let n = lowered.len();
        let mut two: Vec<char> = Vec::new();
        if n >= 2 {
            append_chars(&mut two, lowered[n - 2].as_slice());
            append_chars(&mut two, lowered[n - 1].as_slice());
        } else if n == 1 {
            append_chars(&mut two, lowered[0].as_slice());
        }
        let bundle_last_two_components = string_of(two.as_slice());

        let formatted_app_name = pear_format(app.app_name.as_str());
        let fan = chars_of(formatted_app_name.as_str());
        let app_name_letters_only = string_of(letters_of(fan.as_slice()).as_slice());

        let path = chars_of(app.path.as_str());
        let path_component_name = match file_name_of(path.as_slice()) {
            Some(name) => {
                let dot_app = chars_of(".app");
                proof {
                    reveal_strlit(".app");
                }
                let empty: Vec<char> = Vec::new();
                let replaced = replace_chars(name.as_slice(), dot_app.as_slice(), empty.as_slice());
                assert(empty@ =~= Seq::<char>::empty());
                pear_format(string_of(replaced.as_slice()).as_str())
            },
            None => String::new(),
        };

        let use_bundle_identifier = if raw.len() == 1 {
            bid.len() >= 5
        } else {
            true
        };

        let formatted_company_name = if raw.len() == 3 {
            Some(pear_format(string_of(raw[1].as_slice()).as_str()))
        } else {
            None
        };

        let formatted_entitlements = formatted_names_of(&app.entitlements);

        let formatted_team_identifier = match &app.team_identifier {
            Some(t) => Some(pear_format(t.as_str())),
            None => None,
        };

        let formatted_base_bundle_id = if raw.len() >= 4 {
            let last = str_to_lower(string_of(raw[raw.len() - 1].as_slice()).as_str());
            let last_chars = chars_of(last.as_str());
            if common_suffix(last_chars.as_slice()) {
                let joined = join_chars(&raw, raw.len() - 1, '.');
                assert(vseqs(raw@).take(raw.len() - 1) =~= vseqs(raw@).drop_last());
                Some(pear_format(string_of(joined.as_slice()).as_str()))
            } else {
                None
            }
        } else {
            None
        };

        let stripped = pear_format(stripping_trailing_digits(app.app_name.as_str()).as_str());
        let st = chars_of(stripped.as_str());
        let formatted_app_name_stripped = if !chars_eq(st.as_slice(), fan.as_slice()) && st.len()
            != 0 {
            Some(stripped)
        } else {
            None
        };

        CachedIdentifiers {
            formatted_bundle_id,
            bundle_last_two_components,
            formatted_app_name,
            formatted_app_name_stripped,
            app_name_letters_only,
            path_component_name,
            use_bundle_identifier,
            formatted_company_name,
            formatted_entitlements,
            formatted_team_identifier,
            formatted_base_bundle_id,
        }
    }
}

} // verus!
