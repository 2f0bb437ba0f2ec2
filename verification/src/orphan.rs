//! Orphaned files: items of the search folders that belong to no installed
//! application. An item is kept as an orphan unless it is a known system
//! item, relates to an installed application (one of its identifiers occurs
//! in the item's normal-form path, or it is the container of one), or an
//! installed application's rules claim it.

use vstd::prelude::*;

use crate::format::{normal_form, pear_format};
use crate::model::{AppInfo, Condition};
use crate::order::{sort_dedup, strictly_sorted};
use crate::paths::{file_name, file_name_of, file_stem, file_stem_of, parent, parent_of};
use crate::pattern::{compile, escape, is_match, regex_escaped, regex_matches, Pattern};
use crate::text::{
    any_sub, ascii_lower_seq, chars_eq_str, chars_of, contains, contains_str, has_any_sub, has_sub,
    join, sseqs, starts, starts_with_str, string_of, to_ascii_lower_chars,
};

verus! {

// ---------------------------------------------------------------------------
// Names
// ---------------------------------------------------------------------------

/// An ASCII hexadecimal digit.
pub open spec fn hex_char(c: char) -> bool {
    ('0' <= c <= '9') || ('a' <= c <= 'f') || ('A' <= c <= 'F')
}

/// A UUID written without dashes: 32 hexadecimal digits.
pub open spec fn uuid_formatted(s: Seq<char>) -> bool {
    s.len() == 32 && forall|i: int| 0 <= i < s.len() ==> hex_char(#[trigger] s[i])
}

/// A name is UUID-formatted exactly when it has 32 characters, each a
/// decimal digit or a letter from `a` to `f` in either case; changing the
/// case of its ASCII letters keeps it so.
pub proof fn law_uuid_names(s: Seq<char>)
    ensures
        uuid_formatted(s) <==> (s.len() == 32 && forall|i: int|
            0 <= i < s.len() ==> (('0' <= #[trigger] s[i] && s[i] <= '9') || ('a' <= s[i] && s[i]
                <= 'f') || ('A' <= s[i] && s[i] <= 'F'))),
        uuid_formatted(s) ==> uuid_formatted(ascii_lower_seq(s)),
{
    if uuid_formatted(s) {
        let l = ascii_lower_seq(s);
        assert forall|i: int| 0 <= i < l.len() implies hex_char(#[trigger] l[i]) by {
            let c = s[i];
            assert(hex_char(c));
            if 'A' <= c <= 'F' {
                assert(('A' as u32) <= (c as u32) <= ('F' as u32));
                assert(((c as u32) + 32) as char >= 'a');
                assert(((c as u32) + 32) as char <= 'f');
            }
        }
    }
}

/// Whether a name is a UUID without dashes (see `uuid_formatted`).
pub fn is_uuid_formatted(file_name: &str) -> (r: bool)
    ensures
        r == uuid_formatted(file_name@),
{
    let s = chars_of(file_name);
    if s.len() != 32 {
        return false;
    }
    let mut i: usize = 0;
    while i < s.len()
        invariant
            i <= s.len(),
            s@ == file_name@,
            s.len() == 32,
            forall|k: int| 0 <= k < i ==> hex_char(#[trigger] s@[k]),
        decreases s.len() - i,
    {
        let c = s[i];
        if !(('0' <= c && c <= '9') || ('a' <= c && c <= 'f') || ('A' <= c && c <= 'F')) {
            assert(!hex_char(s@[i as int]));
            return false;
        }
        i = i + 1;
    }
    true
}

/// Every character is ASCII.
pub open spec fn all_ascii(s: Seq<char>) -> bool {
    forall|i: int| 0 <= i < s.len() ==> (#[trigger] s[i]) <= '\u{7f}'
}

/// An identifier is specific enough to mark related items: five characters
/// or more; on Windows, which has no bundle identifiers, also a name of two
/// or more characters that is not all ASCII (short Chinese names).
pub open spec fn needle_ok(s: Seq<char>, windows: bool) -> bool {
    s.len() >= 5 || (windows && s.len() >= 2 && !all_ascii(s))
}

/// Whether a text is all ASCII (see `all_ascii`).
fn is_all_ascii(s: &[char]) -> (r: bool)
    ensures
        r == all_ascii(s@),
{
    let mut i: usize = 0;
    while i < s.len()
        invariant
            i <= s.len(),
            forall|k: int| 0 <= k < i ==> (#[trigger] s@[k]) <= '\u{7f}',
        decreases s.len() - i,
    {
        if s[i] > '\u{7f}' {
            assert(!(s@[i as int] <= '\u{7f}'));
            return false;
        }
        i = i + 1;
    }
    true
}

/// Whether an identifier is specific enough (see `needle_ok`).
pub fn needle_qualifies(s: &str, windows: bool) -> (r: bool)
    ensures
        r == needle_ok(s@, windows),
{
    let c = chars_of(s);
    c.len() >= 5 || (windows && c.len() >= 2 && !is_all_ascii(c.as_slice()))
}

/// Whether a name taken from an application's path is specific enough:
/// three characters or more.
pub fn path_needle_qualifies(s: &str) -> (r: bool)
    ensures
        r == (s@.len() >= 3),
{
    chars_of(s).len() >= 3
}

// ---------------------------------------------------------------------------
// The identifiers of installed applications
// ---------------------------------------------------------------------------

/// Folder names that never serve as identifiers (structure and system
/// folders of Windows).
pub open spec fn structural_dirs() -> Seq<Seq<char>> {
    seq![
        "programs"@,
        "programsx86"@,
        "startmenu"@,
        "applications"@,
        "programfiles"@,
        "programfilesx86"@,
        "commonfiles"@,
        "program"@,
        "bin"@,
        "microsoft"@,
        "windows"@,
        "system32"@,
        "syswow64"@,
        "local"@,
        "roaming"@,
        "appdata"@,
        "programdata"@,
        "documents"@,
        "desktop"@,
        "temp"@,
        "users"@,
    ]
}

/// A path with `\` read as `/` (Windows accepts both separators).
pub open spec fn slashed(p: Seq<char>) -> Seq<char> {
    p.map_values(|c: char|
        if c == '\\' {
            '/'
        } else {
            c
        })
}

/// The `k`-th ancestor of a path (the path itself for 0), if it has one.
pub open spec fn ancestor(p: Seq<char>, k: nat) -> Option<Seq<char>>
    decreases k,
{
    if k == 0 {
        Some(p)
    } else {
        match ancestor(p, (k - 1) as nat) {
            Some(q) => parent(q),
            None => None,
        }
    }
}

/// The identifier a folder name of an application's path gives, if any: its
/// normal form, when long enough and not a structure folder.
pub open spec fn folder_needle(anc: Option<Seq<char>>) -> Seq<Seq<char>> {
    match anc {
        Some(a) => match file_name(a) {
            Some(n) => if normal_form(n).len() >= 3 && !structural_dirs().contains(normal_form(n)) {
                seq![normal_form(n)]
            } else {
                Seq::empty()
            },
            None => Seq::empty(),
        },
        None => Seq::empty(),
    }
}

/// Identifiers taken from a Windows application's path: the names of its
/// three nearest folders, then its file stem.
pub open spec fn path_needles(path: Seq<char>) -> Seq<Seq<char>> {
    let p = slashed(path);
    let stem = match file_stem(p) {
        Some(s) => if normal_form(s).len() >= 3 {
            seq![normal_form(s)]
        } else {
            Seq::empty()
        },
        None => Seq::empty(),
    };
    folder_needle(ancestor(p, 1)) + folder_needle(ancestor(p, 2)) + folder_needle(ancestor(p, 3))
        + stem
}

/// The identifiers of an application's entitlements that are specific
/// enough (in normal form).
pub open spec fn entitlement_needles(ents: Seq<String>, windows: bool) -> Seq<Seq<char>>
    decreases ents.len(),
{
    if ents.len() == 0 {
        Seq::empty()
    } else {
        let p = entitlement_needles(ents.drop_last(), windows);
        let f = normal_form(ents.last()@);
        if f.len() != 0 && needle_ok(f, windows) {
            p.push(f)
        } else {
            p
        }
    }
}

/// The bundle identifier of an application as an identifier, if specific
/// enough.
pub open spec fn bundle_needle(app: AppInfo, windows: bool) -> Seq<Seq<char>> {
    let b = normal_form(app.bundle_identifier@);
    if needle_ok(b, windows) {
        seq![b]
    } else {
        Seq::empty()
    }
}

/// All identifiers of one application: bundle identifier, name, (on
/// Windows) path names, entitlements.
pub open spec fn app_needles(app: AppInfo, windows: bool) -> Seq<Seq<char>> {
    let n = normal_form(app.app_name@);
    let name = if needle_ok(n, windows) {
        seq![n]
    } else {
        Seq::empty()
    };
    let from_path = if windows {
        path_needles(app.path@)
    } else {
        Seq::empty()
    };
    bundle_needle(app, windows) + name + from_path + entitlement_needles(app.entitlements@, windows)
}

/// The identifiers of all applications.
pub open spec fn all_needles(apps: Seq<AppInfo>, windows: bool) -> Seq<Seq<char>>
    decreases apps.len(),
{
    if apps.len() == 0 {
        Seq::empty()
    } else {
        all_needles(apps.drop_last(), windows) + app_needles(apps.last(), windows)
    }
}

/// The bundle identifiers of all applications.
pub open spec fn all_bundle_needles(apps: Seq<AppInfo>, windows: bool) -> Seq<Seq<char>>
    decreases apps.len(),
{
    if apps.len() == 0 {
        Seq::empty()
    } else {
        all_bundle_needles(apps.drop_last(), windows) + bundle_needle(apps.last(), windows)
    }
}

/// The rules that apply: those whose bundle identifier occurs in the
/// normal-form bundle identifier of an installed application.
pub open spec fn installed_rule(c: Condition, apps: Seq<AppInfo>) -> bool {
    exists|i: int|
        0 <= i < apps.len() && has_sub(normal_form((#[trigger] apps[i]).bundle_identifier@), c.bundle_id@)
}

/// The source of the expression that matches any identifier: the escaped
/// identifiers, separated by `|`.
pub open spec fn needles_source(needles: Seq<Seq<char>>) -> Seq<char> {
    join(needles.map_values(|n: Seq<char>| regex_escaped(n)), '|')
}

/// Searches the folders of orphaned items.
pub struct ReversePathsSearcher {
    /// Folders searched, in order.
    pub reverse_paths: Vec<String>,
    /// Orphans found so far, in order.
    pub collection: Vec<String>,
    /// The expression matching any identifier (none when there is none).
    pub needles_regex: Option<Pattern>,
    /// The identifiers, sorted and each once.
    pub needles: Vec<String>,
    /// The bundle identifiers, sorted and each once.
    pub bundle_needles: Vec<String>,
    /// Container folder names (UUIDs) and the bundle identifier of each.
    pub container_uuids: Vec<(String, String)>,
    /// Bundle identifiers of the rules of installed applications.
    pub installed_conditions: Vec<String>,
    /// Names that are never orphans.
    pub skip_reverse: Vec<String>,
    /// The per-application rules.
    pub conditions: Vec<Condition>,
    /// Whether the search runs on Windows.
    pub windows: bool,
}

/// Appends the normal form of `s` when it is specific enough.
fn push_if_qualifies(out: &mut Vec<String>, s: &str, windows: bool)
    ensures
        sseqs(final(out)@) == sseqs(old(out)@) + (if needle_ok(normal_form(s@), windows) {
            seq![normal_form(s@)]
        } else {
            Seq::empty()
        }),
{
    let f = pear_format(s);
    let ghost before = sseqs(out@);
    if needle_qualifies(f.as_str(), windows) {
        out.push(f);
        assert(sseqs(out@) =~= before + seq![normal_form(s@)]);
    } else {
        assert(sseqs(out@) =~= before + Seq::<Seq<char>>::empty());
    }
}

/// Appends the identifier a folder name gives (see `folder_needle`).
fn push_folder_needle(out: &mut Vec<String>, anc: &Option<Vec<char>>)
    ensures
        sseqs(final(out)@) == sseqs(old(out)@) + folder_needle(
            match anc {
                Some(a) => Some(a@),
                None => None,
            },
        ),
{
    let ghost before = sseqs(out@);
    match anc {
        Some(a) => match file_name_of(a.as_slice()) {
            Some(n) => {
                let f = pear_format(string_of(n.as_slice()).as_str());
                let fc = chars_of(f.as_str());
                if fc.len() >= 3 && !is_structural(fc.as_slice()) {
                    out.push(f);
                    assert(sseqs(out@) =~= before + seq![normal_form(n@)]);
                } else {
                    assert(sseqs(out@) =~= before + Seq::<Seq<char>>::empty());
                }
            },
            None => {
                assert(sseqs(out@) =~= before + Seq::<Seq<char>>::empty());
            },
        },
        None => {
            assert(sseqs(out@) =~= before + Seq::<Seq<char>>::empty());
        },
    }
}

/// Whether a name is a structure folder (see `structural_dirs`).
fn is_structural(n: &[char]) -> (r: bool)
    ensures
        r == structural_dirs().contains(n@),
{
    let list = vec![
        "programs",
        "programsx86",
        "startmenu",
        "applications",
        "programfiles",
        "programfilesx86",
        "commonfiles",
        "program",
        "bin",
        "microsoft",
        "windows",
        "system32",
        "syswow64",
        "local",
        "roaming",
        "appdata",
        "programdata",
        "documents",
        "desktop",
        "temp",
        "users",
    ];
    assert(crate::text::strs(list@) =~= structural_dirs());
    let mut i: usize = 0;
    while i < list.len()
        invariant
            i <= list.len(),
            crate::text::strs(list@) == structural_dirs(),
            forall|k: int| 0 <= k < i ==> list@[k]@ != n@,
        decreases list.len() - i,
    {
        if chars_eq_str(n, list[i]) {
            assert(structural_dirs()[i as int] == n@);
            return true;
        }
        i = i + 1;
    }
    proof {
        if structural_dirs().contains(n@) {
            let k = choose|k: int| 0 <= k < structural_dirs().len() && structural_dirs()[k] == n@;
            assert(list@[k]@ == n@);
        }
    }
    false
}

/// A path with `\` read as `/` (see `slashed`).
pub(crate) fn slashed_chars(p: &[char]) -> (r: Vec<char>)
    ensures
        r@ == slashed(p@),
{
    let mut r: Vec<char> = Vec::new();
    let mut i: usize = 0;
    while i < p.len()
        invariant
            i <= p.len(),
            r@ == slashed(p@.take(i as int)),
        decreases p.len() - i,
    {
        if p[i] == '\\' {
            r.push('/');
        } else {
            r.push(p[i]);
        }
        i = i + 1;
        assert(r@ =~= slashed(p@.take(i as int)));
    }
    assert(p@.take(p.len() as int) =~= p@);
    r
}

/// The parent of an optional path.
fn parent_opt(p: &Option<Vec<char>>) -> (r: Option<Vec<char>>)
    ensures
        match r {
            Some(v) => (match p {
                Some(q) => parent(q@),
                None => None,
            }) == Some(v@),
            None => (match p {
                Some(q) => parent(q@),
                None => None,
            }) is None,
        },
{
    match p {
        Some(q) => parent_of(q.as_slice()),
        None => None,
    }
}

/// Appends the identifiers of a Windows application's path (see
/// `path_needles`).
fn push_path_needles(out: &mut Vec<String>, path: &str)
    ensures
        sseqs(final(out)@) == sseqs(old(out)@) + path_needles(path@),
{
    let ghost start = sseqs(out@);
    let pc = chars_of(path);
    let p = slashed_chars(pc.as_slice());
    let a0: Option<Vec<char>> = Some(crate::text::copy_chars(p.as_slice()));
    let a1 = parent_opt(&a0);
    let a2 = parent_opt(&a1);
    let a3 = parent_opt(&a2);
    let ghost sp = slashed(path@);
    proof {
        reveal_with_fuel(ancestor, 4);
    }
    assert(ancestor(sp, 0) == Some(sp));
    assert(ancestor(sp, 1) == parent(sp));
    push_folder_needle(out, &a1);
    push_folder_needle(out, &a2);
    push_folder_needle(out, &a3);
    let ghost mid = sseqs(out@);
    match file_stem_of(p.as_slice()) {
        Some(s) => {
            let f = pear_format(string_of(s.as_slice()).as_str());
            if chars_of(f.as_str()).len() >= 3 {
                out.push(f);
                assert(sseqs(out@) =~= mid + seq![normal_form(s@)]);
            } else {
                assert(sseqs(out@) =~= mid + Seq::<Seq<char>>::empty());
            }
        },
        None => {
            assert(sseqs(out@) =~= mid + Seq::<Seq<char>>::empty());
        },
    }
    assert(sseqs(out@) =~= start + path_needles(path@));
}

/// Appends the identifiers of an application's entitlements (see
/// `entitlement_needles`).
fn push_entitlement_needles(out: &mut Vec<String>, ents: &Vec<String>, windows: bool)
    ensures
        sseqs(final(out)@) == sseqs(old(out)@) + entitlement_needles(ents@, windows),
{
    let ghost start = sseqs(out@);
    let mut j: usize = 0;
    while j < ents.len()
        invariant
            j <= ents.len(),
            sseqs(out@) == start + entitlement_needles(ents@.take(j as int), windows),
        decreases ents.len() - j,
    {
        assert(ents@.take(j + 1).drop_last() =~= ents@.take(j as int));
        let f = pear_format(ents[j].as_str());
        let ghost before = sseqs(out@);
        if chars_of(f.as_str()).len() != 0 && needle_qualifies(f.as_str(), windows) {
            out.push(f);
            assert(sseqs(out@) =~= before.push(normal_form(ents@[j as int]@)));
        }
        j = j + 1;
        assert(start + entitlement_needles(ents@.take(j as int), windows) =~= (if normal_form(
            ents@[j - 1]@,
        ).len() != 0 && needle_ok(normal_form(ents@[j - 1]@), windows) {
            (start + entitlement_needles(ents@.take(j - 1), windows)).push(
                normal_form(ents@[j - 1]@),
            )
        } else {
            start + entitlement_needles(ents@.take(j - 1), windows)
        }));
    }
    assert(ents@.take(ents@.len() as int) =~= ents@);
}

/// The identifiers of the applications and their bundle identifiers, in
/// order (see `all_needles`, `all_bundle_needles`).
fn collect_needles(apps: &Vec<AppInfo>, windows: bool) -> (r: (Vec<String>, Vec<String>))
    ensures
        sseqs(r.0@) == all_needles(apps@, windows),
        sseqs(r.1@) == all_bundle_needles(apps@, windows),
{
    let mut needles: Vec<String> = Vec::new();
    let mut bundles: Vec<String> = Vec::new();
    let mut i: usize = 0;
    while i < apps.len()
        invariant
            i <= apps.len(),
            sseqs(needles@) == all_needles(apps@.take(i as int), windows),
            sseqs(bundles@) == all_bundle_needles(apps@.take(i as int), windows),
        decreases apps.len() - i,
    {
        let app = &apps[i];
        assert(apps@.take(i + 1).drop_last() =~= apps@.take(i as int));
        assert(apps@.take(i + 1).last() == apps@[i as int]);
        let ghost n0 = sseqs(needles@);
        push_if_qualifies(&mut needles, app.bundle_identifier.as_str(), windows);
        push_if_qualifies(&mut bundles, app.bundle_identifier.as_str(), windows);
        push_if_qualifies(&mut needles, app.app_name.as_str(), windows);
        let ghost n1 = sseqs(needles@);
        if windows {
            push_path_needles(&mut needles, app.path.as_str());
        } else {
            assert(sseqs(needles@) =~= n1 + Seq::<Seq<char>>::empty());
        }
        push_entitlement_needles(&mut needles, &app.entitlements, windows);
        assert(sseqs(needles@) =~= n0 + app_needles(*app, windows));
        i = i + 1;
    }
    assert(apps@.take(apps@.len() as int) =~= apps@);
    (needles, bundles)
}

/// The source of the expression matching any identifier (see
/// `needles_source`).
fn build_source(needles: &Vec<String>) -> (r: String)
    ensures
        r@ == needles_source(sseqs(needles@)),
{
    let mut parts: Vec<Vec<char>> = Vec::new();
    let mut i: usize = 0;
    while i < needles.len()
        invariant
            i <= needles.len(),
            crate::text::vseqs(parts@) == sseqs(needles@).take(i as int).map_values(
                |n: Seq<char>| regex_escaped(n),
            ),
        decreases needles.len() - i,
    {
        let e = escape(needles[i].as_str());
        let ghost before = crate::text::vseqs(parts@);
        parts.push(chars_of(e.as_str()));
        assert(crate::text::vseqs(parts@) =~= before.push(regex_escaped(needles@[i as int]@)));
        i = i + 1;
        assert(sseqs(needles@).take(i as int).map_values(|n: Seq<char>| regex_escaped(n))
            =~= sseqs(needles@).take(i - 1).map_values(|n: Seq<char>| regex_escaped(n)).push(
            regex_escaped(needles@[i - 1]@),
        ));
    }
    assert(sseqs(needles@).take(needles@.len() as int) =~= sseqs(needles@));
    let joined = crate::text::join_chars(&parts, parts.len(), '|');
    assert(crate::text::vseqs(parts@).take(parts@.len() as int) =~= crate::text::vseqs(parts@));
    string_of(joined.as_slice())
}

/// Whether a rule belongs to an installed application (see
/// `installed_rule`).
fn rule_installed(c: &Condition, apps: &Vec<AppInfo>) -> (r: bool)
    ensures
        r == installed_rule(*c, apps@),
{
    let cb = chars_of(c.bundle_id.as_str());
    let mut i: usize = 0;
    while i < apps.len()
        invariant
            i <= apps.len(),
            cb@ == c.bundle_id@,
            forall|k: int|
                0 <= k < i ==> !has_sub(normal_form((#[trigger] apps@[k]).bundle_identifier@), cb@),
        decreases apps.len() - i,
    {
        let id = pear_format(apps[i].bundle_identifier.as_str());
        let idc = chars_of(id.as_str());
        if contains(idc.as_slice(), cb.as_slice()) {
            return true;
        }
        i = i + 1;
    }
    false
}

impl ReversePathsSearcher {
    /// A searcher of the given folders for the installed applications
    /// `sorted_apps`, with the per-application rules, the names never
    /// reported and the container names with their bundle identifiers.
    pub fn new(
        reverse_paths: Vec<String>,
        sorted_apps: &Vec<AppInfo>,
        conditions: Vec<Condition>,
        skip_reverse: Vec<String>,
        container_uuids: Vec<(String, String)>,
        windows: bool,
    ) -> (r: ReversePathsSearcher)
        ensures
            r.reverse_paths == reverse_paths,
            r.collection@.len() == 0,
            strictly_sorted(sseqs(r.needles@)),
            forall|x: Seq<char>|
                sseqs(r.needles@).contains(x) <==> all_needles(sorted_apps@, windows).contains(x),
            strictly_sorted(sseqs(r.bundle_needles@)),
            forall|x: Seq<char>|
                sseqs(r.bundle_needles@).contains(x) <==> all_bundle_needles(
                    sorted_apps@,
                    windows,
                ).contains(x),
            r.needles@.len() == 0 ==> r.needles_regex is None,
            r.needles@.len() > 0 ==> match r.needles_regex {
                Some(p) => p.source() == needles_source(sseqs(r.needles@)),
                None => !crate::pattern::regex_compiles(needles_source(sseqs(r.needles@))),
            },
            r.conditions == conditions,
            r.skip_reverse == skip_reverse,
            r.container_uuids == container_uuids,
            r.windows == windows,
            forall|x: Seq<char>|
                sseqs(r.installed_conditions@).contains(x) <==> exists|k: int|
                    0 <= k < conditions@.len() && (#[trigger] conditions@[k]).bundle_id@ == x
                        && installed_rule(conditions@[k], sorted_apps@),
    {
        let (raw, raw_bundles) = collect_needles(sorted_apps, windows);
        let needles = sort_dedup(raw);
        let bundle_needles = sort_dedup(raw_bundles);
        let needles_regex = if needles.len() == 0 {
            None
        } else {
            let src = build_source(&needles);
            compile(src.as_str())
        };
        let mut installed: Vec<String> = Vec::new();
        let mut k: usize = 0;
        while k < conditions.len()
            invariant
                k <= conditions.len(),
                forall|x: Seq<char>|
                    sseqs(installed@).contains(x) <==> exists|j: int|
                        0 <= j < k && (#[trigger] conditions@[j]).bundle_id@ == x
                            && installed_rule(conditions@[j], sorted_apps@),
            decreases conditions.len() - k,
        {
            let ghost before = sseqs(installed@);
            if rule_installed(&conditions[k], sorted_apps) {
                installed.push(crate::text::owned(conditions[k].bundle_id.as_str()));
                proof {
                    crate::order::lemma_push_contains(before, conditions@[k as int].bundle_id@);
                    assert(sseqs(installed@) =~= before.push(conditions@[k as int].bundle_id@));
                }
            }
            proof {
                assert forall|x: Seq<char>|
                    sseqs(installed@).contains(x) <==> exists|j: int|
                        0 <= j < k + 1 && (#[trigger] conditions@[j]).bundle_id@ == x
                            && installed_rule(conditions@[j], sorted_apps@) by {
                    if exists|j: int|
                        0 <= j < k + 1 && (#[trigger] conditions@[j]).bundle_id@ == x
                            && installed_rule(conditions@[j], sorted_apps@) {
                        let j = choose|j: int|
                            0 <= j < k + 1 && (#[trigger] conditions@[j]).bundle_id@ == x
                                && installed_rule(conditions@[j], sorted_apps@);
                        if j < k {
                        }
                    }
                }
            }
            k = k + 1;
        }
        ReversePathsSearcher {
            reverse_paths,
            collection: Vec::new(),
            needles_regex,
            needles,
            bundle_needles,
            container_uuids,
            installed_conditions: installed,
            skip_reverse,
            conditions,
            windows,
        }
    }
}

// ---------------------------------------------------------------------------
// Judging one item
// ---------------------------------------------------------------------------

/// System folder names of Windows (lower case) that are never orphans.
pub open spec fn windows_system_dirs() -> Seq<Seq<char>> {
    seq![
        "packages"@,
        "programs"@,
        "temp"@,
        "virtualstore"@,
        "connecteddevicesplatform"@,
        "peerdistrepub"@,
        "publishers"@,
        "speech"@,
        "comms"@,
        "upgrade"@,
        "placeholdertilelogofolder"@,
        "usoprivate"@,
        "usoshared"@,
        "whesvc"@,
        "ssh"@,
        "common files"@,
        "internet explorer"@,
        "msbuild"@,
        "reference assemblies"@,
        "wsl"@,
        "modifiablewindowsapps"@,
        "application verifier"@,
    ]
}

/// A Windows system item by its ASCII lower-case name: listed, or starting
/// with "windows".
pub open spec fn windows_system_name(lower: Seq<char>) -> bool {
    windows_system_dirs().contains(lower) || starts(lower, "windows"@)
}

/// The bundle identifier recorded for a container folder name (the first
/// entry with that name).
pub open spec fn container_bundle(uuids: Seq<(String, String)>, name: Seq<char>) -> Option<
    Seq<char>,
>
    decreases uuids.len(),
{
    if uuids.len() == 0 {
        None
    } else if uuids[0].0@ == name {
        Some(uuids[0].1@)
    } else {
        container_bundle(uuids.drop_first(), name)
    }
}

/// An item relates to an installed application: the identifier expression
/// matches its normal-form path, or it is a container (under
/// `/Containers/`) whose bundle identifier, in normal form, holds an
/// installed bundle identifier.
pub open spec fn related(s: ReversePathsSearcher, path: Seq<char>, nip: Seq<char>) -> bool {
    let by_needle = match s.needles_regex {
        Some(p) => regex_matches(p.source(), nip),
        None => false,
    };
    let uuid = match file_name(path) {
        Some(n) => n,
        None => Seq::empty(),
    };
    let by_container = has_sub(path, "/Containers/"@) && match container_bundle(
        s.container_uuids@,
        uuid,
    ) {
        Some(b) => exists|k: int|
            0 <= k < s.bundle_needles@.len() && has_sub(
                normal_form(b),
                (#[trigger] s.bundle_needles@[k])@,
            ),
        None => false,
    };
    by_needle || by_container
}

/// An installed application's rule claims an item: one of its names, or the
/// normal form of one of its forced paths, occurs in the item's normal-form
/// path.
pub open spec fn claimed(s: ReversePathsSearcher, nip: Seq<char>) -> bool {
    exists|k: int|
        0 <= k < s.conditions@.len() && sseqs(s.installed_conditions@).contains(
            (#[trigger] s.conditions@[k]).bundle_id@,
        ) && (any_sub(nip, s.conditions@[k].includes@) || exists|f: int|
            0 <= f < s.conditions@[k].include_force@.len() && has_sub(
                nip,
                normal_form((#[trigger] s.conditions@[k].include_force@[f])@),
            ))
}

/// Whether an item (its name and path; whether it is a plain file, folder or
/// link; whether it is a reparse point) is an orphan.
pub open spec fn orphan_kept(
    s: ReversePathsSearcher,
    name: Seq<char>,
    path: Seq<char>,
    supported: bool,
    reparse_point: bool,
) -> bool {
    let nip = normal_form(path);
    let nin = normal_form(name);
    &&& !has_sub(nip, "dsstore"@)
    &&& !has_sub(nip, "daemonnameoridentifierhere"@)
    &&& !(s.windows && (reparse_point || windows_system_name(ascii_lower_seq(name))))
    &&& !uuid_formatted(nin)
    &&& !any_sub(nin, s.skip_reverse@)
    &&& supported
    &&& !related(s, path, nip)
    &&& !claimed(s, nip)
}

/// The files of installed applications are never orphans: an item that
/// the needle expression or an owned container relates to an installed
/// application, or that a rule of an installed application claims, is not
/// kept, whatever its kind.
pub proof fn law_installed_never_orphan(
    s: ReversePathsSearcher,
    name: Seq<char>,
    path: Seq<char>,
    supported: bool,
    reparse_point: bool,
)
    requires
        related(s, path, normal_form(path)) || claimed(s, normal_form(path)),
    ensures
        !orphan_kept(s, name, path, supported, reparse_point),
{
}

/// Whether a lower-case name is a Windows system item (see
/// `windows_system_name`).
fn is_windows_system_name(lower: &[char]) -> (r: bool)
    ensures
        r == windows_system_name(lower@),
{
    let list = vec![
        "packages",
        "programs",
        "temp",
        "virtualstore",
        "connecteddevicesplatform",
        "peerdistrepub",
        "publishers",
        "speech",
        "comms",
        "upgrade",
        "placeholdertilelogofolder",
        "usoprivate",
        "usoshared",
        "whesvc",
        "ssh",
        "common files",
        "internet explorer",
        "msbuild",
        "reference assemblies",
        "wsl",
        "modifiablewindowsapps",
        "application verifier",
    ];
    assert(crate::text::strs(list@) =~= windows_system_dirs());
    let mut i: usize = 0;
    while i < list.len()
        invariant
            i <= list.len(),
            crate::text::strs(list@) == windows_system_dirs(),
            forall|k: int| 0 <= k < i ==> list@[k]@ != lower@,
        decreases list.len() - i,
    {
        if chars_eq_str(lower, list[i]) {
            assert(windows_system_dirs()[i as int] == lower@);
            return true;
        }
        i = i + 1;
    }
    proof {
        if windows_system_dirs().contains(lower@) {
            let k = choose|k: int|
                0 <= k < windows_system_dirs().len() && windows_system_dirs()[k] == lower@;
            assert(list@[k]@ == lower@);
        }
    }
    starts_with_str(lower, "windows")
}

/// The bundle identifier recorded for a container folder name (see
/// `container_bundle`).
fn lookup_container(uuids: &Vec<(String, String)>, name: &[char]) -> (r: Option<String>)
    ensures
        crate::text::opt_seq(r) == container_bundle(uuids@, name@),
{
    let mut i: usize = 0;
    assert(uuids@.subrange(0, uuids@.len() as int) =~= uuids@);
    while i < uuids.len()
        invariant
            i <= uuids.len(),
            container_bundle(uuids@, name@) == container_bundle(
                uuids@.subrange(i as int, uuids@.len() as int),
                name@,
            ),
        decreases uuids.len() - i,
    {
        let ghost rest = uuids@.subrange(i as int, uuids@.len() as int);
        assert(rest[0] == uuids@[i as int]);
        assert(rest.drop_first() =~= uuids@.subrange(i + 1, uuids@.len() as int));
        if crate::text::string_eq_chars(&uuids[i].0, name) {
            return Some(crate::text::owned(uuids[i].1.as_str()));
        }
        i = i + 1;
    }
    None
}

impl ReversePathsSearcher {
    /// Whether the expression of all identifiers matches a normalised path
    /// (never when there is no expression).
    pub fn needles_match(&self, normalized_path: &str) -> (r: bool)
        ensures
            r == (self.needles_regex matches Some(p) && crate::pattern::regex_matches(
                p.source(),
                normalized_path@,
            )),
    {
        match &self.needles_regex {
            Some(p) => is_match(p, normalized_path),
            None => false,
        }
    }

    /// Whether an item relates to an installed application (see `related`).
    #[verifier::loop_isolation(false)]
    pub fn is_related_to_installed_app(&self, path: &str, normalized_path: &str) -> (r: bool)
        ensures
            r == related(*self, path@, normalized_path@),
    {
        let by_needle = match &self.needles_regex {
            Some(p) => is_match(p, normalized_path),
            None => false,
        };
        if by_needle {
            return true;
        }
        let pc = chars_of(path);
        if !contains_str(pc.as_slice(), "/Containers/") {
            return false;
        }
        let uuid: Vec<char> = match file_name_of(pc.as_slice()) {
            Some(n) => n,
            None => Vec::new(),
        };
        match lookup_container(&self.container_uuids, uuid.as_slice()) {
            Some(b) => {
                let cn = pear_format(b.as_str());
                let cnc = chars_of(cn.as_str());
                let mut k: usize = 0;
                while k < self.bundle_needles.len()
                    invariant
                        k <= self.bundle_needles.len(),
                        cnc@ == normal_form(b@),
                        forall|j: int|
                            0 <= j < k ==> !has_sub(
                                cnc@,
                                (#[trigger] self.bundle_needles@[j])@,
                            ),
                    decreases self.bundle_needles.len() - k,
                {
                    let n = chars_of(self.bundle_needles[k].as_str());
                    if contains(cnc.as_slice(), n.as_slice()) {
                        assert(has_sub(normal_form(b@), self.bundle_needles@[k as int]@));
                        return true;
                    }
                    k = k + 1;
                }
                false
            },
            None => false,
        }
    }

    /// Whether an installed application's rule claims an item (see
    /// `claimed`).
    #[verifier::loop_isolation(false)]
    pub fn is_excluded_by_conditions(&self, normalized_path: &str) -> (r: bool)
        ensures
            r == claimed(*self, normalized_path@),
    {
        let nip = chars_of(normalized_path);
        let mut k: usize = 0;
        while k < self.conditions.len()
            invariant
                k <= self.conditions.len(),
                nip@ == normalized_path@,
                forall|j: int|
                    0 <= j < k ==> !(sseqs(self.installed_conditions@).contains(
                        (#[trigger] self.conditions@[j]).bundle_id@,
                    ) && (any_sub(nip@, self.conditions@[j].includes@) || exists|f: int|
                        0 <= f < self.conditions@[j].include_force@.len() && has_sub(
                            nip@,
                            normal_form((#[trigger] self.conditions@[j].include_force@[f])@),
                        ))),
            decreases self.conditions.len() - k,
        {
            let c = &self.conditions[k];
            let cb = chars_of(c.bundle_id.as_str());
            let installed = crate::order::contains_string(&self.installed_conditions, cb.as_slice());
            if installed {
                if has_any_sub(nip.as_slice(), &c.includes) {
                    return true;
                }
                let mut f: usize = 0;
                while f < c.include_force.len()
                    invariant
                        f <= c.include_force.len(),
                        forall|g: int|
                            0 <= g < f ==> !has_sub(
                                nip@,
                                normal_form((#[trigger] c.include_force@[g])@),
                            ),
                    decreases c.include_force.len() - f,
                {
                    let nf = pear_format(c.include_force[f].as_str());
                    let nfc = chars_of(nf.as_str());
                    if contains(nip.as_slice(), nfc.as_slice()) {
                        assert(has_sub(nip@, normal_form(c.include_force@[f as int]@)));
                        assert(self.conditions@[k as int] == *c);
                        return true;
                    }
                    f = f + 1;
                }
            }
            k = k + 1;
        }
        false
    }

    /// Judges one item of a searched folder and keeps it when it is an
    /// orphan (see `orphan_kept`); `supported` tells whether it is a plain
    /// file, folder or link, `reparse_point` whether it is a Windows reparse
    /// point.
    pub fn process_item(
        &mut self,
        scanned_item_name: &str,
        path: &str,
        supported: bool,
        reparse_point: bool,
    )
        ensures
            sseqs(final(self).collection@) == if orphan_kept(
                *old(self),
                scanned_item_name@,
                path@,
                supported,
                reparse_point,
            ) {
                sseqs(old(self).collection@).push(path@)
            } else {
                sseqs(old(self).collection@)
            },
            final(self).needles_regex == old(self).needles_regex,
            final(self).needles == old(self).needles,
            final(self).bundle_needles == old(self).bundle_needles,
            final(self).container_uuids == old(self).container_uuids,
            final(self).installed_conditions == old(self).installed_conditions,
            final(self).skip_reverse == old(self).skip_reverse,
            final(self).conditions == old(self).conditions,
            final(self).windows == old(self).windows,
            final(self).reverse_paths == old(self).reverse_paths,
    {
        let nip = pear_format(path);
        let nipc = chars_of(nip.as_str());
        if contains_str(nipc.as_slice(), "dsstore") || contains_str(
            nipc.as_slice(),
            "daemonnameoridentifierhere",
        ) {
            return;
        }
        if self.windows {
            if reparse_point {
                return;
            }
            let n = chars_of(scanned_item_name);
            let lower = to_ascii_lower_chars(n.as_slice());
            if is_windows_system_name(lower.as_slice()) {
                return;
            }
        }
        let nin = pear_format(scanned_item_name);
        if is_uuid_formatted(nin.as_str()) {
            return;
        }
        let ninc = chars_of(nin.as_str());
        if has_any_sub(ninc.as_slice(), &self.skip_reverse) {
            return;
        }
        if !supported {
            return;
        }
        if self.is_related_to_installed_app(path, nip.as_str()) {
            return;
        }
        if self.is_excluded_by_conditions(nip.as_str()) {
            return;
        }
        let ghost before = sseqs(self.collection@);
        self.collection.push(crate::text::owned(path));
        assert(sseqs(self.collection@) =~= before.push(path@));
    }
}

} // verus!
