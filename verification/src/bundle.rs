//! Application bundle metadata: the property lists a bundle carries (its
//! `Info.plist`, the entitlements that `codesign` prints, a container's
//! metadata file), read through the `plist` crate, and the rules that turn
//! what they hold into an application description.

use vstd::prelude::*;

use crate::model::AppInfo;
use crate::order::contains_string;
use crate::paths::{file_stem, file_stem_of};
use crate::pattern::{compile, is_match, regex_compiles, regex_matches};
use crate::text::{chars_eq_str, chars_of, opt_seq, owned, sseqs, string_of, strs};
use crate::unicode::{str_to_lower, unicode_str_lower};

verus! {

/// The text stored under `key` in the dictionary that `bytes` parse to as a
/// property list (`None` when the bytes are no dictionary, the key is missing
/// or its value is no string).
pub uninterp spec fn plist_text(bytes: Seq<u8>, key: Seq<char>) -> Option<Seq<char>>;

/// The boolean stored under `key` in the dictionary that `bytes` parse to
/// (`None` as for `plist_text`).
pub uninterp spec fn plist_flag(bytes: Seq<u8>, key: Seq<char>) -> Option<bool>;

/// The array stored under `key` in the dictionary that `bytes` parse to, each
/// item as its text when it is a string (`None` as for `plist_text`).
pub uninterp spec fn plist_items(bytes: Seq<u8>, key: Seq<char>) -> Option<Seq<Option<Seq<char>>>>;

/// The texts of optional strings.
pub open spec fn opt_seqs(v: Seq<Option<String>>) -> Seq<Option<Seq<char>>> {
    v.map_values(|o: Option<String>| opt_seq(o))
}

/// The view of an optional list of optional strings.
pub open spec fn items_view(o: Option<Vec<Option<String>>>) -> Option<Seq<Option<Seq<char>>>> {
    match o {
        Some(v) => Some(opt_seqs(v@)),
        None => None,
    }
}

/// `plist::from_bytes::<plist::Dictionary>`, `Dictionary::get` and
/// `Value::as_string`; the contract claims only that the result is the named
/// function of the bytes and the key.
#[verifier::external_body]
fn plist_string(bytes: &[u8], key: &str) -> (r: Option<String>)
    ensures
        opt_seq(r) == plist_text(bytes@, key@),
{
    let d: plist::Dictionary = plist::from_bytes(bytes).ok()?;
    let s = d.get(key)?.as_string()?;
    Some(s.to_string())
}

/// `plist::from_bytes::<plist::Dictionary>`, `Dictionary::get` and
/// `Value::as_boolean`; the contract claims only that the result is the named
/// function of the bytes and the key.
#[verifier::external_body]
fn plist_bool(bytes: &[u8], key: &str) -> (r: Option<bool>)
    ensures
        r == plist_flag(bytes@, key@),
{
    let d: plist::Dictionary = plist::from_bytes(bytes).ok()?;
    d.get(key)?.as_boolean()
}

/// `plist::from_bytes::<plist::Dictionary>`, `Dictionary::get`,
/// `Value::as_array` and `Value::as_string` on each item; the contract claims
/// only that the result is the named function of the bytes and the key.
#[verifier::external_body]
fn plist_string_items(bytes: &[u8], key: &str) -> (r: Option<Vec<Option<String>>>)
    ensures
        items_view(r) == plist_items(bytes@, key@),
{
    let d: plist::Dictionary = plist::from_bytes(bytes).ok()?;
    let items = d.get(key)?.as_array()?;
    let mut out = Vec::new();
    for v in items {
        out.push(v.as_string().map(String::from));
    }
    Some(out)
}

// ---------------------------------------------------------------------------
// Application description from Info.plist
// ---------------------------------------------------------------------------

/// The name an application is shown under: its display name, else its
/// bundle name, else the stem of its bundle's file name.
pub open spec fn shown_name(path: Seq<char>, display: Option<Seq<char>>, name: Option<Seq<char>>) -> Seq<
    char,
> {
    match display {
        Some(d) => d,
        None => match name {
            Some(n) => n,
            None => match file_stem(path) {
                Some(s) => s,
                None => Seq::empty(),
            },
        },
    }
}

/// A web application: a template application, or one whose executable is
/// the application mode loader.
pub open spec fn web_app_of(template: Option<bool>, executable: Option<Seq<char>>) -> bool {
    template == Some(true) || executable == Some("app_mode_loader"@)
}

/// The texts of an optional list of strings (none when absent).
pub open spec fn list_or_empty(v: Option<Vec<String>>) -> Seq<Seq<char>> {
    match v {
        Some(l) => sseqs(l@),
        None => Seq::empty(),
    }
}

/// `a` describes the application at `path` with the given identifier,
/// names, flags, entitlements and team; it is neither a Steam game nor
/// wrapped.
pub open spec fn describes(
    a: AppInfo,
    path: Seq<char>,
    id: Seq<char>,
    display: Option<Seq<char>>,
    name: Option<Seq<char>>,
    template: Option<bool>,
    executable: Option<Seq<char>>,
    entitlements: Seq<Seq<char>>,
    team: Option<Seq<char>>,
) -> bool {
    &&& a.path@ == path
    &&& a.bundle_identifier@ == id
    &&& a.app_name@ == shown_name(path, display, name)
    &&& sseqs(a.entitlements@) == entitlements
    &&& opt_seq(a.team_identifier) == team
    &&& a.web_app == web_app_of(template, executable)
    &&& !a.steam
    &&& !a.wrapped
}

/// The description of the application at `path` from the values its
/// `Info.plist` holds: none without a bundle identifier.
pub fn app_info_from_fields(
    path: &str,
    bundle_identifier: Option<String>,
    display_name: Option<String>,
    bundle_name: Option<String>,
    template: Option<bool>,
    executable: Option<String>,
    entitlements: Option<Vec<String>>,
    team_identifier: Option<String>,
) -> (r: Option<AppInfo>)
    ensures
        r is Some <==> bundle_identifier is Some,
        r matches Some(a) ==> describes(
            a,
            path@,
            bundle_identifier->Some_0@,
            opt_seq(display_name),
            opt_seq(bundle_name),
            template,
            opt_seq(executable),
            list_or_empty(entitlements),
            opt_seq(team_identifier),
        ),
{
    let id = match bundle_identifier {
        Some(id) => id,
        None => return None,
    };
    let app_name = match display_name {
        Some(d) => d,
        None => match bundle_name {
            Some(n) => n,
            None => {
                let p = chars_of(path);
                match file_stem_of(p.as_slice()) {
                    Some(s) => string_of(s.as_slice()),
                    None => String::new(),
                }
            },
        },
    };
    let template_app = match template {
        Some(t) => t,
        None => false,
    };
    let loader = match &executable {
        Some(e) => {
            let ec = chars_of(e.as_str());
            chars_eq_str(ec.as_slice(), "app_mode_loader")
        },
        None => false,
    };
    let ents = match entitlements {
        Some(v) => v,
        None => Vec::new(),
    };
    proof {
        assert(sseqs(Seq::<String>::empty()) =~= Seq::<Seq<char>>::empty());
    }
    Some(
        AppInfo {
            path: owned(path),
            bundle_identifier: id,
            app_name,
            entitlements: ents,
            team_identifier,
            web_app: template_app || loader,
            steam: false,
            wrapped: false,
        },
    )
}

/// The description of the application at `path` from the bytes of its
/// `Info.plist` (identifier, display and bundle names, template flag and
/// executable read from the dictionary they hold), with the entitlements and
/// team found for it.
pub fn app_info_from_plist(
    path: &str,
    info: &[u8],
    entitlements: Option<Vec<String>>,
    team_identifier: Option<String>,
) -> (r: Option<AppInfo>)
    ensures
        r is Some <==> plist_text(info@, "CFBundleIdentifier"@) is Some,
        r matches Some(a) ==> describes(
            a,
            path@,
            plist_text(info@, "CFBundleIdentifier"@)->Some_0,
            plist_text(info@, "CFBundleDisplayName"@),
            plist_text(info@, "CFBundleName"@),
            plist_flag(info@, "LSTemplateApplication"@),
            plist_text(info@, "CFBundleExecutable"@),
            list_or_empty(entitlements),
            opt_seq(team_identifier),
        ),
{
    let id = plist_string(info, "CFBundleIdentifier");
    let display = plist_string(info, "CFBundleDisplayName");
    let name = plist_string(info, "CFBundleName");
    let template = plist_bool(info, "LSTemplateApplication");
    let executable = plist_string(info, "CFBundleExecutable");
    app_info_from_fields(path, id, display, name, template, executable, entitlements, team_identifier)
}

// ---------------------------------------------------------------------------
// Entitlements and helper names
// ---------------------------------------------------------------------------

/// Helper names that never stand for the application, in lower case.
pub open spec fn excluded_helpers() -> Seq<Seq<char>> {
    strs(seq!["crashhandler", "crash handler", "electron"])
}

/// Whether a helper found in a bundle counts: at least five characters, its
/// lower case not an excluded name, and, for a file of a `MacOS` folder, not
/// hidden.
pub open spec fn helper_counts(name: Seq<char>, is_file: bool) -> bool {
    &&& !(is_file && name.len() > 0 && name[0] == '.')
    &&& name.len() >= 5
    &&& !excluded_helpers().contains(unicode_str_lower(name))
}

/// `acc` followed by each helper that counts and is not listed yet, in order.
pub open spec fn with_helpers(acc: Seq<Seq<char>>, helpers: Seq<(Seq<char>, bool)>) -> Seq<Seq<char>>
    decreases helpers.len(),
{
    if helpers.len() == 0 {
        acc
    } else {
        let prev = with_helpers(acc, helpers.drop_last());
        let h = helpers.last();
        if helper_counts(h.0, h.1) && !prev.contains(h.0) {
            prev.push(h.0)
        } else {
            prev
        }
    }
}

/// The texts among optional items, in order.
pub open spec fn present(items: Seq<Option<Seq<char>>>) -> Seq<Seq<char>>
    decreases items.len(),
{
    if items.len() == 0 {
        Seq::empty()
    } else {
        let p = present(items.drop_last());
        match items.last() {
            Some(t) => p.push(t),
            None => p,
        }
    }
}

/// The texts of an optional array's items (none when absent).
pub open spec fn present_in(o: Option<Seq<Option<Seq<char>>>>) -> Seq<Seq<char>> {
    match o {
        Some(s) => present(s),
        None => Seq::empty(),
    }
}

/// The view of helper candidates: name and whether it is a file of a
/// `MacOS` folder.
pub open spec fn helpers_view(v: Seq<(String, bool)>) -> Seq<(Seq<char>, bool)> {
    v.map_values(|h: (String, bool)| (h.0@, h.1))
}

/// Entitlement names: the application groups' strings, the iCloud
/// containers' strings, then the helpers that count, each once.
pub open spec fn entitlement_names(
    groups: Option<Seq<Option<Seq<char>>>>,
    icloud: Option<Seq<Option<Seq<char>>>>,
    helpers: Seq<(Seq<char>, bool)>,
) -> Seq<Seq<char>> {
    with_helpers(present_in(groups) + present_in(icloud), helpers)
}

/// Appends the strings among `items` to `out`.
fn push_present(out: &mut Vec<String>, items: &Option<Vec<Option<String>>>)
    ensures
        sseqs(final(out)@) == sseqs(old(out)@) + present_in(items_view(*items)),
{
    if let Some(v) = items {
        let ghost base = sseqs(out@);
        let mut i: usize = 0;
        while i < v.len()
            invariant
                i <= v.len(),
                sseqs(out@) == base + present(opt_seqs(v@).take(i as int)),
            decreases v.len() - i,
        {
            proof {
                assert(opt_seqs(v@).take(i + 1).drop_last() =~= opt_seqs(v@).take(i as int));
            }
            match &v[i] {
                Some(t) => {
                    let ghost prev = out@;
                    out.push(owned(t.as_str()));
                    assert(sseqs(out@) =~= sseqs(prev).push(t@));
                },
                None => {},
            }
            i = i + 1;
        }
        assert(opt_seqs(v@).take(v.len() as int) =~= opt_seqs(v@));
    } else {
        assert(sseqs(out@) + Seq::<Seq<char>>::empty() =~= sseqs(out@));
    }
}

/// Whether a helper name counts (see `helper_counts`).
fn helper_name_counts(name: &str, is_file: bool) -> (r: bool)
    ensures
        r == helper_counts(name@, is_file),
{
    let n = chars_of(name);
    if is_file && n.len() > 0 && n[0] == '.' {
        return false;
    }
    if n.len() < 5 {
        return false;
    }
    let lower = str_to_lower(name);
    let l = chars_of(lower.as_str());
    let excluded = vec!["crashhandler", "crash handler", "electron"];
    let mut j: usize = 0;
    while j < excluded.len()
        invariant
            j <= excluded.len(),
            excluded@ == seq!["crashhandler", "crash handler", "electron"],
            l@ == unicode_str_lower(name@),
            forall|k: int| 0 <= k < j ==> #[trigger] excluded@[k]@ != l@,
        decreases excluded.len() - j,
    {
        if chars_eq_str(l.as_slice(), excluded[j]) {
            assert(excluded_helpers()[j as int] == l@);
            return false;
        }
        j = j + 1;
    }
    assert(!excluded_helpers().contains(l@)) by {
        if excluded_helpers().contains(l@) {
            let k = choose|k: int| 0 <= k < 3 && excluded_helpers()[k] == l@;
            assert(excluded@[k]@ == l@);
        }
    }
    true
}

/// The entitlement names of a bundle (see `entitlement_names`) from the
/// items of its application groups and iCloud containers and its helper
/// candidates (the files of its `MacOS` folder, then for each nested
/// bundle its name and the files of its `MacOS` folder); none when there
/// are none.
pub fn collect_entitlements(
    groups: Option<Vec<Option<String>>>,
    icloud: Option<Vec<Option<String>>>,
    helpers: &Vec<(String, bool)>,
) -> (r: Option<Vec<String>>)
    ensures
        ({
            let all = entitlement_names(items_view(groups), items_view(icloud), helpers_view(helpers@));
            match r {
                Some(v) => all.len() > 0 && sseqs(v@) == all,
                None => all.len() == 0,
            }
        }),
{
    let mut results: Vec<String> = Vec::new();
    push_present(&mut results, &groups);
    push_present(&mut results, &icloud);
    let ghost base = present_in(items_view(groups)) + present_in(items_view(icloud));
    assert(sseqs(results@) =~= base);
    let mut i: usize = 0;
    while i < helpers.len()
        invariant
            i <= helpers.len(),
            sseqs(results@) == with_helpers(base, helpers_view(helpers@).take(i as int)),
        decreases helpers.len() - i,
    {
        proof {
            assert(helpers_view(helpers@).take(i + 1).drop_last() =~= helpers_view(helpers@).take(
                i as int,
            ));
        }
        let name = &helpers[i].0;
        let is_file = helpers[i].1;
        if helper_name_counts(name.as_str(), is_file) {
            let n = chars_of(name.as_str());
            if !contains_string(&results, n.as_slice()) {
                results.push(owned(name.as_str()));
                assert(sseqs(results@) =~= with_helpers(base, helpers_view(helpers@).take(i as int)).push(
                    n@,
                ));
            }
        }
        i = i + 1;
    }
    assert(helpers_view(helpers@).take(helpers.len() as int) =~= helpers_view(helpers@));
    if results.len() == 0 {
        None
    } else {
        Some(results)
    }
}

/// The entitlement names of a bundle from what `codesign` printed for it
/// (a property list; nothing when it printed nothing) and its helper
/// candidates (see `collect_entitlements`).
pub fn get_entitlements(stdout: &[u8], helpers: &Vec<(String, bool)>) -> (r: Option<
    Vec<String>,
>)
    ensures
        ({
            let groups = if stdout@.len() == 0 {
                None
            } else {
                plist_items(stdout@, "com.apple.security.application-groups"@)
            };
            let icloud = if stdout@.len() == 0 {
                None
            } else {
                plist_items(stdout@, "com.apple.developer.icloud-container-identifiers"@)
            };
            let all = entitlement_names(groups, icloud, helpers_view(helpers@));
            match r {
                Some(v) => all.len() > 0 && sseqs(v@) == all,
                None => all.len() == 0,
            }
        }),
{
    if stdout.len() == 0 {
        collect_entitlements(None, None, helpers)
    } else {
        let groups = plist_string_items(stdout, "com.apple.security.application-groups");
        let icloud = plist_string_items(stdout, "com.apple.developer.icloud-container-identifiers");
        collect_entitlements(groups, icloud, helpers)
    }
}

// ---------------------------------------------------------------------------
// Containers and application support folders
// ---------------------------------------------------------------------------

/// The bundle identifier a container's metadata names as its owner, if it
/// names one.
pub fn container_owner(metadata: &[u8]) -> (r: Option<String>)
    ensures
        opt_seq(r) == plist_text(metadata@, "MCMMetadataIdentifier"@),
{
    plist_string(metadata, "MCMMetadataIdentifier")
}

/// Whether a container's metadata names `bundle_identifier` as its owner.
pub fn identifies_container(metadata: &[u8], bundle_identifier: &str) -> (r: bool)
    ensures
        r == (plist_text(metadata@, "MCMMetadataIdentifier"@) == Some(bundle_identifier@)),
{
    match plist_string(metadata, "MCMMetadataIdentifier") {
        Some(id) => {
            let a = chars_of(id.as_str());
            let b = chars_of(bundle_identifier);
            crate::text::chars_eq(a.as_slice(), b.as_slice())
        },
        None => false,
    }
}

/// Whether a folder name has the shape of a container's name: an upper-case
/// UUID, as the regular expression below matches it (no name does if the
/// expression did not compile).
pub fn is_container_name(name: &str) -> (r: bool)
    ensures
        r == (regex_compiles(
            "^[0-9A-F]{8}-[0-9A-F]{4}-[0-9A-F]{4}-[0-9A-F]{4}-[0-9A-F]{12}$"@,
        ) && regex_matches(
            "^[0-9A-F]{8}-[0-9A-F]{4}-[0-9A-F]{4}-[0-9A-F]{4}-[0-9A-F]{12}$"@,
            name@,
        )),
{
    match compile("^[0-9A-F]{8}-[0-9A-F]{4}-[0-9A-F]{4}-[0-9A-F]{4}-[0-9A-F]{12}$") {
        Some(p) => is_match(&p, name),
        None => false,
    }
}

/// Folders of `Application Support` that never belong to an application.
pub open spec fn support_exclusions() -> Seq<Seq<char>> {
    strs(
        seq![
            "MobileSync",
            ".DS_Store",
            "Xcode",
            "SyncServices",
            "networkserviceproxy",
            "DiskImages",
            "CallHistoryTransactions",
            "App Store",
            "CloudDocs",
            "icdd",
            "iCloud",
            "Instruments",
            "AddressBook",
            "FaceTime",
            "AskPermission",
            "CallHistoryDB",
        ],
    )
}

/// Whether a folder of `Application Support` is searched in depth: it is
/// not excluded by name, and no word `com.apple` occurs in it (as the
/// regular expression below finds it; none does if it did not compile).
pub fn keep_app_support_dir(name: &str) -> (r: bool)
    ensures
        r == (!support_exclusions().contains(name@) && !(regex_compiles("\\bcom\\.apple\\b"@)
            && regex_matches("\\bcom\\.apple\\b"@, name@))),
{
    let exclusions = vec![
        "MobileSync",
        ".DS_Store",
        "Xcode",
        "SyncServices",
        "networkserviceproxy",
        "DiskImages",
        "CallHistoryTransactions",
        "App Store",
        "CloudDocs",
        "icdd",
        "iCloud",
        "Instruments",
        "AddressBook",
        "FaceTime",
        "AskPermission",
        "CallHistoryDB",
    ];
    let n = chars_of(name);
    let mut j: usize = 0;
    while j < exclusions.len()
        invariant
            j <= exclusions.len(),
            strs(exclusions@) == support_exclusions(),
            n@ == name@,
            forall|k: int| 0 <= k < j ==> #[trigger] exclusions@[k]@ != name@,
        decreases exclusions.len() - j,
    {
        if chars_eq_str(n.as_slice(), exclusions[j]) {
            assert(support_exclusions()[j as int] == name@);
            return false;
        }
        j = j + 1;
    }
    assert(!support_exclusions().contains(name@)) by {
        if support_exclusions().contains(name@) {
            let k = choose|k: int| 0 <= k < support_exclusions().len() && support_exclusions()[k] == name@;
            assert(exclusions@[k]@ == name@);
        }
    }
    match compile("\\bcom\\.apple\\b") {
        Some(p) => !is_match(&p, name),
        None => true,
    }
}

} // verus!
