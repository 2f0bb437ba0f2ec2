//! Heuristic matching of a file or folder against an application: the skip
//! rules for system items and the rule that decides whether an item belongs
//! to the application.

use vstd::prelude::*;

use crate::conditions::{condition_sources, conditions, kept_from};
use crate::format::{normal_form, pear_format};
use crate::identifiers::CachedIdentifiers;
use crate::model::{AppInfo, Condition, Sensitivity, SkipCondition};
use crate::paths::{extension, extension_of, file_name, file_name_of, file_stem, file_stem_of};
use crate::text::{
    any_eq, any_prefix, any_sub, chars_eq, chars_eq_str, chars_of, contains, contains_str,
    has_any_eq, has_any_prefix, has_any_sub, has_sub, lemma_split_len, split, split_char, starts,
    starts_with_str, string_eq_chars, string_of, sseqs, vseqs,
};
use crate::unicode::{str_to_lower, unicode_str_lower};

verus! {

// ---------------------------------------------------------------------------
// Skip rules
// ---------------------------------------------------------------------------

/// One skip condition hits an item: its path starts with a skipped path, or
/// its name starts with a skipped prefix and with no allowed prefix.
pub open spec fn skip_hits(name: Seq<char>, path: Seq<char>, sc: SkipCondition) -> bool {
    any_prefix(path, sc.skip_paths@) || (any_prefix(name, sc.skip_prefix@) && !any_prefix(
        name,
        sc.allow_prefixes@,
    ))
}

/// An item is skipped when its path is already collected or some skip
/// condition hits it.
pub open spec fn skipped(
    name: Seq<char>,
    path: Seq<char>,
    collection: Seq<String>,
    skips: Seq<SkipCondition>,
) -> bool {
    any_eq(path, collection) || exists|k: int|
        0 <= k < skips.len() && skip_hits(name, path, #[trigger] skips[k])
}

/// Whether an item is skipped (see `skipped`).
pub fn should_skip_item(
    normalized_item_name: &str,
    path: &str,
    collection: &Vec<String>,
    skip_conditions: &Vec<SkipCondition>,
) -> (r: bool)
    ensures
        r == skipped(normalized_item_name@, path@, collection@, skip_conditions@),
{
    let name = chars_of(normalized_item_name);
    let p = chars_of(path);
    if has_any_eq(p.as_slice(), collection) {
        return true;
    }
    let mut k: usize = 0;
    while k < skip_conditions.len()
        invariant
            name@ == normalized_item_name@,
            p@ == path@,
            !any_eq(path@, collection@),
            k <= skip_conditions.len(),
            forall|j: int|
                0 <= j < k ==> !skip_hits(name@, p@, #[trigger] skip_conditions@[j]),
        decreases skip_conditions.len() - k,
    {
        let sc = &skip_conditions[k];
        if has_any_prefix(p.as_slice(), &sc.skip_paths) {
            assert(skip_hits(name@, p@, skip_conditions@[k as int]));
            return true;
        }
        if has_any_prefix(name.as_slice(), &sc.skip_prefix) {
            if !has_any_prefix(name.as_slice(), &sc.allow_prefixes) {
                assert(skip_hits(name@, p@, skip_conditions@[k as int]));
                return true;
            }
        }
        k = k + 1;
    }
    false
}

// ---------------------------------------------------------------------------
// Steam helpers
// ---------------------------------------------------------------------------

/// The game id of a Steam manifest name: the text between the first `_` and
/// the next `.` ("appmanifest_1289310.acf" gives "1289310"); none without `_`.
pub open spec fn game_id_of(file_name: Seq<char>) -> Option<Seq<char>> {
    let parts = split(file_name, '_');
    if parts.len() >= 2 {
        Some(split(parts[1], '.')[0])
    } else {
        None
    }
}

/// The game id of a Steam manifest name (see `game_id_of`).
pub fn extract_game_id(filename: &str) -> (r: Option<String>)
    ensures
        opt_view(r) == game_id_of(filename@),
{
    let f = chars_of(filename);
    let parts = split_char(f.as_slice(), '_');
    if parts.len() < 2 {
        return None;
    }
    let sub = split_char(parts[1].as_slice(), '.');
    proof {
        lemma_split_len(parts@[1]@, '.');
    }
    assert(vseqs(parts@)[1] == parts@[1]@);
    assert(vseqs(sub@)[0] == sub@[0]@);
    Some(string_of(sub[0].as_slice()))
}

/// The character sequence of an optional string.
pub open spec fn opt_view(o: Option<String>) -> Option<Seq<char>> {
    match o {
        Some(s) => Some(s@),
        None => None,
    }
}

/// Length of the run of ASCII digits at the start of `s`.
pub open spec fn digit_run(s: Seq<char>) -> int
    decreases s.len(),
{
    if s.len() > 0 && '0' <= s[0] <= '9' {
        1 + digit_run(s.drop_first())
    } else {
        0
    }
}

/// First index at which `p` occurs in `s` (`s.len()` when it does not occur).
pub open spec fn first_occurrence(s: Seq<char>, p: Seq<char>) -> int
    decreases s.len(),
{
    if crate::text::occurs_at(s, p, 0) || s.len() == 0 {
        if crate::text::occurs_at(s, p, 0) {
            0
        } else {
            s.len() as int
        }
    } else {
        1 + first_occurrence(s.drop_first(), p)
    }
}

/// The game id a Steam launcher script starts: the digits right after the
/// first `steam://run/`.
pub open spec fn launcher_game_id(content: Seq<char>) -> Option<Seq<char>> {
    let marker = "steam://run/"@;
    let i = first_occurrence(content, marker);
    if i + marker.len() <= content.len() && crate::text::occurs_at(content, marker, i) {
        let after = content.subrange(i + marker.len(), content.len() as int);
        Some(after.subrange(0, digit_run(after)))
    } else {
        None
    }
}

/// The game id a Steam launcher script starts (see `launcher_game_id`).
pub fn steam_game_id_from_launcher(content: &str) -> (r: Option<String>)
    ensures
        opt_view(r) == launcher_game_id(content@),
{
    let s = chars_of(content);
    let marker = chars_of("steam://run/");
    proof {
        reveal_strlit("steam://run/");
    }
    let mut i: usize = 0;
    assert(s@.subrange(0, s@.len() as int) =~= s@);
    while i < s.len() && !crate::text::occurs_at_exec(s.as_slice(), marker.as_slice(), i)
        invariant
            i <= s.len(),
            marker@ == "steam://run/"@,
            first_occurrence(s@, marker@) == i + first_occurrence(
                s@.subrange(i as int, s@.len() as int),
                marker@,
            ),
        decreases s.len() - i,
    {
        let ghost rest = s@.subrange(i as int, s@.len() as int);
        assert(rest.drop_first() =~= s@.subrange(i + 1, s@.len() as int));
        assert(!crate::text::occurs_at(rest, marker@, 0)) by {
            if crate::text::occurs_at(rest, marker@, 0) {
                assert(rest.subrange(0, marker@.len() as int) =~= s@.subrange(
                    i as int,
                    i + marker@.len(),
                ));
            }
        }
        i = i + 1;
    }
    let ghost rest = s@.subrange(i as int, s@.len() as int);
    if i == s.len() {
        assert(!crate::text::occurs_at(rest, marker@, 0));
        assert(first_occurrence(rest, marker@) == 0);
        assert(!crate::text::occurs_at(s@, marker@, i as int));
        return None;
    }
    assert(crate::text::occurs_at(s@, marker@, i as int));
    assert(rest.subrange(0, marker@.len() as int) =~= s@.subrange(i as int, i + marker@.len()));
    assert(first_occurrence(rest, marker@) == 0);
    let start = i + marker.len();
    let mut j = start;
    let ghost after = s@.subrange(start as int, s@.len() as int);
    assert(s@.subrange(start as int, s@.len() as int) =~= after);
    while j < s.len() && '0' <= s[j] && s[j] <= '9'
        invariant
            start <= j <= s.len(),
            after == s@.subrange(start as int, s@.len() as int),
            digit_run(after) == (j - start) + digit_run(s@.subrange(j as int, s@.len() as int)),
        decreases s.len() - j,
    {
        assert(s@.subrange(j as int, s@.len() as int).drop_first() =~= s@.subrange(
            j + 1,
            s@.len() as int,
        ));
        j = j + 1;
    }
    let digits = crate::text::sub_chars(s.as_slice(), start, j);
    assert(digits@ =~= after.subrange(0, digit_run(after)));
    Some(string_of(digits.as_slice()))
}

// ---------------------------------------------------------------------------
// The matching rule
// ---------------------------------------------------------------------------

/// The verdict of the per-application conditions: the first condition whose
/// (normal-form) bundle id occurs in the application's bundle id and which
/// excludes or includes the name decides; exclusion is tested first.
pub open spec fn condition_verdict(conds: Seq<Condition>, name: Seq<char>, bid: Seq<char>) -> Option<
    bool,
>
    decreases conds.len(),
{
    if conds.len() == 0 {
        None
    } else {
        let c = conds[0];
        if has_sub(bid, c.bundle_id@) && any_sub(name, c.exclude@) {
            Some(false)
        } else if has_sub(bid, c.bundle_id@) && any_sub(name, c.includes@) {
            Some(true)
        } else {
            condition_verdict(conds.drop_first(), name, bid)
        }
    }
}

/// A name matches an identifier: equal under strict sensitivity, contained
/// otherwise; never for an empty identifier.
pub open spec fn name_hits(name: Seq<char>, id: Seq<char>, strict: bool) -> bool {
    id.len() != 0 && if strict {
        name == id
    } else {
        has_sub(name, id)
    }
}

/// An optional identifier that is present, non-empty and contained in the name.
pub open spec fn opt_hits(name: Seq<char>, id: Option<Seq<char>>) -> bool {
    match id {
        Some(i) => i.len() != 0 && has_sub(name, i),
        None => false,
    }
}

/// Lower-cased extension of a path (empty when it has none).
pub open spec fn lower_ext(path: Seq<char>) -> Seq<char> {
    match extension(path) {
        Some(e) => unicode_str_lower(e),
        None => Seq::empty(),
    }
}

/// Some formatted entitlement matches the name (equal under strict
/// sensitivity, contained otherwise).
pub open spec fn entitlement_hits(name: Seq<char>, ents: Seq<String>, strict: bool) -> bool {
    exists|j: int|
        0 <= j < ents.len() && if strict {
            name == (#[trigger] ents[j])@
        } else {
            has_sub(name, ents[j]@)
        }
}

/// The final disjunction of the matching rule: bundle id, names, two-component
/// id, company, team, base id and version-less name.
pub open spec fn identifier_hits(name: Seq<char>, ids: CachedIdentifiers, sens: Sensitivity) -> bool {
    let strict = sens == Sensitivity::Strict;
    let deep = sens == Sensitivity::Deep;
    ||| ids.use_bundle_identifier && has_sub(name, ids.formatted_bundle_id@)
    ||| name_hits(name, ids.formatted_app_name@, strict)
    ||| name_hits(name, ids.path_component_name@, strict)
    ||| name_hits(name, ids.app_name_letters_only@, strict)
    ||| !strict && has_sub(name, ids.bundle_last_two_components@)
    ||| deep && opt_hits(name, opt_view(ids.formatted_company_name))
    ||| deep && opt_hits(name, opt_view(ids.formatted_team_identifier))
    ||| opt_hits(name, opt_view(ids.formatted_base_bundle_id))
    ||| !strict && opt_hits(name, opt_view(ids.formatted_app_name_stripped))
}

/// Desktop shortcut rule: an `.app` under `/Desktop/` whose stem, in normal
/// form, is the application's name.
pub open spec fn desktop_hit(path: Seq<char>, ids: CachedIdentifiers) -> bool {
    let stem = match file_stem(path) {
        Some(s) => s,
        None => Seq::empty(),
    };
    has_sub(path, "/Desktop/"@) && lower_ext(path) == "app"@ && (normal_form(stem)
        == ids.formatted_app_name@ || normal_form(stem) == ids.app_name_letters_only@)
}

/// Steam game folder rule.
pub open spec fn steam_folder_hit(path: Seq<char>, app: AppInfo, ids: CachedIdentifiers) -> bool {
    let n = match file_name(path) {
        Some(s) => s,
        None => Seq::empty(),
    };
    app.steam && has_sub(path, "/Library/Application Support/Steam/steamapps/common/"@) && (
    normal_form(n) == ids.formatted_app_name@ || normal_form(n) == ids.app_name_letters_only@)
}

/// The Steam manifest rule applies and both game ids are known: the ids
/// then decide.
pub open spec fn steam_manifest_case(
    path: Seq<char>,
    app: AppInfo,
    launcher_id: Option<Seq<char>>,
) -> bool {
    let n = match file_name(path) {
        Some(s) => s,
        None => Seq::empty(),
    };
    &&& app.steam
    &&& has_sub(path, "/Library/Application Support/Steam/steamapps/"@)
    &&& file_name(path) is Some
    &&& starts(n, "appmanifest_"@)
    &&& lower_ext(path) == "acf"@
    &&& game_id_of(n) is Some
    &&& launcher_id is Some
}

/// Whether an item (its normal-form name and its path) belongs to the
/// application. `launcher_id` is the game id the application's Steam
/// launcher starts, when it has one. The rules, in order:
/// desktop shortcut and Steam folder (match); Steam manifest with both ids
/// known (match exactly when they agree); an entitlement; the per-application
/// conditions (when the bundle id is usable); web applications (bundle id
/// contained); otherwise `identifier_hits`.
pub open spec fn belongs_to_app(
    name: Seq<char>,
    path: Seq<char>,
    app: AppInfo,
    ids: CachedIdentifiers,
    sens: Sensitivity,
    conds: Seq<Condition>,
    launcher_id: Option<Seq<char>>,
) -> bool {
    let n = match file_name(path) {
        Some(s) => s,
        None => Seq::empty(),
    };
    if desktop_hit(path, ids) || steam_folder_hit(path, app, ids) {
        true
    } else if steam_manifest_case(path, app, launcher_id) {
        game_id_of(n) == launcher_id
    } else if entitlement_hits(name, ids.formatted_entitlements@, sens == Sensitivity::Strict) {
        true
    } else if ids.use_bundle_identifier && condition_verdict(
        conds,
        name,
        ids.formatted_bundle_id@,
    ) is Some {
        condition_verdict(conds, name, ids.formatted_bundle_id@) == Some(true)
    } else if app.web_app {
        has_sub(name, ids.formatted_bundle_id@)
    } else {
        identifier_hits(name, ids, sens)
    }
}

/// No rule before the comparison of identifiers decides for the item: it is
/// no desktop shortcut, Steam folder or Steam manifest with both ids known,
/// matches no entitlement, no per-application condition decides, and the
/// application is no web application.
pub open spec fn left_to_identifiers(
    name: Seq<char>,
    path: Seq<char>,
    app: AppInfo,
    ids: CachedIdentifiers,
    sens: Sensitivity,
    conds: Seq<Condition>,
    launcher_id: Option<Seq<char>>,
) -> bool {
    &&& !desktop_hit(path, ids)
    &&& !steam_folder_hit(path, app, ids)
    &&& !steam_manifest_case(path, app, launcher_id)
    &&& !entitlement_hits(name, ids.formatted_entitlements@, sens == Sensitivity::Strict)
    &&& !(ids.use_bundle_identifier && condition_verdict(conds, name, ids.formatted_bundle_id@) is Some)
    &&& !app.web_app
}

/// When no earlier rule decides, an item belongs to the application as soon
/// as its name holds one of the application's identifiers:
/// - the formatted bundle id, when it is usable;
/// - the formatted name, the name of the path component or the name's
///   letters (the whole name under strict sensitivity);
/// - the last two bundle id components, unless strict;
/// - under deep sensitivity, the company name and the team identifier;
/// - the base bundle id; unless strict, the version-less name.
/// Under strict sensitivity these are the only ways to match.
pub proof fn law_identifier_matches(
    name: Seq<char>,
    path: Seq<char>,
    app: AppInfo,
    ids: CachedIdentifiers,
    sens: Sensitivity,
    conds: Seq<Condition>,
    launcher_id: Option<Seq<char>>,
)
    requires
        left_to_identifiers(name, path, app, ids, sens, conds, launcher_id),
    ensures
        ids.use_bundle_identifier && has_sub(name, ids.formatted_bundle_id@) ==> belongs_to_app(
            name,
            path,
            app,
            ids,
            sens,
            conds,
            launcher_id,
        ),
        ids.formatted_app_name@.len() > 0 && (name == ids.formatted_app_name@ || (sens
            != Sensitivity::Strict && has_sub(name, ids.formatted_app_name@))) ==> belongs_to_app(
            name,
            path,
            app,
            ids,
            sens,
            conds,
            launcher_id,
        ),
        ids.path_component_name@.len() > 0 && (name == ids.path_component_name@ || (sens
            != Sensitivity::Strict && has_sub(name, ids.path_component_name@))) ==> belongs_to_app(
            name,
            path,
            app,
            ids,
            sens,
            conds,
            launcher_id,
        ),
        ids.app_name_letters_only@.len() > 0 && (name == ids.app_name_letters_only@ || (sens
            != Sensitivity::Strict && has_sub(name, ids.app_name_letters_only@))) ==> belongs_to_app(
            name,
            path,
            app,
            ids,
            sens,
            conds,
            launcher_id,
        ),
        sens != Sensitivity::Strict && has_sub(name, ids.bundle_last_two_components@)
            ==> belongs_to_app(name, path, app, ids, sens, conds, launcher_id),
        sens == Sensitivity::Deep && (ids.formatted_company_name matches Some(c) && c@.len() > 0
            && has_sub(name, c@)) ==> belongs_to_app(name, path, app, ids, sens, conds, launcher_id),
        sens == Sensitivity::Deep && (ids.formatted_team_identifier matches Some(t) && t@.len() > 0
            && has_sub(name, t@)) ==> belongs_to_app(name, path, app, ids, sens, conds, launcher_id),
        (ids.formatted_base_bundle_id matches Some(b) && b@.len() > 0 && has_sub(name, b@))
            ==> belongs_to_app(name, path, app, ids, sens, conds, launcher_id),
        sens != Sensitivity::Strict && (ids.formatted_app_name_stripped matches Some(v) && v@.len()
            > 0 && has_sub(name, v@)) ==> belongs_to_app(name, path, app, ids, sens, conds, launcher_id),
        sens == Sensitivity::Strict ==> (belongs_to_app(name, path, app, ids, sens, conds, launcher_id)
            <==> ((ids.use_bundle_identifier && has_sub(name, ids.formatted_bundle_id@)) || (
        ids.formatted_app_name@.len() > 0 && name == ids.formatted_app_name@) || (
        ids.path_component_name@.len() > 0 && name == ids.path_component_name@) || (
        ids.app_name_letters_only@.len() > 0 && name == ids.app_name_letters_only@) || (
        ids.formatted_base_bundle_id matches Some(b) && b@.len() > 0 && has_sub(name, b@)))),
{
    if ids.formatted_app_name@.len() > 0 && name == ids.formatted_app_name@ {
        assert(name.subrange(0, name.len() as int) =~= name);
        assert(crate::text::occurs_at(name, ids.formatted_app_name@, 0));
    }
    if ids.path_component_name@.len() > 0 && name == ids.path_component_name@ {
        assert(name.subrange(0, name.len() as int) =~= name);
        assert(crate::text::occurs_at(name, ids.path_component_name@, 0));
    }
    if ids.app_name_letters_only@.len() > 0 && name == ids.app_name_letters_only@ {
        assert(name.subrange(0, name.len() as int) =~= name);
        assert(crate::text::occurs_at(name, ids.app_name_letters_only@, 0));
    }
}

/// The rules before the identifiers, in order: a desktop shortcut whose
/// name is the application's and a game folder of a Steam application
/// belong; a Steam manifest whose game id and the launcher's are both known
/// belongs exactly when they agree; otherwise a name holding a formatted
/// entitlement (the whole name under strict sensitivity) belongs; then a
/// per-application condition that decides is followed; and the files of a
/// web application are those whose name holds its bundle id.
pub proof fn law_rule_order(
    name: Seq<char>,
    path: Seq<char>,
    app: AppInfo,
    ids: CachedIdentifiers,
    sens: Sensitivity,
    conds: Seq<Condition>,
    launcher_id: Option<Seq<char>>,
)
    ensures
        ({
            let stem = match file_stem(path) {
                Some(s) => s,
                None => Seq::empty(),
            };
            has_sub(path, "/Desktop/"@) && lower_ext(path) == "app"@ && (normal_form(stem)
                == ids.formatted_app_name@ || normal_form(stem) == ids.app_name_letters_only@)
        }) ==> belongs_to_app(name, path, app, ids, sens, conds, launcher_id),
        steam_folder_hit(path, app, ids) ==> belongs_to_app(name, path, app, ids, sens, conds, launcher_id),
        !desktop_hit(path, ids) && !steam_folder_hit(path, app, ids) && steam_manifest_case(
            path,
            app,
            launcher_id,
        ) ==> (belongs_to_app(name, path, app, ids, sens, conds, launcher_id) <==> game_id_of(
            file_name(path)->Some_0,
        ) == launcher_id),
        !desktop_hit(path, ids) && !steam_folder_hit(path, app, ids) && !steam_manifest_case(
            path,
            app,
            launcher_id,
        ) && (exists|j: int|
            0 <= j < ids.formatted_entitlements@.len() && (name
                == (#[trigger] ids.formatted_entitlements@[j])@ || (sens != Sensitivity::Strict
                && has_sub(name, ids.formatted_entitlements@[j]@)))) ==> belongs_to_app(
            name,
            path,
            app,
            ids,
            sens,
            conds,
            launcher_id,
        ),
        !desktop_hit(path, ids) && !steam_folder_hit(path, app, ids) && !steam_manifest_case(
            path,
            app,
            launcher_id,
        ) && !entitlement_hits(name, ids.formatted_entitlements@, sens == Sensitivity::Strict)
            && ids.use_bundle_identifier && condition_verdict(conds, name, ids.formatted_bundle_id@)
            is Some ==> belongs_to_app(name, path, app, ids, sens, conds, launcher_id)
            == condition_verdict(conds, name, ids.formatted_bundle_id@)->Some_0,
        !desktop_hit(path, ids) && !steam_folder_hit(path, app, ids) && !steam_manifest_case(
            path,
            app,
            launcher_id,
        ) && !entitlement_hits(name, ids.formatted_entitlements@, sens == Sensitivity::Strict)
            && !(ids.use_bundle_identifier && condition_verdict(conds, name, ids.formatted_bundle_id@)
            is Some) && app.web_app ==> (belongs_to_app(name, path, app, ids, sens, conds, launcher_id)
            <==> has_sub(name, ids.formatted_bundle_id@)),
{
    reveal_strlit("/Desktop/");
    reveal_strlit("app");
    if !desktop_hit(path, ids) && !steam_folder_hit(path, app, ids) && !steam_manifest_case(
        path,
        app,
        launcher_id,
    ) && (exists|j: int|
        0 <= j < ids.formatted_entitlements@.len() && (name == (#[trigger] ids.formatted_entitlements@[j])@
            || (sens != Sensitivity::Strict && has_sub(name, ids.formatted_entitlements@[j]@)))) {
        let j = choose|j: int|
            0 <= j < ids.formatted_entitlements@.len() && (name
                == (#[trigger] ids.formatted_entitlements@[j])@ || (sens != Sensitivity::Strict
                && has_sub(name, ids.formatted_entitlements@[j]@)));
        if name == ids.formatted_entitlements@[j]@ {
            assert(name.subrange(0, name.len() as int) =~= name);
            assert(crate::text::occurs_at(name, ids.formatted_entitlements@[j]@, 0));
        }
        assert(entitlement_hits(name, ids.formatted_entitlements@, sens == Sensitivity::Strict));
    }
}

/// The lower-cased extension of a path (see `lower_ext`).
fn lower_ext_of(p: &[char]) -> (r: Vec<char>)
    ensures
        r@ == lower_ext(p@),
{
    match extension_of(p) {
        Some(e) => {
            let l = str_to_lower(string_of(e.as_slice()).as_str());
            chars_of(l.as_str())
        },
        None => Vec::new(),
    }
}

/// Whether a name matches an identifier (see `name_hits`).
fn name_hits_exec(name: &[char], id: &String, strict: bool) -> (r: bool)
    ensures
        r == name_hits(name@, id@, strict),
{
    let idc = chars_of(id.as_str());
    if idc.len() == 0 {
        return false;
    }
    if strict {
        chars_eq(name, idc.as_slice())
    } else {
        contains(name, idc.as_slice())
    }
}

/// Whether an optional identifier matches (see `opt_hits`).
fn opt_hits_exec(name: &[char], id: &Option<String>) -> (r: bool)
    ensures
        r == opt_hits(name@, opt_view(*id)),
{
    match id {
        Some(i) => {
            let ic = chars_of(i.as_str());
            ic.len() != 0 && contains(name, ic.as_slice())
        },
        None => false,
    }
}

/// The verdict of the per-application conditions (see `condition_verdict`).
fn condition_verdict_exec(conds: &Vec<Condition>, name: &[char], bid: &[char]) -> (r: Option<bool>)
    ensures
        r == condition_verdict(conds@, name@, bid@),
{
    let mut i: usize = 0;
    assert(conds@.subrange(0, conds@.len() as int) =~= conds@);
    while i < conds.len()
        invariant
            i <= conds.len(),
            condition_verdict(conds@, name@, bid@) == condition_verdict(
                conds@.subrange(i as int, conds@.len() as int),
                name@,
                bid@,
            ),
        decreases conds.len() - i,
    {
        let c = &conds[i];
        let ghost rest = conds@.subrange(i as int, conds@.len() as int);
        assert(rest[0] == conds@[i as int]);
        assert(rest.drop_first() =~= conds@.subrange(i + 1, conds@.len() as int));
        let cb = chars_of(c.bundle_id.as_str());
        if contains(bid, cb.as_slice()) {
            if has_any_sub(name, &c.exclude) {
                return Some(false);
            }
            if has_any_sub(name, &c.includes) {
                return Some(true);
            }
        }
        i = i + 1;
    }
    None
}

/// Whether some formatted entitlement matches (see `entitlement_hits`).
fn entitlement_hits_exec(name: &[char], ents: &Vec<String>, strict: bool) -> (r: bool)
    ensures
        r == entitlement_hits(name@, ents@, strict),
{
    let mut j: usize = 0;
    while j < ents.len()
        invariant
            j <= ents.len(),
            forall|k: int|
                0 <= k < j ==> !(if strict {
                    name@ == (#[trigger] ents@[k])@
                } else {
                    has_sub(name@, ents@[k]@)
                }),
        decreases ents.len() - j,
    {
        let e = chars_of(ents[j].as_str());
        let hit = if strict {
            chars_eq(name, e.as_slice())
        } else {
            contains(name, e.as_slice())
        };
        if hit {
            return true;
        }
        j = j + 1;
    }
    false
}

/// Whether an item belongs to the application (see `belongs_to_app`).
pub fn specific_condition(
    normalized_item_name: &str,
    path: &str,
    app: &AppInfo,
    ids: &CachedIdentifiers,
    sensitivity: Sensitivity,
    conditions: &Vec<Condition>,
    launcher_game_id: Option<&str>,
) -> (r: bool)
    ensures
        r == belongs_to_app(
            normalized_item_name@,
            path@,
            *app,
            *ids,
            sensitivity,
            conditions@,
            match launcher_game_id {
                Some(g) => Some(g@),
                None => None,
            },
        ),
{
    let name = chars_of(normalized_item_name);
    let p = chars_of(path);
    let ext = lower_ext_of(p.as_slice());
    let fan = chars_of(ids.formatted_app_name.as_str());
    let letters = chars_of(ids.app_name_letters_only.as_str());
    let fname: Vec<char> = match file_name_of(p.as_slice()) {
        Some(n) => n,
        None => Vec::new(),
    };
    proof {
        reveal_strlit("app");
        reveal_strlit("acf");
    }

    // desktop shortcut
    let stem: Vec<char> = match file_stem_of(p.as_slice()) {
        Some(s) => s,
        None => Vec::new(),
    };
    let stem_nf = chars_of(pear_format(string_of(stem.as_slice()).as_str()).as_str());
    let desktop = contains_str(p.as_slice(), "/Desktop/") && chars_eq_str(ext.as_slice(), "app")
        && (chars_eq(stem_nf.as_slice(), fan.as_slice()) || chars_eq(
        stem_nf.as_slice(),
        letters.as_slice(),
    ));
    if desktop {
        return true;
    }
    // steam game folder
    let fname_nf = chars_of(pear_format(string_of(fname.as_slice()).as_str()).as_str());
    let steam_folder = app.steam && contains_str(
        p.as_slice(),
        "/Library/Application Support/Steam/steamapps/common/",
    ) && (chars_eq(fname_nf.as_slice(), fan.as_slice()) || chars_eq(
        fname_nf.as_slice(),
        letters.as_slice(),
    ));
    if steam_folder {
        return true;
    }
    // steam manifest
    let has_name = file_name_of(p.as_slice()).is_some();
    if app.steam && contains_str(p.as_slice(), "/Library/Application Support/Steam/steamapps/")
        && has_name && starts_with_str(fname.as_slice(), "appmanifest_") && chars_eq_str(
        ext.as_slice(),
        "acf",
    ) {
        let fname_s = string_of(fname.as_slice());
        match extract_game_id(fname_s.as_str()) {
            Some(from_file) => match launcher_game_id {
                Some(from_launcher) => {
                    let a = chars_of(from_file.as_str());
                    return chars_eq_str(a.as_slice(), from_launcher);
                },
                None => {},
            },
            None => {},
        }
    }
    let strict = match sensitivity {
        Sensitivity::Strict => true,
        _ => false,
    };
    let deep = match sensitivity {
        Sensitivity::Deep => true,
        _ => false,
    };
    // entitlements
    if entitlement_hits_exec(name.as_slice(), &ids.formatted_entitlements, strict) {
        return true;
    }
    let fbid = chars_of(ids.formatted_bundle_id.as_str());
    // per-application conditions
    if ids.use_bundle_identifier {
        match condition_verdict_exec(conditions, name.as_slice(), fbid.as_slice()) {
            Some(v) => {
                return v;
            },
            None => {},
        }
    }
    // web applications
    if app.web_app {
        return contains(name.as_slice(), fbid.as_slice());
    }
    let full_bundle_match = contains(name.as_slice(), fbid.as_slice());
    let app_name_match = name_hits_exec(name.as_slice(), &ids.formatted_app_name, strict);
    let path_name_match = name_hits_exec(name.as_slice(), &ids.path_component_name, strict);
    let letters_match = name_hits_exec(name.as_slice(), &ids.app_name_letters_only, strict);
    let two = chars_of(ids.bundle_last_two_components.as_str());
    let two_component_match = !strict && contains(name.as_slice(), two.as_slice());
    let company_match = deep && opt_hits_exec(name.as_slice(), &ids.formatted_company_name);
    let team_match = deep && opt_hits_exec(name.as_slice(), &ids.formatted_team_identifier);
    let base_match = opt_hits_exec(name.as_slice(), &ids.formatted_base_bundle_id);
    let stripped_match = !strict && opt_hits_exec(
        name.as_slice(),
        &ids.formatted_app_name_stripped,
    );
    (ids.use_bundle_identifier && full_bundle_match) || app_name_match || path_name_match
        || letters_match || two_component_match || company_match || team_match || base_match
        || stripped_match
}

/// The per-application rules for the home folder `home`, with the force
/// paths that `existing` holds (see `conditions`).
pub fn default_conditions(home: &str, existing: &Vec<String>) -> (r: Vec<Condition>)
    ensures
        r@.len() == condition_sources(home@).len(),
        forall|i: int|
            0 <= i < r@.len() ==> kept_from(#[trigger] r@[i], condition_sources(home@)[i], sseqs(existing@)),
{
    conditions(home, existing)
}

} // verus!
