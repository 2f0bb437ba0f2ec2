//! The per-application rule table and the tables of system items that are
//! never candidates.

use vstd::prelude::*;

use crate::format::{normal_form, pear_format};
use crate::model::{Condition, SkipCondition};
use crate::text::{concat, owned, owned_all, sseqs, strs};

verus! {

/// One row of the rule table as written: the raw bundle id, names and paths.
pub struct ConditionSource {
    pub bundle_id: Seq<char>,
    pub includes: Seq<Seq<char>>,
    pub exclude: Seq<Seq<char>>,
    pub include_force: Seq<Seq<char>>,
    pub exclude_force: Seq<Seq<char>>,
}

/// The normal forms of a list of names.
pub open spec fn normal_forms(v: Seq<Seq<char>>) -> Seq<Seq<char>> {
    v.map_values(|x: Seq<char>| normal_form(x))
}

/// A condition is built from a row: names in normal form, paths as written.
pub open spec fn built_from(c: Condition, s: ConditionSource) -> bool {
    &&& c.bundle_id@ == normal_form(s.bundle_id)
    &&& sseqs(c.includes@) =~= normal_forms(s.includes)
    &&& sseqs(c.exclude@) =~= normal_forms(s.exclude)
    &&& sseqs(c.include_force@) =~= s.include_force
    &&& sseqs(c.exclude_force@) =~= s.exclude_force
}

/// Normal forms of the given names.
fn formatted_all(v: &Vec<&str>) -> (r: Vec<String>)
    ensures
        sseqs(r@) == normal_forms(strs(v@)),
{
    let mut r: Vec<String> = Vec::new();
    let mut i: usize = 0;
    while i < v.len()
        invariant
            i <= v.len(),
            sseqs(r@) == normal_forms(strs(v@.take(i as int))),
        decreases v.len() - i,
    {
        r.push(pear_format(v[i]));
        i = i + 1;
        assert(normal_forms(strs(v@.take(i as int))) =~= normal_forms(
            strs(v@.take((i - 1) as int)),
        ).push(normal_form(v@[i - 1]@)));
        assert(sseqs(r@) =~= sseqs(r@.drop_last()).push(r@.last()@));
    }
    assert(v@.take(v.len() as int) =~= v@);
    r
}

/// A condition built from one row of the table.
fn cond(
    bundle_id: &str,
    includes: Vec<&str>,
    exclude: Vec<&str>,
    include_force: Vec<String>,
    exclude_force: Vec<String>,
) -> (r: Condition)
    ensures
        built_from(
            r,
            ConditionSource {
                bundle_id: bundle_id@,
                includes: strs(includes@),
                exclude: strs(exclude@),
                include_force: sseqs(include_force@),
                exclude_force: sseqs(exclude_force@),
            },
        ),
{
    Condition {
        bundle_id: pear_format(bundle_id),
        includes: formatted_all(&includes),
        exclude: formatted_all(&exclude),
        include_force,
        exclude_force,
    }
}

/// The rule table as written, for the home folder `home`.
pub open spec fn condition_sources(home: Seq<char>) -> Seq<ConditionSource> {
    seq![
        ConditionSource {
            bundle_id: "com.apple.dt.xcode"@,
            includes: seq!["com.apple.dt"@, "xcode"@, "simulator"@],
            exclude: seq!["com.robotsandpencils.xcodesapp"@, "com.xcodesorg.xcodesapp"@, "com.oneminutegames.xcodecleaner"@, "io.hyperapp.xcodecleaner"@, "available-xcodes"@, "xcodes"@, "cleaner for xcode"@],
            include_force: seq![home + "/Library/Containers/com.apple.iphonesimulator.ShareExtension"@],
            exclude_force: seq![],
        },
        ConditionSource {
            bundle_id: "com.robotsandpencils.xcodesapp"@,
            includes: seq![],
            exclude: seq!["com.apple.dt.xcode"@, "com.oneminutegames.xcodecleaner"@, "io.hyperapp.xcodecleaner"@],
            include_force: seq![],
            exclude_force: seq![],
        },
        ConditionSource {
            bundle_id: "com.xcodesorg.xcodesapp"@,
            includes: seq![],
            exclude: seq!["com.apple.dt.xcode"@, "com.oneminutegames.xcodecleaner"@, "io.hyperapp.xcodecleaner"@],
            include_force: seq![],
            exclude_force: seq![],
        },
        ConditionSource {
            bundle_id: "io.hyperapp.xcodecleaner"@,
            includes: seq![],
            exclude: seq!["com.robotsandpencils.xcodesapp"@, "com.oneminutegames.xcodecleaner"@, "com.apple.dt.xcode"@, "xcodes.json"@],
            include_force: seq![],
            exclude_force: seq![],
        },
        ConditionSource {
            bundle_id: "us.zoom.xos"@,
            includes: seq!["zoom"@],
            exclude: seq![],
            include_force: seq![],
            exclude_force: seq![],
        },
        ConditionSource {
            bundle_id: "com.brave.browser"@,
            includes: seq!["brave"@],
            exclude: seq![],
            include_force: seq![],
            exclude_force: seq![],
        },
        ConditionSource {
            bundle_id: "com.okta.mobile"@,
            includes: seq!["okta"@],
            exclude: seq![],
            include_force: seq![],
            exclude_force: seq![],
        },
        ConditionSource {
            bundle_id: "com.google.chrome"@,
            includes: seq!["google"@, "chrome"@],
            exclude: seq!["iterm"@, "chromefeaturestate"@, "monochrome"@],
            include_force: seq![],
            exclude_force: seq![],
        },
        ConditionSource {
            bundle_id: "com.microsoft.edgemac"@,
            includes: seq![],
            exclude: seq!["vscode"@, "rdc"@, "appcenter"@, "office"@, "oneauth"@],
            include_force: seq![],
            exclude_force: seq![],
        },
        ConditionSource {
            bundle_id: "com.microsoft.teams2"@,
            includes: seq![],
            exclude: seq!["office"@],
            include_force: seq![],
            exclude_force: seq![],
        },
        ConditionSource {
            bundle_id: "org.mozilla.firefox"@,
            includes: seq!["firefox"@],
            exclude: seq!["thunderbird"@],
            include_force: seq![],
            exclude_force: seq![],
        },
        ConditionSource {
            bundle_id: "org.mozilla.thunderbird"@,
            includes: seq![],
            exclude: seq!["firefox"@],
            include_force: seq![],
            exclude_force: seq![],
        },
        ConditionSource {
            bundle_id: "org.mozilla.firefox.nightly"@,
            includes: seq!["mozilla"@, "firefox"@],
            exclude: seq!["thunderbird"@],
            include_force: seq![],
            exclude_force: seq![],
        },
        ConditionSource {
            bundle_id: "com.logi.optionsplus"@,
            includes: seq!["logi"@, "logipluginservice"@],
            exclude: seq!["login"@, "logic"@],
            include_force: seq![],
            exclude_force: seq![],
        },
        ConditionSource {
            bundle_id: "com.microsoft.VSCode"@,
            includes: seq!["vscode"@],
            exclude: seq!["vscodeinsiders"@, "insiders"@],
            include_force: seq![home + "/Library/Application Support/Code/"@],
            exclude_force: seq![],
        },
        ConditionSource {
            bundle_id: "com.microsoft.VSCodeInsiders"@,
            includes: seq!["vscodeinsiders"@, "insiders"@],
            exclude: seq![],
            include_force: seq![home + "/Library/Application Support/Code - Insiders/"@],
            exclude_force: seq![],
        },
        ConditionSource {
            bundle_id: "com.facebook.archon.developerid"@,
            includes: seq!["archon.loginhelper"@],
            exclude: seq![],
            include_force: seq![],
            exclude_force: seq![],
        },
        ConditionSource {
            bundle_id: "eu.exelban.stats"@,
            includes: seq![],
            exclude: seq!["video"@],
            include_force: seq![],
            exclude_force: seq![],
        },
        ConditionSource {
            bundle_id: "me.mhaeuser.BatteryToolkit"@,
            includes: seq!["memhaeuser"@],
            exclude: seq![],
            include_force: seq![],
            exclude_force: seq![],
        },
        ConditionSource {
            bundle_id: "jetbrains"@,
            includes: seq!["jcef"@],
            exclude: seq![],
            include_force: seq![home + "/Library/Application Support/JetBrains/"@, home + "/Library/Caches/JetBrains/"@, home + "/Library/Logs/JetBrains/"@],
            exclude_force: seq![],
        },
        ConditionSource {
            bundle_id: "company.thebrowser.Browser"@,
            includes: seq!["firestore"@],
            exclude: seq![],
            include_force: seq![home + "/Library/Application Support/Arc/"@, home + "/Library/Caches/Arc/"@],
            exclude_force: seq![],
        },
        ConditionSource {
            bundle_id: "com.1password.1password"@,
            includes: seq!["waveboxapp"@, "sidekick"@],
            exclude: seq![],
            include_force: seq![],
            exclude_force: seq![],
        },
        ConditionSource {
            bundle_id: "com.now.gg.BlueStacks"@,
            includes: seq!["bst_boost_interprocess"@],
            exclude: seq![],
            include_force: seq![],
            exclude_force: seq![],
        },
        ConditionSource {
            bundle_id: "com.electron.sdm"@,
            includes: seq!["strongdm"@],
            exclude: seq![],
            include_force: seq![],
            exclude_force: seq![],
        },
        ConditionSource {
            bundle_id: "com.github.githubclient"@,
            includes: seq!["comgithubelectron"@],
            exclude: seq![],
            include_force: seq![],
            exclude_force: seq![],
        },
        ConditionSource {
            bundle_id: "com.native-instruments.nativeaccess"@,
            includes: seq!["comnative"@, "nativeinstruments"@],
            exclude: seq![],
            include_force: seq![],
            exclude_force: seq![],
        },
    ]
}

/// The paths of a list that are among the existing ones, in order.
pub open spec fn existing_only(paths: Seq<Seq<char>>, existing: Seq<Seq<char>>) -> Seq<Seq<char>>
    decreases paths.len(),
{
    if paths.len() == 0 {
        Seq::empty()
    } else {
        let p = existing_only(paths.drop_last(), existing);
        if existing.contains(paths.last()) {
            p.push(paths.last())
        } else {
            p
        }
    }
}

/// A rule built from a row: names in normal form, and of the force paths
/// only those that exist.
pub open spec fn kept_from(c: Condition, s: ConditionSource, existing: Seq<Seq<char>>) -> bool {
    &&& c.bundle_id@ == normal_form(s.bundle_id)
    &&& sseqs(c.includes@) =~= normal_forms(s.includes)
    &&& sseqs(c.exclude@) =~= normal_forms(s.exclude)
    &&& sseqs(c.include_force@) =~= existing_only(s.include_force, existing)
    &&& sseqs(c.exclude_force@) =~= existing_only(s.exclude_force, existing)
}

/// A force path of some row of the table.
pub open spec fn is_forced_path(home: Seq<char>, p: Seq<char>) -> bool {
    exists|i: int|
        0 <= i < condition_sources(home).len() && ((#[trigger] condition_sources(home)[i]).include_force.contains(p)
            || condition_sources(home)[i].exclude_force.contains(p))
}

/// The paths of `paths` that `existing` holds, in order.
fn keep_existing(paths: &Vec<String>, existing: &Vec<String>) -> (r: Vec<String>)
    ensures
        sseqs(r@) == existing_only(sseqs(paths@), sseqs(existing@)),
{
    let mut r: Vec<String> = Vec::new();
    let mut i: usize = 0;
    while i < paths.len()
        invariant
            i <= paths.len(),
            sseqs(r@) == existing_only(sseqs(paths@).take(i as int), sseqs(existing@)),
        decreases paths.len() - i,
    {
        assert(sseqs(paths@).take(i + 1).drop_last() =~= sseqs(paths@).take(i as int));
        assert(sseqs(paths@).take(i + 1).last() == paths@[i as int]@);
        let c = crate::text::chars_of(paths[i].as_str());
        if crate::order::contains_string(existing, c.as_slice()) {
            let ghost prev = sseqs(r@);
            r.push(owned(paths[i].as_str()));
            assert(sseqs(r@) =~= prev.push(paths@[i as int]@));
        }
        i = i + 1;
    }
    assert(sseqs(paths@).take(paths.len() as int) =~= sseqs(paths@));
    r
}

/// The per-application rules for the home folder `home`, keeping of the
/// force paths only those that `existing` holds (the force paths found on
/// disk; see `forced_paths` for the paths to look for).
pub fn conditions(home: &str, existing: &Vec<String>) -> (r: Vec<Condition>)
    ensures
        r@.len() == condition_sources(home@).len(),
        forall|i: int|
            0 <= i < r@.len() ==> kept_from(
                #[trigger] r@[i],
                condition_sources(home@)[i],
                sseqs(existing@),
            ),
{
    let table = condition_table(home);
    let mut r: Vec<Condition> = Vec::new();
    let mut i: usize = 0;
    while i < table.len()
        invariant
            i <= table.len(),
            table@.len() == condition_sources(home@).len(),
            forall|j: int| 0 <= j < table@.len() ==> built_from(#[trigger] table@[j], condition_sources(home@)[j]),
            r@.len() == i,
            forall|j: int|
                0 <= j < i ==> kept_from(#[trigger] r@[j], condition_sources(home@)[j], sseqs(existing@)),
        decreases table.len() - i,
    {
        let t = &table[i];
        assert(built_from(table@[i as int], condition_sources(home@)[i as int]));
        let c = Condition {
            bundle_id: owned(t.bundle_id.as_str()),
            includes: crate::dev_env::copy_strings(&t.includes),
            exclude: crate::dev_env::copy_strings(&t.exclude),
            include_force: keep_existing(&t.include_force, existing),
            exclude_force: keep_existing(&t.exclude_force, existing),
        };
        r.push(c);
        i = i + 1;
    }
    r
}

/// Every force path of the table, for the caller to look for on disk.
pub fn forced_paths(home: &str) -> (r: Vec<String>)
    ensures
        forall|p: Seq<char>| #[trigger] sseqs(r@).contains(p) <==> is_forced_path(home@, p),
{
    let table = condition_table(home);
    let mut r: Vec<String> = Vec::new();
    let mut i: usize = 0;
    while i < table.len()
        invariant
            i <= table.len(),
            table@.len() == condition_sources(home@).len(),
            forall|j: int| 0 <= j < table@.len() ==> built_from(#[trigger] table@[j], condition_sources(home@)[j]),
            forall|p: Seq<char>|
                #[trigger] sseqs(r@).contains(p) <==> exists|j: int|
                    0 <= j < i && ((#[trigger] condition_sources(home@)[j]).include_force.contains(p)
                        || condition_sources(home@)[j].exclude_force.contains(p)),
        decreases table.len() - i,
    {
        assert(built_from(table@[i as int], condition_sources(home@)[i as int]));
        let ghost before = sseqs(r@);
        assert(forall|p: Seq<char>|
            #[trigger] before.contains(p) <==> exists|j: int|
                0 <= j < i && ((#[trigger] condition_sources(home@)[j]).include_force.contains(p)
                    || condition_sources(home@)[j].exclude_force.contains(p)));
        let mut k: usize = 0;
        while k < table[i].include_force.len()
            invariant
                i < table.len(),
                k <= table@[i as int].include_force.len(),
                sseqs(r@) == before + sseqs(table@[i as int].include_force@).take(k as int),
            decreases table@[i as int].include_force.len() - k,
        {
            let ghost prev = r@;
            r.push(owned(table[i].include_force[k].as_str()));
            assert(sseqs(r@) =~= sseqs(prev).push(table@[i as int].include_force@[k as int]@));
            assert(sseqs(table@[i as int].include_force@).take(k + 1) =~= sseqs(
                table@[i as int].include_force@,
            ).take(k as int).push(table@[i as int].include_force@[k as int]@));
            assert(sseqs(r@) =~= before + sseqs(table@[i as int].include_force@).take(k + 1));
            k = k + 1;
        }
        let ghost mid = sseqs(r@);
        let mut k: usize = 0;
        while k < table[i].exclude_force.len()
            invariant
                i < table.len(),
                k <= table@[i as int].exclude_force.len(),
                sseqs(r@) == mid + sseqs(table@[i as int].exclude_force@).take(k as int),
            decreases table@[i as int].exclude_force.len() - k,
        {
            let ghost prev = r@;
            r.push(owned(table[i].exclude_force[k].as_str()));
            assert(sseqs(r@) =~= sseqs(prev).push(table@[i as int].exclude_force@[k as int]@));
            assert(sseqs(table@[i as int].exclude_force@).take(k + 1) =~= sseqs(
                table@[i as int].exclude_force@,
            ).take(k as int).push(table@[i as int].exclude_force@[k as int]@));
            assert(sseqs(r@) =~= mid + sseqs(table@[i as int].exclude_force@).take(k + 1));
            k = k + 1;
        }
        let ghost inc = sseqs(table@[i as int].include_force@);
        let ghost exc = sseqs(table@[i as int].exclude_force@);
        assert(inc =~= condition_sources(home@)[i as int].include_force);
        assert(exc =~= condition_sources(home@)[i as int].exclude_force);
        assert(inc.take(inc.len() as int) =~= inc);
        assert(exc.take(exc.len() as int) =~= exc);
        assert(sseqs(r@) =~= before + inc + exc);
        assert forall|p: Seq<char>|
            #[trigger] sseqs(r@).contains(p) <==> exists|j: int|
                0 <= j < i + 1 && ((#[trigger] condition_sources(home@)[j]).include_force.contains(p)
                    || condition_sources(home@)[j].exclude_force.contains(p)) by {
            if sseqs(r@).contains(p) {
                let k = choose|k: int| 0 <= k < sseqs(r@).len() && sseqs(r@)[k] == p;
                if k < before.len() {
                    assert(before[k] == p);
                    assert(before.contains(p));
                    let j = choose|j: int|
                        0 <= j < i && ((#[trigger] condition_sources(home@)[j]).include_force.contains(p)
                            || condition_sources(home@)[j].exclude_force.contains(p));
                    assert(0 <= j < i + 1 && (condition_sources(home@)[j].include_force.contains(p)
                        || condition_sources(home@)[j].exclude_force.contains(p)));
                } else if k < before.len() + inc.len() {
                    assert(inc[k - before.len()] == p);
                    assert(condition_sources(home@)[i as int].include_force.contains(p));
                } else {
                    assert(exc[k - before.len() - inc.len()] == p);
                    assert(condition_sources(home@)[i as int].exclude_force.contains(p));
                }
            }
            if exists|j: int|
                0 <= j < i + 1 && ((#[trigger] condition_sources(home@)[j]).include_force.contains(p)
                    || condition_sources(home@)[j].exclude_force.contains(p)) {
                let j = choose|j: int|
                    0 <= j < i + 1 && ((#[trigger] condition_sources(home@)[j]).include_force.contains(p)
                        || condition_sources(home@)[j].exclude_force.contains(p));
                if j < i {
                    assert(before.contains(p));
                    let k = choose|k: int| 0 <= k < before.len() && before[k] == p;
                    assert(sseqs(r@)[k] == p);
                } else if inc.contains(p) {
                    let k = choose|k: int| 0 <= k < inc.len() && inc[k] == p;
                    assert(sseqs(r@)[before.len() + k] == p);
                } else {
                    assert(exc.contains(p));
                    let k = choose|k: int| 0 <= k < exc.len() && exc[k] == p;
                    assert(sseqs(r@)[before.len() + inc.len() + k] == p);
                }
            }
        }
        i = i + 1;
    }
    r
}

/// The rows of the rule table for the home folder `home`, with every force
/// path as written.
fn condition_table(home: &str) -> (r: Vec<Condition>)
    ensures
        r@.len() == condition_sources(home@).len(),
        forall|i: int| 0 <= i < r@.len() ==> built_from(#[trigger] r@[i], condition_sources(home@)[i]),
{
    let r = vec![
        cond(
            "com.apple.dt.xcode",
            vec!["com.apple.dt", "xcode", "simulator"],
            vec!["com.robotsandpencils.xcodesapp", "com.xcodesorg.xcodesapp", "com.oneminutegames.xcodecleaner", "io.hyperapp.xcodecleaner", "available-xcodes", "xcodes", "cleaner for xcode"],
            vec![concat(home, "/Library/Containers/com.apple.iphonesimulator.ShareExtension")],
            vec![],
        ),
        cond(
            "com.robotsandpencils.xcodesapp",
            vec![],
            vec!["com.apple.dt.xcode", "com.oneminutegames.xcodecleaner", "io.hyperapp.xcodecleaner"],
            vec![],
            vec![],
        ),
        cond(
            "com.xcodesorg.xcodesapp",
            vec![],
            vec!["com.apple.dt.xcode", "com.oneminutegames.xcodecleaner", "io.hyperapp.xcodecleaner"],
            vec![],
            vec![],
        ),
        cond(
            "io.hyperapp.xcodecleaner",
            vec![],
            vec!["com.robotsandpencils.xcodesapp", "com.oneminutegames.xcodecleaner", "com.apple.dt.xcode", "xcodes.json"],
            vec![],
            vec![],
        ),
        cond(
            "us.zoom.xos",
            vec!["zoom"],
            vec![],
            vec![],
            vec![],
        ),
        cond(
            "com.brave.browser",
            vec!["brave"],
            vec![],
            vec![],
            vec![],
        ),
        cond(
            "com.okta.mobile",
            vec!["okta"],
            vec![],
            vec![],
            vec![],
        ),
        cond(
            "com.google.chrome",
            vec!["google", "chrome"],
            vec!["iterm", "chromefeaturestate", "monochrome"],
            vec![],
            vec![],
        ),
        cond(
            "com.microsoft.edgemac",
            vec![],
            vec!["vscode", "rdc", "appcenter", "office", "oneauth"],
            vec![],
            vec![],
        ),
        cond(
            "com.microsoft.teams2",
            vec![],
            vec!["office"],
            vec![],
            vec![],
        ),
        cond(
            "org.mozilla.firefox",
            vec!["firefox"],
            vec!["thunderbird"],
            vec![],
            vec![],
        ),
        cond(
            "org.mozilla.thunderbird",
            vec![],
            vec!["firefox"],
            vec![],
            vec![],
        ),
        cond(
            "org.mozilla.firefox.nightly",
            vec!["mozilla", "firefox"],
            vec!["thunderbird"],
            vec![],
            vec![],
        ),
        cond(
            "com.logi.optionsplus",
            vec!["logi", "logipluginservice"],
            vec!["login", "logic"],
            vec![],
            vec![],
        ),
        cond(
            "com.microsoft.VSCode",
            vec!["vscode"],
            vec!["vscodeinsiders", "insiders"],
            vec![concat(home, "/Library/Application Support/Code/")],
            vec![],
        ),
        cond(
            "com.microsoft.VSCodeInsiders",
            vec!["vscodeinsiders", "insiders"],
            vec![],
            vec![concat(home, "/Library/Application Support/Code - Insiders/")],
            vec![],
        ),
        cond(
            "com.facebook.archon.developerid",
            vec!["archon.loginhelper"],
            vec![],
            vec![],
            vec![],
        ),
        cond(
            "eu.exelban.stats",
            vec![],
            vec!["video"],
            vec![],
            vec![],
        ),
        cond(
            "me.mhaeuser.BatteryToolkit",
            vec!["memhaeuser"],
            vec![],
            vec![],
            vec![],
        ),
        cond(
            "jetbrains",
            vec!["jcef"],
            vec![],
            vec![concat(home, "/Library/Application Support/JetBrains/"), concat(home, "/Library/Caches/JetBrains/"), concat(home, "/Library/Logs/JetBrains/")],
            vec![],
        ),
        cond(
            "company.thebrowser.Browser",
            vec!["firestore"],
            vec![],
            vec![concat(home, "/Library/Application Support/Arc/"), concat(home, "/Library/Caches/Arc/")],
            vec![],
        ),
        cond(
            "com.1password.1password",
            vec!["waveboxapp", "sidekick"],
            vec![],
            vec![],
            vec![],
        ),
        cond(
            "com.now.gg.BlueStacks",
            vec!["bst_boost_interprocess"],
            vec![],
            vec![],
            vec![],
        ),
        cond(
            "com.electron.sdm",
            vec!["strongdm"],
            vec![],
            vec![],
            vec![],
        ),
        cond(
            "com.github.githubclient",
            vec!["comgithubelectron"],
            vec![],
            vec![],
            vec![],
        ),
        cond(
            "com.native-instruments.nativeaccess",
            vec!["comnative", "nativeinstruments"],
            vec![],
            vec![],
            vec![],
        ),
    ];
    r
}

/// Name prefixes of system items that are never candidates.
pub open spec fn skipped_name_prefixes() -> Seq<Seq<char>> {
    seq!["mobiledocuments"@, "reminders"@, "dsstore"@, "comapplepasswordmanager"@]
}

/// Name prefixes that stay candidates although a skipped prefix matches.
pub open spec fn allowed_name_prefixes() -> Seq<Seq<char>> {
    seq![
        "comappleconfigurator"@,
        "comappledt"@,
        "comappleiwork"@,
        "comapplesfsymbols"@,
        "comappletestflight"@,
        "comapplesharedfilelist"@,
        "comapplelssharedfilelist"@,
    ]
}

/// Path prefixes of system items that are never candidates, for the home
/// folder `home`.
pub open spec fn skipped_path_prefixes(home: Seq<char>) -> Seq<Seq<char>> {
    seq![
        home + "/.Trash"@,
        "/Library/SystemExtensions"@,
        "/System/Volumes/Preboot/Cryptexes/App/System/Library/CoreServices/PasswordManagerBrowserExtensionHelper.app/Contents/MacOS/PasswordManagerBrowserExtensionHelper"@,
        home + "/Library/Application Support/Chromium/NativeMessagingHosts/com.apple.passwordmanager.json"@,
        home + "/Library/Application Support/Google/Chrome/NativeMessagingHosts/com.apple.passwordmanager.json"@,
    ]
}

/// The skip rules for system files and folders: a single rule made of the
/// three lists above.
pub fn skip_conditions(home: &str) -> (r: Vec<SkipCondition>)
    ensures
        r@.len() == 1,
        sseqs(r@[0].skip_prefix@) == skipped_name_prefixes(),
        sseqs(r@[0].allow_prefixes@) == allowed_name_prefixes(),
        sseqs(r@[0].skip_paths@) == skipped_path_prefixes(home@),
{
    let skip_prefix = owned_all(
        &vec!["mobiledocuments", "reminders", "dsstore", "comapplepasswordmanager"],
    );
    let allow_prefixes = owned_all(
        &vec![
            "comappleconfigurator",
            "comappledt",
            "comappleiwork",
            "comapplesfsymbols",
            "comappletestflight",
            "comapplesharedfilelist",
            "comapplelssharedfilelist",
        ],
    );
    let skip_paths = vec![
        concat(home, "/.Trash"),
        owned("/Library/SystemExtensions"),
        owned(
            "/System/Volumes/Preboot/Cryptexes/App/System/Library/CoreServices/PasswordManagerBrowserExtensionHelper.app/Contents/MacOS/PasswordManagerBrowserExtensionHelper",
        ),
        concat(
            home,
            "/Library/Application Support/Chromium/NativeMessagingHosts/com.apple.passwordmanager.json",
        ),
        concat(
            home,
            "/Library/Application Support/Google/Chrome/NativeMessagingHosts/com.apple.passwordmanager.json",
        ),
    ];
    assert(sseqs(skip_paths@) =~= skipped_path_prefixes(home@));
    vec![SkipCondition { skip_prefix, allow_prefixes, skip_paths }]
}

/// Folder names under a Library folder that a deep search never enters.
pub open spec fn deep_search_skips() -> Seq<Seq<char>> {
    seq![
        "Apple"@,
        "Audio"@,
        "Bluetooth"@,
        "ColorSync"@,
        "Components"@,
        "CoreAnalytics"@,
        "CoreMediaIO"@,
        "DirectoryServices"@,
        "Filesystems"@,
        "GPUBundles"@,
        "Graphics"@,
        "KernelCollections"@,
        "OSAnalytics"@,
        "OpenDirectory"@,
        "Sandbox"@,
        "Security"@,
        "SystemExtensions"@,
        "SystemMigration"@,
        "SystemProfiler"@,
        "StagedDriverExtensions"@,
        "StagedExtensions"@,
        "StartupItems"@,
        "Accessibility"@,
        "Accounts"@,
        "AppleMediaServices"@,
        "Assistant"@,
        "Assistants"@,
        "Autosave Information"@,
        "Biome"@,
        "Calendars"@,
        "CallServices"@,
        "CloudStorage"@,
        "Contacts"@,
        "Cookies"@,
        "DataAccess"@,
        "DataDeliveryServices"@,
        "DoNotDisturb"@,
        "DuetExpertCenter"@,
        "Finance"@,
        "FinanceBackup"@,
        "FrontBoard"@,
        "GameKit"@,
        "GroupContainersAlias"@,
        "HomeKit"@,
        "IdentityServices"@,
        "IntelligencePlatform"@,
        "Intents"@,
        "KeyboardServices"@,
        "LanguageModeling"@,
        "LockdownMode"@,
        "Mail"@,
        "MediaAnalysis"@,
        "Messages"@,
        "Metadata"@,
        "Mobile Documents"@,
        "MobileDevice"@,
        "News"@,
        "Passes"@,
        "PersonalizationPortrait"@,
        "Photos"@,
        "PrivateCloudCompute"@,
        "Reminders"@,
        "ResponseKit"@,
        "Safari"@,
        "SafariSafeBrowsing"@,
        "SafariSandboxBroker"@,
        "ScreenRecordings"@,
        "StatusKit"@,
        "Suggestions"@,
        "SyncedPreferences"@,
        "Translation"@,
        "UnifiedAssetFramework"@,
        "Weather"@,
        "homeenergyd"@,
        "studentd"@,
        "Developer"@,
        "Perl"@,
        "Ruby"@,
        "Java"@,
        "Python"@,
        "Catacomb"@,
        "InstallerSandboxes"@,
        "Trial"@,
        "Updates"@,
        "Staging"@,
        "ContainerManager"@,
        "Daemon Containers"@,
        "ColorPickers"@,
        "Colors"@,
        "Compositions"@,
        "Contextual Menu Items"@,
        "Documentation"@,
        "DriverExtensions"@,
        "Favorites"@,
        "FontCollections"@,
        "Fonts"@,
        "Image Capture"@,
        "Input Methods"@,
        "Jupyter"@,
        "Keyboard"@,
        "Keyboard Layouts"@,
        "Keychains"@,
        "Managed Preferences"@,
        "PDF Services"@,
        "Printers"@,
        "QuickLook"@,
        "Receipts"@,
        "Screen Savers"@,
        "ScriptingAdditions"@,
        "Scripts"@,
        "Sharing"@,
        "Shortcuts"@,
        "Sounds"@,
        "Speech"@,
        "Spelling"@,
        "Spotlight"@,
        "User Pictures"@,
        "User Template"@,
        "Video"@,
        "WebServer"@,
        "Workflows"@,
        "com.apple.AppleMediaServices"@,
        "com.apple.WatchListKit"@,
        "com.apple.aiml.instrumentation"@,
        "com.apple.appleaccountd"@,
        "com.apple.bluetooth.services.cloud"@,
        "com.apple.bluetoothuser"@,
        "com.apple.familycircled"@,
        "com.apple.iTunesCloud"@,
        "com.apple.internal.ck"@,
    ]
}

/// Folder names under a Library folder that a deep search never enters
/// (see `deep_search_skips`).
pub fn skip_deep_search() -> (r: Vec<String>)
    ensures
        sseqs(r@) == deep_search_skips(),
{
    owned_all(
        &vec![
        "Apple",
        "Audio",
        "Bluetooth",
        "ColorSync",
        "Components",
        "CoreAnalytics",
        "CoreMediaIO",
        "DirectoryServices",
        "Filesystems",
        "GPUBundles",
        "Graphics",
        "KernelCollections",
        "OSAnalytics",
        "OpenDirectory",
        "Sandbox",
        "Security",
        "SystemExtensions",
        "SystemMigration",
        "SystemProfiler",
        "StagedDriverExtensions",
        "StagedExtensions",
        "StartupItems",
        "Accessibility",
        "Accounts",
        "AppleMediaServices",
        "Assistant",
        "Assistants",
        "Autosave Information",
        "Biome",
        "Calendars",
        "CallServices",
        "CloudStorage",
        "Contacts",
        "Cookies",
        "DataAccess",
        "DataDeliveryServices",
        "DoNotDisturb",
        "DuetExpertCenter",
        "Finance",
        "FinanceBackup",
        "FrontBoard",
        "GameKit",
        "GroupContainersAlias",
        "HomeKit",
        "IdentityServices",
        "IntelligencePlatform",
        "Intents",
        "KeyboardServices",
        "LanguageModeling",
        "LockdownMode",
        "Mail",
        "MediaAnalysis",
        "Messages",
        "Metadata",
        "Mobile Documents",
        "MobileDevice",
        "News",
        "Passes",
        "PersonalizationPortrait",
        "Photos",
        "PrivateCloudCompute",
        "Reminders",
        "ResponseKit",
        "Safari",
        "SafariSafeBrowsing",
        "SafariSandboxBroker",
        "ScreenRecordings",
        "StatusKit",
        "Suggestions",
        "SyncedPreferences",
        "Translation",
        "UnifiedAssetFramework",
        "Weather",
        "homeenergyd",
        "studentd",
        "Developer",
        "Perl",
        "Ruby",
        "Java",
        "Python",
        "Catacomb",
        "InstallerSandboxes",
        "Trial",
        "Updates",
        "Staging",
        "ContainerManager",
        "Daemon Containers",
        "ColorPickers",
        "Colors",
        "Compositions",
        "Contextual Menu Items",
        "Documentation",
        "DriverExtensions",
        "Favorites",
        "FontCollections",
        "Fonts",
        "Image Capture",
        "Input Methods",
        "Jupyter",
        "Keyboard",
        "Keyboard Layouts",
        "Keychains",
        "Managed Preferences",
        "PDF Services",
        "Printers",
        "QuickLook",
        "Receipts",
        "Screen Savers",
        "ScriptingAdditions",
        "Scripts",
        "Sharing",
        "Shortcuts",
        "Sounds",
        "Speech",
        "Spelling",
        "Spotlight",
        "User Pictures",
        "User Template",
        "Video",
        "WebServer",
        "Workflows",
        "com.apple.AppleMediaServices",
        "com.apple.WatchListKit",
        "com.apple.aiml.instrumentation",
        "com.apple.appleaccountd",
        "com.apple.bluetooth.services.cloud",
        "com.apple.bluetoothuser",
        "com.apple.familycircled",
        "com.apple.iTunesCloud",
        "com.apple.internal.ck",
    ],
    )
}

/// Names that an orphan search never reports.
pub open spec fn reverse_search_skips() -> Seq<Seq<char>> {
    seq![
        "apple"@,
        "temporary"@,
        "btserver"@,
        "proapps"@,
        "scripteditor"@,
        "ilife"@,
        "livefsd"@,
        "siritoday"@,
        "addressbook"@,
        "animoji"@,
        "appstore"@,
        "askpermission"@,
        "callhistory"@,
        "clouddocs"@,
        "diskimages"@,
        "dock"@,
        "facetime"@,
        "fileprovider"@,
        "instruments"@,
        "knowledge"@,
        "mobilesync"@,
        "syncservices"@,
        "homeenergyd"@,
        "icloud"@,
        "icdd"@,
        "networkserviceproxy"@,
        "familycircle"@,
        "geoservices"@,
        "installation"@,
        "passkit"@,
        "sharedimagecache"@,
        "desktop"@,
        "mbuseragent"@,
        "swiftpm"@,
        "baseband"@,
        "coresimulator"@,
        "photoslegacyupgrade"@,
        "photosupgrade"@,
        "siritts"@,
        "ipod"@,
        "globalpreferences"@,
        "apmanalytics"@,
        "apmexperiment"@,
        "avatarcache"@,
        "byhost"@,
        "contextstoreagent"@,
        "mobilemeaccounts"@,
        "mobiledocuments"@,
        "mobile"@,
        "intentbuilderc"@,
        "loginwindow"@,
        "momc"@,
        "replayd"@,
        "sharedfilelistd"@,
        "clang"@,
        "audiocomponent"@,
        "csexattrcryptoservice"@,
        "livetranscriptionagent"@,
        "sandboxhelper"@,
        "statuskitagent"@,
        "betaenrollmentd"@,
        "contentlinkingd"@,
        "diagnosticextensionsd"@,
        "gamed"@,
        "heard"@,
        "homed"@,
        "itunescloudd"@,
        "lldb"@,
        "mds"@,
        "mediaanalysisd"@,
        "metrickitd"@,
        "mobiletimerd"@,
        "proactived"@,
        "ptpcamerad"@,
        "studentd"@,
        "talagent"@,
        "watchlistd"@,
        "apptranslocation"@,
        "xcrun"@,
        "ds_store"@,
        "caches"@,
        "crashreporter"@,
        "trash"@,
        "pearcleaner"@,
        "amsdatamigratortool"@,
        "arfilecache"@,
        "assistant"@,
        "chromium"@,
        "cloudkit"@,
        "webkit"@,
        "databases"@,
        "diagnostic"@,
        "cache"@,
        "gamekit"@,
        "homebrew"@,
        "logi"@,
        "microsoft"@,
        "mozilla"@,
        "sync"@,
        "google"@,
        "sentinel"@,
        "hexnode"@,
        "sentry"@,
        "tvappservices"@,
        "reminders"@,
        "pbs"@,
        "notarytool"@,
        "differentialprivacy"@,
        "storeassetd"@,
        "webpush"@,
        "storedownloadd"@,
        "fsck"@,
        "crash"@,
        "python"@,
        "discrecording"@,
        "photossearch"@,
        "pylint"@,
        "jamf"@,
        "scopedbookmarkagent"@,
        "anonymous"@,
        "identifier"@,
        "isolated"@,
        "nobackup"@,
        "privacypreservingmeasurement"@,
        "symbols"@,
        "stickersd"@,
        "privatecloudcomputed"@,
        "tipsd"@,
        "controlcenter"@,
        "contactsd"@,
        "staticcheck"@,
        "index"@,
        "segment"@,
        "sparkle"@,
        "summaryevents"@,
        "launchdarkly"@,
        "identityservicesd"@,
        "embeddedbinaryvalidationutility"@,
        "comalienator88"@,
        "aaprofilepicture"@,
        "minilauncher"@,
        "jna"@,
        "automator"@,
        "locationaccessstored"@,
        "spotlight"@,
        "cef"@,
    ]
}

/// Names that an orphan search never reports (see `reverse_search_skips`).
pub fn skip_reverse() -> (r: Vec<String>)
    ensures
        sseqs(r@) == reverse_search_skips(),
{
    owned_all(
        &vec![
        "apple",
        "temporary",
        "btserver",
        "proapps",
        "scripteditor",
        "ilife",
        "livefsd",
        "siritoday",
        "addressbook",
        "animoji",
        "appstore",
        "askpermission",
        "callhistory",
        "clouddocs",
        "diskimages",
        "dock",
        "facetime",
        "fileprovider",
        "instruments",
        "knowledge",
        "mobilesync",
        "syncservices",
        "homeenergyd",
        "icloud",
        "icdd",
        "networkserviceproxy",
        "familycircle",
        "geoservices",
        "installation",
        "passkit",
        "sharedimagecache",
        "desktop",
        "mbuseragent",
        "swiftpm",
        "baseband",
        "coresimulator",
        "photoslegacyupgrade",
        "photosupgrade",
        "siritts",
        "ipod",
        "globalpreferences",
        "apmanalytics",
        "apmexperiment",
        "avatarcache",
        "byhost",
        "contextstoreagent",
        "mobilemeaccounts",
        "mobiledocuments",
        "mobile",
        "intentbuilderc",
        "loginwindow",
        "momc",
        "replayd",
        "sharedfilelistd",
        "clang",
        "audiocomponent",
        "csexattrcryptoservice",
        "livetranscriptionagent",
        "sandboxhelper",
        "statuskitagent",
        "betaenrollmentd",
        "contentlinkingd",
        "diagnosticextensionsd",
        "gamed",
        "heard",
        "homed",
        "itunescloudd",
        "lldb",
        "mds",
        "mediaanalysisd",
        "metrickitd",
        "mobiletimerd",
        "proactived",
        "ptpcamerad",
        "studentd",
        "talagent",
        "watchlistd",
        "apptranslocation",
        "xcrun",
        "ds_store",
        "caches",
        "crashreporter",
        "trash",
        "pearcleaner",
        "amsdatamigratortool",
        "arfilecache",
        "assistant",
        "chromium",
        "cloudkit",
        "webkit",
        "databases",
        "diagnostic",
        "cache",
        "gamekit",
        "homebrew",
        "logi",
        "microsoft",
        "mozilla",
        "sync",
        "google",
        "sentinel",
        "hexnode",
        "sentry",
        "tvappservices",
        "reminders",
        "pbs",
        "notarytool",
        "differentialprivacy",
        "storeassetd",
        "webpush",
        "storedownloadd",
        "fsck",
        "crash",
        "python",
        "discrecording",
        "photossearch",
        "pylint",
        "jamf",
        "scopedbookmarkagent",
        "anonymous",
        "identifier",
        "isolated",
        "nobackup",
        "privacypreservingmeasurement",
        "symbols",
        "stickersd",
        "privatecloudcomputed",
        "tipsd",
        "controlcenter",
        "contactsd",
        "staticcheck",
        "index",
        "segment",
        "sparkle",
        "summaryevents",
        "launchdarkly",
        "identityservicesd",
        "embeddedbinaryvalidationutility",
        "comalienator88",
        "aaprofilepicture",
        "minilauncher",
        "jna",
        "automator",
        "locationaccessstored",
        "spotlight",
        "cef",
    ],
    )
}

} // verus!
