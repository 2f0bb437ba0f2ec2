//! The decisions of the command line: whether an argument is a path, how an
//! application is found by name, which plug-in categories a request names,
//! how paths are shortened for display, and the messages a removal prints.

use vstd::prelude::*;

use crate::dev_env::expand_home;
use crate::model::AppInfo;
use crate::pkg::PkgKind;
use crate::plugin::PluginCategory;
use crate::search::path_key;
use crate::text::{
    ascii_lower_seq, chars_eq, chars_eq_str, chars_of, concat, ends, ends_with_str, join, opt_seq,
    owned, sseqs, starts, starts_with, string_of, to_ascii_lower_chars, trim, trim_chars,
};
use crate::unicode::{str_to_lower, unicode_str_lower};
use crate::winget::utf8_len;
use crate::xdg::{decimal, decimal_chars};

verus! {

/// What a removal is called: the recycle bin on Windows, the trash
/// elsewhere.
pub open spec fn trash_label_of(windows: bool) -> Seq<char> {
    if windows {
        "Recycle Bin"@
    } else {
        "Trash"@
    }
}

/// What a removal is called (see `trash_label_of`).
pub fn trash_label(windows: bool) -> (r: &'static str)
    ensures
        r@ == trash_label_of(windows),
{
    if windows {
        "Recycle Bin"
    } else {
        "Trash"
    }
}

/// The message after a removal: the count and where the files went, with
/// the archive folder except on Windows (where it is not known).
pub open spec fn deleted_text(count: nat, bundle_folder: Seq<char>, windows: bool) -> Seq<char> {
    let head = "Deleted "@ + decimal(count) + " files to "@ + trash_label_of(windows);
    if windows {
        head
    } else {
        head + " ("@ + bundle_folder + ")"@
    }
}

/// The message after a removal (see `deleted_text`).
pub fn deleted_message(count: usize, bundle_folder: &str, windows: bool) -> (r: String)
    ensures
        r@ == deleted_text(count as nat, bundle_folder@, windows),
{
    let n = decimal_chars(count);
    let a = concat("Deleted ", string_of(n.as_slice()).as_str());
    let b = concat(a.as_str(), " files to ");
    let head = concat(b.as_str(), trash_label(windows));
    if windows {
        head
    } else {
        let c = concat(head.as_str(), " (");
        let d = concat(c.as_str(), bundle_folder);
        concat(d.as_str(), ")")
    }
}

/// An ASCII letter.
pub open spec fn ascii_alpha(c: char) -> bool {
    ('a' <= c <= 'z') || ('A' <= c <= 'Z')
}

/// An argument names a path rather than an application: it holds a `/` or
/// a `\`, starts with a drive (`C:` alone or followed by `\`), or ends with
/// `.app` in any ASCII case.
pub open spec fn is_path_arg(arg: Seq<char>) -> bool {
    let drive = arg.len() >= 2 && ascii_alpha(arg[0]) && arg[1] == ':' && (arg.len() == 2 || arg[2]
        == '\\');
    arg.contains('/') || arg.contains('\\') || drive || ends(ascii_lower_seq(arg), ".app"@)
}

/// Whether an argument names a path (see `is_path_arg`).
pub fn arg_is_path(arg: &str) -> (r: bool)
    ensures
        r == is_path_arg(arg@),
{
    let a = chars_of(arg);
    let drive = a.len() >= 2 && (('a' <= a[0] && a[0] <= 'z') || ('A' <= a[0] && a[0] <= 'Z'))
        && a[1] == ':' && (a.len() == 2 || a[2] == '\\');
    let l = to_ascii_lower_chars(a.as_slice());
    crate::text::contains_char(a.as_slice(), '/') || crate::text::contains_char(a.as_slice(), '\\')
        || drive || ends_with_str(l.as_slice(), ".app")
}

/// How an application argument is resolved.
pub enum Resolve {
    /// `.`: the current folder.
    CurrentDir,
    /// A path (the home folder put in for `~`); when `by_name_if_missing`,
    /// a path that does not exist is looked up by name instead.
    Path { path: String, by_name_if_missing: bool },
    /// An application name.
    Name,
}

/// How an application argument is resolved: `.` is the current folder; a
/// path argument (see `is_path_arg`) is that path with the home folder put
/// in, looked up by name when it does not exist and holds no `/`; anything
/// else is a name.
pub fn resolve_arg(arg: &str, home: &str) -> (r: Resolve)
    ensures
        arg@ == "."@ ==> r is CurrentDir,
        arg@ != "."@ && is_path_arg(arg@) ==> (r matches Resolve::Path { path, by_name_if_missing }
            && path@ == crate::dev_env::expanded_home(arg@, home@) && by_name_if_missing
            == !arg@.contains('/')),
        arg@ != "."@ && !is_path_arg(arg@) ==> r is Name,
{
    let a = chars_of(arg);
    if chars_eq_str(a.as_slice(), ".") {
        return Resolve::CurrentDir;
    }
    if arg_is_path(arg) {
        let path = expand_home(arg, home);
        let slash = crate::text::contains_char(a.as_slice(), '/');
        Resolve::Path { path, by_name_if_missing: !slash }
    } else {
        Resolve::Name
    }
}

/// The file name of an application bundle: the name and `.app`.
pub fn app_bundle_name(name: &str) -> (r: String)
    ensures
        r@ == name@ + ".app"@,
{
    concat(name, ".app")
}

/// Whether two names are equal ignoring case.
pub fn same_name_ignoring_case(a: &str, b: &str) -> (r: bool)
    ensures
        r == (unicode_str_lower(a@) == unicode_str_lower(b@)),
{
    let x = str_to_lower(a);
    let y = str_to_lower(b);
    let xc = chars_of(x.as_str());
    let yc = chars_of(y.as_str());
    chars_eq(xc.as_slice(), yc.as_slice())
}

/// An application whose name begins, ignoring case, with the name asked
/// for.
pub open spec fn name_hit(a: AppInfo, lower: Seq<char>) -> bool {
    starts(unicode_str_lower(a.app_name@), lower)
}

/// `a` is a better hit than `b`: not a shortcut when `b` is, or as much a
/// shortcut with a shorter name (in UTF-8 bytes).
pub open spec fn better_hit(a: AppInfo, b: AppInfo) -> bool {
    let la = ends(a.path@, ".lnk"@);
    let lb = ends(b.path@, ".lnk"@);
    (!la && lb) || (la == lb && utf8_len(a.app_name@) < utf8_len(b.app_name@))
}

/// The best hit among the first `k` applications; the first of equally
/// good ones.
pub open spec fn best_hit(apps: Seq<AppInfo>, lower: Seq<char>, k: int) -> Option<int>
    decreases k,
{
    if k <= 0 {
        None
    } else {
        let b = best_hit(apps, lower, k - 1);
        if name_hit(apps[k - 1], lower) {
            match b {
                None => Some(k - 1),
                Some(j) => if better_hit(apps[k - 1], apps[j]) {
                    Some(k - 1)
                } else {
                    Some(j)
                },
            }
        } else {
            b
        }
    }
}

/// The application a name asks for among those found: the first whose name
/// equals it ignoring case, else the best whose name begins with it (see
/// `best_hit`).
pub open spec fn app_named(apps: Seq<AppInfo>, name: Seq<char>) -> Option<int> {
    let lower = unicode_str_lower(name);
    if exists|i: int| 0 <= i < apps.len() && unicode_str_lower(#[trigger] apps[i].app_name@) == lower {
        Some(
            choose|i: int|
                0 <= i < apps.len() && unicode_str_lower(apps[i].app_name@) == lower && forall|j: int|
                    0 <= j < i ==> unicode_str_lower(#[trigger] apps[j].app_name@) != lower,
        )
    } else {
        best_hit(apps, lower, apps.len() as int)
    }
}

/// `best_hit` is an index of a hit.
proof fn lemma_best_hit(apps: Seq<AppInfo>, lower: Seq<char>, k: int)
    requires
        0 <= k <= apps.len(),
    ensures
        best_hit(apps, lower, k) matches Some(j) ==> 0 <= j < k && name_hit(apps[j], lower),
    decreases k,
{
    if k > 0 {
        lemma_best_hit(apps, lower, k - 1);
    }
}

/// Whether an application is a better hit than another (see `better_hit`).
fn is_better_hit(a: &AppInfo, b: &AppInfo) -> (r: bool)
    ensures
        r == better_hit(*a, *b),
{
    let pa = chars_of(a.path.as_str());
    let pb = chars_of(b.path.as_str());
    let la = ends_with_str(pa.as_slice(), ".lnk");
    let lb = ends_with_str(pb.as_slice(), ".lnk");
    if !la && lb {
        return true;
    }
    if la != lb {
        return false;
    }
    let na = chars_of(a.app_name.as_str());
    let nb = chars_of(b.app_name.as_str());
    utf8_count(na.as_slice()) < utf8_count(nb.as_slice())
}

/// The number of bytes a text takes in UTF-8.
fn utf8_count(s: &[char]) -> (r: u128)
    ensures
        r == utf8_len(s@),
{
    let mut n: u128 = 0;
    let mut i: usize = 0;
    while i < s.len()
        invariant
            i <= s.len(),
            n == utf8_len(s@.take(i as int)),
            n <= 4 * i,
        decreases s.len() - i,
    {
        assert(s@.take(i + 1).drop_last() =~= s@.take(i as int));
        let v = s[i] as u32;
        let w: u128 = if v < 0x80 {
            1
        } else if v < 0x800 {
            2
        } else if v < 0x10000 {
            3
        } else {
            4
        };
        n = n + w;
        i = i + 1;
    }
    assert(s@.take(s.len() as int) =~= s@);
    n
}

/// The path of the application a name asks for (see `app_named`).
pub fn app_by_name(name: &str, apps: &Vec<AppInfo>) -> (r: Option<String>)
    ensures
        match app_named(apps@, name@) {
            Some(i) => r matches Some(p) && 0 <= i < apps@.len() && p@ == apps@[i].path@,
            None => r is None,
        },
{
    let lower = str_to_lower(name);
    let l = chars_of(lower.as_str());
    let ghost lw = unicode_str_lower(name@);
    let mut i: usize = 0;
    while i < apps.len()
        invariant
            i <= apps.len(),
            l@ == lw,
            lw == unicode_str_lower(name@),
            forall|j: int| 0 <= j < i ==> unicode_str_lower(#[trigger] apps@[j].app_name@) != lw,
        decreases apps.len() - i,
    {
        let an = str_to_lower(apps[i].app_name.as_str());
        let ac = chars_of(an.as_str());
        if chars_eq(ac.as_slice(), l.as_slice()) {
            proof {
                let c = choose|c: int|
                    0 <= c < apps@.len() && unicode_str_lower(apps@[c].app_name@) == lw && forall|
                        j: int,
                    | 0 <= j < c ==> unicode_str_lower(#[trigger] apps@[j].app_name@) != lw;
                if c < i {
                } else if c > i {
                    assert(unicode_str_lower(apps@[i as int].app_name@) != lw);
                }
                assert(c == i);
            }
            return Some(owned(apps[i].path.as_str()));
        }
        i = i + 1;
    }
    let mut best: Option<usize> = None;
    let mut k: usize = 0;
    while k < apps.len()
        invariant
            k <= apps.len(),
            l@ == lw,
            match best {
                Some(b) => best_hit(apps@, lw, k as int) == Some(b as int),
                None => best_hit(apps@, lw, k as int) is None,
            },
        decreases apps.len() - k,
    {
        let an = str_to_lower(apps[k].app_name.as_str());
        let ac = chars_of(an.as_str());
        if starts_with(ac.as_slice(), l.as_slice()) {
            match best {
                None => {
                    best = Some(k);
                },
                Some(b) => {
                    proof {
                        lemma_best_hit(apps@, lw, k as int);
                    }
                    if is_better_hit(&apps[k], &apps[b]) {
                        best = Some(k);
                    }
                },
            }
        }
        k = k + 1;
    }
    proof {
        lemma_best_hit(apps@, lw, apps@.len() as int);
    }
    match best {
        Some(b) => Some(owned(apps[b].path.as_str())),
        None => None,
    }
}

/// The plug-in categories a request names: all of them for none or `all`
/// (in any ASCII case), else the one whose name equals the request
/// ignoring ASCII case; nothing when none does.
pub open spec fn categories_named(names: Seq<Seq<char>>, arg: Option<Seq<char>>) -> Option<Seq<int>> {
    match arg {
        None => Some(Seq::new(names.len(), |i: int| i)),
        Some(a) => if ascii_lower_seq(a) == "all"@ {
            Some(Seq::new(names.len(), |i: int| i))
        } else if exists|i: int| 0 <= i < names.len() && ascii_lower_seq(#[trigger] names[i]) == ascii_lower_seq(a) {
            Some(
                seq![
                    choose|i: int|
                        0 <= i < names.len() && ascii_lower_seq(names[i]) == ascii_lower_seq(a) && forall|
                            j: int,
                        | 0 <= j < i ==> ascii_lower_seq(#[trigger] names[j]) != ascii_lower_seq(a),
                ],
            )
        } else {
            None
        },
    }
}

/// The names of plug-in categories.
pub open spec fn category_names(c: Seq<PluginCategory>) -> Seq<Seq<char>> {
    c.map_values(|x: PluginCategory| x.name@)
}

/// A copy of a plug-in category.
fn copy_category(c: &PluginCategory) -> (r: PluginCategory)
    ensures
        r.name@ == c.name@,
        sseqs(r.paths@) == sseqs(c.paths@),
{
    PluginCategory { name: owned(c.name.as_str()), paths: crate::dev_env::copy_strings(&c.paths) }
}

/// The plug-in categories a request names (see `categories_named`).
pub fn resolve_plugin_categories(categories: &Vec<PluginCategory>, arg: Option<&str>) -> (r: Option<
    Vec<PluginCategory>,
>)
    ensures
        match categories_named(
            category_names(categories@),
            match arg {
                Some(a) => Some(a@),
                None => None,
            },
        ) {
            Some(ix) => r matches Some(v) && v@.len() == ix.len() && forall|k: int|
                0 <= k < ix.len() ==> 0 <= #[trigger] ix[k] < categories@.len() && v@[k].name@
                    == categories@[ix[k]].name@ && sseqs(v@[k].paths@) == sseqs(
                    categories@[ix[k]].paths@,
                ),
            None => r is None,
        },
{
    let all = match arg {
        None => true,
        Some(a) => {
            let ac = chars_of(a);
            let al = to_ascii_lower_chars(ac.as_slice());
            chars_eq_str(al.as_slice(), "all")
        },
    };
    assert(all == match arg {
        None => true,
        Some(a) => ascii_lower_seq(a@) == "all"@,
    });
    if all {
        let mut v: Vec<PluginCategory> = Vec::new();
        let mut i: usize = 0;
        while i < categories.len()
            invariant
                i <= categories.len(),
                v@.len() == i,
                forall|k: int|
                    0 <= k < i ==> (#[trigger] v@[k]).name@ == categories@[k].name@ && sseqs(
                        v@[k].paths@,
                    ) == sseqs(categories@[k].paths@),
            decreases categories.len() - i,
        {
            v.push(copy_category(&categories[i]));
            i = i + 1;
        }
        proof {
            let names = category_names(categories@);
            assert(names.len() == categories@.len());
            let ix = Seq::new(names.len(), |i: int| i);
            assert(categories_named(
                names,
                match arg {
                    Some(a) => Some(a@),
                    None => None,
                },
            ) == Some(ix));
            assert forall|k: int| 0 <= k < ix.len() implies 0 <= #[trigger] ix[k] < categories@.len()
                && v@[k].name@ == categories@[ix[k]].name@ && sseqs(v@[k].paths@) == sseqs(
                categories@[ix[k]].paths@,
            ) by {
                assert(ix[k] == k);
            }
        }
        return Some(v);
    }
    let a = match arg {
        Some(a) => a,
        None => return None,
    };
    let ac = chars_of(a);
    let al = to_ascii_lower_chars(ac.as_slice());
    let ghost names = category_names(categories@);
    let mut i: usize = 0;
    while i < categories.len()
        invariant
            i <= categories.len(),
            names == category_names(categories@),
            al@ == ascii_lower_seq(a@),
            ascii_lower_seq(a@) != "all"@,
            arg == Some(a),
            forall|j: int| 0 <= j < i ==> ascii_lower_seq(#[trigger] names[j]) != al@,
        decreases categories.len() - i,
    {
        let nc = chars_of(categories[i].name.as_str());
        let nl = to_ascii_lower_chars(nc.as_slice());
        assert(names[i as int] == categories@[i as int].name@);
        if chars_eq(nl.as_slice(), al.as_slice()) {
            proof {
                let c = choose|c: int|
                    0 <= c < names.len() && ascii_lower_seq(names[c]) == ascii_lower_seq(a@) && forall|
                        j: int,
                    | 0 <= j < c ==> ascii_lower_seq(#[trigger] names[j]) != ascii_lower_seq(a@);
                assert(ascii_lower_seq(names[i as int]) == ascii_lower_seq(a@));
                if c > i {
                    assert(ascii_lower_seq(names[i as int]) != ascii_lower_seq(a@));
                }
                assert(c == i);
                assert(ascii_lower_seq(a@) != "all"@);
                assert(categories_named(names, Some(a@)) == Some(seq![i as int]));
            }
            let v = vec![copy_category(&categories[i])];
            assert(v@.len() == 1);
            return Some(v);
        }
        i = i + 1;
    }
    proof {
        if exists|j: int| 0 <= j < names.len() && ascii_lower_seq(#[trigger] names[j]) == ascii_lower_seq(a@) {
            let j = choose|j: int| 0 <= j < names.len() && ascii_lower_seq(#[trigger] names[j]) == ascii_lower_seq(a@);
            assert(ascii_lower_seq(names[j]) != al@);
        }
    }
    None
}

/// The heading of a package kind's list.
pub fn kind_plural(kind: PkgKind) -> (r: &'static str)
    requires
        kind != PkgKind::Package,
    ensures
        kind == PkgKind::Formula ==> r@ == "Formulae"@,
        kind == PkgKind::Cask ==> r@ == "Casks"@,
{
    match kind {
        PkgKind::Formula => "Formulae",
        _ => "Casks",
    }
}

/// Whether `--zap` still applies once the package's kind is known: not for
/// a formula.
pub fn zap_applies(zap: bool, kind: PkgKind) -> (r: bool)
    ensures
        r == (zap && kind != PkgKind::Formula),
{
    match kind {
        PkgKind::Formula => false,
        _ => zap,
    }
}

/// Whether an answer to a confirmation is yes: `y` or `yes` after trimming,
/// in any ASCII case.
pub fn is_yes(answer: &str) -> (r: bool)
    ensures
        r == (ascii_lower_seq(trim(answer@)) == "y"@ || ascii_lower_seq(trim(answer@)) == "yes"@),
{
    let a = chars_of(answer);
    let t = trim_chars(a.as_slice());
    let l = to_ascii_lower_chars(t.as_slice());
    chars_eq_str(l.as_slice(), "y") || chars_eq_str(l.as_slice(), "yes")
}

/// A long path shortened for display: at most `max` characters are kept
/// as they are; a longer one keeps `max / 2 - 1` characters at each end
/// around `…`.
pub open spec fn shortened(s: Seq<char>, max: nat) -> Seq<char> {
    if s.len() <= max {
        s
    } else {
        let keep = (max / 2 - 1) as int;
        s.take(keep) + seq!['…'] + s.skip(s.len() - keep)
    }
}

/// A path shortened for display (see `shortened`).
pub fn truncated(path: &str, max: usize) -> (r: String)
    requires
        path@.len() > max ==> max >= 2,
    ensures
        r@ == shortened(path@, max as nat),
{
    let s = chars_of(path);
    if s.len() <= max {
        return owned(path);
    }
    let keep = max / 2 - 1;
    let mut out = crate::text::sub_chars(s.as_slice(), 0, keep);
    out.push('…');
    let tail = crate::text::sub_chars(s.as_slice(), s.len() - keep, s.len());
    crate::text::append_chars(&mut out, tail.as_slice());
    assert(out@ =~= s@.take(keep as int) + seq!['…'] + s@.skip(s@.len() - keep));
    string_of(out.as_slice())
}

/// A path relative to a bundle, as displayed: the components after the
/// bundle's when the bundle's begin it, else the path itself.
pub open spec fn relative_to(path: Seq<char>, bundle: Seq<char>) -> Seq<char> {
    let pk = path_key(path);
    let bk = path_key(bundle);
    if crate::dev_env::key_prefix(bk, pk) {
        join(pk.skip(bk.len() as int), '/')
    } else {
        path
    }
}

/// A path relative to a bundle, shortened for display: at most `max`
/// characters are kept as they are; a longer one keeps its first `max - 1`
/// characters (none for `max` zero) and `…`.
pub open spec fn shortened_rel(path: Seq<char>, bundle: Seq<char>, max: nat) -> Seq<char> {
    let rel = relative_to(path, bundle);
    if rel.len() <= max {
        rel
    } else {
        rel.take(if max >= 1 { max - 1 } else { 0 }) + seq!['…']
    }
}

/// A path relative to a bundle, shortened for display (see
/// `shortened_rel`).
pub fn truncated_rel(path: &str, bundle: &str, max: usize) -> (r: String)
    ensures
        r@ == shortened_rel(path@, bundle@, max as nat),
{
    let p = chars_of(path);
    let b = chars_of(bundle);
    let pk = crate::search::path_key_of(p.as_slice());
    let bk = crate::search::path_key_of(b.as_slice());
    let rel: Vec<char> = if crate::dev_env::key_prefix_of(&bk, &pk) {
        let mut rest: Vec<Vec<char>> = Vec::new();
        let mut i = bk.len();
        while i < pk.len()
            invariant
                bk.len() <= i <= pk.len(),
                crate::text::vseqs(rest@) == crate::text::vseqs(pk@).subrange(bk.len() as int, i as int),
            decreases pk.len() - i,
        {
            let ghost prev = rest@;
            rest.push(crate::text::copy_chars(pk[i].as_slice()));
            assert(crate::text::vseqs(rest@) =~= crate::text::vseqs(prev).push(pk@[i as int]@));
            assert(crate::text::vseqs(pk@)[i as int] == pk@[i as int]@);
            assert(crate::text::vseqs(pk@).subrange(bk.len() as int, i + 1) =~= crate::text::vseqs(
                pk@,
            ).subrange(bk.len() as int, i as int).push(pk@[i as int]@));
            i = i + 1;
        }
        assert(crate::text::vseqs(pk@).subrange(bk.len() as int, pk.len() as int) =~= crate::text::vseqs(pk@).skip(
            crate::text::vseqs(bk@).len() as int,
        ));
        let j = crate::text::join_chars(&rest, rest.len(), '/');
        assert(crate::text::vseqs(rest@).take(rest@.len() as int) =~= crate::text::vseqs(rest@));
        j
    } else {
        p
    };
    assert(rel@ == relative_to(path@, bundle@));
    if rel.len() <= max {
        return string_of(rel.as_slice());
    }
    let keep = if max >= 1 {
        max - 1
    } else {
        0
    };
    let mut out = crate::text::sub_chars(rel.as_slice(), 0, keep);
    out.push('…');
    string_of(out.as_slice())
}

} // verus!
