//! Linux: the XDG folders, the trash layout of the XDG trash
//! specification, applications found through `.desktop` files, finding a
//! running application's processes, and the developer caches of Linux
//! distributions.

use vstd::prelude::*;

use crate::desktop::DesktopEntry;
use crate::dev_env::{dev_env, dev_table_is, DevEnv};
use crate::macos::{parse_u32, u32_of};
use crate::model::AppInfo;
use crate::order::{lemma_text_lt_transitive, lemma_text_lt_trichotomy, string_less, text_le, text_lt};
use crate::paths::{extension, extension_of, file_name, file_name_of};
use crate::pkg::kept;
use crate::platform::{xdg_cache, xdg_cache_dir, xdg_reverse, xdg_reverse_paths, DevEnvPaths, SystemPaths, Trash};
use crate::text::{
    chars_eq, chars_eq_str, chars_of, concat, lines, lines_of, owned, sseqs, starts, starts_with,
    string_of, vseqs, words, words_of,
};
use crate::trash::{deletable, validate_path};
use crate::xdg::{first_free_pair, info_file_name, unique_name_pair};

verus! {

/// The Linux adapter: home, cache and temporary folders, and the configured
/// data folder, if any.
pub struct LinuxAdapter {
    pub home: String,
    pub cache_dir: String,
    pub temp_dir: String,
    pub data_home: Option<String>,
}

/// The search folders of Linux: where `.desktop` files and application
/// data live.
pub open spec fn linux_apps_paths(home: Seq<char>) -> Seq<Seq<char>> {
    seq![
        home + "/.config"@,
        home + "/.local/share/applications"@,
        home + "/.local/share/flatpak/exports/share/applications"@,
        home + "/.var/app"@,
        "/usr/local/share/applications"@,
        "/usr/share/applications"@,
        "/var/lib/flatpak/exports/share/applications"@,
    ]
}

/// Folders that are never deleted on Linux.
pub open spec fn linux_critical_paths() -> Seq<Seq<char>> {
    seq![
        "/bin"@,
        "/boot"@,
        "/dev"@,
        "/etc"@,
        "/lib"@,
        "/opt"@,
        "/proc"@,
        "/root"@,
        "/run"@,
        "/sbin"@,
        "/snap"@,
        "/srv"@,
        "/sys"@,
        "/usr"@,
        "/var"@,
    ]
}

/// The developer caches of Linux, as written: only caches a tool rebuilds.
pub open spec fn linux_dev_env_sources() -> Seq<(Seq<char>, Seq<Seq<char>>)> {
    seq![
        ("APT Cache"@, seq!["/var/cache/apt/archives/"@]),
        ("Conda"@, seq!["~/.conda/pkgs/"@]),
        ("Deno"@, seq!["~/.cache/deno"@]),
        ("DNF Cache"@, seq!["/var/cache/dnf/"@]),
        ("Npm"@, seq!["~/.npm/"@, "~/.cache/pnpm/store"@, "~/.bun/install/cache"@]),
        ("Pip"@, seq!["~/.cache/pip/"@]),
        ("Poetry"@, seq!["~/.cache/pypoetry/"@]),
        ("Pub"@, seq!["~/.pub-cache/"@, "~/.cache/flutter_engine/"@]),
        ("Snapd Cache"@, seq!["/var/lib/snapd/cache/"@]),
        ("pacman Cache"@, seq!["/var/cache/pacman/pkg/"@]),
        ("VS Code"@, seq!["~/.config/Code/Cache"@, "~/.config/Code/CachedData"@, "~/.config/Code/CachedExtensionVSIXs"@, "~/.config/Code/Code Cache"@]),
        ("Zed"@, seq!["~/.cache/zed/"@, "~/.local/share/zed/node/cache/"@]),
    ]
}

/// The developer caches of Linux (see `linux_dev_env_sources`).
pub fn linux_dev_envs_table() -> (r: Vec<DevEnv>)
    ensures
        dev_table_is(r@, linux_dev_env_sources()),
{
    vec![
        dev_env("APT Cache", vec!["/var/cache/apt/archives/"]),
        dev_env("Conda", vec!["~/.conda/pkgs/"]),
        dev_env("Deno", vec!["~/.cache/deno"]),
        dev_env("DNF Cache", vec!["/var/cache/dnf/"]),
        dev_env("Npm", vec!["~/.npm/", "~/.cache/pnpm/store", "~/.bun/install/cache"]),
        dev_env("Pip", vec!["~/.cache/pip/"]),
        dev_env("Poetry", vec!["~/.cache/pypoetry/"]),
        dev_env("Pub", vec!["~/.pub-cache/", "~/.cache/flutter_engine/"]),
        dev_env("Snapd Cache", vec!["/var/lib/snapd/cache/"]),
        dev_env("pacman Cache", vec!["/var/cache/pacman/pkg/"]),
        dev_env("VS Code", vec!["~/.config/Code/Cache", "~/.config/Code/CachedData", "~/.config/Code/CachedExtensionVSIXs", "~/.config/Code/Code Cache"]),
        dev_env("Zed", vec!["~/.cache/zed/", "~/.local/share/zed/node/cache/"]),
    ]
}

/// The trash folder by the XDG trash specification: `Trash` in the
/// configured data folder, else in `.local/share` of the home folder.
pub open spec fn linux_trash(home: Seq<char>, data_home: Option<Seq<char>>) -> Seq<char> {
    match data_home {
        Some(d) => d + "/Trash"@,
        None => home + "/.local/share"@ + "/Trash"@,
    }
}

impl LinuxAdapter {
    /// The adapter for a home folder (none counts as empty), the configured
    /// cache and data folders if any, and the temporary folder.
    pub fn from_env(
        home: Option<String>,
        cache_home: Option<String>,
        data_home: Option<String>,
        temp_dir: String,
    ) -> (r: LinuxAdapter)
        ensures
            r.home@ == (match home {
                Some(h) => h@,
                None => Seq::<char>::empty(),
            }),
            r.cache_dir@ == xdg_cache(
                r.home@,
                match cache_home {
                    Some(c) => Some(c@),
                    None => None,
                },
            ),
            r.data_home == data_home,
            r.temp_dir == temp_dir,
    {
        let home = match home {
            Some(h) => h,
            None => String::new(),
        };
        let cache_dir = xdg_cache_dir(home.as_str(), cache_home);
        LinuxAdapter { home, cache_dir, temp_dir, data_home }
    }

    /// Folders that are never deleted (see `linux_critical_paths`).
    pub fn critical_paths(&self) -> (r: Vec<String>)
        ensures
            sseqs(r@) == linux_critical_paths(),
    {
        let r = vec![
            owned("/bin"),
            owned("/boot"),
            owned("/dev"),
            owned("/etc"),
            owned("/lib"),
            owned("/opt"),
            owned("/proc"),
            owned("/root"),
            owned("/run"),
            owned("/sbin"),
            owned("/snap"),
            owned("/srv"),
            owned("/sys"),
            owned("/usr"),
            owned("/var"),
        ];
        assert(sseqs(r@) =~= linux_critical_paths());
        r
    }
}

impl SystemPaths for LinuxAdapter {
    fn home(&self) -> (r: String)
        ensures
            r@ == self.home@,
    {
        owned(self.home.as_str())
    }

    fn user_cache_dir(&self) -> (r: String)
        ensures
            r@ == self.cache_dir@,
    {
        owned(self.cache_dir.as_str())
    }

    fn user_temp_dir(&self) -> (r: String)
        ensures
            r@ == self.temp_dir@,
    {
        owned(self.temp_dir.as_str())
    }

    fn apps_paths(&self) -> (r: Vec<String>)
        ensures
            sseqs(r@) == linux_apps_paths(self.home@),
    {
        let home = self.home.as_str();
        let r = vec![
            concat(home, "/.config"),
            concat(home, "/.local/share/applications"),
            concat(home, "/.local/share/flatpak/exports/share/applications"),
            concat(home, "/.var/app"),
            owned("/usr/local/share/applications"),
            owned("/usr/share/applications"),
            owned("/var/lib/flatpak/exports/share/applications"),
        ];
        assert(sseqs(r@) =~= linux_apps_paths(self.home@));
        r
    }

    fn reverse_paths(&self) -> (r: Vec<String>)
        ensures
            sseqs(r@) == xdg_reverse_paths(self.home@),
    {
        xdg_reverse(self.home.as_str())
    }

    fn app_support_subdirs(&self) -> (r: Vec<String>)
        ensures
            r@.len() == 0,
    {
        Vec::new()
    }
}

impl Trash for LinuxAdapter {
    fn trash_dir(&self) -> (r: String)
        ensures
            r@ == linux_trash(
                self.home@,
                match self.data_home {
                    Some(d) => Some(d@),
                    None => None,
                },
            ),
    {
        match &self.data_home {
            Some(d) => concat(d.as_str(), "/Trash"),
            None => {
                let base = concat(self.home.as_str(), "/.local/share");
                concat(base.as_str(), "/Trash")
            },
        }
    }
}

impl DevEnvPaths for LinuxAdapter {
    fn dev_envs(&self) -> (r: Vec<DevEnv>)
        ensures
            dev_table_is(r@, linux_dev_env_sources()),
    {
        linux_dev_envs_table()
    }
}

// ---------------------------------------------------------------------------
// The XDG trash
// ---------------------------------------------------------------------------

/// What to do with one path when moving it to the XDG trash.
pub enum XdgStep {
    /// The path is protected and stays.
    Blocked,
    /// The path has no file name and cannot be moved.
    NoFileName,
    /// Move the file to `files/<name>` and write `info/<info_name>`.
    MoveTo { name: String, info_name: String },
}

/// What to do with `url` (see `XdgStep`): protected paths stay; otherwise
/// the entry takes the first name of the file that is free in both
/// `files/` and `info/`, and its record is that name with `.trashinfo`.
pub fn xdg_trash_step(url: &str, home: &str, files: &Vec<String>, infos: &Vec<String>) -> (r: XdgStep)
    ensures
        !deletable(url@, home@) ==> r is Blocked,
        deletable(url@, home@) && file_name(url@) is None ==> r is NoFileName,
        deletable(url@, home@) && file_name(url@) is Some ==> (r matches XdgStep::MoveTo {
            name,
            info_name,
        } && first_free_pair(file_name(url@)->Some_0, sseqs(files@), sseqs(infos@), name@)
            && info_name@ == name@ + ".trashinfo"@),
{
    if !validate_path(url, home) {
        return XdgStep::Blocked;
    }
    let u = chars_of(url);
    match file_name_of(u.as_slice()) {
        None => XdgStep::NoFileName,
        Some(n) => {
            let ns = string_of(n.as_slice());
            let name = unique_name_pair(ns.as_str(), files, infos);
            let info_name = info_file_name(name.as_str());
            XdgStep::MoveTo { name, info_name }
        },
    }
}

// ---------------------------------------------------------------------------
// Applications from .desktop files
// ---------------------------------------------------------------------------

/// Whether a path names a `.desktop` file.
pub fn is_desktop_file(path: &str) -> (r: bool)
    ensures
        r == (extension(path@) == Some("desktop"@)),
{
    let p = chars_of(path);
    match extension_of(p.as_slice()) {
        Some(e) => chars_eq_str(e.as_slice(), "desktop"),
        None => false,
    }
}

/// The file name of a path, empty when it has none.
pub open spec fn name_or_empty(path: Seq<char>) -> Seq<char> {
    match file_name(path) {
        Some(n) => n,
        None => Seq::empty(),
    }
}

/// Some application of `apps` has a file of the name `name`.
pub open spec fn name_listed(apps: Seq<AppInfo>, name: Seq<char>) -> bool {
    exists|j: int| 0 <= j < apps.len() && file_name(#[trigger] apps[j].path@) == Some(name)
}

/// The application a `.desktop` file describes: only its path and name are
/// known.
pub open spec fn desktop_app(a: AppInfo, path: Seq<char>, name: Seq<char>) -> bool {
    &&& a.path@ == path
    &&& a.bundle_identifier@.len() == 0
    &&& a.app_name@ == name
    &&& a.entitlements@.len() == 0
    &&& a.team_identifier is None
    &&& !a.web_app
    &&& !a.steam
    &&& !a.wrapped
}

/// Whether the file name of `path` is among those of `apps`.
fn file_name_listed(apps: &Vec<AppInfo>, path: &str) -> (r: bool)
    ensures
        r == name_listed(apps@, name_or_empty(path@)),
{
    let p = chars_of(path);
    let n = match file_name_of(p.as_slice()) {
        Some(n) => n,
        None => Vec::new(),
    };
    let mut j: usize = 0;
    while j < apps.len()
        invariant
            j <= apps.len(),
            n@ == name_or_empty(path@),
            forall|k: int| 0 <= k < j ==> file_name(#[trigger] apps@[k].path@) != Some(n@),
        decreases apps.len() - j,
    {
        let q = chars_of(apps[j].path.as_str());
        match file_name_of(q.as_slice()) {
            Some(m) => {
                if chars_eq(m.as_slice(), n.as_slice()) {
                    return true;
                }
            },
            None => {},
        }
        j = j + 1;
    }
    false
}

/// Adds the application the `.desktop` file at `path` describes (`entry`,
/// as read): nothing when it could not be read, its name is empty, or an
/// application found earlier has a file of the same name (an earlier
/// folder overrides a later one).
pub fn add_desktop_app(apps: &mut Vec<AppInfo>, path: &str, entry: Option<DesktopEntry>)
    ensures
        match entry {
            Some(e) => if e.name@.len() > 0 && !name_listed(old(apps)@, name_or_empty(path@)) {
                final(apps)@.len() == old(apps)@.len() + 1 && final(apps)@.take(
                    old(apps)@.len() as int,
                ) == old(apps)@ && desktop_app(final(apps)@.last(), path@, e.name@)
            } else {
                final(apps)@ == old(apps)@
            },
            None => final(apps)@ == old(apps)@,
        },
{
    match entry {
        Some(e) => {
            let nm = chars_of(e.name.as_str());
            if nm.len() > 0 && !file_name_listed(apps, path) {
                let ghost before = apps@;
                apps.push(
                    AppInfo {
                        path: owned(path),
                        bundle_identifier: String::new(),
                        app_name: e.name,
                        entitlements: Vec::new(),
                        team_identifier: None,
                        web_app: false,
                        steam: false,
                        wrapped: false,
                    },
                );
                assert(apps@.take(before.len() as int) =~= before);
            }
        },
        None => {},
    }
}

/// Inserts `x` after the last application whose name is not after its own.
pub open spec fn insert_app(s: Seq<AppInfo>, x: AppInfo) -> Seq<AppInfo>
    decreases s.len(),
{
    if s.len() == 0 {
        seq![x]
    } else if text_le(s.last().app_name@, x.app_name@) {
        s.push(x)
    } else {
        insert_app(s.drop_last(), x).push(s.last())
    }
}

/// The applications sorted by name; those of equal name keep their order.
pub open spec fn sort_apps(s: Seq<AppInfo>) -> Seq<AppInfo>
    decreases s.len(),
{
    if s.len() == 0 {
        s
    } else {
        insert_app(sort_apps(s.drop_last()), s.last())
    }
}

/// Applications in order of name.
pub open spec fn apps_sorted(s: Seq<AppInfo>) -> bool {
    forall|i: int, j: int|
        0 <= i < j < s.len() ==> text_le((#[trigger] s[i]).app_name@, (#[trigger] s[j]).app_name@)
}

/// Inserting where the scan from the end stops is `insert_app`.
proof fn lemma_insert_app_at(s: Seq<AppInfo>, x: AppInfo, p: int)
    requires
        0 <= p <= s.len(),
        p == 0 || !text_lt(x.app_name@, s[p - 1].app_name@),
        forall|i: int| p <= i < s.len() ==> text_lt(x.app_name@, #[trigger] s[i].app_name@),
    ensures
        insert_app(s, x) == s.insert(p, x),
    decreases s.len(),
{
    if s.len() == 0 {
        assert(s.insert(p, x) =~= seq![x]);
    } else if p == s.len() {
        lemma_text_lt_trichotomy(x.app_name@, s.last().app_name@);
        assert(s.insert(p, x) =~= s.push(x));
    } else {
        lemma_text_lt_trichotomy(x.app_name@, s.last().app_name@);
        assert(text_lt(x.app_name@, s[s.len() - 1].app_name@));
        lemma_insert_app_at(s.drop_last(), x, p);
        assert(s.insert(p, x) =~= s.drop_last().insert(p, x).push(s.last()));
    }
}

/// Applications sorted by name (see `sort_apps`).
pub fn sort_apps_by_name(v: Vec<AppInfo>) -> (r: Vec<AppInfo>)
    ensures
        r@ == sort_apps(v@),
{
    let ghost orig = v@;
    let mut v = v;
    let mut r: Vec<AppInfo> = Vec::new();
    let ghost mut k: int = 0;
    while v.len() > 0
        invariant
            0 <= k <= orig.len(),
            v@ == orig.subrange(k, orig.len() as int),
            r@ == sort_apps(orig.take(k)),
        decreases v.len(),
    {
        let ghost old_v = v@;
        assert(orig.subrange(k, orig.len() as int)[0] == orig[k]);
        let x = v.remove(0);
        let mut p = r.len();
        while p > 0 && string_less(&x.app_name, &r[p - 1].app_name)
            invariant
                p <= r.len(),
                forall|i: int| p <= i < r.len() ==> text_lt(x.app_name@, #[trigger] r@[i].app_name@),
            decreases p,
        {
            p = p - 1;
        }
        proof {
            lemma_insert_app_at(r@, x, p as int);
        }
        r.insert(p, x);
        proof {
            assert(orig.take(k + 1).drop_last() =~= orig.take(k));
            k = k + 1;
            assert(v@ =~= orig.subrange(k, orig.len() as int));
        }
    }
    assert(orig.take(k) =~= orig);
    r
}

/// `text_le` is transitive.
proof fn lemma_text_le_transitive(a: Seq<char>, b: Seq<char>, c: Seq<char>)
    requires
        text_le(a, b),
        text_le(b, c),
    ensures
        text_le(a, c),
{
    if a != b && b != c {
        lemma_text_lt_transitive(a, b, c);
    }
}

/// Inserting into a sorted list keeps it sorted and adds exactly `x`.
proof fn lemma_insert_app(s: Seq<AppInfo>, x: AppInfo)
    requires
        apps_sorted(s),
    ensures
        apps_sorted(insert_app(s, x)),
        insert_app(s, x).to_multiset() == s.to_multiset().insert(x),
        forall|i: int|
            0 <= i < insert_app(s, x).len() ==> (#[trigger] insert_app(s, x)[i] == x || s.contains(
                insert_app(s, x)[i],
            )),
    decreases s.len(),
{
    broadcast use vstd::seq_lib::to_multiset_build;

    if s.len() == 0 {
        assert(seq![x] =~= s.push(x));
    } else if text_le(s.last().app_name@, x.app_name@) {
        assert forall|i: int, j: int| 0 <= i < j < s.push(x).len() implies text_le(
            (#[trigger] s.push(x)[i]).app_name@,
            (#[trigger] s.push(x)[j]).app_name@,
        ) by {
            if j == s.len() && i < s.len() - 1 {
                lemma_text_le_transitive(s[i].app_name@, s.last().app_name@, x.app_name@);
            }
        }
        assert forall|i: int| 0 <= i < s.push(x).len() implies (#[trigger] s.push(x)[i] == x
            || s.contains(s.push(x)[i])) by {
            if i < s.len() {
                assert(s[i] == s.push(x)[i]);
            }
        }
    } else {
        let t = s.drop_last();
        assert(apps_sorted(t));
        lemma_insert_app(t, x);
        let u = insert_app(t, x);
        assert(s =~= t.push(s.last()));
        lemma_text_lt_trichotomy(s.last().app_name@, x.app_name@);
        assert forall|i: int, j: int| 0 <= i < j < u.push(s.last()).len() implies text_le(
            (#[trigger] u.push(s.last())[i]).app_name@,
            (#[trigger] u.push(s.last())[j]).app_name@,
        ) by {
            if j == u.len() {
                assert(u[i] == x || t.contains(u[i]));
                if u[i] != x {
                    let k = choose|k: int| 0 <= k < t.len() && t[k] == u[i];
                    assert(s[k] == t[k]);
                    assert(text_le(s[k].app_name@, s[s.len() - 1].app_name@));
                }
            }
        }
        assert forall|i: int| 0 <= i < u.push(s.last()).len() implies (#[trigger] u.push(
            s.last(),
        )[i] == x || s.contains(u.push(s.last())[i])) by {
            if i < u.len() {
                assert(u.push(s.last())[i] == u[i]);
                if u[i] != x {
                    let k = choose|k: int| 0 <= k < t.len() && t[k] == u[i];
                    assert(s[k] == t[k]);
                }
            } else {
                assert(s[s.len() - 1] == s.last());
            }
        }
    }
}

/// Sorting applications by name puts them in order of name and keeps each
/// of them exactly as often as it was given.
pub proof fn law_sort_apps(s: Seq<AppInfo>)
    ensures
        apps_sorted(sort_apps(s)),
        sort_apps(s).to_multiset() == s.to_multiset(),
    decreases s.len(),
{
    broadcast use vstd::seq_lib::to_multiset_build;

    if s.len() > 0 {
        law_sort_apps(s.drop_last());
        lemma_insert_app(sort_apps(s.drop_last()), s.last());
        assert(s =~= s.drop_last().push(s.last()));
    }
}

// ---------------------------------------------------------------------------
// Running processes
// ---------------------------------------------------------------------------

/// A process's executable name `comm` belongs to the application `name`:
/// equal, or one begins the other (the kernel cuts long names short).
pub open spec fn comm_matches(comm: Seq<char>, name: Seq<char>) -> bool {
    comm == name || starts(comm, name) || starts(name, comm)
}

/// The id a line of `ps -eo pid=,comm=` contributes: its first word as a
/// number when that is not `self_pid` and its second word belongs to the
/// application.
pub open spec fn linux_pid_of(line: Seq<char>, name: Seq<char>, self_pid: u32) -> Option<u32> {
    let w = words(line);
    if w.len() >= 2 && u32_of(w[0]) is Some && u32_of(w[0])->Some_0 != self_pid && comm_matches(
        w[1],
        name,
    ) {
        u32_of(w[0])
    } else {
        None
    }
}

/// The ids of the application's processes in a process listing, other than
/// `self_pid` (see `linux_pid_of`).
pub open spec fn linux_pids(output: Seq<char>, name: Seq<char>, self_pid: u32) -> Seq<u32> {
    kept(lines(output), |l: Seq<char>| linux_pid_of(l, name, self_pid))
}

/// The ids of the application's processes (see `linux_pids`).
pub fn linux_process_ids(output: &str, name: &str, self_pid: u32) -> (r: Vec<u32>)
    ensures
        r@ == linux_pids(output@, name@, self_pid),
{
    let text = chars_of(output);
    let n = chars_of(name);
    let ls = lines_of(text.as_slice());
    let ghost f = |l: Seq<char>| linux_pid_of(l, name@, self_pid);
    let mut pids: Vec<u32> = Vec::new();
    let mut k: usize = 0;
    while k < ls.len()
        invariant
            k <= ls.len(),
            vseqs(ls@) == lines(output@),
            n@ == name@,
            f == (|l: Seq<char>| linux_pid_of(l, name@, self_pid)),
            pids@ == kept(vseqs(ls@).take(k as int), f),
        decreases ls.len() - k,
    {
        assert(vseqs(ls@).take(k + 1).drop_last() =~= vseqs(ls@).take(k as int));
        assert(vseqs(ls@)[k as int] == ls@[k as int]@);
        let w = words_of(ls[k].as_slice());
        k = k + 1;
        if w.len() < 2 {
            continue;
        }
        assert(vseqs(w@)[0] == w@[0]@ && vseqs(w@)[1] == w@[1]@);
        match parse_u32(w[0].as_slice()) {
            Some(pid) => {
                if pid != self_pid {
                    let comm = &w[1];
                    if chars_eq(comm.as_slice(), n.as_slice()) || starts_with(
                        comm.as_slice(),
                        n.as_slice(),
                    ) || starts_with(n.as_slice(), comm.as_slice()) {
                        pids.push(pid);
                    }
                }
            },
            None => {},
        }
    }
    assert(vseqs(ls@).take(ls@.len() as int) =~= vseqs(ls@));
    pids
}

} // verus!
