//! What each platform supplies to the engine: its folders (home, cache,
//! temporary files, the folders searched for an application's files and
//! for orphans), its trash folder and its table of developer caches; the
//! services the program provides on each system (a search index, bundle
//! signatures, ending processes); and the adapter for platforms without a
//! dedicated one, which follows the XDG conventions.

use vstd::prelude::*;

use crate::dev_env::DevEnv;
use crate::model::{AppInfo, Sensitivity};
use crate::text::{concat, owned, sseqs};

verus! {

/// The folders a platform lays out.
pub trait SystemPaths {
    /// The home folder.
    fn home(&self) -> String;

    /// The user's cache folder.
    fn user_cache_dir(&self) -> String;

    /// The user's temporary folder.
    fn user_temp_dir(&self) -> String;

    /// The folders searched for an application's files.
    fn apps_paths(&self) -> Vec<String>;

    /// The folders searched for orphaned files.
    fn reverse_paths(&self) -> Vec<String>;

    /// The vendor folders searched in depth.
    fn app_support_subdirs(&self) -> Vec<String>;
}

/// Where removed files go.
pub trait Trash {
    /// The trash folder.
    fn trash_dir(&self) -> String;
}

/// The developer caches a platform knows.
pub trait DevEnvPaths {
    /// The table of developer caches.
    fn dev_envs(&self) -> Vec<DevEnv>;
}

/// A search index that finds more of an application's files (Spotlight on
/// macOS). What it answers depends on the machine, so nothing is promised
/// of it; its paths go to `AppPathFinder::finalize_collection_cli`.
pub trait SpotlightIndex {
    /// Paths the index finds for an application's name and bundle
    /// identifier at a sensitivity.
    fn spotlight_supplemental_paths(
        &self,
        app_name: &str,
        bundle_id: &str,
        sensitivity: Sensitivity,
    ) -> Vec<String>;
}

/// What the signature of an application bundle tells: its entitlement
/// names and its team (read with `codesign`; see `bundle::get_entitlements`
/// and `macos::get_team_identifier` for what is made of the output).
pub trait AppMetadata {
    /// The entitlement and helper names of the bundle at `app_path`.
    fn entitlements(&self, app_path: &str) -> Option<Vec<String>>;

    /// The team identifier of the bundle at `app_path`.
    fn team_identifier(&self, app_path: &str) -> Option<String>;
}

/// Ending the running instances of an application.
pub trait ProcessControl {
    /// Ends the running instances of `app`; the number ended.
    fn kill_running_app(&self, app: &AppInfo) -> u32;
}

/// The adapter for platforms without a dedicated one (XDG conventions).
pub struct FallbackAdapter {
    pub home: String,
    pub cache_dir: String,
    pub temp_dir: String,
}

/// The cache folder by the XDG conventions: the configured one, else
/// `.cache` in the home folder.
pub open spec fn xdg_cache(home: Seq<char>, configured: Option<Seq<char>>) -> Seq<char> {
    match configured {
        Some(c) => c,
        None => home + "/.cache"@,
    }
}

/// The search folders of the fallback adapter.
pub open spec fn fallback_apps_paths(home: Seq<char>) -> Seq<Seq<char>> {
    seq![
        home,
        home + "/.config"@,
        home + "/Applications"@,
        home + "/.local/share/applications"@,
        home + "/.local/share/flatpak/exports/share/applications"@,
        home + "/.var/app"@,
        "/usr/local/share/applications"@,
        "/usr/share/applications"@,
        "/var/lib/flatpak/exports/share/applications"@,
    ]
}

/// The orphan search folders by the XDG conventions.
pub open spec fn xdg_reverse_paths(home: Seq<char>) -> Seq<Seq<char>> {
    seq![
        home + "/.config"@,
        home + "/.local/share"@,
        home + "/.local/state"@,
        home + "/.cache"@,
    ]
}

/// The orphan search folders by the XDG conventions (see
/// `xdg_reverse_paths`).
pub(crate) fn xdg_reverse(home: &str) -> (r: Vec<String>)
    ensures
        sseqs(r@) == xdg_reverse_paths(home@),
{
    let r = vec![
        concat(home, "/.config"),
        concat(home, "/.local/share"),
        concat(home, "/.local/state"),
        concat(home, "/.cache"),
    ];
    assert(sseqs(r@) =~= xdg_reverse_paths(home@));
    r
}

/// The cache folder (see `xdg_cache`).
pub(crate) fn xdg_cache_dir(home: &str, configured: Option<String>) -> (r: String)
    ensures
        r@ == xdg_cache(
            home@,
            match configured {
                Some(c) => Some(c@),
                None => None,
            },
        ),
{
    match configured {
        Some(c) => c,
        None => concat(home, "/.cache"),
    }
}

impl FallbackAdapter {
    /// The adapter for a home folder (none counts as empty), a configured
    /// cache folder if any (see `xdg_cache`) and the temporary folder.
    pub fn from_env(home: Option<String>, cache_home: Option<String>, temp_dir: String) -> (r:
        FallbackAdapter)
        ensures
            r.home@ == (match home {
                Some(h) => h@,
                None => Seq::<char>::empty(),
            }),
            r.cache_dir@ == xdg_cache(
                r.home@,
                match cache_home {
                    Some(c) => Some(c@),
                    None => None,
                },
            ),
            r.temp_dir == temp_dir,
    {
        let home = match home {
            Some(h) => h,
            None => String::new(),
        };
        let cache_dir = xdg_cache_dir(home.as_str(), cache_home);
        FallbackAdapter { home, cache_dir, temp_dir }
    }
}

impl SystemPaths for FallbackAdapter {
    fn home(&self) -> (r: String)
        ensures
            r@ == self.home@,
    {
        owned(self.home.as_str())
    }

    fn user_cache_dir(&self) -> (r: String)
        ensures
            r@ == self.cache_dir@,
    {
        owned(self.cache_dir.as_str())
    }

    fn user_temp_dir(&self) -> (r: String)
        ensures
            r@ == self.temp_dir@,
    {
        owned(self.temp_dir.as_str())
    }

    fn apps_paths(&self) -> (r: Vec<String>)
        ensures
            sseqs(r@) == fallback_apps_paths(self.home@),
    {
        let home = self.home.as_str();
        let r = vec![
            owned(home),
            concat(home, "/.config"),
            concat(home, "/Applications"),
            concat(home, "/.local/share/applications"),
            concat(home, "/.local/share/flatpak/exports/share/applications"),
            concat(home, "/.var/app"),
            owned("/usr/local/share/applications"),
            owned("/usr/share/applications"),
            owned("/var/lib/flatpak/exports/share/applications"),
        ];
        assert(sseqs(r@) =~= fallback_apps_paths(self.home@));
        r
    }

    fn reverse_paths(&self) -> (r: Vec<String>)
        ensures
            sseqs(r@) == xdg_reverse_paths(self.home@),
    {
        xdg_reverse(self.home.as_str())
    }

    fn app_support_subdirs(&self) -> (r: Vec<String>)
        ensures
            r@.len() == 0,
    {
        Vec::new()
    }
}

impl Trash for FallbackAdapter {
    fn trash_dir(&self) -> (r: String)
        ensures
            r@ == self.home@ + "/.local/share/Trash"@,
    {
        concat(self.home.as_str(), "/.local/share/Trash")
    }
}

} // verus!
