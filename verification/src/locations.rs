//! The search locations the engine works with, and the standard folders of
//! a Library.

use vstd::prelude::*;

use crate::text::{owned_all, sseqs, strs};

verus! {

/// The standard folders of a Library: a match two levels below one of them
/// is a vendor folder.
pub open spec fn standard_library_table() -> Seq<Seq<char>> {
    strs(
        seq![
            "Application Scripts",
            "Application Support",
            "Caches",
            "Containers",
            "Group Containers",
            "HTTPStorages",
            "Internet Plug-Ins",
            "LaunchAgents",
            "LaunchDaemons",
            "Logs",
            "Preferences",
            "PreferencePanes",
            "PrivilegedHelperTools",
            "Saved Application State",
            "Services",
            "WebKit",
            "Extensions",
            "Frameworks",
        ],
    )
}

/// The standard folders of a Library (see `standard_library_table`); no
/// name occurs twice.
pub fn standard_library_subdirectories() -> (r: Vec<String>)
    ensures
        sseqs(r@) == standard_library_table(),
{
    let names = vec![
        "Application Scripts",
        "Application Support",
        "Caches",
        "Containers",
        "Group Containers",
        "HTTPStorages",
        "Internet Plug-Ins",
        "LaunchAgents",
        "LaunchDaemons",
        "Logs",
        "Preferences",
        "PreferencePanes",
        "PrivilegedHelperTools",
        "Saved Application State",
        "Services",
        "WebKit",
        "Extensions",
        "Frameworks",
    ];
    owned_all(&names)
}

/// The search locations: home, cache and temporary folders, the folders
/// searched for an application's files and those searched for orphans.
pub struct Locations {
    pub home: String,
    pub cache_dir: String,
    pub temp_dir: String,
    pub apps_paths: Vec<String>,
    pub reverse_paths: Vec<String>,
}

impl Locations {
    /// The locations with the given folders.
    pub fn new(
        home: String,
        cache_dir: String,
        temp_dir: String,
        apps_paths: Vec<String>,
        reverse_paths: Vec<String>,
    ) -> (r: Locations)
        ensures
            r.home == home,
            r.cache_dir == cache_dir,
            r.temp_dir == temp_dir,
            r.apps_paths == apps_paths,
            r.reverse_paths == reverse_paths,
    {
        Locations { home, cache_dir, temp_dir, apps_paths, reverse_paths }
    }
}

} // verus!
