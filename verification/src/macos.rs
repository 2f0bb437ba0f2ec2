//! macOS: the search folders of the Library layout, the tables of plug-in
//! folders and developer caches, the reading of `codesign` output and
//! property lists, process listings, and Spotlight queries.

use vstd::prelude::*;

use crate::dev_env::{dev_env, dev_table_is, expand_home, expanded_home, DevEnv};
use crate::format::{normal_form, pear_format};
use crate::model::{AppInfo, Sensitivity};
use crate::paths::{file_name, file_name_of, file_stem, file_stem_of};
use crate::pkg::kept;
use crate::platform::{DevEnvPaths, SystemPaths, Trash};
use crate::plugin::PluginCategory;
use crate::text::{
    chars_eq_str, chars_of, concat, find_ws, has_sub, lines, lines_of, opt_seq, owned,
    replace_all, replace_chars, sseqs, starts, starts_with, starts_with_str, string_of, strs,
    sub_chars, trim, trim_chars, trim_start, trim_start_chars, vseqs,
};
use crate::unicode::{str_to_lower, unicode_str_lower};

verus! {

// ---------------------------------------------------------------------------
// Developer caches and the home folder
// ---------------------------------------------------------------------------

/// The developer caches of macOS, as written.
pub open spec fn mac_dev_env_sources() -> Seq<(Seq<char>, Seq<Seq<char>>)> {
    seq![
        ("Android Studio"@, seq!["~/Library/Logs/AndroidStudio/"@, "~/Library/Caches/Google/AndroidStudio*/"@]),
        ("Cargo"@, seq!["~/.cargo/git/"@, "~/.cargo/registry/"@]),
        ("Carthage"@, seq!["~/Carthage/"@, "~/Library/Caches/org.carthage.CarthageKit/"@]),
        ("CocoaPods"@, seq!["~/Library/Caches/CocoaPods/"@, "~/.cocoapods/repos/"@]),
        ("Composer"@, seq!["~/.composer/cache/"@]),
        ("Cursor"@, seq!["~/Library/Application Support/Cursor/Cache"@, "~/Library/Application Support/Cursor/GPUCache"@, "~/Library/Application Support/Cursor/CachedConfigurations"@, "~/Library/Application Support/Cursor/CachedData"@, "~/Library/Application Support/Cursor/CachedExtensionVSIXs"@, "~/Library/Application Support/Cursor/CachedExtensions"@, "~/Library/Application Support/Cursor/CachedProfilesData"@, "~/Library/Application Support/Cursor/Code Cache"@]),
        ("Deno"@, seq!["~/Library/Caches/deno"@]),
        ("Go Modules"@, seq!["~/go/pkg/mod/"@]),
        ("Gradle"@, seq!["~/.gradle/caches/"@, "~/.gradle/wrapper/"@]),
        ("Homebrew"@, seq!["~/Library/Caches/Homebrew/"@, "~/Library/Logs/Homebrew/"@]),
        ("Haskell Stack"@, seq!["~/.stack/snapshots/"@]),
        ("IntelliJ IDEA"@, seq!["~/Library/Caches/JetBrains/"@, "~/Library/Logs/JetBrains/"@]),
        ("Maven"@, seq!["~/.m2/repository/"@]),
        ("Nix"@, seq!["~/.cache/nix/"@]),
        ("Npm"@, seq!["~/.npm/"@, "~/Library/pnpm/store"@, "~/.bun/install/cache"@]),
        ("Pip"@, seq!["~/Library/Caches/pip/"@]),
        ("Poetry"@, seq!["~/Library/Caches/pypoetry/"@]),
        ("Pub"@, seq!["~/.pub-cache/"@, "~/Library/Caches/flutter_engine/"@]),
        ("Pyenv"@, seq!["~/.pyenv/cache/"@]),
        ("Swift"@, seq!["~/.swiftpm/"@]),
        ("Uv"@, seq!["~/.cache/uv/"@]),
        ("VS Code"@, seq!["~/Library/Application Support/Code/Cache"@, "~/Library/Application Support/Code/GPUCache"@, "~/Library/Application Support/Code/CachedConfigurations"@, "~/Library/Application Support/Code/CachedData"@, "~/Library/Application Support/Code/CachedExtensionVSIXs"@, "~/Library/Application Support/Code/CachedExtensions"@, "~/Library/Application Support/Code/CachedProfilesData"@, "~/Library/Application Support/Code/Code Cache"@]),
        ("Xcode"@, seq!["~/Library/Caches/com.apple.dt.xcodebuild/"@, "~/Library/Caches/com.apple.dt.Xcode.sourcecontrol.Git/"@, "~/Library/Developer/DeveloperDiskImages/"@, "~/Library/Developer/Xcode/DerivedData/"@, "~/Library/Developer/Xcode/DocumentationCache/"@, "~/Library/Developer/Xcode/iOS DeviceSupport/"@, "~/Library/Developer/Xcode/tvOS DeviceSupport/"@, "~/Library/Developer/Xcode/watchOS DeviceSupport/"@, "~/Library/Developer/Xcode/macOS DeviceSupport/"@]),
        ("Yarn"@, seq!["~/.cache/yarn/"@, "~/.yarn-cache/"@]),
        ("Zed"@, seq!["~/Library/Caches/Zed/"@, "~/Library/Application Support/Zed/node/cache/"@]),
    ]
}

/// The developer caches of macOS (see `mac_dev_env_sources`): only caches a
/// tool rebuilds, never the tools, their settings or user data.
pub fn dev_envs_table() -> (r: Vec<DevEnv>)
    ensures
        dev_table_is(r@, mac_dev_env_sources()),
{
    vec![
        dev_env("Android Studio", vec!["~/Library/Logs/AndroidStudio/", "~/Library/Caches/Google/AndroidStudio*/"]),
        dev_env("Cargo", vec!["~/.cargo/git/", "~/.cargo/registry/"]),
        dev_env("Carthage", vec!["~/Carthage/", "~/Library/Caches/org.carthage.CarthageKit/"]),
        dev_env("CocoaPods", vec!["~/Library/Caches/CocoaPods/", "~/.cocoapods/repos/"]),
        dev_env("Composer", vec!["~/.composer/cache/"]),
        dev_env("Cursor", vec!["~/Library/Application Support/Cursor/Cache", "~/Library/Application Support/Cursor/GPUCache", "~/Library/Application Support/Cursor/CachedConfigurations", "~/Library/Application Support/Cursor/CachedData", "~/Library/Application Support/Cursor/CachedExtensionVSIXs", "~/Library/Application Support/Cursor/CachedExtensions", "~/Library/Application Support/Cursor/CachedProfilesData", "~/Library/Application Support/Cursor/Code Cache"]),
        dev_env("Deno", vec!["~/Library/Caches/deno"]),
        dev_env("Go Modules", vec!["~/go/pkg/mod/"]),
        dev_env("Gradle", vec!["~/.gradle/caches/", "~/.gradle/wrapper/"]),
        dev_env("Homebrew", vec!["~/Library/Caches/Homebrew/", "~/Library/Logs/Homebrew/"]),
        dev_env("Haskell Stack", vec!["~/.stack/snapshots/"]),
        dev_env("IntelliJ IDEA", vec!["~/Library/Caches/JetBrains/", "~/Library/Logs/JetBrains/"]),
        dev_env("Maven", vec!["~/.m2/repository/"]),
        dev_env("Nix", vec!["~/.cache/nix/"]),
        dev_env("Npm", vec!["~/.npm/", "~/Library/pnpm/store", "~/.bun/install/cache"]),
        dev_env("Pip", vec!["~/Library/Caches/pip/"]),
        dev_env("Poetry", vec!["~/Library/Caches/pypoetry/"]),
        dev_env("Pub", vec!["~/.pub-cache/", "~/Library/Caches/flutter_engine/"]),
        dev_env("Pyenv", vec!["~/.pyenv/cache/"]),
        dev_env("Swift", vec!["~/.swiftpm/"]),
        dev_env("Uv", vec!["~/.cache/uv/"]),
        dev_env("VS Code", vec!["~/Library/Application Support/Code/Cache", "~/Library/Application Support/Code/GPUCache", "~/Library/Application Support/Code/CachedConfigurations", "~/Library/Application Support/Code/CachedData", "~/Library/Application Support/Code/CachedExtensionVSIXs", "~/Library/Application Support/Code/CachedExtensions", "~/Library/Application Support/Code/CachedProfilesData", "~/Library/Application Support/Code/Code Cache"]),
        dev_env("Xcode", vec!["~/Library/Caches/com.apple.dt.xcodebuild/", "~/Library/Caches/com.apple.dt.Xcode.sourcecontrol.Git/", "~/Library/Developer/DeveloperDiskImages/", "~/Library/Developer/Xcode/DerivedData/", "~/Library/Developer/Xcode/DocumentationCache/", "~/Library/Developer/Xcode/iOS DeviceSupport/", "~/Library/Developer/Xcode/tvOS DeviceSupport/", "~/Library/Developer/Xcode/watchOS DeviceSupport/", "~/Library/Developer/Xcode/macOS DeviceSupport/"]),
        dev_env("Yarn", vec!["~/.cache/yarn/", "~/.yarn-cache/"]),
        dev_env("Zed", vec!["~/Library/Caches/Zed/", "~/Library/Application Support/Zed/node/cache/"]),
    ]
}

/// A plug-in category with its folders, `~` expanded.
fn category(name: &str, paths: Vec<&str>, home: &str) -> (r: PluginCategory)
    ensures
        r.name@ == name@,
        sseqs(r.paths@) == strs(paths@).map_values(|p: Seq<char>| expanded_home(p, home@)),
{
    let mut out: Vec<String> = Vec::new();
    let mut i: usize = 0;
    while i < paths.len()
        invariant
            i <= paths.len(),
            sseqs(out@) == strs(paths@).take(i as int).map_values(
                |p: Seq<char>| expanded_home(p, home@),
            ),
        decreases paths.len() - i,
    {
        let ghost before = sseqs(out@);
        out.push(expand_home(paths[i], home));
        assert(sseqs(out@) =~= before.push(expanded_home(paths@[i as int]@, home@)));
        i = i + 1;
        assert(strs(paths@).take(i as int).map_values(|p: Seq<char>| expanded_home(p, home@))
            =~= strs(paths@).take(i - 1).map_values(|p: Seq<char>| expanded_home(p, home@)).push(
            expanded_home(paths@[i - 1]@, home@),
        ));
    }
    assert(strs(paths@).take(paths@.len() as int) =~= strs(paths@));
    PluginCategory { name: owned(name), paths: out }
}

/// The plug-in categories of macOS and their folders, as written (`~` for
/// the home folder).
pub open spec fn mac_plugin_sources() -> Seq<(Seq<char>, Seq<Seq<char>>)> {
    seq![
        ("Audio"@, seq!["~/Library/Audio/Plug-Ins/Components"@, "~/Library/Audio/Plug-Ins/HAL"@, "~/Library/Audio/Plug-Ins/MAS"@, "~/Library/Audio/Plug-Ins/VST"@, "~/Library/Audio/Plug-Ins/VST3"@, "~/Library/Audio/Plug-Ins/CLAP"@, "/Library/Audio/Plug-Ins/HAL"@, "/Library/Audio/Plug-Ins/VST"@, "/Library/Audio/Plug-Ins/VST3"@, "/Library/Audio/Plug-Ins/CLAP"@, "/Library/Audio/Plug-Ins/Components"@, "/Library/Application Support/Avid/Audio/Plug-Ins"@, "/Library/Application Support/Digidesign/Plug-Ins"@]),
        ("PreferencePanes"@, seq!["/Library/PreferencePanes"@, "~/Library/PreferencePanes"@]),
        ("QuickLook"@, seq!["/Library/QuickLook"@, "~/Library/QuickLook"@]),
        ("Screen Savers"@, seq!["/Library/Screen Savers"@, "~/Library/Screen Savers"@]),
        ("Internet Plug-Ins"@, seq!["/Library/Internet Plug-Ins"@, "~/Library/Internet Plug-Ins"@]),
        ("Core Image"@, seq!["/Library/CoreImage"@, "~/Library/CoreImage"@]),
        ("ColorPickers"@, seq!["/Library/ColorPickers"@, "~/Library/ColorPickers"@]),
        ("Fonts"@, seq!["~/Library/Fonts"@]),
        ("Dictionaries"@, seq!["/Library/Dictionaries"@, "~/Library/Dictionaries"@]),
        ("Automator"@, seq!["/Library/Automator"@, "~/Library/Automator"@]),
        ("Safari Extensions"@, seq!["/Library/Safari/Extensions"@, "~/Library/Safari/Extensions"@]),
        ("Motion Templates"@, seq!["~/Movies/Motion Templates"@, "/Library/Application Support/Final Cut Pro System Support/Plug-ins"@]),
        ("Spotlight"@, seq!["/Library/Spotlight"@, "~/Library/Spotlight"@]),
        ("Services"@, seq!["/Library/Services"@, "~/Library/Services"@]),
        ("Address Book"@, seq!["~/Library/Address Book Plug-Ins"@]),
        ("Contextual Menu"@, seq!["/Library/Contextual Menu Items"@, "~/Library/Contextual Menu Items"@]),
        ("Input Methods"@, seq!["/Library/Input Methods"@, "~/Library/Input Methods"@]),
        ("Widgets"@, seq!["/Library/Widgets"@, "~/Library/Widgets"@]),
    ]
}

/// The plug-in categories of macOS with their folders for the home folder
/// `home` (see `mac_plugin_sources`).
pub fn plugin_categories_table(home: &str) -> (r: Vec<PluginCategory>)
    ensures
        r@.len() == mac_plugin_sources().len(),
        forall|i: int|
            0 <= i < r@.len() ==> (#[trigger] r@[i]).name@ == mac_plugin_sources()[i].0 && sseqs(
                r@[i].paths@,
            ) =~= mac_plugin_sources()[i].1.map_values(|p: Seq<char>| expanded_home(p, home@)),
{
    vec![
        category("Audio", vec!["~/Library/Audio/Plug-Ins/Components", "~/Library/Audio/Plug-Ins/HAL", "~/Library/Audio/Plug-Ins/MAS", "~/Library/Audio/Plug-Ins/VST", "~/Library/Audio/Plug-Ins/VST3", "~/Library/Audio/Plug-Ins/CLAP", "/Library/Audio/Plug-Ins/HAL", "/Library/Audio/Plug-Ins/VST", "/Library/Audio/Plug-Ins/VST3", "/Library/Audio/Plug-Ins/CLAP", "/Library/Audio/Plug-Ins/Components", "/Library/Application Support/Avid/Audio/Plug-Ins", "/Library/Application Support/Digidesign/Plug-Ins"], home),
        category("PreferencePanes", vec!["/Library/PreferencePanes", "~/Library/PreferencePanes"], home),
        category("QuickLook", vec!["/Library/QuickLook", "~/Library/QuickLook"], home),
        category("Screen Savers", vec!["/Library/Screen Savers", "~/Library/Screen Savers"], home),
        category("Internet Plug-Ins", vec!["/Library/Internet Plug-Ins", "~/Library/Internet Plug-Ins"], home),
        category("Core Image", vec!["/Library/CoreImage", "~/Library/CoreImage"], home),
        category("ColorPickers", vec!["/Library/ColorPickers", "~/Library/ColorPickers"], home),
        category("Fonts", vec!["~/Library/Fonts"], home),
        category("Dictionaries", vec!["/Library/Dictionaries", "~/Library/Dictionaries"], home),
        category("Automator", vec!["/Library/Automator", "~/Library/Automator"], home),
        category("Safari Extensions", vec!["/Library/Safari/Extensions", "~/Library/Safari/Extensions"], home),
        category("Motion Templates", vec!["~/Movies/Motion Templates", "/Library/Application Support/Final Cut Pro System Support/Plug-ins"], home),
        category("Spotlight", vec!["/Library/Spotlight", "~/Library/Spotlight"], home),
        category("Services", vec!["/Library/Services", "~/Library/Services"], home),
        category("Address Book", vec!["~/Library/Address Book Plug-Ins"], home),
        category("Contextual Menu", vec!["/Library/Contextual Menu Items", "~/Library/Contextual Menu Items"], home),
        category("Input Methods", vec!["/Library/Input Methods", "~/Library/Input Methods"], home),
        category("Widgets", vec!["/Library/Widgets", "~/Library/Widgets"], home),
    ]
}

// ---------------------------------------------------------------------------
// The adapter
// ---------------------------------------------------------------------------

/// The macOS folders: home, the user's cache and temporary folders, and
/// the kept folders of Application Support (see `keep_app_support_dir` in
/// the bundle module).
#[derive(Clone, Debug)]
pub struct MacOsAdapter {
    pub home: String,
    pub cache_dir: String,
    pub temp_dir: String,
    pub support_dirs: Vec<String>,
}

/// The fixed search folders of macOS for the given home, cache and temporary
/// folders.
pub open spec fn mac_base_paths(home: Seq<char>, cache: Seq<char>, temp: Seq<char>) -> Seq<Seq<char>> {
    seq![
        home,
        home + "/.config"@,
        home + "/Documents"@,
        home + "/Desktop"@,
        home + "/Applications"@,
        home + "/Library"@,
        home + "/Library/Application Scripts"@,
        home + "/Library/Application Support"@,
        home + "/Library/Application Support/CrashReporter"@,
        home + "/Library/Application Support/Steam/steamapps"@,
        home + "/Library/Application Support/Steam/steamapps/common"@,
        home + "/Library/Application Support/com.apple.sharedfilelist/com.apple.LSSharedFileList.ApplicationRecentDocuments"@,
        home + "/Library/Containers"@,
        home + "/Library/Caches"@,
        home + "/Library/Caches/com.apple.helpd/Generated"@,
        home + "/Library/Caches/com.crashlytics"@,
        home + "/Library/Caches/com.google.SoftwareUpdate"@,
        home + "/Library/Caches/com.google.Keystone"@,
        home + "/Library/Caches/org.sparkle-project.Sparkle"@,
        home + "/Library/Caches/com.segment.analytics"@,
        home + "/Library/Caches/SentryCrash"@,
        home + "/Library/Caches/Rollbar"@,
        home + "/Library/Caches/Amplitude"@,
        home + "/Library/Caches/Realm"@,
        home + "/Library/Caches/Parse"@,
        home + "/Library/Group Containers"@,
        home + "/Library/HTTPStorages"@,
        home + "/Library/Internet Plug-Ins"@,
        home + "/Library/LaunchAgents"@,
        home + "/Library/Logs"@,
        home + "/Library/Logs/DiagnosticReports"@,
        home + "/Library/Preferences"@,
        home + "/Library/PreferencePanes"@,
        home + "/Library/Preferences/ByHost"@,
        home + "/Library/Saved Application State"@,
        home + "/Library/Services"@,
        home + "/Library/WebKit"@,
        "/Applications"@,
        "/Users/Shared"@,
        "/Users/Library"@,
        "/Users/Shared/Library/Application Support"@,
        "/Library"@,
        "/Library/Application Support"@,
        "/Library/Application Support/CrashReporter"@,
        "/Library/Caches"@,
        "/Library/Extensions"@,
        "/Library/Internet Plug-Ins"@,
        "/Library/LaunchAgents"@,
        "/Library/LaunchDaemons"@,
        "/Library/Logs"@,
        "/Library/Logs/DiagnosticReports"@,
        "/Library/Preferences"@,
        "/Library/PrivilegedHelperTools"@,
        "/private/var/db/receipts"@,
        "/private/tmp"@,
        "/usr/local/bin"@,
        "/usr/local/etc"@,
        "/usr/local/opt"@,
        "/usr/local/sbin"@,
        "/usr/local/share"@,
        "/usr/local/var"@,
        cache,
        temp,
    ]
}

/// The search folders: the fixed ones, then each kept folder of Application
/// Support, without empty entries.
pub open spec fn mac_apps_paths(
    home: Seq<char>,
    cache: Seq<char>,
    temp: Seq<char>,
    support: Seq<Seq<char>>,
) -> Seq<Seq<char>> {
    kept(
        mac_base_paths(home, cache, temp) + support.map_values(
            |f: Seq<char>| home + "/Library/Application Support/"@ + f,
        ),
        |p: Seq<char>|
            if p.len() == 0 {
                None
            } else {
                Some(p)
            },
    )
}

/// The orphan search folders of macOS.
pub open spec fn mac_reverse_paths(home: Seq<char>) -> Seq<Seq<char>> {
    seq![
        home + "/Library/Application Scripts"@,
        home + "/Library/Application Support"@,
        home + "/Library/Application Support/Caches"@,
        home + "/Library/Application Support/com.apple.sharedfilelist/com.apple.LSSharedFileList.ApplicationRecentDocuments"@,
        home + "/Library/Containers"@,
        home + "/Library/Caches"@,
        home + "/Library/HTTPStorages"@,
        home + "/Library/Internet Plug-Ins"@,
        home + "/Library/LaunchAgents"@,
        home + "/Library/Logs"@,
        home + "/Library/Preferences"@,
        home + "/Library/PreferencePanes"@,
        home + "/Library/Preferences/ByHost"@,
        home + "/Library/Saved Application State"@,
        home + "/Library/WebKit"@,
        "/Users/Shared/Library/Application Support"@,
        "/Library/Application Support"@,
        "/Library/Application Support/CrashReporter"@,
        "/Library/Internet Plug-Ins"@,
        "/Library/LaunchAgents"@,
        "/Library/LaunchDaemons"@,
        "/Library/PrivilegedHelperTools"@,
    ]
}

/// Folders that are never deleted on macOS.
pub open spec fn mac_critical_paths() -> Seq<Seq<char>> {
    seq![
        "/Applications"@,
        "/Library"@,
        "/System"@,
        "/usr"@,
        "/bin"@,
        "/sbin"@,
        "/etc"@,
        "/var"@,
        "/private"@,
        "/opt"@,
        "/Users"@,
        "/Users/Shared"@,
    ]
}

/// The fixed search folders (see `mac_base_paths`).
fn mac_base(home: &str, cache: &str, temp: &str) -> (r: Vec<String>)
    ensures
        sseqs(r@) == mac_base_paths(home@, cache@, temp@),
{
    let r = vec![
        owned(home),
        concat(home, "/.config"),
        concat(home, "/Documents"),
        concat(home, "/Desktop"),
        concat(home, "/Applications"),
        concat(home, "/Library"),
        concat(home, "/Library/Application Scripts"),
        concat(home, "/Library/Application Support"),
        concat(home, "/Library/Application Support/CrashReporter"),
        concat(home, "/Library/Application Support/Steam/steamapps"),
        concat(home, "/Library/Application Support/Steam/steamapps/common"),
        concat(home, "/Library/Application Support/com.apple.sharedfilelist/com.apple.LSSharedFileList.ApplicationRecentDocuments"),
        concat(home, "/Library/Containers"),
        concat(home, "/Library/Caches"),
        concat(home, "/Library/Caches/com.apple.helpd/Generated"),
        concat(home, "/Library/Caches/com.crashlytics"),
        concat(home, "/Library/Caches/com.google.SoftwareUpdate"),
        concat(home, "/Library/Caches/com.google.Keystone"),
        concat(home, "/Library/Caches/org.sparkle-project.Sparkle"),
        concat(home, "/Library/Caches/com.segment.analytics"),
        concat(home, "/Library/Caches/SentryCrash"),
        concat(home, "/Library/Caches/Rollbar"),
        concat(home, "/Library/Caches/Amplitude"),
        concat(home, "/Library/Caches/Realm"),
        concat(home, "/Library/Caches/Parse"),
        concat(home, "/Library/Group Containers"),
        concat(home, "/Library/HTTPStorages"),
        concat(home, "/Library/Internet Plug-Ins"),
        concat(home, "/Library/LaunchAgents"),
        concat(home, "/Library/Logs"),
        concat(home, "/Library/Logs/DiagnosticReports"),
        concat(home, "/Library/Preferences"),
        concat(home, "/Library/PreferencePanes"),
        concat(home, "/Library/Preferences/ByHost"),
        concat(home, "/Library/Saved Application State"),
        concat(home, "/Library/Services"),
        concat(home, "/Library/WebKit"),
        owned("/Applications"),
        owned("/Users/Shared"),
        owned("/Users/Library"),
        owned("/Users/Shared/Library/Application Support"),
        owned("/Library"),
        owned("/Library/Application Support"),
        owned("/Library/Application Support/CrashReporter"),
        owned("/Library/Caches"),
        owned("/Library/Extensions"),
        owned("/Library/Internet Plug-Ins"),
        owned("/Library/LaunchAgents"),
        owned("/Library/LaunchDaemons"),
        owned("/Library/Logs"),
        owned("/Library/Logs/DiagnosticReports"),
        owned("/Library/Preferences"),
        owned("/Library/PrivilegedHelperTools"),
        owned("/private/var/db/receipts"),
        owned("/private/tmp"),
        owned("/usr/local/bin"),
        owned("/usr/local/etc"),
        owned("/usr/local/opt"),
        owned("/usr/local/sbin"),
        owned("/usr/local/share"),
        owned("/usr/local/var"),
        owned(cache),
        owned(temp),
    ];
    assert(sseqs(r@) =~= mac_base_paths(home@, cache@, temp@));
    r
}

impl MacOsAdapter {
    /// The adapter for the given folders.
    pub fn with_dirs(home: String, cache_dir: String, temp_dir: String, support_dirs: Vec<String>) -> (r:
        MacOsAdapter)
        ensures
            r.home == home,
            r.cache_dir == cache_dir,
            r.temp_dir == temp_dir,
            r.support_dirs == support_dirs,
    {
        MacOsAdapter { home, cache_dir, temp_dir, support_dirs }
    }

    /// Folders that are never deleted (see `mac_critical_paths`).
    pub fn critical_paths(&self) -> (r: Vec<String>)
        ensures
            sseqs(r@) == mac_critical_paths(),
    {
        let r = vec![
        owned("/Applications"),
        owned("/Library"),
        owned("/System"),
        owned("/usr"),
        owned("/bin"),
        owned("/sbin"),
        owned("/etc"),
        owned("/var"),
        owned("/private"),
        owned("/opt"),
        owned("/Users"),
        owned("/Users/Shared"),
    ];
        assert(sseqs(r@) =~= mac_critical_paths());
        r
    }

    /// The plug-in folders by category (see `plugin_categories_table`).
    pub fn plugin_categories(&self) -> (r: Vec<PluginCategory>)
        ensures
            r@.len() == mac_plugin_sources().len(),
            forall|i: int|
                0 <= i < r@.len() ==> (#[trigger] r@[i]).name@ == mac_plugin_sources()[i].0 && sseqs(
                    r@[i].paths@,
                ) =~= mac_plugin_sources()[i].1.map_values(|p: Seq<char>| expanded_home(p, self.home@)),
    {
        plugin_categories_table(self.home.as_str())
    }
}

impl SystemPaths for MacOsAdapter {
    fn home(&self) -> (r: String)
        ensures
            r@ == self.home@,
    {
        owned(self.home.as_str())
    }

    fn user_cache_dir(&self) -> (r: String)
        ensures
            r@ == self.cache_dir@,
    {
        owned(self.cache_dir.as_str())
    }

    fn user_temp_dir(&self) -> (r: String)
        ensures
            r@ == self.temp_dir@,
    {
        owned(self.temp_dir.as_str())
    }

    /// The search folders (see `mac_apps_paths`).
    fn apps_paths(&self) -> (r: Vec<String>)
        ensures
            sseqs(r@) == mac_apps_paths(
                self.home@,
                self.cache_dir@,
                self.temp_dir@,
                sseqs(self.support_dirs@),
            ),
    {
        let support = &self.support_dirs;
        let home = self.home.as_str();
        let mut all = mac_base(home, self.cache_dir.as_str(), self.temp_dir.as_str());
        let ghost base = sseqs(all@);
        let mut i: usize = 0;
        while i < support.len()
            invariant
                i <= support.len(),
                home@ == self.home@,
                sseqs(all@) == base + sseqs(support@).take(i as int).map_values(
                    |f: Seq<char>| self.home@ + "/Library/Application Support/"@ + f,
                ),
            decreases support.len() - i,
        {
            let ghost before = sseqs(all@);
            let a = concat(home, "/Library/Application Support/");
            all.push(concat(a.as_str(), support[i].as_str()));
            assert(sseqs(all@) =~= before.push(
                self.home@ + "/Library/Application Support/"@ + support@[i as int]@,
            ));
            i = i + 1;
            assert(sseqs(support@).take(i as int).map_values(
                |f: Seq<char>| self.home@ + "/Library/Application Support/"@ + f,
            ) =~= sseqs(support@).take(i - 1).map_values(
                |f: Seq<char>| self.home@ + "/Library/Application Support/"@ + f,
            ).push(self.home@ + "/Library/Application Support/"@ + support@[i - 1]@));
        }
        assert(sseqs(support@).take(support@.len() as int) =~= sseqs(support@));
        crate::text::nonempty_only(&all)
    }

    /// The orphan search folders (see `mac_reverse_paths`).
    fn reverse_paths(&self) -> (r: Vec<String>)
        ensures
            sseqs(r@) == mac_reverse_paths(self.home@),
    {
        let home = self.home.as_str();
        let r = vec![
        concat(home, "/Library/Application Scripts"),
        concat(home, "/Library/Application Support"),
        concat(home, "/Library/Application Support/Caches"),
        concat(home, "/Library/Application Support/com.apple.sharedfilelist/com.apple.LSSharedFileList.ApplicationRecentDocuments"),
        concat(home, "/Library/Containers"),
        concat(home, "/Library/Caches"),
        concat(home, "/Library/HTTPStorages"),
        concat(home, "/Library/Internet Plug-Ins"),
        concat(home, "/Library/LaunchAgents"),
        concat(home, "/Library/Logs"),
        concat(home, "/Library/Preferences"),
        concat(home, "/Library/PreferencePanes"),
        concat(home, "/Library/Preferences/ByHost"),
        concat(home, "/Library/Saved Application State"),
        concat(home, "/Library/WebKit"),
        owned("/Users/Shared/Library/Application Support"),
        owned("/Library/Application Support"),
        owned("/Library/Application Support/CrashReporter"),
        owned("/Library/Internet Plug-Ins"),
        owned("/Library/LaunchAgents"),
        owned("/Library/LaunchDaemons"),
        owned("/Library/PrivilegedHelperTools"),
    ];
        assert(sseqs(r@) =~= mac_reverse_paths(self.home@));
        r
    }

    /// The kept folders of Application Support.
    fn app_support_subdirs(&self) -> (r: Vec<String>)
        ensures
            sseqs(r@) == sseqs(self.support_dirs@),
    {
        crate::dev_env::copy_strings(&self.support_dirs)
    }
}

impl Trash for MacOsAdapter {
    /// The trash folder: `.Trash` in the home folder.
    fn trash_dir(&self) -> (r: String)
        ensures
            r@ == self.home@ + "/.Trash"@,
    {
        concat(self.home.as_str(), "/.Trash")
    }
}

impl DevEnvPaths for MacOsAdapter {
    /// The developer caches of macOS (see `dev_envs_table`).
    fn dev_envs(&self) -> (r: Vec<DevEnv>)
        ensures
            dev_table_is(r@, mac_dev_env_sources()),
    {
        dev_envs_table()
    }
}

// ---------------------------------------------------------------------------
// Spotlight queries
// ---------------------------------------------------------------------------

/// A value quoted for a Spotlight predicate: each `'` doubled.
pub fn escape_predicate_value(value: &str) -> (r: String)
    ensures
        r@ == replace_all(value@, "'"@, "''"@),
{
    let v = chars_of(value);
    let q = chars_of("'");
    let qq = chars_of("''");
    proof {
        reveal_strlit("'");
    }
    string_of(replace_chars(v.as_slice(), q.as_slice(), qq.as_slice()).as_slice())
}

/// The Spotlight predicate for an application: equal display names under
/// strict sensitivity, display names or paths containing the name or the
/// bundle identifier under enhanced sensitivity; none for deep sensitivity.
pub open spec fn predicate_text(app_name: Seq<char>, bundle_id: Seq<char>, sensitivity: Sensitivity) -> Option<
    Seq<char>,
> {
    let name = replace_all(app_name, "'"@, "''"@);
    let bundle = replace_all(bundle_id, "'"@, "''"@);
    match sensitivity {
        Sensitivity::Strict => Some(
            "kMDItemDisplayName == '"@ + name + "'cd || kMDItemDisplayName == '"@ + bundle + "'cd"@,
        ),
        Sensitivity::Enhanced => Some(
            "kMDItemDisplayName CONTAINS[cd] '"@ + name + "' || kMDItemPath CONTAINS[cd] '"@ + name
                + "' || kMDItemDisplayName CONTAINS[cd] '"@ + bundle + "' || kMDItemPath CONTAINS[cd] '"@
                + bundle + "'"@,
        ),
        Sensitivity::Deep => None,
    }
}

/// Concatenation of several texts.
fn cat(parts: Vec<&str>) -> (r: String)
    ensures
        r@ == crate::text::flatten_texts(strs(parts@)),
{
    let mut out = String::new();
    let mut i: usize = 0;
    while i < parts.len()
        invariant
            i <= parts.len(),
            out@ == crate::text::flatten_texts(strs(parts@).take(i as int)),
        decreases parts.len() - i,
    {
        let ghost before = out@;
        let c = chars_of(parts[i]);
        let mut j: usize = 0;
        while j < c.len()
            invariant
                j <= c.len(),
                out@ == before + c@.take(j as int),
            decreases c.len() - j,
        {
            out.push(c[j]);
            j = j + 1;
            assert(before + c@.take(j as int) =~= (before + c@.take(j - 1)).push(c@[j - 1]));
        }
        assert(c@.take(c@.len() as int) =~= c@);
        assert(strs(parts@).take(i + 1).drop_last() =~= strs(parts@).take(i as int));
        i = i + 1;
    }
    assert(strs(parts@).take(parts@.len() as int) =~= strs(parts@));
    out
}

/// The Spotlight predicate for an application (see `predicate_text`).
pub fn build_predicate(app_name: &str, bundle_id: &str, sensitivity: Sensitivity) -> (r: Option<
    String,
>)
    ensures
        opt_seq(r) == predicate_text(app_name@, bundle_id@, sensitivity),
{
    let name = escape_predicate_value(app_name);
    let bundle = escape_predicate_value(bundle_id);
    match sensitivity {
        Sensitivity::Strict => {
            let parts = vec![
                "kMDItemDisplayName == '",
                name.as_str(),
                "'cd || kMDItemDisplayName == '",
                bundle.as_str(),
                "'cd",
            ];
            let r = cat(parts);
            proof {
                crate::text::reveal_flatten5(strs(parts@));
            }
            Some(r)
        },
        Sensitivity::Enhanced => {
            let parts = vec![
                "kMDItemDisplayName CONTAINS[cd] '",
                name.as_str(),
                "' || kMDItemPath CONTAINS[cd] '",
                name.as_str(),
                "' || kMDItemDisplayName CONTAINS[cd] '",
                bundle.as_str(),
                "' || kMDItemPath CONTAINS[cd] '",
                bundle.as_str(),
                "'",
            ];
            let r = cat(parts);
            proof {
                crate::text::reveal_flatten9(strs(parts@));
            }
            Some(r)
        },
        Sensitivity::Deep => None,
    }
}

/// A strict-sensitivity result is kept when the normal form of its file name
/// is that of the application's name or bundle identifier.
pub open spec fn strict_keeps(p: Seq<char>, app_name: Seq<char>, bundle_id: Seq<char>) -> bool {
    let last = match file_name(p) {
        Some(n) => n,
        None => Seq::empty(),
    };
    normal_form(last) == normal_form(app_name) || normal_form(last) == normal_form(bundle_id)
}

/// The strict-sensitivity results kept (see `strict_keeps`).
pub fn strict_post_filter(paths: Vec<String>, app_name: &str, bundle_id: &str) -> (r: Vec<String>)
    ensures
        sseqs(r@) == kept(
            sseqs(paths@),
            |p: Seq<char>|
                if strict_keeps(p, app_name@, bundle_id@) {
                    Some(p)
                } else {
                    None
                },
        ),
{
    let ghost f = |p: Seq<char>|
        if strict_keeps(p, app_name@, bundle_id@) {
            Some(p)
        } else {
            None
        };
    let nf = pear_format(app_name);
    let bf = pear_format(bundle_id);
    let mut out: Vec<String> = Vec::new();
    let mut i: usize = 0;
    while i < paths.len()
        invariant
            i <= paths.len(),
            nf@ == normal_form(app_name@),
            bf@ == normal_form(bundle_id@),
            f == (|p: Seq<char>|
                if strict_keeps(p, app_name@, bundle_id@) {
                    Some(p)
                } else {
                    None
                }),
            sseqs(out@) == kept(sseqs(paths@).take(i as int), f),
        decreases paths.len() - i,
    {
        assert(sseqs(paths@).take(i + 1).drop_last() =~= sseqs(paths@).take(i as int));
        assert(sseqs(paths@).take(i + 1).last() == paths@[i as int]@);
        let pc = chars_of(paths[i].as_str());
        let last: Vec<char> = match file_name_of(pc.as_slice()) {
            Some(n) => n,
            None => Vec::new(),
        };
        let lf = pear_format(string_of(last.as_slice()).as_str());
        let lc = chars_of(lf.as_str());
        let nc = chars_of(nf.as_str());
        let bc = chars_of(bf.as_str());
        if crate::text::chars_eq(lc.as_slice(), nc.as_slice()) || crate::text::chars_eq(
            lc.as_slice(),
            bc.as_slice(),
        ) {
            let ghost before = sseqs(out@);
            out.push(owned(paths[i].as_str()));
            assert(sseqs(out@) =~= before.push(paths@[i as int]@));
        }
        i = i + 1;
    }
    assert(sseqs(paths@).take(paths@.len() as int) =~= sseqs(paths@));
    out
}

/// What a Spotlight query printed, as results: its non-blank lines (kept as
/// printed), at most 500 of them, filtered by `strict_keeps` under strict
/// sensitivity.
pub open spec fn spotlight_paths(
    stdout: Seq<char>,
    sensitivity: Sensitivity,
    app_name: Seq<char>,
    bundle_id: Seq<char>,
) -> Seq<Seq<char>> {
    let all = kept(
        lines(stdout),
        |l: Seq<char>|
            if trim(l).len() == 0 {
                None
            } else {
                Some(l)
            },
    );
    let capped = if all.len() > 500 {
        all.take(500)
    } else {
        all
    };
    if sensitivity == Sensitivity::Strict {
        kept(
            capped,
            |p: Seq<char>|
                if strict_keeps(p, app_name, bundle_id) {
                    Some(p)
                } else {
                    None
                },
        )
    } else {
        capped
    }
}

/// What a Spotlight query printed, as results (see `spotlight_paths`).
pub fn spotlight_results(stdout: &str, sensitivity: Sensitivity, app_name: &str, bundle_id: &str) -> (r:
    Vec<String>)
    ensures
        sseqs(r@) == spotlight_paths(stdout@, sensitivity, app_name@, bundle_id@),
{
    let text = chars_of(stdout);
    let ls = lines_of(text.as_slice());
    let ghost f = |l: Seq<char>|
        if trim(l).len() == 0 {
            None
        } else {
            Some(l)
        };
    let mut all: Vec<String> = Vec::new();
    let mut k: usize = 0;
    while k < ls.len()
        invariant
            k <= ls.len(),
            vseqs(ls@) == lines(stdout@),
            f == (|l: Seq<char>|
                if trim(l).len() == 0 {
                    None
                } else {
                    Some(l)
                }),
            sseqs(all@) == kept(vseqs(ls@).take(k as int), f),
        decreases ls.len() - k,
    {
        assert(vseqs(ls@).take(k + 1).drop_last() =~= vseqs(ls@).take(k as int));
        assert(vseqs(ls@)[k as int] == ls@[k as int]@);
        let t = trim_chars(ls[k].as_slice());
        if t.len() != 0 {
            let ghost before = sseqs(all@);
            all.push(string_of(ls[k].as_slice()));
            assert(sseqs(all@) =~= before.push(ls@[k as int]@));
        }
        k = k + 1;
    }
    assert(vseqs(ls@).take(ls@.len() as int) =~= vseqs(ls@));
    if all.len() > 500 {
        all.truncate(500);
    }
    assert(sseqs(all@) =~= (if kept(lines(stdout@), f).len() > 500 {
        kept(lines(stdout@), f).take(500)
    } else {
        kept(lines(stdout@), f)
    }));
    match sensitivity {
        Sensitivity::Strict => strict_post_filter(all, app_name, bundle_id),
        _ => all,
    }
}

// ---------------------------------------------------------------------------
// Process listings
// ---------------------------------------------------------------------------

/// The value of ASCII decimal digits.
pub open spec fn digits_value(d: Seq<char>) -> int
    decreases d.len(),
{
    if d.len() == 0 {
        0
    } else {
        digits_value(d.drop_last()) * 10 + (d.last() as int - '0' as int)
    }
}

/// All characters are ASCII digits, and there is at least one.
pub open spec fn all_digits(d: Seq<char>) -> bool {
    d.len() > 0 && forall|i: int| 0 <= i < d.len() ==> '0' <= #[trigger] d[i] <= '9'
}

/// A `u32` as written in decimal (optionally after a `+`), if it fits.
pub open spec fn u32_of(s: Seq<char>) -> Option<u32> {
    let d = if s.len() > 0 && s[0] == '+' {
        s.drop_first()
    } else {
        s
    };
    if all_digits(d) && digits_value(d) <= u32::MAX {
        Some(digits_value(d) as u32)
    } else {
        None
    }
}

/// The value of digits is at least that of any prefix.
proof fn lemma_digits_value_mono(d: Seq<char>, k: int)
    requires
        0 <= k <= d.len(),
        forall|i: int| 0 <= i < d.len() ==> '0' <= #[trigger] d[i] <= '9',
    ensures
        digits_value(d.take(k)) <= digits_value(d),
        digits_value(d) >= 0,
    decreases d.len(),
{
    if d.len() > 0 {
        assert forall|i: int| 0 <= i < d.drop_last().len() implies '0' <= #[trigger] d.drop_last()[i]
            <= '9' by {
            assert(d.drop_last()[i] == d[i]);
        }
        if k == d.len() {
            assert(d.take(k) =~= d);
            lemma_digits_value_mono(d.drop_last(), 0);
        } else {
            lemma_digits_value_mono(d.drop_last(), k);
            assert(d.drop_last().take(k) =~= d.take(k));
        }
    } else {
        assert(d.take(k) =~= d);
    }
}

/// Reads a `u32` written in decimal (see `u32_of`).
pub fn parse_u32(s: &[char]) -> (r: Option<u32>)
    ensures
        r == u32_of(s@),
{
    let start: usize = if s.len() > 0 && s[0] == '+' {
        1
    } else {
        0
    };
    let ghost d = if s@.len() > 0 && s@[0] == '+' {
        s@.drop_first()
    } else {
        s@
    };
    assert(d =~= s@.subrange(start as int, s@.len() as int));
    if start == s.len() {
        return None;
    }
    let mut v: u64 = 0;
    let mut i = start;
    while i < s.len()
        invariant
            start <= i <= s.len(),
            d == s@.subrange(start as int, s@.len() as int),
            d == (if s@.len() > 0 && s@[0] == '+' {
                s@.drop_first()
            } else {
                s@
            }),
            forall|k: int| start <= k < i ==> '0' <= #[trigger] s@[k] <= '9',
            v == digits_value(s@.subrange(start as int, i as int)),
            v <= u32::MAX,
        decreases s.len() - i,
    {
        let c = s[i];
        if !('0' <= c && c <= '9') {
            assert(!('0' <= d[i - start] <= '9'));
            assert(!all_digits(d));
            return None;
        }
        let dv = (c as u32 - '0' as u32) as u64;
        assert(s@.subrange(start as int, i + 1).drop_last() =~= s@.subrange(start as int, i as int));
        let nv = v * 10 + dv;
        assert(nv == digits_value(s@.subrange(start as int, i + 1)));
        if nv > 4294967295 {
            proof {
                assert(forall|k: int| 0 <= k < i + 1 - start ==> '0' <= #[trigger] s@.subrange(
                    start as int,
                    i + 1,
                )[k] <= '9');
                if all_digits(d) {
                    assert(d.take(i + 1 - start) =~= s@.subrange(start as int, i + 1));
                    lemma_digits_value_mono(d, i + 1 - start);
                }
            }
            return None;
        }
        v = nv;
        i = i + 1;
    }
    assert(s@.subrange(start as int, s@.len() as int) =~= d);
    Some(v as u32)
}

/// The process ids in a `ps -axo pid=,args=` listing whose command starts
/// with `prefix` (a bundle path and `/`): each line, without its leading
/// white space, is the id up to the first white space and the command after
/// it; lines without both, or whose id is no number, are skipped.
pub open spec fn bundle_pids(output: Seq<char>, prefix: Seq<char>) -> Seq<u32> {
    kept(
        lines(output),
        |line: Seq<char>|
            {
                let t = trim_start(line);
                let i = find_ws(t);
                if i == t.len() {
                    None
                } else {
                    match u32_of(t.subrange(0, i)) {
                        Some(pid) => if starts(t.subrange(i + 1, t.len() as int), prefix) {
                            Some(pid)
                        } else {
                            None
                        },
                        None => None,
                    }
                }
            },
    )
}

/// The process ids of a bundle in a process listing (see `bundle_pids`).
pub fn parse_ps_bundle_pids(output: &str, bundle_prefix: &str) -> (r: Vec<u32>)
    ensures
        r@ == bundle_pids(output@, bundle_prefix@),
{
    let text = chars_of(output);
    let prefix = chars_of(bundle_prefix);
    let ls = lines_of(text.as_slice());
    let ghost f = |line: Seq<char>|
        {
            let t = trim_start(line);
            let i = find_ws(t);
            if i == t.len() {
                None
            } else {
                match u32_of(t.subrange(0, i)) {
                    Some(pid) => if starts(t.subrange(i + 1, t.len() as int), bundle_prefix@) {
                        Some(pid)
                    } else {
                        None
                    },
                    None => None,
                }
            }
        };
    let mut pids: Vec<u32> = Vec::new();
    let mut k: usize = 0;
    while k < ls.len()
        invariant
            k <= ls.len(),
            vseqs(ls@) == lines(output@),
            prefix@ == bundle_prefix@,
            f == (|line: Seq<char>|
                {
                    let t = trim_start(line);
                    let i = find_ws(t);
                    if i == t.len() {
                        None
                    } else {
                        match u32_of(t.subrange(0, i)) {
                            Some(pid) => if starts(t.subrange(i + 1, t.len() as int), bundle_prefix@) {
                                Some(pid)
                            } else {
                                None
                            },
                            None => None,
                        }
                    }
                }),
            pids@ == kept(vseqs(ls@).take(k as int), f),
        decreases ls.len() - k,
    {
        assert(vseqs(ls@).take(k + 1).drop_last() =~= vseqs(ls@).take(k as int));
        assert(vseqs(ls@)[k as int] == ls@[k as int]@);
        let t = trim_start_chars(ls[k].as_slice());
        k = k + 1;
        let i = crate::text::find_whitespace(t.as_slice());
        proof {
            crate::text::lemma_find_ws(t@);
        }
        if i == t.len() {
            continue;
        }
        let id = sub_chars(t.as_slice(), 0, i);
        let args = sub_chars(t.as_slice(), i + 1, t.len());
        match parse_u32(id.as_slice()) {
            Some(pid) => {
                if starts_with(args.as_slice(), prefix.as_slice()) {
                    pids.push(pid);
                }
            },
            None => {},
        }
    }
    assert(vseqs(ls@).take(ls@.len() as int) =~= vseqs(ls@));
    pids
}

// ---------------------------------------------------------------------------
// codesign output
// ---------------------------------------------------------------------------

/// The team identifier in `codesign -d -vvv` output: the trimmed rest of the
/// first `TeamIdentifier=` line whose rest is not blank.
pub open spec fn team_in(stderr: Seq<char>) -> Option<Seq<char>> {
    let found = kept(
        lines(stderr),
        |l: Seq<char>|
            if starts(l, "TeamIdentifier="@) && trim(
                l.subrange("TeamIdentifier="@.len() as int, l.len() as int),
            ).len() > 0 {
                Some(trim(l.subrange("TeamIdentifier="@.len() as int, l.len() as int)))
            } else {
                None
            },
    );
    if found.len() > 0 {
        Some(found[0])
    } else {
        None
    }
}

/// The team identifier in `codesign -d -vvv` output (see `team_in`).
pub fn get_team_identifier(stderr: &str) -> (r: Option<String>)
    ensures
        opt_seq(r) == team_in(stderr@),
{
    let text = chars_of(stderr);
    let ls = lines_of(text.as_slice());
    let ghost f = |l: Seq<char>|
        if starts(l, "TeamIdentifier="@) && trim(
            l.subrange("TeamIdentifier="@.len() as int, l.len() as int),
        ).len() > 0 {
            Some(trim(l.subrange("TeamIdentifier="@.len() as int, l.len() as int)))
        } else {
            None
        };
    let key = chars_of("TeamIdentifier=");
    let mut k: usize = 0;
    while k < ls.len()
        invariant
            k <= ls.len(),
            vseqs(ls@) == lines(stderr@),
            key@ == "TeamIdentifier="@,
            f == (|l: Seq<char>|
                if starts(l, "TeamIdentifier="@) && trim(
                    l.subrange("TeamIdentifier="@.len() as int, l.len() as int),
                ).len() > 0 {
                    Some(trim(l.subrange("TeamIdentifier="@.len() as int, l.len() as int)))
                } else {
                    None
                }),
            kept(vseqs(ls@).take(k as int), f).len() == 0,
        decreases ls.len() - k,
    {
        assert(vseqs(ls@).take(k + 1).drop_last() =~= vseqs(ls@).take(k as int));
        assert(vseqs(ls@)[k as int] == ls@[k as int]@);
        let l = ls[k].as_slice();
        if starts_with(l, key.as_slice()) {
            let rest = sub_chars(l, key.len(), l.len());
            let team = trim_chars(rest.as_slice());
            if team.len() > 0 {
                proof {
                    lemma_kept_first(vseqs(ls@), f, k as int);
                }
                return Some(string_of(team.as_slice()));
            }
        }
        k = k + 1;
    }
    assert(vseqs(ls@).take(ls@.len() as int) =~= vseqs(ls@));
    None
}

/// When nothing before `k` is kept and `k` is, the first kept value is that
/// of `k`.
proof fn lemma_kept_first<T>(ls: Seq<Seq<char>>, f: spec_fn(Seq<char>) -> Option<T>, k: int)
    requires
        0 <= k < ls.len(),
        kept(ls.take(k), f).len() == 0,
        f(ls[k]) is Some,
    ensures
        kept(ls, f).len() > 0,
        kept(ls, f)[0] == f(ls[k])->Some_0,
    decreases ls.len(),
{
    if ls.len() == k + 1 {
        assert(ls.drop_last() =~= ls.take(k));
    } else {
        assert(ls.drop_last().take(k) =~= ls.take(k));
        lemma_kept_first(ls.drop_last(), f, k);
    }
}

// ---------------------------------------------------------------------------
// Terminating a running application
// ---------------------------------------------------------------------------

/// The prefix that the command of every process of the bundle at `path`
/// starts with: the path and a `/`.
pub fn bundle_prefix(path: &str) -> (r: String)
    ensures
        r@ == path@.push('/'),
{
    let mut v = chars_of(path);
    v.push('/');
    string_of(v.as_slice())
}

/// How many ids of `still` are among `running`.
pub open spec fn survivors(running: Seq<u32>, still: Seq<u32>) -> nat
    decreases still.len(),
{
    if still.len() == 0 {
        0
    } else {
        survivors(running, still.drop_last()) + if running.contains(still.last()) {
            1nat
        } else {
            0nat
        }
    }
}

/// The number of processes a termination ended: those found running, less
/// those of them still running on the second look (never below zero; both
/// counts taken as `u32`).
pub open spec fn terminated(running: Seq<u32>, still: Seq<u32>) -> u32 {
    let total = running.len() as u32;
    let left = survivors(running, still) as u32;
    if total >= left {
        (total - left) as u32
    } else {
        0
    }
}

/// Whether `v` holds `x`.
fn holds_u32(v: &Vec<u32>, x: u32) -> (r: bool)
    ensures
        r == v@.contains(x),
{
    let mut i: usize = 0;
    while i < v.len()
        invariant
            i <= v.len(),
            forall|k: int| 0 <= k < i ==> v@[k] != x,
        decreases v.len() - i,
    {
        if v[i] == x {
            assert(v@[i as int] == x);
            return true;
        }
        i = i + 1;
    }
    false
}

/// The number of processes a termination ended (see `terminated`), from the
/// ids found running before and after it.
pub fn terminated_count(running: &Vec<u32>, still: &Vec<u32>) -> (r: u32)
    ensures
        r == terminated(running@, still@),
{
    let mut left: usize = 0;
    let mut i: usize = 0;
    while i < still.len()
        invariant
            i <= still.len(),
            left == survivors(running@, still@.take(i as int)),
            left <= i,
        decreases still.len() - i,
    {
        assert(still@.take(i + 1).drop_last() =~= still@.take(i as int));
        if holds_u32(running, still[i]) {
            left = left + 1;
        }
        i = i + 1;
    }
    assert(still@.take(still.len() as int) =~= still@);
    let total = running.len() as u32;
    let l = left as u32;
    if total >= l {
        total - l
    } else {
        0
    }
}

} // verus!
