use apios_core::conditions::{conditions, skip_reverse};
use apios_core::format::pear_format;
use apios_core::model::AppInfo;
use apios_core::orphan::{is_uuid_formatted, needle_qualifies, path_needle_qualifies, ReversePathsSearcher};

fn app(path: &str, bundle_id: &str, name: &str) -> AppInfo {
    AppInfo {
        path: path.to_string(),
        bundle_identifier: bundle_id.to_string(),
        app_name: name.to_string(),
        entitlements: vec![],
        team_identifier: None,
        web_app: false,
        steam: false,
        wrapped: false,
    }
}

fn searcher(apps: Vec<AppInfo>, windows: bool) -> ReversePathsSearcher {
    ReversePathsSearcher::new(
        vec!["/Users/u/Library/Application Support".to_string()],
        &apps,
        conditions("/Users/u", &Vec::new()),
        skip_reverse(),
        Vec::new(),
        windows,
    )
}

#[test]
fn test_uuid_format() {
    assert!(is_uuid_formatted("5A2E3F1B0C4D4E5F8A9B0C1D2E3F4A5B"));
    assert!(!is_uuid_formatted("notauuid"));
    assert!(!is_uuid_formatted("5A2E3F1B0C4D4E5F8A9B0C1D2E3F4A5"));
}

#[test]
fn test_related_by_bundle_id() {
    let s = searcher(vec![app("/Applications/Foo.app", "com.example.fooapp", "FooApp")], false);
    let p = "/Users/u/Library/Application Support/com.example.fooapp";
    assert!(s.is_related_to_installed_app(p, &pear_format(p)));

    let s2 = searcher(vec![app("/Applications/X.app", "com.x", "X")], false);
    let p2 = "/Users/u/Library/Preferences/com.x";
    assert!(!s2.is_related_to_installed_app(p2, &pear_format(p2)));
}

#[test]
fn test_needle_qualifies_threshold() {
    assert!(!needle_qualifies("qq", false));
    assert!(needle_qualifies("comexamplefooapp", false));
    assert!(!needle_qualifies("qq", true));
    assert!(needle_qualifies("comexamplefooapp", true));
}

#[test]
fn test_needle_qualifies_windows_non_ascii_short_names() {
    assert!(needle_qualifies("微信", true));
    assert!(needle_qualifies("百度网盘", true));
    assert!(!needle_qualifies("钉", true));
}

#[test]
fn short_non_ascii_names_need_five_characters_elsewhere() {
    assert!(!needle_qualifies("微信", false));
    assert!(path_needle_qualifies("code"));
    assert!(!path_needle_qualifies("qq"));
}

#[test]
fn test_merged_regex_matches_any_needle() {
    let s = searcher(vec![app("/Applications/WeChat.app", "com.tencent.wechat", "WeChat")], false);
    assert!(s.needles_regex.is_some());
    assert!(s.needles_match("usersulibrarycontainerscomtencentwechat"));
    assert!(s.needles_match("usersulibraryapplicationsupportwechat"));
    assert!(!s.needles_match("usersulibraryapplicationsupportother"));
}

#[test]
fn test_path_derived_dir_needle() {
    let s = searcher(vec![app(r"C:\Program Files\QuarkCloudDrive\QuarkCloudDrive.exe", "", "夸克网盘")], true);
    assert!(s.needles_regex.is_some());
    assert!(s.needles_match("cprogramfilesquarkclouddrive"));
    assert!(s.needles_match("cprogramdataquarkclouddrive"));

    let s = searcher(vec![app(r"C:\Program Files\7-Zip\7zFM.exe", "", "7-Zip 24.09 (x64)")], true);
    assert!(s.needles_match("cprogramfiles7zip"));
}

#[test]
fn test_path_derived_stem_needle() {
    let s = searcher(
        vec![app(r"C:\Users\u\AppData\Local\Programs\Microsoft VS Code\Code.exe", "", "Visual Studio Code")],
        true,
    );
    assert!(s.needles_regex.is_some());
    assert!(s.needles_match("cusersuappdataroamingcode"));
}

#[test]
fn test_nested_vendor_dirs_derive_needles() {
    let s = searcher(vec![app(r"C:\Program Files\Tencent\Weixin\Weixin.exe", "", "微信")], true);
    assert!(s.needles_match("cprogramfilestencent"));
    assert!(s.needles_match("cprogramdatatencent"));
    assert!(s.needles_match("cusersznieappdataroamingtencentweixin"), "weixin stem");
    assert!(!s.needles_match("cuserszniedocumentsxwechatfiles"));

    let s = searcher(vec![app(r"C:\Program Files\Netease\CloudMusic\cloudmusic.exe", "", "网易云音乐")], true);
    assert!(s.needles_match("cprogramfilesnetease"));

    let s = searcher(vec![app(r"C:\Program Files\Thunder Network\Thunder\Program\Thunder.exe", "", "迅雷")], true);
    assert!(s.needles_match("cprogramfilesthunder"));
    assert!(s.needles_match("cprogramdatathundernetwork"));
}

#[test]
fn test_lnk_programs_dir_not_a_needle() {
    let s = searcher(
        vec![app(r"C:\Users\u\AppData\Roaming\Microsoft\Windows\Start Menu\Programs\微信.lnk", "", "微信")],
        true,
    );
    assert!(s.needles_match("cusersuappdataroamingmicrosoftwindowsstartmenuprograms微信lnk"));
    assert!(!s.needles_match("cusersuappdatalocalprogramsfoo"));
}

#[test]
fn test_no_needles_means_no_regex() {
    let s = searcher(vec![app("/Applications/X.app", "com.x", "X")], false);
    assert!(s.needles_regex.is_none());
    let p = "/Users/u/Library/Preferences/com.x";
    assert!(!s.is_related_to_installed_app(p, &pear_format(p)));
}

#[test]
fn test_windows_system_dirs_filtered_from_orphans() {
    let mut s = searcher(vec![], true);
    for name in [
        "Windows NT",
        "WindowsApps",
        "Common Files",
        "MSBuild",
        "Internet Explorer",
        "WSL",
        "Application Verifier",
        "Reference Assemblies",
        "Windows Kits",
        "Windows App Certification Kit",
        "Packages",
        "Programs",
        "Temp",
        "VirtualStore",
        "ConnectedDevicesPlatform",
        "PeerDistRepub",
        "Publishers",
        "speech",
        "Comms",
        "Upgrade",
        "PlaceholderTileLogoFolder",
        "USOPrivate",
        "USOShared",
        "Whesvc",
        "ssh",
    ] {
        s.process_item(name, &format!(r"C:\apios-orphan-sysdir-test\{name}"), true, false);
    }
    s.process_item("QuarkCloudDrive", r"C:\apios-orphan-sysdir-test\QuarkCloudDrive", true, false);
    assert_eq!(s.collection.len(), 1, "system folders are dropped, vendor folders kept");
}

#[test]
fn orphans_of_installed_apps_are_not_collected() {
    let mut s = searcher(vec![app("/Applications/Foo.app", "com.example.fooapp", "FooApp")], false);
    s.process_item("com.example.fooapp", "/Users/u/Library/Application Support/com.example.fooapp", true, false);
    s.process_item("com.other.leftover", "/Users/u/Library/Application Support/com.other.leftover", true, false);
    assert_eq!(s.collection, vec!["/Users/u/Library/Application Support/com.other.leftover".to_string()]);
}
