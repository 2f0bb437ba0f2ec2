use apios_core::bundle::app_info_from_fields;
use apios_core::cli::{
    app_bundle_name, app_by_name, arg_is_path, deleted_message, is_yes, resolve_arg, same_name_ignoring_case,
    trash_label, Resolve,
};
use apios_core::dev_env::{dedup_nested, expand_home, find_env, glob_regex_source, has_wildcard, segment_matches};
use apios_core::linux::{
    add_desktop_app, is_desktop_file, linux_dev_envs_table, linux_process_ids, sort_apps_by_name, LinuxAdapter,
};
use apios_core::desktop::{parse_desktop, read_desktop_entry};
use apios_core::macos::dev_envs_table;
use apios_core::model::AppInfo;
use apios_core::platform::{FallbackAdapter, SystemPaths, Trash};
use apios_core::scan::{default_app_folders, is_restricted};

#[test]
fn test_arg_is_path() {
    assert!(arg_is_path("/Applications/Foo.app"));
    assert!(arg_is_path("Foo.app"));
    assert!(arg_is_path("~/Downloads/Foo.app"));
    assert!(!arg_is_path("Foo"));
    assert!(!arg_is_path("Microsoft Edge"));
    assert!(arg_is_path(r"C:\Users\foo\Foo.exe"));
    assert!(arg_is_path(r".\Foo.exe"));
    assert!(arg_is_path("C:\\Program Files\\Foo"));
    assert!(!arg_is_path("C:colon-name"));
}

#[test]
fn arguments_resolve() {
    assert!(matches!(resolve_arg(".", "/Users/u"), Resolve::CurrentDir));
    assert!(matches!(resolve_arg("Firefox", "/Users/u"), Resolve::Name));
    match resolve_arg("~/Apps/Foo.app", "/Users/u") {
        Resolve::Path { path, by_name_if_missing } => {
            assert_eq!(path, "/Users/u/Apps/Foo.app");
            assert!(!by_name_if_missing);
        }
        _ => panic!("expected a path"),
    }
    match resolve_arg("Foo.app", "/Users/u") {
        Resolve::Path { path, by_name_if_missing } => {
            assert_eq!(path, "Foo.app");
            assert!(by_name_if_missing);
        }
        _ => panic!("expected a path"),
    }
}

fn named(path: &str, name: &str) -> AppInfo {
    AppInfo {
        path: path.to_string(),
        bundle_identifier: String::new(),
        app_name: name.to_string(),
        entitlements: vec![],
        team_identifier: None,
        web_app: false,
        steam: false,
        wrapped: false,
    }
}

#[test]
fn test_find_app_by_name_not_found() {
    let apps = vec![named(r"C:\7z\7zFM.exe", "7-Zip 26.01 (x64)")];
    assert!(app_by_name("nonexistent-app-zzz-xyz", &apps).is_none());
}

#[test]
fn apps_found_by_name() {
    let apps = vec![
        named(r"C:\Menu\7-Zip Help.lnk", "7-Zip Help"),
        named(r"C:\7z\7zFM.exe", "7-Zip 26.01 (x64)"),
        named(r"C:\Menu\7-Zip.lnk", "7-zip manager long"),
    ];
    assert_eq!(app_by_name("7-Zip", &apps).as_deref(), Some(r"C:\7z\7zFM.exe"));
    assert_eq!(app_by_name("7-zip help", &apps).as_deref(), Some(r"C:\Menu\7-Zip Help.lnk"));
    assert_eq!(app_bundle_name("Firefox"), "Firefox.app");
    assert!(same_name_ignoring_case("Microsoft Edge.app", "microsoft edge.APP"));
}

#[test]
fn messages_and_answers() {
    assert_eq!(trash_label(true), "Recycle Bin");
    assert_eq!(trash_label(false), "Trash");
    assert_eq!(deleted_message(3, "/Users/u/.Trash/App_1", false), "Deleted 3 files to Trash (/Users/u/.Trash/App_1)");
    assert_eq!(deleted_message(12, "", true), "Deleted 12 files to Recycle Bin");
    assert!(is_yes(" Y \n"));
    assert!(is_yes("yes"));
    assert!(!is_yes("no"));
    assert!(!is_yes(""));
}

#[test]
fn test_expand_home() {
    assert_eq!(expand_home("~", "/Users/u"), "/Users/u");
    assert_eq!(expand_home("~/Library/Caches", "/Users/u"), "/Users/u/Library/Caches");
    assert_eq!(expand_home("/usr/local/lib", "/Users/u"), "/usr/local/lib");
    assert_eq!(expand_home("~x/y", "/Users/u"), "~x/y");
}

#[test]
fn test_expand_globs_no_wildcard_returns_path() {
    assert!(!has_wildcard("/tmp/plain"));
    assert!(has_wildcard("/tmp/AndroidStudio*"));
}

#[test]
fn wildcard_segments_match_names() {
    assert_eq!(glob_regex_source("AndroidStudio*"), "^AndroidStudio.*.*$");
    assert!(segment_matches("AndroidStudio*", "AndroidStudio4.2"));
    assert!(segment_matches("AndroidStudio*", "AndroidStudio2024"));
    assert!(!segment_matches("AndroidStudio*", "Other"));
    assert!(!segment_matches("a.b*", "axb"));
}

#[test]
fn test_find_env_case_insensitive() {
    let table = dev_envs_table();
    let env = find_env("cargo", &table).expect("cargo");
    assert_eq!(env.name, "Cargo");
    let all = find_env("all", &table).expect("all");
    let combined: Vec<String> = table.iter().flat_map(|e| e.paths.clone()).collect();
    assert_eq!(all.paths, combined);
    assert_eq!(all.name, "All");
    assert!(!all.paths.is_empty());
    assert!(find_env("nothing-like-it", &table).is_none());
}

#[test]
fn test_dedup_nested_removes_children() {
    let mut dirs = vec!["/a/b".to_string(), "/a".to_string(), "/a/c".to_string(), "/x".to_string()];
    dedup_nested(&mut dirs);
    assert_eq!(dirs, vec!["/a".to_string(), "/x".to_string()]);
}

#[test]
fn test_dedup_nested_no_change() {
    let mut dirs = vec!["/a".to_string(), "/b".to_string(), "/c".to_string()];
    dedup_nested(&mut dirs);
    assert_eq!(dirs.len(), 3);
}

#[test]
fn test_dedup_nested_empty() {
    let mut dirs: Vec<String> = vec![];
    dedup_nested(&mut dirs);
    assert!(dirs.is_empty());
}

#[test]
fn dedup_nested_drops_repeats_by_component() {
    let mut dirs = vec!["/a/".to_string(), "/a".to_string(), "/ab".to_string()];
    dedup_nested(&mut dirs);
    assert_eq!(dirs, vec!["/a/".to_string(), "/ab".to_string()]);
}

#[test]
fn test_default_folders() {
    let folders = default_app_folders("/Users/u");
    assert_eq!(folders.len(), 3);
    assert!(folders[1].ends_with("/Applications"));
    assert_eq!(folders[0], "/Users/u/Applications");
}

#[test]
fn restricted_apps() {
    assert!(is_restricted("/Applications/Safari.app", "com.apple.Safari"));
    assert!(is_restricted("/Applications/Utilities/Terminal.app", "com.apple.Terminal"));
    assert!(!is_restricted("/Applications/Foo.app", "com.foo"));
}

#[test]
fn test_web_app_detection_helpers() {
    let path = "/Applications/Test.app";
    let app = app_info_from_fields(path, Some("com.test".into()), None, None, Some(true), None, None, None).unwrap();
    assert!(app.web_app);
    let app = app_info_from_fields(path, Some("com.test".into()), None, None, Some(false), Some("Test".into()), None, None).unwrap();
    assert!(!app.web_app);
    assert_eq!(app.app_name, "Test");
}

#[test]
fn test_dev_envs_cross_platform_paths() {
    let envs = linux_dev_envs_table();
    let all: Vec<&str> = envs.iter().flat_map(|e| e.paths.iter().map(|p| p.as_str())).collect();
    assert!(all.iter().all(|p| !p.contains("Library/")));
    for forbidden in ["anaconda3/", "miniconda3/", "~/.gem/"] {
        assert!(!all.iter().any(|p| p.starts_with(forbidden)));
    }
    for root in ["~/.cargo/", "~/.nvm/", "~/.pyenv/"] {
        assert!(!all.iter().any(|p| p == &root));
    }
    assert!(envs.iter().any(|e| e.name == "Conda"));
    for name in ["APT Cache", "DNF Cache", "pacman Cache", "Snapd Cache"] {
        assert!(envs.iter().any(|e| e.name == name), "missing {name}");
    }
}

#[test]
fn test_desktop_discovery_basic() {
    let dir = "/home/u/.local/share/applications";
    let files: Vec<(String, &str)> = vec![
        (
            format!("{dir}/firefox.desktop"),
            "[Desktop Entry]\nType=Application\nName=Firefox\nExec=/usr/bin/firefox %U\n",
        ),
        (
            format!("{dir}/hidden.desktop"),
            "[Desktop Entry]\nType=Application\nName=Hidden\nExec=/usr/bin/x\nNoDisplay=true\n",
        ),
        (format!("{dir}/link.desktop"), "[Desktop Entry]\nType=Link\nName=Home\nURL=file:///home\n"),
        (format!("{dir}/readme.txt"), "not a desktop file"),
    ];
    let mut apps: Vec<AppInfo> = Vec::new();
    for (path, content) in &files {
        if !is_desktop_file(path) {
            continue;
        }
        add_desktop_app(&mut apps, path, read_desktop_entry(content));
    }
    let firefox_path = format!("{dir}/firefox.desktop");
    assert!(apps.iter().any(|a| a.path == firefox_path));
    let firefox = apps.iter().find(|a| a.path == firefox_path).unwrap();
    assert_eq!(firefox.app_name, "Firefox");
    assert!(firefox.bundle_identifier.is_empty());
    assert!(apps.iter().any(|a| a.app_name == "Hidden"));
    assert!(!apps.iter().any(|a| a.app_name == "Home"));
    assert!(!apps.iter().any(|a| a.path.ends_with("readme.txt")));
    assert_eq!(apps.len(), 2);
}

#[test]
fn desktop_entries_keep_no_display_flag() {
    let hidden = "[Desktop Entry]\nType=Application\nName=Hidden\nExec=/usr/bin/x\nNoDisplay=true\n";
    let e = read_desktop_entry(hidden).unwrap();
    assert_eq!(e.name, "Hidden");
    assert!(e.no_display);
    assert!(parse_desktop(hidden).is_none());
    assert!(read_desktop_entry("[Desktop Entry]\nType=Link\nName=Home\nURL=file:///home\n").is_none());
}

#[test]
fn desktop_apps_dedupe_and_sort() {
    let mut apps: Vec<AppInfo> = Vec::new();
    let dir = "/home/u/.local/share/applications";
    add_desktop_app(
        &mut apps,
        &format!("{dir}/firefox.desktop"),
        parse_desktop("[Desktop Entry]\nType=Application\nName=Firefox\nExec=/usr/bin/firefox %U\n"),
    );
    add_desktop_app(
        &mut apps,
        &format!("{dir}/link.desktop"),
        parse_desktop("[Desktop Entry]\nType=Link\nName=Home\nURL=file:///home\n"),
    );
    add_desktop_app(
        &mut apps,
        "/usr/share/applications/firefox.desktop",
        parse_desktop("[Desktop Entry]\nType=Application\nName=Firefox ESR\nExec=/usr/bin/firefox-esr\n"),
    );
    add_desktop_app(
        &mut apps,
        "/usr/share/applications/alacritty.desktop",
        parse_desktop("[Desktop Entry]\nType=Application\nName=Alacritty\nExec=alacritty\n"),
    );
    let apps = sort_apps_by_name(apps);
    assert_eq!(apps.len(), 2);
    assert_eq!(apps[0].app_name, "Alacritty");
    assert_eq!(apps[1].app_name, "Firefox");
    assert_eq!(apps[1].path, format!("{dir}/firefox.desktop"));
    assert!(apps[1].bundle_identifier.is_empty());
}

#[test]
fn linux_process_matching() {
    let out = "  10 firefox\n  11 firefox-bin\n  12 fire\n  13 bash\n  99 firefox\n";
    assert_eq!(linux_process_ids(out, "firefox", 99), vec![10, 11, 12]);
}

#[test]
fn linux_and_fallback_folders() {
    let l = LinuxAdapter::from_env(Some("/home/u".into()), None, None, "/tmp".into());
    assert_eq!(l.cache_dir, "/home/u/.cache");
    assert_eq!(l.trash_dir(), "/home/u/.local/share/Trash");
    assert_eq!(l.apps_paths()[0], "/home/u/.config");
    assert_eq!(l.critical_paths().len(), 15);
    let l2 = LinuxAdapter::from_env(None, Some("/c".into()), Some("/data".into()), "/tmp".into());
    assert_eq!(l2.home, "");
    assert_eq!(l2.trash_dir(), "/data/Trash");
    let f = FallbackAdapter::from_env(Some("/home/u".into()), None, "/tmp".into());
    assert_eq!(f.apps_paths()[0], "/home/u");
    assert_eq!(f.reverse_paths(), vec!["/home/u/.config", "/home/u/.local/share", "/home/u/.local/state", "/home/u/.cache"]);
    assert_eq!(f.trash_dir(), "/home/u/.local/share/Trash");
}

#[test]
fn glob_pieces_are_escaped() {
    assert_eq!(glob_regex_source("a.b*"), "^a\\.b.*.*$");
    assert_eq!(glob_regex_source("x+(y)"), "^x\\+\\(y\\).*$");
}
