use apios_core::bundle::{
    app_info_from_fields, collect_entitlements, keep_app_support_dir, is_container_name,
};
use apios_core::macos::{
    bundle_prefix, build_predicate, dev_envs_table, escape_predicate_value, get_team_identifier,
    parse_ps_bundle_pids, spotlight_results, strict_post_filter, terminated_count, MacOsAdapter,
};
use apios_core::model::Sensitivity;
use apios_core::platform::{SystemPaths, Trash};

#[test]
fn test_escape_predicate_value() {
    assert_eq!(escape_predicate_value("Microsoft Edge"), "Microsoft Edge");
    assert_eq!(escape_predicate_value("It's"), "It''s");
    assert_eq!(escape_predicate_value("a'b'c"), "a''b''c");
}

#[test]
fn test_build_predicate_strict() {
    let p = build_predicate("Microsoft Edge", "com.microsoft.edgemac", Sensitivity::Strict).unwrap();
    assert_eq!(p, "kMDItemDisplayName == 'Microsoft Edge'cd || kMDItemDisplayName == 'com.microsoft.edgemac'cd");
}

#[test]
fn test_build_predicate_enhanced() {
    let p = build_predicate("App", "com.app", Sensitivity::Enhanced).unwrap();
    assert!(p.contains("CONTAINS[cd] 'App'"));
    assert!(p.contains("kMDItemPath"));
}

#[test]
fn test_build_predicate_deep_unsupported() {
    assert!(build_predicate("App", "com.app", Sensitivity::Deep).is_none());
}

#[test]
fn test_build_predicate_escapes_quotes() {
    let p = build_predicate("It's App", "com.it.sapp", Sensitivity::Strict).unwrap();
    assert_eq!(p, "kMDItemDisplayName == 'It''s App'cd || kMDItemDisplayName == 'com.it.sapp'cd");
}

#[test]
fn test_dev_envs_tightened() {
    let envs = dev_envs_table();
    assert_eq!(envs.len(), 25);
    let all: Vec<&str> = envs.iter().flat_map(|e| e.paths.iter().map(|p| p.as_str())).collect();
    for forbidden in [
        "/nix/store/",
        "anaconda3/",
        "miniconda3/",
        "~/go/bin/",
        "~/.gem/",
        "Archives/",
        "CoreSimulator/",
        "~/.android/",
        "~/Library/Application Support/JetBrains/",
        "~/Library/Application Support/Google/AndroidStudio",
    ] {
        assert!(!all.iter().any(|p| p.starts_with(forbidden)), "table lists {forbidden}");
    }
    for root in ["~/.cargo/", "~/.nvm/", "~/.pyenv/", "~/.conda/"] {
        assert!(!all.iter().any(|p| p == &root), "table lists the tool root {root}");
    }
    assert!(!all.iter().any(|p| p.ends_with("Support/Cursor/")));
    assert!(!all.iter().any(|p| p.ends_with("Support/Code/")));
    assert!(!all.iter().any(|p| p.ends_with("/User")));
    assert!(all.iter().any(|p| p.contains("DerivedData")));
    assert!(all.iter().any(|p| p.contains("gradle/caches")));
    assert!(all.iter().any(|p| p.contains("registry")));
}

#[test]
fn test_parse_ps_bundle_pids_matches_only_bundle() {
    let out = "    1 /sbin/launchd\n\
        123 /Applications/Foo.app/Contents/MacOS/Foo --flag arg\n\
        456 /Applications/Foo.app/Contents/Frameworks/Electron Helper.app/Contents/MacOS/Electron Helper\n\
        789 /Applications/Bar.app/Contents/MacOS/Bar\n\
        111 /Applications/FooBar.app/Contents/MacOS/FooBar\n";
    let pids = parse_ps_bundle_pids(out, "/Applications/Foo.app/");
    assert_eq!(pids, vec![123, 456]);
}

#[test]
fn test_parse_ps_bundle_pids_malformed_lines_skipped() {
    let out = "not-a-pid /Applications/Foo.app/x\n\n  abc def\n1234\n";
    assert!(parse_ps_bundle_pids(out, "/Applications/Foo.app/").is_empty());
}

#[test]
fn test_kill_running_app_none_running() {
    let prefix = bundle_prefix("/Applications/nonexistent-app-zzz.app");
    assert_eq!(prefix, "/Applications/nonexistent-app-zzz.app/");
    let running = parse_ps_bundle_pids("  1 /sbin/launchd\n", &prefix);
    assert!(running.is_empty());
    assert_eq!(terminated_count(&running, &Vec::new()), 0);
}

#[test]
fn terminated_counts_those_gone() {
    assert_eq!(terminated_count(&vec![1, 2, 3], &vec![2, 9]), 2);
    assert_eq!(terminated_count(&vec![1], &vec![1, 1]), 0);
}

#[test]
fn test_strict_post_filter() {
    let paths = vec![
        "/Users/u/Projects/Pearcleaner".to_string(),
        "/Users/u/Library/Preferences/com.alienator88.Pearcleaner.plist".to_string(),
        "/Users/u/Library/WebKit/com.alienator88.Pearcleaner".to_string(),
        "/Users/u/Library/Group Containers/UBF8T346G9.com.microsoft.oneauth".to_string(),
    ];
    let filtered = strict_post_filter(paths, "Pearcleaner", "com.alienator88.Pearcleaner");
    assert_eq!(filtered.len(), 2);
    assert!(filtered[0].ends_with("Projects/Pearcleaner"));
    assert!(filtered[1].ends_with("WebKit/com.alienator88.Pearcleaner"));
}

#[test]
fn spotlight_results_filter_strict_only() {
    let out = "/Users/u/Projects/App\n\n   \n/Users/u/Docs/Appendix\n";
    assert_eq!(
        spotlight_results(out, Sensitivity::Enhanced, "App", "com.app"),
        vec!["/Users/u/Projects/App".to_string(), "/Users/u/Docs/Appendix".to_string()]
    );
    assert_eq!(spotlight_results(out, Sensitivity::Strict, "App", "com.app"), vec!["/Users/u/Projects/App".to_string()]);
}

#[test]
fn team_identifier_is_read_from_codesign() {
    let stderr = "Executable=/Applications/Foo.app/Contents/MacOS/Foo\nTeamIdentifier=  \nTeamIdentifier= ABCDE12345 \n";
    assert_eq!(get_team_identifier(stderr).as_deref(), Some("ABCDE12345"));
    assert_eq!(get_team_identifier("TeamIdentifier=not set\n").as_deref(), Some("not set"));
    assert_eq!(get_team_identifier(""), None);
}

#[test]
fn mac_folders() {
    let a = MacOsAdapter::with_dirs("/Users/u".into(), "/c".into(), "/t".into(), vec!["Vendor".into(), "".into()]);
    let paths = a.apps_paths();
    assert_eq!(paths[0], "/Users/u");
    assert!(paths.contains(&"/Users/u/Library/Application Support/Vendor".to_string()));
    assert_eq!(paths[paths.len() - 3], "/t");
    assert_eq!(paths[paths.len() - 1], "/Users/u/Library/Application Support/");
    assert_eq!(a.trash_dir(), "/Users/u/.Trash");
    assert_eq!(a.reverse_paths()[0], "/Users/u/Library/Application Scripts");
    assert_eq!(a.app_support_subdirs(), vec!["Vendor".to_string(), "".to_string()]);
}

#[test]
fn app_description_from_info_values() {
    let a = app_info_from_fields(
        "/Applications/Foo.app",
        Some("com.foo".into()),
        None,
        None,
        None,
        Some("app_mode_loader".into()),
        None,
        Some("TEAM".into()),
    )
    .unwrap();
    assert_eq!(a.app_name, "Foo");
    assert!(a.web_app);
    assert_eq!(a.team_identifier.as_deref(), Some("TEAM"));
    assert!(app_info_from_fields("/Applications/Foo.app", None, None, None, None, None, None, None).is_none());
    let b = app_info_from_fields(
        "/Applications/Foo.app",
        Some("com.foo".into()),
        Some("Foo Display".into()),
        Some("FooName".into()),
        Some(true),
        None,
        Some(vec!["g".into()]),
        None,
    )
    .unwrap();
    assert_eq!(b.app_name, "Foo Display");
    assert!(b.web_app);
    assert_eq!(b.entitlements, vec!["g".to_string()]);
}

#[test]
fn entitlements_collect_groups_and_helpers() {
    let groups = Some(vec![Some("group.com.foo".to_string()), None]);
    let helpers = vec![
        ("FooHelper".to_string(), true),
        (".hidden".to_string(), true),
        ("Electron".to_string(), true),
        ("abc".to_string(), true),
        ("FooHelper".to_string(), false),
        (".NestedApp".to_string(), false),
    ];
    let r = collect_entitlements(groups, None, &helpers).unwrap();
    assert_eq!(r, vec!["group.com.foo".to_string(), "FooHelper".to_string(), ".NestedApp".to_string()]);
    assert!(collect_entitlements(None, None, &Vec::new()).is_none());
}

#[test]
fn app_support_folders_kept() {
    assert!(!keep_app_support_dir("MobileSync"));
    assert!(!keep_app_support_dir("com.apple.sharedfilelist"));
    assert!(keep_app_support_dir("com.applesauce"));
    assert!(keep_app_support_dir("Slack"));
    assert!(is_container_name("5A2E3F1B-0C4D-4E5F-8A9B-0C1D2E3F4A5B"));
    assert!(!is_container_name("com.foo.bar"));
}

fn plist_xml(body: &str) -> Vec<u8> {
    format!(
        "<?xml version=\"1.0\" encoding=\"UTF-8\"?>\n<plist version=\"1.0\">\n<dict>\n{body}\n</dict>\n</plist>\n"
    )
    .into_bytes()
}

#[test]
fn info_plist_gives_app_info() {
    let info = plist_xml(
        "<key>CFBundleIdentifier</key><string>com.example.Foo</string>\
         <key>CFBundleName</key><string>Foo Bar</string>\
         <key>CFBundleExecutable</key><string>app_mode_loader</string>",
    );
    let app = apios_core::bundle::app_info_from_plist(
        "/Applications/Foo.app",
        &info,
        Some(vec!["group.foo".to_string()]),
        Some("TEAM123".to_string()),
    )
    .unwrap();
    assert_eq!(app.bundle_identifier, "com.example.Foo");
    assert_eq!(app.app_name, "Foo Bar");
    assert!(app.web_app);
    assert_eq!(app.entitlements, vec!["group.foo".to_string()]);
    assert_eq!(app.team_identifier.as_deref(), Some("TEAM123"));
}

#[test]
fn info_plist_without_identifier_gives_nothing() {
    let info = plist_xml("<key>CFBundleName</key><string>Foo</string>");
    assert!(apios_core::bundle::app_info_from_plist("/Applications/Foo.app", &info, None, None).is_none());
    assert!(apios_core::bundle::app_info_from_plist("/Applications/Foo.app", b"not a plist", None, None).is_none());
}

#[test]
fn info_plist_name_falls_back_to_file_stem() {
    let info = plist_xml("<key>CFBundleIdentifier</key><string>com.example.Bar</string>");
    let app = apios_core::bundle::app_info_from_plist("/Applications/Bar.app", &info, None, None).unwrap();
    assert_eq!(app.app_name, "Bar");
    assert!(!app.web_app);
    assert!(app.entitlements.is_empty());
}

#[test]
fn codesign_entitlements_and_helpers() {
    let printed = plist_xml(
        "<key>com.apple.security.application-groups</key>\
         <array><string>group.com.example</string></array>\
         <key>com.apple.developer.icloud-container-identifiers</key>\
         <array><string>iCloud.com.example</string></array>",
    );
    let helpers = vec![
        ("Example Helper".to_string(), true),
        (".hidden".to_string(), true),
        ("Electron".to_string(), true),
        ("abc".to_string(), true),
        ("Nested Tool".to_string(), false),
    ];
    let found = apios_core::bundle::get_entitlements(&printed, &helpers).unwrap();
    assert_eq!(
        found,
        vec![
            "group.com.example".to_string(),
            "iCloud.com.example".to_string(),
            "Example Helper".to_string(),
            "Nested Tool".to_string(),
        ]
    );
    assert!(apios_core::bundle::get_entitlements(b"", &Vec::new()).is_none());
}

#[test]
fn container_metadata_names_its_owner() {
    let meta = plist_xml("<key>MCMMetadataIdentifier</key><string>com.example.Foo</string>");
    assert_eq!(apios_core::bundle::container_owner(&meta).as_deref(), Some("com.example.Foo"));
    assert!(apios_core::bundle::identifies_container(&meta, "com.example.Foo"));
    assert!(!apios_core::bundle::identifies_container(&meta, "com.example.Other"));
    assert!(apios_core::bundle::container_owner(b"junk").is_none());
}
