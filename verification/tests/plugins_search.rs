use apios_core::cli::{resolve_plugin_categories, truncated, truncated_rel};
use apios_core::commands::{is_tmp_excluded, newest_modified, tmp_entry_selected};
use apios_core::conditions::{conditions, skip_conditions, skip_deep_search};
use apios_core::locations::standard_library_subdirectories;
use apios_core::model::{AppInfo, Sensitivity};
use apios_core::plugin::{group_by_category, should_include, Plugin, PluginCategory};
use apios_core::search::{is_in_trash, prune_nested, sort_paths, AppPathFinder};

fn make_app(path: &str) -> AppInfo {
    AppInfo {
        path: path.to_string(),
        bundle_identifier: "com.test.app".to_string(),
        app_name: "SomeApp".to_string(),
        entitlements: vec![],
        team_identifier: None,
        web_app: false,
        steam: false,
        wrapped: false,
    }
}

fn finder(app: AppInfo) -> AppPathFinder {
    let home = "/Users/u".to_string();
    AppPathFinder::new(
        app,
        home.clone(),
        vec![format!("{home}/Library")],
        Sensitivity::Strict,
        Vec::new(),
        conditions(&home, &Vec::new()),
        skip_conditions(&home),
        standard_library_subdirectories(),
        skip_deep_search(),
        None,
    )
}

#[test]
fn test_should_include_extensions() {
    assert!(should_include("ZoomAudioDevice.driver", false, "Audio"));
    assert!(should_include("libfoo.vst", true, "Audio"));
    assert!(should_include("Apple.prefPane", false, "PreferencePanes"));
    assert!(!should_include("Readme.txt", false, "PreferencePanes"));
    assert!(should_include("Sierra.qlgenerator", false, "QuickLook"));
    assert!(should_include("Fliqlo.saver", false, "Screen Savers"));
    assert!(should_include("Flash Player.plugin", false, "Internet Plug-Ins"));
    assert!(should_include("foo.webplugin", false, "Internet Plug-Ins"));
    assert!(should_include("GaussianBlur.plugin", false, "Core Image"));
    assert!(!should_include("GaussianBlur.so", false, "Core Image"));
    assert!(should_include("custom.colorPicker", false, "ColorPickers"));
    assert!(should_include("Mona.ttf", false, "Fonts"));
    assert!(should_include("Mona.otf", false, "Fonts"));
    assert!(should_include("Dict.dictionary", false, "Dictionaries"));
    assert!(should_include("Convert.action", false, "Automator"));
    assert!(should_include("run.workflow", false, "Automator"));
    assert!(should_include("ext.safariextz", false, "Safari Extensions"));
    assert!(should_include("ext.appex", false, "Safari Extensions"));
    assert!(should_include("My Template", true, "Motion Templates"));
    assert!(should_include("x.motn", false, "Motion Templates"));
    assert!(should_include("imp.mdimporter", false, "Spotlight"));
    assert!(should_include("svc.service", false, "Services"));
    assert!(should_include("AddNote", true, "Address Book"));
    assert!(should_include("Foo.bundle", false, "Contextual Menu"));
    assert!(should_include("SogouInput", true, "Input Methods"));
    assert!(should_include("gadget.wdgt", false, "Widgets"));
}

#[test]
fn test_should_include_case_insensitive() {
    assert!(should_include("FLIQLO.SAVER", false, "Screen Savers"));
    assert!(should_include("Mona.TTF", false, "Fonts"));
}

#[test]
fn plugins_group_in_first_seen_order() {
    let p = |name: &str, cat: &str| Plugin {
        name: name.to_string(),
        path: format!("/p/{name}"),
        category: cat.to_string(),
        is_directory: false,
        size: 1,
    };
    let grouped = group_by_category(vec![p("a", "Fonts"), p("b", "Audio"), p("c", "Fonts")]);
    assert_eq!(grouped.len(), 2);
    assert_eq!(grouped[0].0, "Fonts");
    assert_eq!(grouped[0].1.len(), 2);
    assert_eq!(grouped[1].0, "Audio");
}

#[test]
fn plugin_categories_by_request() {
    let cats = vec![
        PluginCategory { name: "Audio".into(), paths: vec!["/a".into()] },
        PluginCategory { name: "Fonts".into(), paths: vec!["/f".into()] },
    ];
    assert_eq!(resolve_plugin_categories(&cats, None).unwrap().len(), 2);
    assert_eq!(resolve_plugin_categories(&cats, Some("ALL")).unwrap().len(), 2);
    let fonts = resolve_plugin_categories(&cats, Some("fonts")).unwrap();
    assert_eq!(fonts.len(), 1);
    assert_eq!(fonts[0].name, "Fonts");
    assert!(resolve_plugin_categories(&cats, Some("video")).is_none());
}

#[test]
fn test_tmp_whitelist() {
    assert!(is_tmp_excluded(".X11-unix", false));
    assert!(is_tmp_excluded(".X0-lock", false));
    assert!(is_tmp_excluded(".ICE-unix", false));
    assert!(is_tmp_excluded("systemd-private-abc-service.service-x", false));
    assert!(is_tmp_excluded("com.apple.avconferenced", false));
    assert!(is_tmp_excluded("com.apple.ThreadCommissionerService", false));
    assert!(is_tmp_excluded("app.lock", false));
    assert!(is_tmp_excluded("app.sock", true));
    assert!(!is_tmp_excluded("bleachbit-sync.tar", false));
    assert!(!is_tmp_excluded("config-err-x", false));
    assert!(!is_tmp_excluded("notes.sock.md", false));
}

#[test]
fn tmp_entries_selected_by_age() {
    assert!(tmp_entry_selected("old-file.txt", false, Some(0), &vec![], 100));
    assert!(!tmp_entry_selected("fresh-file.txt", false, Some(200), &vec![], 100));
    assert!(!tmp_entry_selected("app.lock", false, Some(0), &vec![], 100));
    assert!(!tmp_entry_selected("unknown-time", false, None, &vec![], 100));
}

#[test]
fn tmp_folder_with_fresh_child_is_fresh() {
    assert!(tmp_entry_selected("old-dir", false, Some(10), &vec![20, 99], 100));
    assert!(!tmp_entry_selected("old-dir", false, Some(10), &vec![20, 100], 100));
    assert!(!tmp_entry_selected("old-dir", false, Some(10), &vec![500, 20], 100));
    assert!(!tmp_entry_selected("fresh-dir", false, Some(150), &vec![20], 100));
    assert_eq!(newest_modified(10, &vec![20, 5, 7]), 20);
    assert_eq!(newest_modified(30, &vec![20, 5]), 30);
}

#[test]
fn test_initial_url_processing_excludes_trash() {
    let f = finder(make_app("/Users/u/.Trash/SomeApp.app"));
    assert!(f.collection.is_empty(), "paths in the trash are not collected");
}

#[test]
fn test_initial_url_processing_wrapper_ancestor_no_jump() {
    let f = finder(make_app("/Users/wrapperx/Applications/SomeApp.app"));
    assert_eq!(f.collection, vec!["/Users/wrapperx/Applications/SomeApp.app".to_string()]);
}

#[test]
fn test_initial_url_processing_wrapped_app_jumps() {
    let f = finder(make_app("/Users/u/Library/Containers/com.x/Data/Wrapper/SomeApp.app"));
    assert!(f.collection.contains(&"/Users/u/Library/Containers/com.x/Data".to_string()));
    assert!(!f.collection.contains(&"/Users/u/Library/Containers/com.x/Data/Wrapper".to_string()));
}

#[test]
fn trash_detection_is_by_component() {
    assert!(is_in_trash("/Users/u/.Trash/x"));
    assert!(!is_in_trash("/Users/u/.TrashFoo/x"));
}

#[test]
fn test_vendor_folder_rule() {
    // Vendor layout: <Library>/Objective-See/HelperTools/lulu-data.bin; the
    // folders at depths 1 and 2 do not name the app, the file at depth 2 does.
    let home = "/Users/u".to_string();
    let lib = format!("{home}/Library");
    let app = AppInfo {
        path: "/Applications/LuLu.app".to_string(),
        bundle_identifier: "com.objective-see.lulu".to_string(),
        app_name: "LuLu".to_string(),
        entitlements: vec![],
        team_identifier: None,
        web_app: false,
        steam: false,
        wrapped: false,
    };
    let mut f = AppPathFinder::new(
        app,
        home.clone(),
        vec![lib.clone()],
        Sensitivity::Enhanced,
        Vec::new(),
        conditions(&home, &Vec::new()),
        skip_conditions(&home),
        standard_library_subdirectories(),
        skip_deep_search(),
        None,
    );
    assert!(f.is_library_directory(&lib));
    let vendor = format!("{lib}/Objective-See");
    let (item, descend) = f.entry_decision("Objective-See", &vendor, true, 0, 2, true);
    assert!(item.is_none());
    assert!(descend);
    let tools = format!("{vendor}/HelperTools");
    let (item, descend) = f.entry_decision("HelperTools", &tools, true, 1, 2, true);
    assert!(item.is_none());
    assert!(descend);
    let file = format!("{tools}/lulu-data.bin");
    let (item, descend) = f.entry_decision("lulu-data.bin", &file, false, 2, 2, true);
    assert!(!descend);
    assert_eq!(item.as_deref(), Some(tools.as_str()));
    f.insert_results(&vec![item.unwrap()]);
    let paths = f.finalize_collection_cli(&Vec::new());
    assert!(paths.iter().any(|p| p.ends_with("Objective-See/HelperTools")), "{paths:?}");
    assert!(paths.iter().all(|p| !p.ends_with("lulu-data.bin")), "{paths:?}");
}

#[test]
fn test_standard_subdir_adds_file_itself() {
    let f = finder(make_app("/Applications/SomeApp.app"));
    let (item, descend) = f.entry_decision(
        "someapp.plist",
        "/Users/u/Library/Application Support/Caches/someapp.plist",
        false,
        2,
        2,
        true,
    );
    assert_eq!(item.as_deref(), Some("/Users/u/Library/Application Support/Caches/someapp.plist"));
    assert!(!descend);
}

#[test]
fn finalized_paths_are_sorted_without_nested_ones() {
    let mut f = finder(make_app("/Applications/SomeApp.app"));
    f.insert_results(&vec![
        "/Users/u/Library/Caches/SomeApp/x".to_string(),
        "/Users/u/Library/Caches/SomeApp".to_string(),
    ]);
    let out = f.finalize_collection_cli(&Vec::new());
    assert_eq!(
        out,
        vec!["/Applications/SomeApp.app".to_string(), "/Users/u/Library/Caches/SomeApp".to_string()]
    );
}

#[test]
fn paths_sort_by_components() {
    let v = sort_paths(vec!["/a-b".to_string(), "/a/b".to_string(), "/a".to_string()]);
    assert_eq!(v, vec!["/a".to_string(), "/a/b".to_string(), "/a-b".to_string()]);
    assert_eq!(prune_nested(&v), vec!["/a".to_string(), "/a-b".to_string()]);
}

#[test]
fn display_shortening() {
    assert_eq!(truncated("/short", 64), "/short");
    assert_eq!(truncated("abcdefghij", 6), "ab…ij");
    assert_eq!(truncated_rel("/A.app/Contents/MacOS/x", "/A.app", 64), "Contents/MacOS/x");
    assert_eq!(truncated_rel("/B/x", "/A.app", 64), "/B/x");
    assert_eq!(truncated_rel("/A.app/Contents/Frameworks/Long", "/A.app", 8), "Content…");
}
