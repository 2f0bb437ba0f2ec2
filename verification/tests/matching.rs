use apios_core::conditions::{conditions, skip_conditions, skip_deep_search, skip_reverse};
use apios_core::format::pear_format;
use apios_core::identifiers::CachedIdentifiers;
use apios_core::matcher::{extract_game_id, should_skip_item, specific_condition, steam_game_id_from_launcher};
use apios_core::model::{AppInfo, Condition, Sensitivity};

const HOME: &str = "/Users/u";

fn make_app(bundle_id: &str, name: &str) -> (AppInfo, CachedIdentifiers) {
    let app = AppInfo {
        path: format!("/Applications/{name}.app"),
        bundle_identifier: bundle_id.to_string(),
        app_name: name.to_string(),
        entitlements: vec![],
        team_identifier: None,
        web_app: false,
        steam: false,
        wrapped: false,
    };
    let ids = CachedIdentifiers::from_app_info(&app);
    (app, ids)
}

fn conds() -> Vec<Condition> {
    conditions(HOME, &Vec::new())
}

#[test]
fn test_bundle_id_match() {
    let (app, ids) = make_app("com.microsoft.VSCode", "Visual Studio Code");
    assert!(specific_condition(
        "commicrosoftvscodehelper",
        "/Users/u/Library/Containers/x/Data",
        &app,
        &ids,
        Sensitivity::Strict,
        &conds(),
        None
    ));
}

#[test]
fn test_app_name_exact_strict() {
    let (app, ids) = make_app("com.example.Bartender", "Bartender 6");
    assert!(!specific_condition("bartendertool", "/tmp/x", &app, &ids, Sensitivity::Strict, &conds(), None));
    assert!(specific_condition("bartender6", "/tmp/x", &app, &ids, Sensitivity::Strict, &conds(), None));
    assert!(specific_condition("bartendertool", "/tmp/x", &app, &ids, Sensitivity::Enhanced, &conds(), None));
}

#[test]
fn test_condition_exclude_wins() {
    let (app, ids) = make_app("com.google.chrome", "Google Chrome");
    assert!(!specific_condition("iterm", "/tmp/iterm", &app, &ids, Sensitivity::Deep, &conds(), None));
    assert!(specific_condition("chrome", "/tmp/chrome", &app, &ids, Sensitivity::Deep, &conds(), None));
}

#[test]
fn test_company_match_deep_only() {
    let (app, ids) = make_app("com.knollsoft.Rectangle", "Rectangle");
    assert!(!specific_condition("knollsoft", "/tmp/knollsoft", &app, &ids, Sensitivity::Enhanced, &conds(), None));
    assert!(specific_condition("knollsoft", "/tmp/knollsoft", &app, &ids, Sensitivity::Deep, &conds(), None));
}

#[test]
fn test_steam_manifest() {
    let app = AppInfo {
        path: "/Applications/SomeGame.app".to_string(),
        bundle_identifier: "com.steam.game".to_string(),
        app_name: "SomeGame".to_string(),
        entitlements: vec![],
        team_identifier: None,
        web_app: false,
        steam: true,
        wrapped: false,
    };
    let ids = CachedIdentifiers::from_app_info(&app);
    // Without a launcher script there is no game id, so nothing matches.
    let result = specific_condition(
        "appmanifest_1289310acf",
        "/Users/u/Library/Application Support/Steam/steamapps/appmanifest_1289310.acf",
        &app,
        &ids,
        Sensitivity::Deep,
        &conds(),
        None,
    );
    assert!(!result);
}

#[test]
fn steam_manifest_matches_the_launcher_game() {
    let app = AppInfo {
        path: "/Applications/SomeGame.app".to_string(),
        bundle_identifier: "com.steam.game".to_string(),
        app_name: "SomeGame".to_string(),
        entitlements: vec![],
        team_identifier: None,
        web_app: false,
        steam: true,
        wrapped: false,
    };
    let ids = CachedIdentifiers::from_app_info(&app);
    let id = steam_game_id_from_launcher("#!/bin/bash\nopen steam://run/1289310\n");
    assert_eq!(id.as_deref(), Some("1289310"));
    assert!(specific_condition(
        "appmanifest_1289310acf",
        "/Users/u/Library/Application Support/Steam/steamapps/appmanifest_1289310.acf",
        &app,
        &ids,
        Sensitivity::Deep,
        &conds(),
        id.as_deref(),
    ));
}

#[test]
fn test_extract_game_id() {
    assert_eq!(extract_game_id("appmanifest_1289310.acf").as_deref(), Some("1289310"));
    assert_eq!(extract_game_id("appmanifest_123.acf").as_deref(), Some("123"));
    assert_eq!(extract_game_id("foo"), None);
}

#[test]
fn test_should_skip_trash() {
    let collection: Vec<String> = Vec::new();
    let skip = skip_conditions(HOME);
    assert!(should_skip_item("foo", &format!("{HOME}/.Trash/foo"), &collection, &skip));
    assert!(!should_skip_item("foo", "/tmp/foo", &collection, &skip));
}

#[test]
fn test_skip_prefix_with_allowance() {
    let collection: Vec<String> = Vec::new();
    let skip = skip_conditions(HOME);
    assert!(should_skip_item("remindershelper", "/tmp/remindershelper", &collection, &skip));
    assert!(should_skip_item("mobiledocumentsfoo", "/tmp/x", &collection, &skip));
}

#[test]
fn collected_paths_are_skipped() {
    let collection = vec!["/tmp/already".to_string()];
    let skip = skip_conditions(HOME);
    assert!(should_skip_item("already", "/tmp/already", &collection, &skip));
}

#[test]
fn test_conditions_bundle_ids_are_formatted() {
    for c in conditions(HOME, &Vec::new()) {
        assert_eq!(c.bundle_id, pear_format(&c.bundle_id), "bundle id not in normal form");
        assert!(!c.bundle_id.contains('.'), "bundle id holds a dot");
    }
}

#[test]
fn test_skip_tables_non_empty() {
    assert!(!skip_deep_search().is_empty());
    assert!(skip_deep_search().contains(&"Safari".to_string()));
    assert!(!skip_reverse().is_empty());
    assert!(skip_reverse().contains(&"microsoft".to_string()));
    assert_eq!(skip_conditions(HOME).len(), 1);
}

#[test]
fn force_paths_are_kept_only_when_they_exist() {
    let xcode_forced = format!("{HOME}/Library/Containers/com.apple.iphonesimulator.ShareExtension");
    let forced = apios_core::conditions::forced_paths(HOME);
    assert!(forced.contains(&xcode_forced));
    let none = conditions(HOME, &Vec::new());
    assert!(none.iter().all(|c| c.include_force.is_empty() && c.exclude_force.is_empty()));
    let some = conditions(HOME, &vec![xcode_forced.clone(), "/not/forced".to_string()]);
    let xcode = some.iter().find(|c| c.bundle_id == "comappledtxcode").unwrap();
    assert_eq!(xcode.include_force, vec![xcode_forced]);
    let kept: usize = some.iter().map(|c| c.include_force.len() + c.exclude_force.len()).sum();
    assert_eq!(kept, 1);
}
