use apios_core::desktop::{exec_first_word, parse_desktop};
use apios_core::format::{pear_format, stripping_trailing_digits};
use apios_core::identifiers::CachedIdentifiers;
use apios_core::model::AppInfo;

fn app(bundle_id: &str, name: &str) -> AppInfo {
    AppInfo {
        path: format!("/Applications/{name}.app"),
        bundle_identifier: bundle_id.to_string(),
        app_name: name.to_string(),
        entitlements: vec![],
        team_identifier: None,
        web_app: false,
        steam: false,
        wrapped: false,
    }
}

#[test]
fn test_pear_format_basic() {
    assert_eq!(pear_format("Pearcleaner"), "pearcleaner");
    assert_eq!(pear_format("com.alienator88.Pearcleaner"), "comalienator88pearcleaner");
    assert_eq!(pear_format("Visual Studio Code"), "visualstudiocode");
    assert_eq!(pear_format("Bar Tender"), "bartender");
    assert_eq!(pear_format("ABC 123"), "abc123");
}

#[test]
fn test_pear_format_empty_result_returns_original() {
    assert_eq!(pear_format("..."), "...");
    assert_eq!(pear_format("!@#$"), "!@#$");
}

#[test]
fn test_pear_format_unicode() {
    assert_eq!(pear_format("微信"), "微信");
    assert_eq!(pear_format("Café"), "café");
}

#[test]
fn test_stripping_trailing_digits() {
    assert_eq!(stripping_trailing_digits("Bartender 6"), "Bartender");
    assert_eq!(stripping_trailing_digits("Firefox 120.0"), "Firefox");
    assert_eq!(stripping_trailing_digits("VS Code"), "VS Code");
    assert_eq!(stripping_trailing_digits("Xcode 15"), "Xcode");
    assert_eq!(stripping_trailing_digits("WeChat"), "WeChat");
}

#[test]
fn normal_form_is_idempotent_on_examples() {
    for s in ["Visual Studio Code", "...", "Café", "ABC 123", "微信"] {
        let once = pear_format(s);
        assert_eq!(pear_format(&once), once);
    }
}

#[test]
fn test_standard_app() {
    let ids = CachedIdentifiers::from_app_info(&app("com.microsoft.VSCode", "Visual Studio Code"));
    assert_eq!(ids.formatted_bundle_id, "commicrosoftvscode");
    assert_eq!(ids.bundle_last_two_components, "microsoftvscode");
    assert_eq!(ids.formatted_app_name, "visualstudiocode");
    assert_eq!(ids.app_name_letters_only, "visualstudiocode");
    assert_eq!(ids.path_component_name, "visualstudiocode");
    assert!(ids.use_bundle_identifier);
    assert_eq!(ids.formatted_company_name.as_deref(), Some("microsoft"));
    assert_eq!(ids.formatted_base_bundle_id, None);
}

#[test]
fn test_three_component_company() {
    let ids = CachedIdentifiers::from_app_info(&app("com.knollsoft.Rectangle", "Rectangle"));
    assert_eq!(ids.formatted_company_name.as_deref(), Some("knollsoft"));
}

#[test]
fn test_helper_suffix_base_id() {
    let ids = CachedIdentifiers::from_app_info(&app("com.objective-see.blockblock.helper", "BlockBlock"));
    assert_eq!(ids.formatted_base_bundle_id.as_deref(), Some("comobjectiveseeblockblock"));
    let ids2 = CachedIdentifiers::from_app_info(&app("com.objective-see.blockblock", "BlockBlock"));
    assert_eq!(ids2.formatted_base_bundle_id, None);
}

#[test]
fn test_version_stripped_name() {
    let ids = CachedIdentifiers::from_app_info(&app("com.example.Bartender", "Bartender 6"));
    assert_eq!(ids.formatted_app_name_stripped.as_deref(), Some("bartender"));
    let ids2 = CachedIdentifiers::from_app_info(&app("com.example.WeChat", "WeChat"));
    assert_eq!(ids2.formatted_app_name_stripped, None);
}

#[test]
fn test_single_component_bundle_id() {
    let ids = CachedIdentifiers::from_app_info(&app("Foo", "Foo"));
    assert!(!ids.use_bundle_identifier);
    let ids2 = CachedIdentifiers::from_app_info(&app("Short", "Short"));
    assert!(ids2.use_bundle_identifier);
}

#[test]
fn test_dash_filtered_components() {
    let ids = CachedIdentifiers::from_app_info(&app("com.example.-.Foo", "Example"));
    assert_eq!(ids.bundle_last_two_components, "examplefoo");
}

#[test]
fn identifiers_keep_entitlements_and_team_in_normal_form() {
    let mut a = app("com.example.Foo", "Foo");
    a.entitlements = vec!["group.com.Example".to_string(), "...".to_string()];
    a.team_identifier = Some("AB12 CD".to_string());
    let ids = CachedIdentifiers::from_app_info(&a);
    assert_eq!(ids.formatted_entitlements, vec!["groupcomexample".to_string(), "...".to_string()]);
    assert_eq!(ids.formatted_team_identifier.as_deref(), Some("ab12cd"));
}

#[test]
fn test_parse_basic() {
    let content = "[Desktop Entry]\nType=Application\nName=Firefox\nExec=/usr/bin/firefox %U\nIcon=firefox\n";
    let entry = parse_desktop(content).unwrap();
    assert_eq!(entry.name, "Firefox");
    assert_eq!(entry.exec_line, "/usr/bin/firefox %U");
    assert_eq!(entry.icon.as_deref(), Some("firefox"));
    assert!(!entry.no_display);
}

#[test]
fn test_parse_type_link_rejected() {
    let content = "[Desktop Entry]\nType=Link\nName=Home\nURL=file:///home\n";
    assert!(parse_desktop(content).is_none());
}

#[test]
fn test_parse_no_display_rejected() {
    let content = "[Desktop Entry]\nType=Application\nName=Hidden\nExec=/usr/bin/x\nNoDisplay=true\n";
    assert!(parse_desktop(content).is_none());
}

#[test]
fn test_parse_missing_name_or_exec_rejected() {
    assert!(parse_desktop("[Desktop Entry]\nType=Application\nExec=/usr/bin/x\n").is_none());
    assert!(parse_desktop("[Desktop Entry]\nType=Application\nName=X\n").is_none());
    assert!(parse_desktop("").is_none());
    assert!(parse_desktop("[Other Section]\nName=X\nExec=/usr/bin/x\n").is_none());
}

#[test]
fn test_parse_ignores_comments_and_other_sections() {
    let content = "# comment\n[Desktop Entry]\nType=Application\nName=Code\nExec=/usr/bin/code\n[Desktop Action new]\nName=New Window\nExec=/usr/bin/code --new\n";
    let entry = parse_desktop(content).unwrap();
    assert_eq!(entry.name, "Code");
    assert_eq!(entry.exec_line, "/usr/bin/code");
}

#[test]
fn test_parse_localized_keys_ignored() {
    let content = "[Desktop Entry]\nType=Application\nName=Firefox\nName[zh_CN]=火狐\nExec=/usr/bin/firefox\n";
    assert_eq!(parse_desktop(content).unwrap().name, "Firefox");
}

#[test]
fn test_exec_first_word_plain() {
    assert_eq!(exec_first_word("/usr/bin/firefox %U").as_deref(), Some("/usr/bin/firefox"));
    assert_eq!(exec_first_word("firefox").as_deref(), Some("firefox"));
    assert_eq!(exec_first_word(""), None);
}

#[test]
fn test_exec_first_word_quoted_path() {
    assert_eq!(exec_first_word("\"/opt/My App/bin/app\" --flag").as_deref(), Some("/opt/My App/bin/app"));
}

#[test]
fn test_exec_first_word_env_prefix() {
    assert_eq!(exec_first_word("env FOO=bar /usr/bin/app %U").as_deref(), Some("/usr/bin/app"));
    assert_eq!(exec_first_word("env GTK_USE_PORTAL=1 XDG_CURRENT=1 app").as_deref(), Some("app"));
}

#[test]
fn exec_first_word_rejects_unclosed_or_empty_quotes() {
    assert_eq!(exec_first_word("\"/opt/app --flag"), None);
    assert_eq!(exec_first_word("'' --flag"), None);
    assert_eq!(exec_first_word("env FOO=bar"), None);
}

#[test]
fn matched_file_from_path() {
    let a = apios_core::model::MatchedFile::from_path("/tmp/a".to_string());
    let b: apios_core::model::MatchedFile = "/tmp/b".to_string().into();
    assert_eq!(a.path, "/tmp/a");
    assert_eq!(b.path, "/tmp/b");
}

#[test]
fn pear_format_is_idempotent_on_ascii() {
    for s in ["Google Chrome", "com.apple.Safari-2", "  Visual_Studio Code 1.9 ", "ABC.def/xyz"] {
        let once = pear_format(s);
        assert_eq!(pear_format(&once), once);
    }
}
