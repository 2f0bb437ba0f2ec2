use apios_core::utf16::{narrow, widen};
use apios_core::windows::{
    add_discovered, after_batch, recycle_outcome, build_from_list, display_icon_file, entry_from_values, exe_image_name, expand_env,
    tasklist_count_from, vendor_dir_kept, WindowsAdapter, WindowsVars, REG_EXPAND_SZ, REG_SZ,
};
use apios_core::platform::{SystemPaths, Trash};

fn raw(s: &str) -> Vec<u8> {
    let mut raw: Vec<u8> = s.encode_utf16().flat_map(|c| c.to_le_bytes()).collect();
    raw.extend([0, 0]);
    raw
}

fn sz(name: &str, s: &str) -> (String, u32, Vec<u8>) {
    (name.to_string(), REG_SZ, raw(s))
}

fn expanded(name: &str, s: &str) -> (String, u32, Vec<u8>) {
    (name.to_string(), REG_EXPAND_SZ, raw(s))
}

fn env() -> Vec<(String, String)> {
    vec![("LOCALAPPDATA".to_string(), r"C:\Users\znie\AppData\Local".to_string())]
}

#[test]
fn test_entry_from_values_basic() {
    let values = vec![
        sz("DisplayName", "Visual Studio Code"),
        sz("InstallLocation", r"C:\Users\znie\AppData\Local\Programs\Microsoft VS Code"),
        sz("Publisher", "Microsoft Corporation"),
    ];
    let entry = entry_from_values(&values, &env()).unwrap();
    assert_eq!(entry.display_name, "Visual Studio Code");
    assert_eq!(entry.install_location.as_deref(), Some(r"C:\Users\znie\AppData\Local\Programs\Microsoft VS Code"));
    assert_eq!(entry.publisher.as_deref(), Some("Microsoft Corporation"));
    assert!(entry.display_icon.is_none());
}

#[test]
fn test_entry_missing_display_name_skipped() {
    let mut values = vec![sz("InstallLocation", r"C:\x")];
    assert!(entry_from_values(&values, &env()).is_none());
    values.push(sz("DisplayName", ""));
    assert!(entry_from_values(&values, &env()).is_none());
}

#[test]
fn test_entry_expand_sz_expands_env() {
    let values = vec![sz("DisplayName", "Foo"), expanded("InstallLocation", r"%LOCALAPPDATA%\Programs\Foo")];
    let entry = entry_from_values(&values, &env()).unwrap();
    let loc = entry.install_location.unwrap();
    assert!(!loc.contains("%LOCALAPPDATA%"));
    assert!(loc.ends_with(r"\Programs\Foo"));
    assert_eq!(loc, r"C:\Users\znie\AppData\Local\Programs\Foo");
}

#[test]
fn test_entry_reg_sz_not_expanded() {
    let values = vec![sz("DisplayName", "Foo"), sz("InstallLocation", r"%UNKNOWN_VAR%\x")];
    let entry = entry_from_values(&values, &env()).unwrap();
    assert_eq!(entry.install_location.as_deref(), Some(r"%UNKNOWN_VAR%\x"));
}

#[test]
fn unknown_and_unclosed_references_stay() {
    assert_eq!(expand_env(r"%UNKNOWN_VAR%\x", &env()), r"%UNKNOWN_VAR%\x");
    assert_eq!(expand_env("50% off", &env()), "50% off");
    assert_eq!(expand_env("%localappdata%", &env()), r"C:\Users\znie\AppData\Local");
}

#[test]
fn utf16_buffers_round_trip() {
    for s in ["", "abc", "文件", "emoji 😀 ok"] {
        assert_eq!(narrow(&widen(s)), s);
    }
    assert_eq!(narrow(&[0xD800, 0x41, 0]), "\u{FFFD}A");
    assert_eq!(narrow(&[0x41, 0, 0x42]), "A");
}

#[test]
fn test_build_from_list_double_null_terminated() {
    let paths = vec![
        r"C:\Users\x\AppData\Roaming\Foo".to_string(),
        r"C:\Users\x\AppData\Roaming\Foo\bar.txt".to_string(),
    ];
    let buf = build_from_list(&paths);
    let joined: String = buf
        .iter()
        .map(|&c| if c == 0 { '|' } else { char::from_u32(c as u32).unwrap() })
        .collect();
    assert_eq!(joined, r"C:\Users\x\AppData\Roaming\Foo|C:\Users\x\AppData\Roaming\Foo\bar.txt||");
    assert_eq!(buf[buf.len() - 1], 0);
    assert_eq!(buf[buf.len() - 2], 0);
    assert_ne!(buf[buf.len() - 3], 0);
}

#[test]
fn test_build_from_list_single_path() {
    let buf = build_from_list(&vec![r"C:\x.txt".to_string()]);
    assert_eq!(buf.last(), Some(&0));
    assert_eq!(buf[buf.len() - 2], 0);
}

#[test]
fn test_build_from_list_empty() {
    let buf = build_from_list(&Vec::new());
    assert_eq!(buf, vec![0]);
}

#[test]
fn windows_folders_fall_back() {
    let vars = WindowsVars {
        user_profile: None,
        home_drive: Some("D:".into()),
        home_path: None,
        app_data: None,
        local_app_data: Some(r"E:\Local".into()),
        program_data: None,
        program_files: None,
        program_files_x86: None,
        temp: None,
    };
    let a = WindowsAdapter::from_vars(vars, vec!["Vendor".into()]);
    assert_eq!(a.home, r"D:\Users");
    assert_eq!(a.appdata_roaming, r"D:\Users\AppData\Roaming");
    assert_eq!(a.appdata_local, r"E:\Local");
    assert_eq!(a.programdata, r"C:\ProgramData");
    assert_eq!(a.temp_dir, r"D:\Users\AppData\Local\Temp");
    assert_eq!(a.user_cache_dir(), r"E:\Local");
    assert_eq!(a.trash_dir(), r"D:\Users\AppData\Local\Temp\apios-trash");
    assert_eq!(a.start_menu_user(), r"D:\Users\AppData\Roaming\Microsoft\Windows\Start Menu\Programs");
    assert_eq!(a.reverse_paths()[2], r"D:\Users\Documents");
    assert_eq!(a.apps_paths().len(), 9);
}

#[test]
fn windows_discovery_helpers() {
    assert!(vendor_dir_kept("Slack"));
    assert!(!vendor_dir_kept("MicrosoftEdge"));
    assert_eq!(display_icon_file(r"C:\app\foo.exe,0"), r"C:\app\foo.exe");
    assert_eq!(exe_image_name(r"C:\app\Foo.EXE").as_deref(), Some("Foo.EXE"));
    assert_eq!(exe_image_name(r"C:\app\Foo.lnk"), None);
    let out = "\"Foo.exe\",\"12\"\n\"foo.EXE\",\"13\"\n\"Bar.exe\",\"14\"\n";
    assert_eq!(tasklist_count_from(out, "Foo.exe"), 2);
    let mut apps = Vec::new();
    let mut seen = Vec::new();
    add_discovered(&mut apps, &mut seen, r"C:\App\Foo.exe", "Foo".into());
    add_discovered(&mut apps, &mut seen, r"c:\app\foo.exe", "Foo again".into());
    assert_eq!(apps.len(), 1);
    assert_eq!(apps[0].app_name, "Foo");
}

fn strs(v: &[&str]) -> Vec<String> {
    v.iter().map(|s| s.to_string()).collect()
}

#[test]
fn recycle_batch_success_moves_every_existing_path() {
    let existing = strs(&[r"C:\a.txt", r"C:\b.txt"]);
    let (moved, retried) = after_batch(&existing, true, &vec![]);
    assert_eq!(moved, existing);
    assert!(retried.is_empty());
    let urls = strs(&[r"C:\a.txt", r"C:\gone.txt", r"C:\b.txt"]);
    let r = recycle_outcome(&urls, &moved, &retried, &vec![]);
    let originals: Vec<String> = r.moved.iter().map(|p| p.original_path.clone()).collect();
    assert_eq!(originals, existing);
    assert!(r.moved.iter().all(|p| p.trash_path.is_empty()));
    assert_eq!(r.failed, strs(&[r"C:\gone.txt"]));
    assert!(!r.success);
}

#[test]
fn recycle_batch_failure_lists_gone_paths_first() {
    let existing = strs(&["A", "B", "C", "D"]);
    // After the failed batch, B and D are gone; A and C are tried again.
    let (moved, retried) = after_batch(&existing, false, &vec![true, false, true, false]);
    assert_eq!(moved, strs(&["B", "D"]));
    assert_eq!(retried, strs(&["A", "C"]));
    let r = recycle_outcome(&existing, &moved, &retried, &vec![true, false]);
    let originals: Vec<String> = r.moved.iter().map(|p| p.original_path.clone()).collect();
    assert_eq!(originals, strs(&["B", "D", "A"]));
    assert_eq!(r.failed, strs(&["C"]));
    assert!(!r.success);
    let all = recycle_outcome(&existing, &moved, &retried, &vec![true, true]);
    assert!(all.success);
    assert!(all.failed.is_empty());
}

#[test]
fn recycle_of_missing_path_moves_nothing() {
    let urls = strs(&[r"C:\__apios_nonexistent_zzz__\ghost.txt"]);
    let r = recycle_outcome(&urls, &vec![], &vec![], &vec![]);
    assert!(r.moved.is_empty());
    assert_eq!(r.failed, urls);
    assert!(!r.success);
}
