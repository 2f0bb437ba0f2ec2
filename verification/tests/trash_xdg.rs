use apios_core::linux::{xdg_trash_step, XdgStep};
use apios_core::trash::{archive_folder, removal_succeeded, split_deletable, validate_path, ArchiveNamer};
use apios_core::xdg::{
    decode_path, encode_path, file_name_from_info, generate_trashinfo, info_file_name, parse_trashinfo,
    unique_name, unique_name_pair,
};

const HOME: &str = "/Users/u";

#[test]
fn test_encode_path_basic() {
    assert_eq!(encode_path("/home/user/文件.txt"), "/home/user/%E6%96%87%E4%BB%B6.txt");
    assert_eq!(encode_path("/usr/bin/app"), "/usr/bin/app");
    assert_eq!(encode_path("/path with space"), "/path%20with%20space");
}

#[test]
fn test_decode_roundtrip() {
    for p in ["/home/user/文件.txt", "/path with space/&weird?name#.log", "/usr/bin/app"] {
        assert_eq!(decode_path(&encode_path(p)), p);
    }
}

#[test]
fn test_decode_invalid_escape_kept() {
    assert_eq!(decode_path("/a%zz/b%2"), "/a%zz/b%2");
    assert_eq!(decode_path("/a%2"), "/a%2");
}

#[test]
fn test_generate_and_parse_roundtrip() {
    let info = generate_trashinfo("/home/u/文件.txt", "2026-08-13T22:30:00");
    let (path, date) = parse_trashinfo(&info).unwrap();
    assert_eq!(path, "/home/u/文件.txt");
    assert_eq!(date, "2026-08-13T22:30:00");
}

#[test]
fn trashinfo_round_trip_keeps_inner_carriage_return() {
    let date = "2026-08-13\rT22:30:00";
    let info = generate_trashinfo("/home/u/a b.txt", date);
    let (path, d) = parse_trashinfo(&info).unwrap();
    assert_eq!(path, "/home/u/a b.txt");
    assert_eq!(d, date);
}

#[test]
fn trashinfo_text_is_exact() {
    assert_eq!(
        generate_trashinfo("/a b", "2026-01-01T00:00:00"),
        "[Trash Info]\nPath=/a%20b\nDeletionDate=2026-01-01T00:00:00\n"
    );
}

#[test]
fn test_parse_trashinfo_missing_path_is_none() {
    assert!(parse_trashinfo("[Trash Info]\nDeletionDate=2026-01-01T00:00:00\n").is_none());
    assert!(parse_trashinfo("").is_none());
    assert!(parse_trashinfo("[Other]\nPath=/x\n").is_none());
}

#[test]
fn test_info_file_names() {
    assert_eq!(info_file_name("app.log"), "app.log.trashinfo");
    assert_eq!(file_name_from_info("app.log.trashinfo").as_deref(), Some("app.log"));
    assert_eq!(file_name_from_info("no-suffix"), None);
}

#[test]
fn test_unique_name_appends_suffix() {
    let mut taken: Vec<String> = Vec::new();
    assert_eq!(unique_name("a", &taken), "a");
    taken.push("a".to_string());
    assert_eq!(unique_name("a", &taken), "a.1");
    taken.push("a.1".to_string());
    assert_eq!(unique_name("a", &taken), "a.2");
}

#[test]
fn unique_name_pair_checks_both_sides() {
    let files = vec!["same.txt".to_string()];
    let infos = vec!["same.txt.1.trashinfo".to_string()];
    assert_eq!(unique_name_pair("same.txt", &files, &infos), "same.txt.2");
    assert_eq!(unique_name_pair("other", &files, &infos), "other");
}

#[test]
fn test_validate_path() {
    assert!(!validate_path("/", HOME));
    assert!(!validate_path("/Library", HOME));
    assert!(!validate_path("/System", HOME));
    assert!(!validate_path("/Applications", HOME));
    assert!(validate_path("/usr/local", HOME));
    assert!(!validate_path(HOME, HOME));
    assert!(validate_path(&format!("{HOME}/Library/Preferences/com.test.plist"), HOME));
    assert!(validate_path("/tmp/foo", HOME));
    assert!(!validate_path("   ", HOME));
}

#[test]
fn test_delete_filters_blocked_paths() {
    let urls = vec!["/Library".to_string(), format!("{HOME}/Library/Preferences/x")];
    let (valid, blocked) = split_deletable(&urls, HOME);
    assert_eq!(valid.len(), 1);
    assert_eq!(valid, vec![format!("{HOME}/Library/Preferences/x")]);
    assert_eq!(blocked, vec!["/Library".to_string()]);
}

#[test]
fn archive_folder_names() {
    let valid = vec!["/tmp/report.txt".to_string()];
    assert_eq!(archive_folder(Some("My/App:X"), &valid, "2026-01-02_03-04-05"), "My_App_X_2026-01-02_03-04-05");
    assert_eq!(archive_folder(Some(""), &valid, "T"), "report_T");
    assert_eq!(archive_folder(None, &valid, "T"), "report_T");
    assert_eq!(archive_folder(None, &Vec::new(), "T"), "Mixed Files_T");
}

#[test]
fn archive_names_count_per_base_name() {
    let mut namer = ArchiveNamer::new();
    let mut taken: Vec<String> = Vec::new();
    let a = namer.next_name("a.txt", &taken);
    assert_eq!(a, "a.txt");
    taken.push(a);
    let b = namer.next_name("a.txt", &taken);
    assert_eq!(b, "a.txt-1");
    taken.push(b);
    let c = namer.next_name("b", &taken);
    assert_eq!(c, "b");
    let d = namer.next_name("a.txt", &taken);
    assert_eq!(d, "a.txt-2");
}

#[test]
fn removal_success_needs_moves_and_no_failures() {
    assert!(removal_succeeded(2, 0));
    assert!(!removal_succeeded(0, 0));
    assert!(!removal_succeeded(2, 1));
}

#[test]
fn test_xdg_trash_blocked_path_rejected() {
    let none: Vec<String> = Vec::new();
    for root in ["/etc", "/usr", "/var"] {
        assert!(matches!(xdg_trash_step(root, "/home/u", &none, &none), XdgStep::Blocked), "{root} is protected");
    }
}

#[test]
fn test_xdg_trash_conflict_appends_suffix() {
    let files = vec!["same.txt".to_string()];
    let infos = vec!["same.txt.trashinfo".to_string()];
    match xdg_trash_step("/tmp/sub/same.txt", "/home/u", &files, &infos) {
        XdgStep::MoveTo { name, info_name } => {
            assert_eq!(name, "same.txt.1");
            assert_eq!(info_name, "same.txt.1.trashinfo");
        }
        _ => panic!("expected a move"),
    }
}

#[test]
fn decode_invalid_utf8_gives_replacement_character() {
    assert_eq!(decode_path("/a%FFb"), "/a\u{FFFD}b");
    assert_eq!(decode_path("/%E6%96%87"), "/文");
}

#[test]
fn namer_never_repeats_a_name_for_one_base() {
    let mut namer = ArchiveNamer::new();
    let none: Vec<String> = Vec::new();
    assert_eq!(namer.next_name("x", &none), "x");
    assert_eq!(namer.next_name("x", &none), "x-1");
    assert_eq!(namer.next_name("x", &none), "x-2");
    assert_eq!(namer.next_name("y", &none), "y");
}
