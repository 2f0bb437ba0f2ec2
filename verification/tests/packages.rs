use apios_core::apt::Apt;
use apios_core::cli::{kind_plural, zap_applies};
use apios_core::commands::{apt_error, brew_error, stderr_tail};
use apios_core::homebrew::{brew_candidates, list_args, uninstall_args, uses_args, Homebrew};
use apios_core::pkg::{
    detect_kind, parse_apt_autoremove, parse_apt_list, parse_apt_rdepends, parse_brew_autoremove,
    parse_brew_list_versions, parse_brew_uses, PkgKind,
};
use apios_core::winget::{parse_winget_list, winget_candidates, winget_error, Winget};

#[test]
fn test_parse_list_versions_basic() {
    let out = "ada-url 4.0.0\nbrotli 1.2.0\nc-ares 1.34.8\n";
    let pkgs = parse_brew_list_versions(out, PkgKind::Formula);
    assert_eq!(pkgs.len(), 3);
    assert_eq!(pkgs[0].name, "ada-url");
    assert_eq!(pkgs[0].version, "4.0.0");
    assert_eq!(pkgs[0].kind, PkgKind::Formula);
}

#[test]
fn test_parse_list_versions_multiple_versions() {
    let out = "python@3.14 3.14.0 3.14.1\n";
    let pkgs = parse_brew_list_versions(out, PkgKind::Formula);
    assert_eq!(pkgs.len(), 1);
    assert_eq!(pkgs[0].version, "3.14.0 3.14.1");
}

#[test]
fn test_parse_list_versions_cask_latest() {
    let out = "android-cli latest\nfirefox 140.0\n";
    let pkgs = parse_brew_list_versions(out, PkgKind::Cask);
    assert_eq!(pkgs.len(), 2);
    assert_eq!(pkgs[0].version, "latest");
    assert!(pkgs.iter().all(|p| p.kind == PkgKind::Cask));
}

#[test]
fn test_parse_list_versions_sorts_and_skips_blank() {
    let out = "zsh 5.9\nalpha 1.0\n\n  \nb 2.0\n";
    let pkgs = parse_brew_list_versions(out, PkgKind::Formula);
    let names: Vec<&str> = pkgs.iter().map(|p| p.name.as_str()).collect();
    assert_eq!(names, vec!["alpha", "b", "zsh"]);
}

#[test]
fn test_parse_list_versions_empty() {
    assert!(parse_brew_list_versions("", PkgKind::Formula).is_empty());
    assert!(parse_brew_list_versions("   \n\n", PkgKind::Cask).is_empty());
}

#[test]
fn test_parse_uses() {
    let out = "libngtcp2\nnode\npython@3.14\n";
    assert_eq!(parse_brew_uses(out), vec!["libngtcp2", "node", "python@3.14"]);
    assert!(parse_brew_uses("").is_empty());
}

#[test]
fn test_parse_uses_trailing_spaces() {
    let out = "libngtcp2  \nnode \n";
    assert_eq!(parse_brew_uses(out), vec!["libngtcp2", "node"]);
}

#[test]
fn test_parse_autoremove_skips_header() {
    let out = "Would autoremove 2 unneeded formula:\na\nb\n";
    assert_eq!(parse_brew_autoremove(out), vec!["a", "b"]);
}

#[test]
fn test_parse_autoremove_singular_header() {
    let out = "Would autoremove 1 unneeded formula:\nx\n";
    assert_eq!(parse_brew_autoremove(out), vec!["x"]);
}

#[test]
fn test_parse_autoremove_no_header() {
    let out = "a\nb\n";
    assert_eq!(parse_brew_autoremove(out), vec!["a", "b"]);
}

#[test]
fn test_parse_autoremove_empty() {
    assert!(parse_brew_autoremove("").is_empty());
}

#[test]
fn test_detect_kind() {
    let formulae = vec!["git".to_string(), "openssl@3".to_string()];
    let casks = vec!["firefox".to_string()];
    assert_eq!(detect_kind("git", &formulae, &casks), Some(PkgKind::Formula));
    assert_eq!(detect_kind("firefox", &formulae, &casks), Some(PkgKind::Cask));
    assert_eq!(detect_kind("nope", &formulae, &casks), None);
}

#[test]
fn test_detect_kind_prefers_formula() {
    let formulae = vec!["dual".to_string()];
    let casks = vec!["dual".to_string()];
    assert_eq!(detect_kind("dual", &formulae, &casks), Some(PkgKind::Formula));
}

#[test]
fn test_parse_apt_list_basic() {
    let out = "Listing... Done\nadduser/stable,now 3.137 all [installed]\napt/stable,now 2.7.14 amd64 [installed,automatic]\n";
    let pkgs = parse_apt_list(out);
    assert_eq!(pkgs.len(), 2);
    assert_eq!(pkgs[0].name, "adduser");
    assert_eq!(pkgs[0].version, "3.137");
    assert_eq!(pkgs[0].kind, PkgKind::Package);
    assert_eq!(pkgs[1].name, "apt");
    assert_eq!(pkgs[1].version, "2.7.14");
}

#[test]
fn test_parse_apt_list_skips_header_and_junk() {
    let out = "WARNING: apt does not have a stable CLI interface. Use with caution in scripts.\nzsh/stable,now 5.9-1 amd64 [installed]\n";
    let pkgs = parse_apt_list(out);
    assert_eq!(pkgs.len(), 1);
    assert_eq!(pkgs[0].name, "zsh");
}

#[test]
fn test_parse_apt_list_empty() {
    assert!(parse_apt_list("").is_empty());
    assert!(parse_apt_list("Listing... Done\n").is_empty());
}

#[test]
fn test_parse_apt_list_sorts() {
    let out = "zsh/stable,now 5.9-1 amd64 [installed]\nalpha/stable,now 1.0 all [installed]\n";
    let pkgs = parse_apt_list(out);
    let names: Vec<&str> = pkgs.iter().map(|p| p.name.as_str()).collect();
    assert_eq!(names, vec!["alpha", "zsh"]);
}

#[test]
fn test_parse_apt_autoremove_basic() {
    let out = "Reading package lists... Done\nBuilding dependency tree... Done\nReading state information... Done\nThe following packages will be REMOVED:\n  libfoo1\n  libbar2\n0 upgraded, 0 newly installed, 2 to remove and 0 not upgraded.\n";
    assert_eq!(parse_apt_autoremove(out), vec!["libbar2", "libfoo1"]);
}

#[test]
fn test_parse_apt_autoremove_multiple_per_line() {
    let out = "The following packages will be REMOVED:\n  libfoo1 libbar2\n0 upgraded, 0 newly installed, 2 to remove.\n";
    assert_eq!(parse_apt_autoremove(out), vec!["libbar2", "libfoo1"]);
}

#[test]
fn test_parse_apt_autoremove_nothing_to_remove() {
    let out = "Reading package lists... Done\n0 upgraded, 0 newly installed, 0 to remove and 0 not upgraded.\n";
    assert!(parse_apt_autoremove(out).is_empty());
}

#[test]
fn test_parse_apt_rdepends_basic() {
    let out = "git\nReverse Depends:\n  libngtcp2\n  node\n";
    assert_eq!(parse_apt_rdepends(out), vec!["libngtcp2", "node"]);
}

#[test]
fn test_parse_apt_rdepends_none() {
    assert!(parse_apt_rdepends("git\n").is_empty());
    assert!(parse_apt_rdepends("").is_empty());
}

#[test]
fn test_brew_candidates_ordering() {
    let candidates = brew_candidates("/usr/bin:/bin");
    assert_eq!(
        candidates,
        vec!["/opt/homebrew/bin/brew", "/usr/local/bin/brew", "/usr/bin/brew", "/bin/brew"]
    );
}

#[test]
fn test_brew_candidates_filters_empty_segments() {
    let candidates = brew_candidates(":/usr/bin::/bin:");
    assert_eq!(
        candidates,
        vec!["/opt/homebrew/bin/brew", "/usr/local/bin/brew", "/usr/bin/brew", "/bin/brew"]
    );
}

#[test]
fn test_uninstall_args_formula_plain() {
    assert_eq!(uninstall_args("git", PkgKind::Formula, false, false), vec!["uninstall", "--formula", "git"]);
}

#[test]
fn test_uninstall_args_cask_with_zap() {
    assert_eq!(
        uninstall_args("firefox", PkgKind::Cask, true, false),
        vec!["uninstall", "--cask", "--zap", "firefox"]
    );
}

#[test]
fn test_uninstall_args_ignore_deps() {
    assert_eq!(
        uninstall_args("openssl@3", PkgKind::Formula, false, true),
        vec!["uninstall", "--formula", "--ignore-dependencies", "openssl@3"]
    );
}

#[test]
fn test_uninstall_args_zap_ignored_for_formula() {
    assert_eq!(uninstall_args("git", PkgKind::Formula, true, false), vec!["uninstall", "--formula", "git"]);
}

#[test]
fn test_uninstall_args_no_force_flag() {
    for (kind, zap, ignore) in [
        (PkgKind::Formula, false, false),
        (PkgKind::Cask, true, true),
        (PkgKind::Formula, true, true),
    ] {
        let args = uninstall_args("x", kind, zap, ignore);
        assert!(!args.iter().any(|a| a == "--force"), "uninstall args must never contain --force: {args:?}");
    }
}

#[test]
fn test_uses_args_shape() {
    assert_eq!(uses_args("openssl@3"), vec!["uses", "--installed", "openssl@3"]);
}

#[test]
fn test_list_args_shape() {
    assert_eq!(list_args(PkgKind::Formula), vec!["list", "--versions", "--formula"]);
    assert_eq!(list_args(PkgKind::Cask), vec!["list", "--versions", "--cask"]);
}

#[test]
fn homebrew_requires_a_brew() {
    assert_eq!(Homebrew::with_path(Some("/opt/homebrew/bin/brew".into())).require_brew(), Ok("/opt/homebrew/bin/brew".to_string()));
    assert!(Homebrew::with_path(None).require_brew().unwrap_err().contains("Homebrew is not installed"));
}

#[test]
fn test_stderr_tail_limits_lines() {
    let msg = stderr_tail("a\nb\nc\nd\ne\nf\ng\n", "tool");
    assert_eq!(msg, "tool failed:\nc\nd\ne\nf\ng");
}

#[test]
fn test_apt_error_permission_hint() {
    let msg = apt_error(
        "E: Could not open lock file /var/lib/dpkg/lock-frontend - open (13: Permission denied)\n",
        "apt-get",
    );
    assert!(msg.contains("sudo apios"), "msg: {msg}");
}

#[test]
fn test_apt_error_other_error_no_sudo_hint() {
    let msg = apt_error("E: Unable to locate package nonexistent-zzz\n", "apt-get");
    assert!(!msg.contains("sudo"), "msg: {msg}");
}

#[test]
fn brew_error_keeps_the_tail() {
    let msg = brew_error("brew", "Error: No such keg\n");
    assert!(msg.starts_with("brew failed:\n"), "msg: {msg}");
    assert!(msg.contains("No such keg"));
}

#[test]
fn apt_commands_are_fixed() {
    let apt = Apt;
    assert_eq!(apt.name(), "apt");
    assert_eq!(apt.supported_kinds(), vec![PkgKind::Package]);
    assert!(apt.list_command(PkgKind::Formula).is_none());
    assert_eq!(
        apt.list_command(PkgKind::Package),
        Some(("apt".to_string(), vec!["list".to_string(), "--installed".to_string()]))
    );
    assert_eq!(
        apt.uninstall_command("vim"),
        ("apt-get".to_string(), vec!["remove".to_string(), "-y".to_string(), "vim".to_string()])
    );
    assert_eq!(apt.dependents_command("git").0, "apt-cache");
    assert_eq!(apt.autoremove_dry_run_command().1, vec!["autoremove".to_string(), "--dry-run".to_string()]);
    assert_eq!(apt.autoremove_command().1, vec!["autoremove".to_string(), "-y".to_string()]);
}

#[test]
fn test_winget_candidates_splits_semicolon() {
    let candidates = winget_candidates(r"C:\Windows\System32;C:\Program Files\foo");
    assert_eq!(
        candidates,
        vec![r"C:\Windows\System32\winget.exe".to_string(), r"C:\Program Files\foo\winget.exe".to_string()]
    );
}

#[test]
fn test_winget_candidates_filters_empty_segments() {
    let candidates = winget_candidates(";C:\\Windows\\System32;;");
    assert_eq!(candidates, vec![r"C:\Windows\System32\winget.exe".to_string()]);
}

#[test]
fn test_parse_list_basic_table() {
    let out = "Name                    Version\n\
        -------------------------------------  -------\n\
        7-Zip                   24.09\n\
        Microsoft Edge          139.0.2849.58\n";
    let pkgs = parse_winget_list(out);
    assert_eq!(pkgs.len(), 2);
    assert_eq!(pkgs[0].name, "7-Zip");
    assert_eq!(pkgs[0].version, "24.09");
    assert_eq!(pkgs[1].name, "Microsoft Edge");
    assert_eq!(pkgs[1].version, "139.0.2849.58");
    assert!(pkgs.iter().all(|p| p.kind == PkgKind::Formula));
}

#[test]
fn test_parse_list_empty_and_header_only() {
    assert!(parse_winget_list("").is_empty());
    assert!(parse_winget_list("Name    Version\n--------  -------\n").is_empty());
}

#[test]
fn test_parse_list_skips_noise_lines() {
    let out = "Name    Version\n--------  -------\n\
        Some package \"note\" text\n\
        Foo       1.0.0\n";
    let pkgs = parse_winget_list(out);
    assert_eq!(pkgs.len(), 1);
    assert_eq!(pkgs[0].name, "Foo");
}

#[test]
fn test_parse_list_sorts() {
    let out = "Name    Version\n--------  -------\n\
        zz 2.0\naa 1.0\n";
    let pkgs = parse_winget_list(out);
    assert_eq!(pkgs[0].name, "aa");
    assert_eq!(pkgs[1].name, "zz");
}

#[test]
fn winget_requires_a_winget() {
    assert!(Winget::with_path(None).require_winget().unwrap_err().contains("winget is not installed"));
    assert_eq!(Winget::with_path(Some("w.exe".into())).require_winget(), Ok("w.exe".to_string()));
    assert!(Winget::list_args(PkgKind::Cask).is_none());
    assert_eq!(
        Winget::list_args(PkgKind::Formula).unwrap(),
        vec!["list", "--columns", "Name,Version", "--accept-source-agreements", "--disable-interactivity"]
    );
    assert_eq!(
        Winget::uninstall_args("Foo"),
        vec!["uninstall", "--name", "Foo", "--silent", "--accept-source-agreements", "--disable-interactivity"]
    );
}

#[test]
fn winget_error_prefers_a_short_first_line() {
    assert_eq!(winget_error("list", "No installed package found\nmore\n"), "winget: No installed package found");
    let long = "x".repeat(200);
    assert_eq!(winget_error("list", &format!("{long}\ntail\n")), format!("winget list failed:\n{long}\ntail"));
    assert_eq!(winget_error("list", ""), "winget list failed:\n");
}

#[test]
fn zap_only_for_casks() {
    assert!(!zap_applies(true, PkgKind::Formula));
    assert!(zap_applies(true, PkgKind::Cask));
    assert!(!zap_applies(false, PkgKind::Cask));
    assert_eq!(kind_plural(PkgKind::Formula), "Formulae");
    assert_eq!(kind_plural(PkgKind::Cask), "Casks");
}
