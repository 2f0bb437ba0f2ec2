use apios_core::flows::{Line, LineKind, PkgAction, PkgEvent, PkgFlow, PkgPhase};
use apios_core::pkg::PkgKind;

fn strings(v: &[&str]) -> Vec<String> {
    v.iter().map(|s| s.to_string()).collect()
}

fn shown(lines: &[Line]) -> Vec<(LineKind, String)> {
    lines.iter().map(|l| (l.kind, l.text.clone())).collect()
}

/// Feeds one event and moves the flow on.
fn feed(flow: &mut PkgFlow, e: PkgEvent) -> (PkgAction, Vec<(LineKind, String)>) {
    let (phase, action, lines) = flow.step(&e);
    flow.phase = phase;
    (action, shown(&lines))
}

#[test]
fn cask_uninstall_with_zap_asks_twice() {
    let mut flow = PkgFlow::uninstall("brew", "firefox", true);
    assert_eq!(flow.phase, PkgPhase::Start);
    assert_eq!(feed(&mut flow, PkgEvent::Begin), (PkgAction::ListInstalled, vec![]));
    let listed = PkgEvent::Listed { formulae: Ok(strings(&["git"])), casks: Ok(strings(&["firefox"])) };
    assert_eq!(feed(&mut flow, listed), (PkgAction::QueryDependents { kind: PkgKind::Cask }, vec![]));
    assert_eq!(flow.phase, PkgPhase::Dependents { kind: PkgKind::Cask, zap: true });
    assert_eq!(
        feed(&mut flow, PkgEvent::Dependents(Ok(vec![]))),
        (PkgAction::Ask, vec![(LineKind::Question, "Uninstall cask \"firefox\"? ".to_string())])
    );
    assert_eq!(
        feed(&mut flow, PkgEvent::Answer(true)),
        (
            PkgAction::Ask,
            vec![
                (
                    LineKind::Stdout,
                    "WARNING: --zap also removes user config and preferences for \"firefox\" (irreversible)."
                        .to_string()
                ),
                (LineKind::Question, "Proceed with --zap? ".to_string()),
            ]
        )
    );
    assert_eq!(
        feed(&mut flow, PkgEvent::Answer(true)),
        (PkgAction::Uninstall { kind: PkgKind::Cask, zap: true, ignore_deps: false }, vec![])
    );
    assert_eq!(
        feed(&mut flow, PkgEvent::Uninstalled(Ok(()))),
        (PkgAction::AutoremoveDryRun, vec![(LineKind::Stdout, "Uninstalled firefox.".to_string())])
    );
    assert_eq!(
        feed(&mut flow, PkgEvent::Orphans(Ok(strings(&["libfoo", "libbar"])))),
        (
            PkgAction::Ask,
            vec![
                (LineKind::Stdout, "\n2 orphaned package(s) detected:".to_string()),
                (LineKind::Stdout, "  libfoo".to_string()),
                (LineKind::Stdout, "  libbar".to_string()),
                (LineKind::Question, "Autoremove 2 package(s)? ".to_string()),
            ]
        )
    );
    assert_eq!(
        feed(&mut flow, PkgEvent::Answer(false)),
        (
            PkgAction::Exit { code: 0 },
            vec![(LineKind::Stdout, "Hint: run `apios pkg brew autoremove` to remove them.".to_string())]
        )
    );
    assert_eq!(flow.phase, PkgPhase::Finished);
}

#[test]
fn formula_ignores_zap_and_warns_about_dependents() {
    let mut flow = PkgFlow::uninstall("brew", "openssl", true);
    feed(&mut flow, PkgEvent::Begin);
    let listed = PkgEvent::Listed { formulae: Ok(strings(&["openssl"])), casks: Ok(vec![]) };
    assert_eq!(
        feed(&mut flow, listed),
        (
            PkgAction::QueryDependents { kind: PkgKind::Formula },
            vec![(LineKind::Stderr, "apios: warning: --zap only applies to casks; ignoring it.".to_string())]
        )
    );
    assert_eq!(
        feed(&mut flow, PkgEvent::Dependents(Ok(strings(&["curl", "python"])))),
        (
            PkgAction::Ask,
            vec![
                (LineKind::Stdout, "Warning: 2 installed package(s) depend on \"openssl\":".to_string()),
                (LineKind::Stdout, "  curl".to_string()),
                (LineKind::Stdout, "  python".to_string()),
                (LineKind::Stdout, "Uninstall will use --ignore-dependencies.".to_string()),
                (LineKind::Question, "Uninstall formula \"openssl\"? ".to_string()),
            ]
        )
    );
    assert_eq!(
        feed(&mut flow, PkgEvent::Answer(true)),
        (PkgAction::Uninstall { kind: PkgKind::Formula, zap: false, ignore_deps: true }, vec![])
    );
}

#[test]
fn refused_uninstall_deletes_nothing() {
    let mut flow = PkgFlow::uninstall("brew", "git", false);
    feed(&mut flow, PkgEvent::Begin);
    feed(&mut flow, PkgEvent::Listed { formulae: Ok(strings(&["git"])), casks: Ok(vec![]) });
    feed(&mut flow, PkgEvent::Dependents(Ok(vec![])));
    assert_eq!(
        feed(&mut flow, PkgEvent::Answer(false)),
        (
            PkgAction::Exit { code: 0 },
            vec![(LineKind::Stdout, "Aborted — nothing was deleted.".to_string())]
        )
    );
}

#[test]
fn zap_refused_uninstalls_without_it() {
    let mut flow = PkgFlow::uninstall("brew", "firefox", true);
    feed(&mut flow, PkgEvent::Begin);
    feed(&mut flow, PkgEvent::Listed { formulae: Ok(vec![]), casks: Ok(strings(&["firefox"])) });
    feed(&mut flow, PkgEvent::Dependents(Ok(vec![])));
    feed(&mut flow, PkgEvent::Answer(true));
    assert_eq!(
        feed(&mut flow, PkgEvent::Answer(false)),
        (
            PkgAction::Uninstall { kind: PkgKind::Cask, zap: false, ignore_deps: false },
            vec![(LineKind::Stdout, "Skipping --zap; uninstalling without it.".to_string())]
        )
    );
}

#[test]
fn package_not_installed_exits_with_error() {
    let mut flow = PkgFlow::uninstall("brew", "nothere", false);
    feed(&mut flow, PkgEvent::Begin);
    assert_eq!(
        feed(&mut flow, PkgEvent::Listed { formulae: Ok(strings(&["git"])), casks: Ok(vec![]) }),
        (
            PkgAction::Exit { code: 1 },
            vec![(
                LineKind::Stderr,
                "apios: brew: \"nothere\" is not installed (run `apios pkg brew list`).".to_string()
            )]
        )
    );
}

#[test]
fn listing_error_is_reported_first_for_formulae() {
    let mut flow = PkgFlow::uninstall("brew", "git", false);
    feed(&mut flow, PkgEvent::Begin);
    let listed = PkgEvent::Listed { formulae: Err("f broke".to_string()), casks: Err("c broke".to_string()) };
    assert_eq!(
        feed(&mut flow, listed),
        (PkgAction::Exit { code: 1 }, vec![(LineKind::Stderr, "apios: brew: f broke".to_string())])
    );
}

#[test]
fn failed_uninstall_and_failed_autoremove() {
    let mut flow = PkgFlow::uninstall("apt", "vim", false);
    feed(&mut flow, PkgEvent::Begin);
    feed(&mut flow, PkgEvent::Listed { formulae: Ok(vec![]), casks: Ok(strings(&["vim"])) });
    feed(&mut flow, PkgEvent::Dependents(Ok(vec![])));
    feed(&mut flow, PkgEvent::Answer(true));
    let mut second = flow.clone();
    assert_eq!(
        feed(&mut flow, PkgEvent::Uninstalled(Err("locked".to_string()))),
        (PkgAction::Exit { code: 1 }, vec![(LineKind::Stderr, "apios: apt: locked".to_string())])
    );
    feed(&mut second, PkgEvent::Uninstalled(Ok(())));
    feed(&mut second, PkgEvent::Orphans(Ok(strings(&["a"]))));
    assert_eq!(feed(&mut second, PkgEvent::Answer(true)), (PkgAction::Autoremove, vec![]));
    assert_eq!(
        feed(&mut second, PkgEvent::Autoremoved(Err("boom".to_string()))),
        (
            PkgAction::Exit { code: 0 },
            vec![
                (LineKind::Stderr, "apios: warning: autoremove failed: boom".to_string()),
                (LineKind::Stdout, "Hint: run `apios pkg apt autoremove` to retry.".to_string()),
            ]
        )
    );
}

#[test]
fn dry_run_failure_after_uninstall_is_a_warning() {
    let mut flow = PkgFlow::uninstall("brew", "git", false);
    flow.phase = PkgPhase::DryRun;
    assert_eq!(
        feed(&mut flow, PkgEvent::Orphans(Err("no".to_string()))),
        (
            PkgAction::Exit { code: 0 },
            vec![(LineKind::Stderr, "apios: warning: autoremove dry-run failed: no".to_string())]
        )
    );
    let mut quiet = PkgFlow::uninstall("brew", "git", false);
    quiet.phase = PkgPhase::DryRun;
    assert_eq!(feed(&mut quiet, PkgEvent::Orphans(Ok(vec![]))), (PkgAction::Exit { code: 0 }, vec![]));
}

#[test]
fn autoremove_conversation() {
    let mut empty = PkgFlow::autoremove("brew");
    assert_eq!(feed(&mut empty, PkgEvent::Begin), (PkgAction::AutoremoveDryRun, vec![]));
    assert_eq!(
        feed(&mut empty, PkgEvent::Orphans(Ok(vec![]))),
        (PkgAction::Exit { code: 0 }, vec![(LineKind::Stdout, "Nothing to autoremove.".to_string())])
    );

    let mut flow = PkgFlow::autoremove("brew");
    feed(&mut flow, PkgEvent::Begin);
    assert_eq!(
        feed(&mut flow, PkgEvent::Orphans(Ok(strings(&["x"])))),
        (
            PkgAction::Ask,
            vec![
                (LineKind::Stdout, "Autoremove 1 package(s):".to_string()),
                (LineKind::Stdout, "  x".to_string()),
                (LineKind::Question, "Autoremove 1 package(s)? ".to_string()),
            ]
        )
    );
    assert_eq!(feed(&mut flow, PkgEvent::Answer(true)), (PkgAction::Autoremove, vec![]));
    assert_eq!(
        feed(&mut flow, PkgEvent::Autoremoved(Ok(()))),
        (PkgAction::Exit { code: 0 }, vec![(LineKind::Stdout, "Autoremoved 1 package(s).".to_string())])
    );

    let mut failing = PkgFlow::autoremove("brew");
    failing.phase = PkgPhase::AutoremoveRunning { count: 3 };
    assert_eq!(
        feed(&mut failing, PkgEvent::Autoremoved(Err("boom".to_string()))),
        (PkgAction::Exit { code: 1 }, vec![(LineKind::Stderr, "apios: brew: boom".to_string())])
    );
}

#[test]
fn unexpected_event_ends_the_conversation() {
    let mut flow = PkgFlow::uninstall("brew", "git", false);
    assert_eq!(feed(&mut flow, PkgEvent::Answer(true)), (PkgAction::Exit { code: 1 }, vec![]));
    assert_eq!(flow.phase, PkgPhase::Finished);
}

fn result(success: bool, moved: usize, failed: &[&str], blocked: &[&str]) -> apios_core::trash::DeleteResult {
    apios_core::trash::DeleteResult {
        success,
        bundle_folder: "/Users/u/.Trash/Foo_2024-01-01_00-00-00".to_string(),
        moved: (0..moved)
            .map(|i| apios_core::trash::FilePair {
                trash_path: format!("/t/{i}"),
                original_path: format!("/o/{i}"),
            })
            .collect(),
        blocked: strings(blocked),
        failed: strings(failed),
    }
}

#[test]
fn removal_report_success_with_failures() {
    let (code, lines) = apios_core::flows::removal_report(&result(true, 2, &["/x"], &[]), false, "unused");
    assert_eq!(code, 0);
    assert_eq!(
        shown(&lines),
        vec![
            (
                LineKind::Stdout,
                "\nDeleted 2 files to Trash (/Users/u/.Trash/Foo_2024-01-01_00-00-00)".to_string()
            ),
            (LineKind::Stderr, "Failed to delete 1 files (in use or protected).".to_string()),
        ]
    );
    let (code, lines) = apios_core::flows::removal_report(&result(true, 1, &[], &[]), true, "unused");
    assert_eq!(code, 0);
    assert_eq!(shown(&lines), vec![(LineKind::Stdout, "\nDeleted 1 files to Recycle Bin".to_string())]);
}

#[test]
fn removal_report_nothing_to_delete_lists_refused_paths() {
    let (code, lines) = apios_core::flows::removal_report(&result(false, 0, &[], &["/Library", "/"]), false, "x");
    assert_eq!(code, 0);
    assert_eq!(
        shown(&lines),
        vec![
            (LineKind::Stderr, "Skipped 2 protected path(s):".to_string()),
            (LineKind::Stderr, "  /Library".to_string()),
            (LineKind::Stderr, "  /".to_string()),
            (LineKind::Stdout, "Nothing to delete.".to_string()),
        ]
    );
}

#[test]
fn removal_report_failure_exits_one() {
    let (code, lines) =
        apios_core::flows::removal_report(&result(false, 1, &["/a"], &[]), false, "failed to delete orphaned files.");
    assert_eq!(code, 1);
    assert_eq!(shown(&lines), vec![(LineKind::Stderr, "\napios: failed to delete orphaned files.".to_string())]);
}

use apios_core::flows::{RemovalAction, RemovalEvent, RemovalFlow, RemovalPhase};

fn removal(nothing: Option<&str>, hint: Option<&str>, kill: bool, plugins: bool) -> RemovalFlow {
    RemovalFlow::new(
        nothing.map(|s| s.to_string()),
        hint.map(|s| s.to_string()),
        kill,
        plugins,
        "failed to delete orphaned files.".to_string(),
        false,
    )
}

fn feed_removal(flow: &mut RemovalFlow, e: RemovalEvent) -> (RemovalAction, Vec<(LineKind, String)>) {
    let (phase, action, lines) = flow.step(&e);
    flow.phase = phase;
    (action, shown(&lines))
}

#[test]
fn uninstall_removal_asks_then_kills_then_deletes() {
    let mut flow = removal(None, Some("apios uninstall Foo"), true, false);
    assert_eq!(feed_removal(&mut flow, RemovalEvent::Begin), (RemovalAction::Plan, vec![]));
    assert_eq!(
        feed_removal(&mut flow, RemovalEvent::Planned { count: 0 }),
        (RemovalAction::CheckProtected, vec![])
    );
    assert_eq!(feed_removal(&mut flow, RemovalEvent::Protected(vec![])), (RemovalAction::ConfirmPlan, vec![]));
    assert_eq!(feed_removal(&mut flow, RemovalEvent::Answer(true)), (RemovalAction::Kill, vec![]));
    assert_eq!(
        feed_removal(&mut flow, RemovalEvent::Killed(2)),
        (RemovalAction::Delete, vec![(LineKind::Stdout, "Terminated 2 running process(es).".to_string())])
    );
    let (action, lines) = feed_removal(&mut flow, RemovalEvent::Deleted(result(true, 3, &[], &[])));
    assert_eq!(action, RemovalAction::Exit { code: 0 });
    assert_eq!(
        lines,
        vec![(
            LineKind::Stdout,
            "\nDeleted 3 files to Trash (/Users/u/.Trash/Foo_2024-01-01_00-00-00)".to_string()
        )]
    );
    assert_eq!(flow.phase, RemovalPhase::Finished);
}

#[test]
fn removal_stops_when_nothing_is_planned() {
    let mut flow = removal(Some("No orphaned files found."), Some("apios clean-orphan"), false, false);
    feed_removal(&mut flow, RemovalEvent::Begin);
    assert_eq!(
        feed_removal(&mut flow, RemovalEvent::Planned { count: 0 }),
        (RemovalAction::Exit { code: 0 }, vec![(LineKind::Stdout, "No orphaned files found.".to_string())])
    );
}

#[test]
fn removal_refuses_protected_files() {
    let mut flow = removal(None, Some("apios clean-orphan"), false, false);
    feed_removal(&mut flow, RemovalEvent::Begin);
    feed_removal(&mut flow, RemovalEvent::Planned { count: 2 });
    assert_eq!(
        feed_removal(&mut flow, RemovalEvent::Protected(strings(&["/Library/x"]))),
        (
            RemovalAction::Exit { code: 1 },
            vec![
                (LineKind::Stderr, "apios: protected files detected — please run with sudo:".to_string()),
                (LineKind::Stderr, "  sudo apios clean-orphan".to_string()),
                (LineKind::Stderr, "Protected files:".to_string()),
                (LineKind::Stderr, "  /Library/x".to_string()),
            ]
        )
    );
}

#[test]
fn refused_removal_deletes_nothing() {
    let mut flow = removal(None, None, true, false);
    feed_removal(&mut flow, RemovalEvent::Begin);
    assert_eq!(
        feed_removal(&mut flow, RemovalEvent::Planned { count: 1 }),
        (RemovalAction::ConfirmPlan, vec![])
    );
    assert_eq!(
        feed_removal(&mut flow, RemovalEvent::Answer(false)),
        (
            RemovalAction::Exit { code: 0 },
            vec![(LineKind::Stdout, "Aborted — nothing was deleted.".to_string())]
        )
    );
}

#[test]
fn plugin_removal_reports_files_not_moved() {
    let mut flow = removal(Some("Nothing to delete."), None, false, true);
    feed_removal(&mut flow, RemovalEvent::Begin);
    feed_removal(&mut flow, RemovalEvent::Planned { count: 2 });
    assert_eq!(feed_removal(&mut flow, RemovalEvent::Answer(true)), (RemovalAction::Delete, vec![]));
    assert_eq!(
        feed_removal(&mut flow, RemovalEvent::Deleted(result(false, 1, &["/p"], &[]))),
        (
            RemovalAction::Exit { code: 1 },
            vec![(LineKind::Stderr, "apios: 1 file(s) could not be moved".to_string())]
        )
    );
}

use apios_core::flows::{ThinAction, ThinEvent, ThinFlow, ThinPhase};

fn feed_thin(flow: &mut ThinFlow, e: ThinEvent) -> (ThinAction, Vec<(LineKind, String)>) {
    let (phase, action, lines) = flow.step(&e);
    flow.phase = phase;
    (action, shown(&lines))
}

#[test]
fn thinning_with_signing() {
    let mut flow = ThinFlow::new("Foo.app", true);
    assert_eq!(feed_thin(&mut flow, ThinEvent::Begin), (ThinAction::Plan, vec![]));
    assert_eq!(feed_thin(&mut flow, ThinEvent::Planned { count: 2 }), (ThinAction::ShowPlan, vec![]));
    assert_eq!(
        feed_thin(&mut flow, ThinEvent::PlanShown),
        (
            ThinAction::Ask,
            vec![
                (
                    LineKind::Stdout,
                    "WARNING: irreversible — binaries are overwritten in place; they will be re-signed ad-hoc."
                        .to_string()
                ),
                (LineKind::Question, "Thin 2 binary(ies)? ".to_string()),
            ]
        )
    );
    assert_eq!(feed_thin(&mut flow, ThinEvent::Answer(true)), (ThinAction::Thin, vec![]));
    assert_eq!(
        feed_thin(&mut flow, ThinEvent::Thinned { thinned: 2, failed: 0, freed: "1.5 MB".to_string() }),
        (ThinAction::Sign, vec![(LineKind::Stdout, "Thinned 2 binary(ies) — freed 1.5 MB.".to_string())])
    );
    assert_eq!(
        feed_thin(&mut flow, ThinEvent::Signed { signed: 1, failed: 1 }),
        (
            ThinAction::Exit { code: 0 },
            vec![
                (LineKind::Stdout, "Re-signed 1 binary(ies) (ad-hoc).".to_string()),
                (
                    LineKind::Stderr,
                    "apios: warning: 1 binary(ies) left unsigned — the app may not launch.".to_string()
                ),
            ]
        )
    );
    assert_eq!(flow.phase, ThinPhase::Finished);
}

#[test]
fn thinning_without_signing_and_failures() {
    let mut flow = ThinFlow::new("Foo.app", false);
    assert_eq!(
        {
            feed_thin(&mut flow, ThinEvent::Begin);
            feed_thin(&mut flow, ThinEvent::Planned { count: 0 })
        },
        (ThinAction::Exit { code: 0 }, vec![(LineKind::Stdout, "Nothing to thin in Foo.app.".to_string())])
    );
    let mut flow = ThinFlow::new("Foo.app", false);
    flow.phase = ThinPhase::Thinning { count: 3 };
    assert_eq!(
        feed_thin(&mut flow, ThinEvent::Thinned { thinned: 1, failed: 2, freed: "0 B".to_string() }),
        (
            ThinAction::Exit { code: 1 },
            vec![(LineKind::Stderr, "apios: failed to thin 2 of 3 binary(ies).".to_string())]
        )
    );
    let mut flow = ThinFlow::new("Foo.app", false);
    flow.phase = ThinPhase::Thinning { count: 1 };
    assert_eq!(
        feed_thin(&mut flow, ThinEvent::Thinned { thinned: 1, failed: 0, freed: "10 B".to_string() }),
        (
            ThinAction::Exit { code: 0 },
            vec![
                (LineKind::Stdout, "Thinned 1 binary(ies) — freed 10 B.".to_string()),
                (
                    LineKind::Stdout,
                    "Code signatures were invalidated — re-run with `apios lipo thin --sign` to re-sign ad-hoc."
                        .to_string()
                ),
            ]
        )
    );
    let mut flow = ThinFlow::new("Foo.app", false);
    flow.phase = ThinPhase::Confirming { count: 1 };
    assert_eq!(
        feed_thin(&mut flow, ThinEvent::Answer(false)),
        (
            ThinAction::Exit { code: 0 },
            vec![(LineKind::Stdout, "Aborted — nothing was deleted.".to_string())]
        )
    );
}
