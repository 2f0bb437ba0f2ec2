//! The conversations of the destructive commands: uninstalling a package,
//! removing orphaned dependencies, moving files to the trash (an
//! application and its files, orphans, development caches, plug-ins) and
//! thinning universal binaries. Each
//! is a state machine: given its phase and what the last piece of outside
//! work gave (a listing, an answer, the outcome of a command), it says the
//! next phase, the next piece of work and the lines to show. The program
//! runs the work and feeds the outcome back.

use vstd::prelude::*;

use crate::cli::{deleted_message, deleted_text, zap_applies};
use crate::trash::DeleteResult;
use crate::pkg::{detect_kind, kind_of, PkgKind};
use crate::text::{concat, owned, sseqs, string_of};
use crate::xdg::{decimal, decimal_chars};

verus! {

/// Where a line goes: standard output, standard error, or a question
/// waiting for a yes or no.
#[derive(Clone, Copy, PartialEq, Eq, Debug, Structural)]
pub enum LineKind {
    Stdout,
    Stderr,
    Question,
}

/// One line to show.
#[derive(Clone, Debug)]
pub struct Line {
    pub kind: LineKind,
    pub text: String,
}

/// Lines as plain values.
pub open spec fn line_views(v: Seq<Line>) -> Seq<(LineKind, Seq<char>)> {
    v.map_values(|l: Line| (l.kind, l.text@))
}

/// Where a package conversation stands.
#[derive(Clone, Copy, PartialEq, Eq, Debug, Structural)]
pub enum PkgPhase {
    /// An uninstall that has not started.
    Start,
    /// Waiting for the installed formulae and casks.
    Listing,
    /// Waiting for the packages that depend on the package; `zap` is whether
    /// `--zap` still applies to its kind.
    Dependents { kind: PkgKind, zap: bool },
    /// Waiting for the answer to "uninstall?".
    Confirm { kind: PkgKind, zap: bool, ignore_deps: bool },
    /// Waiting for the answer to "proceed with --zap?".
    ConfirmZap { kind: PkgKind, ignore_deps: bool },
    /// Waiting for the uninstall to finish.
    Uninstalling,
    /// Waiting for the dry run of autoremove after an uninstall.
    DryRun,
    /// Waiting for the answer to "autoremove?" after an uninstall.
    ConfirmAutoremove { count: usize },
    /// Waiting for autoremove to finish after an uninstall.
    Autoremoving { count: usize },
    /// An autoremove that has not started.
    StartAutoremove,
    /// Waiting for the dry run of an autoremove.
    AutoremoveDryRun,
    /// Waiting for the answer to "autoremove?".
    AutoremoveConfirm { count: usize },
    /// Waiting for autoremove to finish.
    AutoremoveRunning { count: usize },
    /// The conversation is over.
    Finished,
}

/// What the last piece of outside work gave.
#[derive(Debug)]
pub enum PkgEvent {
    /// The conversation starts.
    Begin,
    /// The installed formulae and casks, or the error of each listing.
    Listed { formulae: Result<Vec<String>, String>, casks: Result<Vec<String>, String> },
    /// The packages that depend on the package, or the error.
    Dependents(Result<Vec<String>, String>),
    /// The answer to the question shown.
    Answer(bool),
    /// The outcome of the uninstall.
    Uninstalled(Result<(), String>),
    /// The packages a dry run of autoremove would remove, or the error.
    Orphans(Result<Vec<String>, String>),
    /// The outcome of autoremove.
    Autoremoved(Result<(), String>),
}

/// The next piece of outside work.
#[derive(Clone, Copy, PartialEq, Eq, Debug, Structural)]
pub enum PkgAction {
    /// List the installed formulae and casks.
    ListInstalled,
    /// Ask which installed packages depend on the package.
    QueryDependents { kind: PkgKind },
    /// Ask the question of the last line shown.
    Ask,
    /// Uninstall the package.
    Uninstall { kind: PkgKind, zap: bool, ignore_deps: bool },
    /// Run autoremove as a dry run.
    AutoremoveDryRun,
    /// Run autoremove.
    Autoremove,
    /// End the program with this status.
    Exit { code: i32 },
}

/// A package conversation: the manager's name, the package's name, whether
/// `--zap` was asked for, and the phase.
#[derive(Clone, Debug)]
pub struct PkgFlow {
    pub pm: String,
    pub name: String,
    pub zap: bool,
    pub phase: PkgPhase,
}

/// The name of a kind as shown.
pub open spec fn kind_text(k: PkgKind) -> Seq<char> {
    match k {
        PkgKind::Formula => "formula"@,
        PkgKind::Cask => "cask"@,
        PkgKind::Package => "package"@,
    }
}

/// A manager's error: `apios: <pm>: <error>` on standard error.
pub open spec fn pm_error(pm: Seq<char>, e: Seq<char>) -> (LineKind, Seq<char>) {
    (LineKind::Stderr, "apios: "@ + pm + ": "@ + e)
}

/// A package not installed.
pub open spec fn not_installed(pm: Seq<char>, name: Seq<char>) -> (LineKind, Seq<char>) {
    (
        LineKind::Stderr,
        "apios: "@ + pm + ": \""@ + name + "\" is not installed (run `apios pkg "@ + pm
            + " list`)."@,
    )
}

/// Package names, one per line, indented by two spaces.
pub open spec fn item_lines(items: Seq<String>) -> Seq<(LineKind, Seq<char>)> {
    items.map_values(|s: String| (LineKind::Stdout, "  "@ + s@))
}

/// The warning shown when other packages depend on the package.
pub open spec fn dependents_warning(name: Seq<char>, deps: Seq<String>) -> Seq<
    (LineKind, Seq<char>),
> {
    if deps.len() == 0 {
        Seq::empty()
    } else {
        seq![
            (
                LineKind::Stdout,
                "Warning: "@ + decimal(deps.len()) + " installed package(s) depend on \""@ + name
                    + "\":"@,
            ),
        ] + item_lines(deps) + seq![(LineKind::Stdout, "Uninstall will use --ignore-dependencies."@)]
    }
}

/// The question asked before an uninstall.
pub open spec fn uninstall_prompt(k: PkgKind, name: Seq<char>) -> (LineKind, Seq<char>) {
    (LineKind::Question, "Uninstall "@ + kind_text(k) + " \""@ + name + "\"? "@)
}

/// The line of a refused confirmation.
pub open spec fn aborted() -> (LineKind, Seq<char>) {
    (LineKind::Stdout, "Aborted — nothing was deleted."@)
}

/// The question asked before autoremove.
pub open spec fn autoremove_prompt(n: nat) -> (LineKind, Seq<char>) {
    (LineKind::Question, "Autoremove "@ + decimal(n) + " package(s)? "@)
}

/// The line of a finished autoremove.
pub open spec fn autoremoved(n: nat) -> (LineKind, Seq<char>) {
    (LineKind::Stdout, "Autoremoved "@ + decimal(n) + " package(s)."@)
}

/// A hint to run autoremove, ending with `tail`.
pub open spec fn autoremove_hint(pm: Seq<char>, tail: Seq<char>) -> (LineKind, Seq<char>) {
    (LineKind::Stdout, "Hint: run `apios pkg "@ + pm + tail)
}

/// The step of a package conversation: from the flow's phase and the
/// event, the next phase, the next piece of work and the lines to show.
/// An event that does not belong to the phase ends the conversation with
/// status 1.
pub open spec fn pkg_next(f: PkgFlow, e: PkgEvent) -> (PkgPhase, PkgAction, Seq<(LineKind, Seq<char>)>) {
    let pm = f.pm@;
    let name = f.name@;
    let unexpected = (PkgPhase::Finished, PkgAction::Exit { code: 1 }, Seq::empty());
    match f.phase {
        PkgPhase::Start => match e {
            PkgEvent::Begin => (PkgPhase::Listing, PkgAction::ListInstalled, Seq::empty()),
            _ => unexpected,
        },
        PkgPhase::Listing => match e {
            PkgEvent::Listed { formulae, casks } => match (formulae, casks) {
                (Err(x), _) => (PkgPhase::Finished, PkgAction::Exit { code: 1 }, seq![pm_error(pm, x@)]),
                (Ok(_), Err(x)) => (
                    PkgPhase::Finished,
                    PkgAction::Exit { code: 1 },
                    seq![pm_error(pm, x@)],
                ),
                (Ok(fs), Ok(cs)) => match kind_of(name, fs@, cs@) {
                    None => (
                        PkgPhase::Finished,
                        PkgAction::Exit { code: 1 },
                        seq![not_installed(pm, name)],
                    ),
                    Some(k) => (
                        PkgPhase::Dependents { kind: k, zap: f.zap && k != PkgKind::Formula },
                        PkgAction::QueryDependents { kind: k },
                        if f.zap && k == PkgKind::Formula {
                            seq![
                                (
                                    LineKind::Stderr,
                                    "apios: warning: --zap only applies to casks; ignoring it."@,
                                ),
                            ]
                        } else {
                            Seq::empty()
                        },
                    ),
                },
            },
            _ => unexpected,
        },
        PkgPhase::Dependents { kind, zap } => match e {
            PkgEvent::Dependents(Err(x)) => (
                PkgPhase::Finished,
                PkgAction::Exit { code: 1 },
                seq![pm_error(pm, x@)],
            ),
            PkgEvent::Dependents(Ok(d)) => (
                PkgPhase::Confirm { kind, zap, ignore_deps: d@.len() > 0 },
                PkgAction::Ask,
                dependents_warning(name, d@) + seq![uninstall_prompt(kind, name)],
            ),
            _ => unexpected,
        },
        PkgPhase::Confirm { kind, zap, ignore_deps } => match e {
            PkgEvent::Answer(yes) => if !yes {
                (PkgPhase::Finished, PkgAction::Exit { code: 0 }, seq![aborted()])
            } else if zap {
                (
                    PkgPhase::ConfirmZap { kind, ignore_deps },
                    PkgAction::Ask,
                    seq![
                        (
                            LineKind::Stdout,
                            "WARNING: --zap also removes user config and preferences for \""@ + name
                                + "\" (irreversible)."@,
                        ),
                        (LineKind::Question, "Proceed with --zap? "@),
                    ],
                )
            } else {
                (
                    PkgPhase::Uninstalling,
                    PkgAction::Uninstall { kind, zap: false, ignore_deps },
                    Seq::empty(),
                )
            },
            _ => unexpected,
        },
        PkgPhase::ConfirmZap { kind, ignore_deps } => match e {
            PkgEvent::Answer(yes) => if yes {
                (
                    PkgPhase::Uninstalling,
                    PkgAction::Uninstall { kind, zap: true, ignore_deps },
                    Seq::empty(),
                )
            } else {
                (
                    PkgPhase::Uninstalling,
                    PkgAction::Uninstall { kind, zap: false, ignore_deps },
                    seq![(LineKind::Stdout, "Skipping --zap; uninstalling without it."@)],
                )
            },
            _ => unexpected,
        },
        PkgPhase::Uninstalling => match e {
            PkgEvent::Uninstalled(Err(x)) => (
                PkgPhase::Finished,
                PkgAction::Exit { code: 1 },
                seq![pm_error(pm, x@)],
            ),
            PkgEvent::Uninstalled(Ok(_)) => (
                PkgPhase::DryRun,
                PkgAction::AutoremoveDryRun,
                seq![(LineKind::Stdout, "Uninstalled "@ + name + "."@)],
            ),
            _ => unexpected,
        },
        PkgPhase::DryRun => match e {
            PkgEvent::Orphans(Err(x)) => (
                PkgPhase::Finished,
                PkgAction::Exit { code: 0 },
                seq![(LineKind::Stderr, "apios: warning: autoremove dry-run failed: "@ + x@)],
            ),
            PkgEvent::Orphans(Ok(o)) => if o@.len() == 0 {
                (PkgPhase::Finished, PkgAction::Exit { code: 0 }, Seq::empty())
            } else {
                (
                    PkgPhase::ConfirmAutoremove { count: o@.len() as usize },
                    PkgAction::Ask,
                    seq![(LineKind::Stdout, "\n"@ + decimal(o@.len()) + " orphaned package(s) detected:"@)]
                        + item_lines(o@) + seq![autoremove_prompt(o@.len())],
                )
            },
            _ => unexpected,
        },
        PkgPhase::ConfirmAutoremove { count } => match e {
            PkgEvent::Answer(yes) => if yes {
                (PkgPhase::Autoremoving { count }, PkgAction::Autoremove, Seq::empty())
            } else {
                (
                    PkgPhase::Finished,
                    PkgAction::Exit { code: 0 },
                    seq![autoremove_hint(pm, " autoremove` to remove them."@)],
                )
            },
            _ => unexpected,
        },
        PkgPhase::Autoremoving { count } => match e {
            PkgEvent::Autoremoved(Ok(_)) => (
                PkgPhase::Finished,
                PkgAction::Exit { code: 0 },
                seq![autoremoved(count as nat)],
            ),
            PkgEvent::Autoremoved(Err(x)) => (
                PkgPhase::Finished,
                PkgAction::Exit { code: 0 },
                seq![
                    (LineKind::Stderr, "apios: warning: autoremove failed: "@ + x@),
                    autoremove_hint(pm, " autoremove` to retry."@),
                ],
            ),
            _ => unexpected,
        },
        PkgPhase::StartAutoremove => match e {
            PkgEvent::Begin => (PkgPhase::AutoremoveDryRun, PkgAction::AutoremoveDryRun, Seq::empty()),
            _ => unexpected,
        },
        PkgPhase::AutoremoveDryRun => match e {
            PkgEvent::Orphans(Err(x)) => (
                PkgPhase::Finished,
                PkgAction::Exit { code: 1 },
                seq![pm_error(pm, x@)],
            ),
            PkgEvent::Orphans(Ok(o)) => if o@.len() == 0 {
                (
                    PkgPhase::Finished,
                    PkgAction::Exit { code: 0 },
                    seq![(LineKind::Stdout, "Nothing to autoremove."@)],
                )
            } else {
                (
                    PkgPhase::AutoremoveConfirm { count: o@.len() as usize },
                    PkgAction::Ask,
                    seq![(LineKind::Stdout, "Autoremove "@ + decimal(o@.len()) + " package(s):"@)]
                        + item_lines(o@) + seq![autoremove_prompt(o@.len())],
                )
            },
            _ => unexpected,
        },
        PkgPhase::AutoremoveConfirm { count } => match e {
            PkgEvent::Answer(yes) => if yes {
                (PkgPhase::AutoremoveRunning { count }, PkgAction::Autoremove, Seq::empty())
            } else {
                (PkgPhase::Finished, PkgAction::Exit { code: 0 }, seq![aborted()])
            },
            _ => unexpected,
        },
        PkgPhase::AutoremoveRunning { count } => match e {
            PkgEvent::Autoremoved(Ok(_)) => (
                PkgPhase::Finished,
                PkgAction::Exit { code: 0 },
                seq![autoremoved(count as nat)],
            ),
            PkgEvent::Autoremoved(Err(x)) => (
                PkgPhase::Finished,
                PkgAction::Exit { code: 1 },
                seq![pm_error(pm, x@)],
            ),
            _ => unexpected,
        },
        PkgPhase::Finished => unexpected,
    }
}

// ---------------------------------------------------------------------------
// Runs of a conversation
// ---------------------------------------------------------------------------

/// The flow at another phase.
pub open spec fn at_phase(f: PkgFlow, p: PkgPhase) -> PkgFlow {
    PkgFlow { pm: f.pm, name: f.name, zap: f.zap, phase: p }
}

/// The phase after the first `i` events of a run.
pub open spec fn phase_after(f: PkgFlow, events: Seq<PkgEvent>, i: nat) -> PkgPhase
    decreases i,
{
    if i == 0 {
        f.phase
    } else {
        pkg_next(at_phase(f, phase_after(f, events, (i - 1) as nat)), events[i - 1]).0
    }
}

/// The work asked for on the event of index `i` of a run.
pub open spec fn action_at(f: PkgFlow, events: Seq<PkgEvent>, i: nat) -> PkgAction {
    pkg_next(at_phase(f, phase_after(f, events, i)), events[i as int]).1
}

/// A run starts at the beginning of one of the two conversations.
pub open spec fn starts_fresh(f: PkgFlow) -> bool {
    f.phase == PkgPhase::Start || f.phase == PkgPhase::StartAutoremove
}

/// `--zap` is carried only when it was asked for and the package is not a
/// formula.
pub open spec fn zap_consistent(f: PkgFlow, p: PkgPhase) -> bool {
    match p {
        PkgPhase::Dependents { kind, zap } => zap ==> f.zap && kind != PkgKind::Formula,
        PkgPhase::Confirm { kind, zap, ignore_deps } => zap ==> f.zap && kind != PkgKind::Formula,
        PkgPhase::ConfirmZap { kind, ignore_deps } => f.zap && kind != PkgKind::Formula,
        _ => true,
    }
}

/// One step keeps `zap_consistent`.
proof fn lemma_step_keeps_zap(f: PkgFlow, p: PkgPhase, e: PkgEvent)
    requires
        zap_consistent(f, p),
    ensures
        zap_consistent(f, pkg_next(at_phase(f, p), e).0),
{
}

/// In every phase of a run from a start, `--zap` is carried only when it
/// was asked for and the package is not a formula.
pub proof fn law_zap_consistent_in_runs(f: PkgFlow, events: Seq<PkgEvent>, i: nat)
    requires
        starts_fresh(f),
        i <= events.len(),
    ensures
        zap_consistent(f, phase_after(f, events, i)),
    decreases i,
{
    if i > 0 {
        law_zap_consistent_in_runs(f, events, (i - 1) as nat);
        lemma_step_keeps_zap(f, phase_after(f, events, (i - 1) as nat), events[i - 1]);
    }
}

/// The question about `--zap` is reached only by a yes to the question
/// whether to uninstall.
proof fn lemma_zap_question_follows_yes(f: PkgFlow, events: Seq<PkgEvent>, i: nat)
    requires
        starts_fresh(f),
        i < events.len(),
        phase_after(f, events, i) is ConfirmZap,
    ensures
        i > 0,
        phase_after(f, events, (i - 1) as nat) is Confirm,
        events[i - 1] == PkgEvent::Answer(true),
{
    assert(i > 0);
    let p = phase_after(f, events, (i - 1) as nat);
    assert(phase_after(f, events, i) == pkg_next(at_phase(f, p), events[i - 1]).0);
}

/// Nothing is uninstalled without a yes: in a run of a package
/// conversation, the work `Uninstall` is asked for only after the question
/// whether to uninstall was answered yes (on that event or the one before,
/// when `--zap` was asked about in between).
pub proof fn law_uninstall_needs_yes(f: PkgFlow, events: Seq<PkgEvent>, i: nat)
    requires
        starts_fresh(f),
        i < events.len(),
        action_at(f, events, i) is Uninstall,
    ensures
        exists|j: nat|
            j <= i && #[trigger] phase_after(f, events, j) is Confirm && events[j as int]
                == PkgEvent::Answer(true),
{
    let p = phase_after(f, events, i);
    if p is ConfirmZap {
        lemma_zap_question_follows_yes(f, events, i);
        assert(phase_after(f, events, (i - 1) as nat) is Confirm);
    } else {
        assert(p is Confirm);
        assert(events[i as int] == PkgEvent::Answer(true));
    }
}

/// `--zap` reaches the package manager only when it was asked for, the
/// package is not a formula, and both questions were answered yes.
pub proof fn law_zap_needs_two_yes(f: PkgFlow, events: Seq<PkgEvent>, i: nat)
    requires
        starts_fresh(f),
        i < events.len(),
        action_at(f, events, i) matches PkgAction::Uninstall { zap, .. } && zap,
    ensures
        f.zap,
        action_at(f, events, i)->Uninstall_kind != PkgKind::Formula,
        events[i as int] == PkgEvent::Answer(true),
        i > 0,
        phase_after(f, events, (i - 1) as nat) is Confirm,
        events[i - 1] == PkgEvent::Answer(true),
{
    let p = phase_after(f, events, i);
    law_zap_consistent_in_runs(f, events, i);
    assert(p is ConfirmZap);
    lemma_zap_question_follows_yes(f, events, i);
}

/// Autoremove runs only on a yes to the question whether to run it.
pub proof fn law_autoremove_needs_yes(f: PkgFlow, events: Seq<PkgEvent>, i: nat)
    requires
        i < events.len(),
        action_at(f, events, i) is Autoremove,
    ensures
        events[i as int] == PkgEvent::Answer(true),
        phase_after(f, events, i) is ConfirmAutoremove || phase_after(f, events, i) is AutoremoveConfirm,
{
}

/// Appends one line.
fn push_line(v: &mut Vec<Line>, kind: LineKind, text: String)
    ensures
        line_views(final(v)@) == line_views(old(v)@).push((kind, text@)),
{
    let ghost before = line_views(v@);
    v.push(Line { kind, text });
    assert(line_views(v@) =~= before.push((kind, v@.last().text@)));
}

/// Appends the package names, one per line (see `item_lines`).
fn push_items(v: &mut Vec<Line>, items: &Vec<String>)
    ensures
        line_views(final(v)@) == line_views(old(v)@) + item_lines(items@),
{
    let ghost before = line_views(v@);
    let mut i: usize = 0;
    while i < items.len()
        invariant
            i <= items.len(),
            line_views(v@) == before + item_lines(items@.take(i as int)),
        decreases items.len() - i,
    {
        let ghost prev = line_views(v@);
        push_line(v, LineKind::Stdout, concat("  ", items[i].as_str()));
        assert(item_lines(items@.take(i + 1)) =~= item_lines(items@.take(i as int)).push(
            (LineKind::Stdout, "  "@ + items@[i as int]@),
        ));
        assert(line_views(v@) =~= before + item_lines(items@.take(i + 1)));
        i = i + 1;
    }
    assert(items@.take(items.len() as int) =~= items@);
}

/// The decimal notation of a count.
fn count_text(n: usize) -> (r: String)
    ensures
        r@ == decimal(n as nat),
{
    let d = decimal_chars(n);
    string_of(d.as_slice())
}

/// The text `a`, `b` and `c` in a row.
fn cat3(a: &str, b: &str, c: &str) -> (r: String)
    ensures
        r@ == a@ + b@ + c@,
{
    let ab = concat(a, b);
    concat(ab.as_str(), c)
}

impl PkgFlow {
    /// The conversation that uninstalls `name` with the manager `pm`.
    pub fn uninstall(pm: &str, name: &str, zap: bool) -> (r: PkgFlow)
        ensures
            r.pm@ == pm@,
            r.name@ == name@,
            r.zap == zap,
            r.phase == PkgPhase::Start,
    {
        PkgFlow { pm: owned(pm), name: owned(name), zap, phase: PkgPhase::Start }
    }

    /// The conversation that removes orphaned dependencies with `pm`.
    pub fn autoremove(pm: &str) -> (r: PkgFlow)
        ensures
            r.pm@ == pm@,
            r.name@.len() == 0,
            !r.zap,
            r.phase == PkgPhase::StartAutoremove,
    {
        PkgFlow { pm: owned(pm), name: String::new(), zap: false, phase: PkgPhase::StartAutoremove }
    }

    /// `apios: <pm>: <error>`.
    fn error_text(&self, x: &str) -> (r: String)
        ensures
            r@ == "apios: "@ + self.pm@ + ": "@ + x@,
    {
        let a = cat3("apios: ", self.pm.as_str(), ": ");
        concat(a.as_str(), x)
    }

    /// The step of the conversation (see `pkg_next`).
    #[verifier::rlimit(40)]
    pub fn step(&self, e: &PkgEvent) -> (r: (PkgPhase, PkgAction, Vec<Line>))
        ensures
            r.0 == pkg_next(*self, *e).0,
            r.1 == pkg_next(*self, *e).1,
            line_views(r.2@) == pkg_next(*self, *e).2,
    {
        let mut lines: Vec<Line> = Vec::new();
        let ghost expected = pkg_next(*self, *e).2;
        proof {
            assert(line_views(lines@) =~= Seq::<(LineKind, Seq<char>)>::empty());
        }
        let unexpected = (PkgPhase::Finished, PkgAction::Exit { code: 1 });
        let (phase, action) = match self.phase {
            PkgPhase::Start => match e {
                PkgEvent::Begin => (PkgPhase::Listing, PkgAction::ListInstalled),
                _ => unexpected,
            },
            PkgPhase::Listing => match e {
                PkgEvent::Listed { formulae, casks } => match formulae {
                    Err(x) => {
                        push_line(&mut lines, LineKind::Stderr, self.error_text(x.as_str()));
                        (PkgPhase::Finished, PkgAction::Exit { code: 1 })
                    },
                    Ok(fs) => match casks {
                        Err(x) => {
                            push_line(&mut lines, LineKind::Stderr, self.error_text(x.as_str()));
                            (PkgPhase::Finished, PkgAction::Exit { code: 1 })
                        },
                        Ok(cs) => match detect_kind(self.name.as_str(), fs, cs) {
                            None => {
                                let a = cat3("apios: ", self.pm.as_str(), ": \"");
                                let b = cat3(a.as_str(), self.name.as_str(), "\" is not installed (run `apios pkg ");
                                let c = cat3(b.as_str(), self.pm.as_str(), " list`).");
                                push_line(&mut lines, LineKind::Stderr, c);
                                (PkgPhase::Finished, PkgAction::Exit { code: 1 })
                            },
                            Some(k) => {
                                let formula = match k {
                                    PkgKind::Formula => true,
                                    _ => false,
                                };
                                if self.zap && formula {
                                    push_line(
                                        &mut lines,
                                        LineKind::Stderr,
                                        owned("apios: warning: --zap only applies to casks; ignoring it."),
                                    );
                                }
                                (
                                    PkgPhase::Dependents { kind: k, zap: zap_applies(self.zap, k) },
                                    PkgAction::QueryDependents { kind: k },
                                )
                            },
                        },
                    },
                },
                _ => unexpected,
            },
            PkgPhase::Dependents { kind, zap } => match e {
                PkgEvent::Dependents(Err(x)) => {
                    push_line(&mut lines, LineKind::Stderr, self.error_text(x.as_str()));
                    (PkgPhase::Finished, PkgAction::Exit { code: 1 })
                },
                PkgEvent::Dependents(Ok(d)) => {
                    if d.len() > 0 {
                        let n = count_text(d.len());
                        let a = cat3("Warning: ", n.as_str(), " installed package(s) depend on \"");
                        push_line(&mut lines, LineKind::Stdout, cat3(a.as_str(), self.name.as_str(), "\":"));
                        push_items(&mut lines, d);
                        push_line(&mut lines, LineKind::Stdout, owned("Uninstall will use --ignore-dependencies."));
                    }
                    let a = cat3("Uninstall ", kind.as_str(), " \"");
                    push_line(&mut lines, LineKind::Question, cat3(a.as_str(), self.name.as_str(), "\"? "));
                    (PkgPhase::Confirm { kind, zap, ignore_deps: d.len() > 0 }, PkgAction::Ask)
                },
                _ => unexpected,
            },
            PkgPhase::Confirm { kind, zap, ignore_deps } => match e {
                PkgEvent::Answer(yes) => {
                    if !*yes {
                        push_line(&mut lines, LineKind::Stdout, owned("Aborted — nothing was deleted."));
                        (PkgPhase::Finished, PkgAction::Exit { code: 0 })
                    } else if zap {
                        push_line(
                            &mut lines,
                            LineKind::Stdout,
                            cat3(
                                "WARNING: --zap also removes user config and preferences for \"",
                                self.name.as_str(),
                                "\" (irreversible).",
                            ),
                        );
                        push_line(&mut lines, LineKind::Question, owned("Proceed with --zap? "));
                        (PkgPhase::ConfirmZap { kind, ignore_deps }, PkgAction::Ask)
                    } else {
                        (PkgPhase::Uninstalling, PkgAction::Uninstall { kind, zap: false, ignore_deps })
                    }
                },
                _ => unexpected,
            },
            PkgPhase::ConfirmZap { kind, ignore_deps } => match e {
                PkgEvent::Answer(yes) => {
                    if *yes {
                        (PkgPhase::Uninstalling, PkgAction::Uninstall { kind, zap: true, ignore_deps })
                    } else {
                        push_line(&mut lines, LineKind::Stdout, owned("Skipping --zap; uninstalling without it."));
                        (PkgPhase::Uninstalling, PkgAction::Uninstall { kind, zap: false, ignore_deps })
                    }
                },
                _ => unexpected,
            },
            PkgPhase::Uninstalling => match e {
                PkgEvent::Uninstalled(Err(x)) => {
                    push_line(&mut lines, LineKind::Stderr, self.error_text(x.as_str()));
                    (PkgPhase::Finished, PkgAction::Exit { code: 1 })
                },
                PkgEvent::Uninstalled(Ok(_)) => {
                    push_line(&mut lines, LineKind::Stdout, cat3("Uninstalled ", self.name.as_str(), "."));
                    (PkgPhase::DryRun, PkgAction::AutoremoveDryRun)
                },
                _ => unexpected,
            },
            PkgPhase::DryRun => match e {
                PkgEvent::Orphans(Err(x)) => {
                    push_line(
                        &mut lines,
                        LineKind::Stderr,
                        concat("apios: warning: autoremove dry-run failed: ", x.as_str()),
                    );
                    (PkgPhase::Finished, PkgAction::Exit { code: 0 })
                },
                PkgEvent::Orphans(Ok(o)) => {
                    if o.len() == 0 {
                        (PkgPhase::Finished, PkgAction::Exit { code: 0 })
                    } else {
                        let n = count_text(o.len());
                        push_line(&mut lines, LineKind::Stdout, cat3("\n", n.as_str(), " orphaned package(s) detected:"));
                        push_items(&mut lines, o);
                        push_line(&mut lines, LineKind::Question, cat3("Autoremove ", n.as_str(), " package(s)? "));
                    (PkgPhase::ConfirmAutoremove { count: o.len() }, PkgAction::Ask)
                    }
                },
                _ => unexpected,
            },
            PkgPhase::ConfirmAutoremove { count } => match e {
                PkgEvent::Answer(yes) => {
                    if *yes {
                        (PkgPhase::Autoremoving { count }, PkgAction::Autoremove)
                    } else {
                        push_line(
                            &mut lines,
                            LineKind::Stdout,
                            cat3("Hint: run `apios pkg ", self.pm.as_str(), " autoremove` to remove them."),
                        );
                        (PkgPhase::Finished, PkgAction::Exit { code: 0 })
                    }
                },
                _ => unexpected,
            },
            PkgPhase::Autoremoving { count } => match e {
                PkgEvent::Autoremoved(Ok(_)) => {
                    let n = count_text(count);
                    push_line(&mut lines, LineKind::Stdout, cat3("Autoremoved ", n.as_str(), " package(s)."));
                    (PkgPhase::Finished, PkgAction::Exit { code: 0 })
                },
                PkgEvent::Autoremoved(Err(x)) => {
                    push_line(&mut lines, LineKind::Stderr, concat("apios: warning: autoremove failed: ", x.as_str()));
                    push_line(
                        &mut lines,
                        LineKind::Stdout,
                        cat3("Hint: run `apios pkg ", self.pm.as_str(), " autoremove` to retry."),
                    );
                    (PkgPhase::Finished, PkgAction::Exit { code: 0 })
                },
                _ => unexpected,
            },
            PkgPhase::StartAutoremove => match e {
                PkgEvent::Begin => (PkgPhase::AutoremoveDryRun, PkgAction::AutoremoveDryRun),
                _ => unexpected,
            },
            PkgPhase::AutoremoveDryRun => match e {
                PkgEvent::Orphans(Err(x)) => {
                    push_line(&mut lines, LineKind::Stderr, self.error_text(x.as_str()));
                    (PkgPhase::Finished, PkgAction::Exit { code: 1 })
                },
                PkgEvent::Orphans(Ok(o)) => {
                    if o.len() == 0 {
                        push_line(&mut lines, LineKind::Stdout, owned("Nothing to autoremove."));
                        (PkgPhase::Finished, PkgAction::Exit { code: 0 })
                    } else {
                        let n = count_text(o.len());
                        push_line(&mut lines, LineKind::Stdout, cat3("Autoremove ", n.as_str(), " package(s):"));
                        push_items(&mut lines, o);
                        push_line(&mut lines, LineKind::Question, cat3("Autoremove ", n.as_str(), " package(s)? "));
                    (PkgPhase::AutoremoveConfirm { count: o.len() }, PkgAction::Ask)
                    }
                },
                _ => unexpected,
            },
            PkgPhase::AutoremoveConfirm { count } => match e {
                PkgEvent::Answer(yes) => {
                    if *yes {
                        (PkgPhase::AutoremoveRunning { count }, PkgAction::Autoremove)
                    } else {
                        push_line(&mut lines, LineKind::Stdout, owned("Aborted — nothing was deleted."));
                        (PkgPhase::Finished, PkgAction::Exit { code: 0 })
                    }
                },
                _ => unexpected,
            },
            PkgPhase::AutoremoveRunning { count } => match e {
                PkgEvent::Autoremoved(Ok(_)) => {
                    let n = count_text(count);
                    push_line(&mut lines, LineKind::Stdout, cat3("Autoremoved ", n.as_str(), " package(s)."));
                    (PkgPhase::Finished, PkgAction::Exit { code: 0 })
                },
                PkgEvent::Autoremoved(Err(x)) => {
                    push_line(&mut lines, LineKind::Stderr, self.error_text(x.as_str()));
                    (PkgPhase::Finished, PkgAction::Exit { code: 1 })
                },
                _ => unexpected,
            },
            PkgPhase::Finished => unexpected,
        };
        proof {
            assert(line_views(lines@) =~= expected);
        }
        (phase, action, lines)
    }
}

// ---------------------------------------------------------------------------
// The report of a removal
// ---------------------------------------------------------------------------

/// Paths, one per line on standard error, indented by two spaces.
pub open spec fn path_lines(paths: Seq<String>) -> Seq<(LineKind, Seq<char>)> {
    paths.map_values(|s: String| (LineKind::Stderr, "  "@ + s@))
}

/// What a removal reports and the status the program ends with: on success
/// the message of `deleted_text` (and how many files failed, if any), with
/// status 0; when nothing was moved and nothing failed, the paths refused
/// and "Nothing to delete.", with status 0; otherwise `failure`, with
/// status 1.
pub open spec fn removal_report_of(
    success: bool,
    moved: nat,
    failed: nat,
    folder: Seq<char>,
    blocked: Seq<String>,
    windows: bool,
    failure: Seq<char>,
) -> (i32, Seq<(LineKind, Seq<char>)>) {
    if success {
        (
            0,
            seq![(LineKind::Stdout, "\n"@ + deleted_text(moved, folder, windows))] + if failed > 0 {
                seq![
                    (
                        LineKind::Stderr,
                        "Failed to delete "@ + decimal(failed) + " files (in use or protected)."@,
                    ),
                ]
            } else {
                Seq::empty()
            },
        )
    } else if moved == 0 && failed == 0 {
        (
            0,
            (if blocked.len() > 0 {
                seq![(LineKind::Stderr, "Skipped "@ + decimal(blocked.len()) + " protected path(s):"@)]
                    + path_lines(blocked)
            } else {
                Seq::empty()
            }) + seq![(LineKind::Stdout, "Nothing to delete."@)],
        )
    } else {
        (1, seq![(LineKind::Stderr, "\napios: "@ + failure)])
    }
}

/// The report of a removal (see `removal_report_of`).
pub fn removal_report(result: &DeleteResult, windows: bool, failure: &str) -> (r: (i32, Vec<Line>))
    ensures
        r.0 == removal_report_of(
            result.success,
            result.moved@.len(),
            result.failed@.len(),
            result.bundle_folder@,
            result.blocked@,
            windows,
            failure@,
        ).0,
        line_views(r.1@) == removal_report_of(
            result.success,
            result.moved@.len(),
            result.failed@.len(),
            result.bundle_folder@,
            result.blocked@,
            windows,
            failure@,
        ).1,
{
    let ghost expected = removal_report_of(
        result.success,
        result.moved@.len(),
        result.failed@.len(),
        result.bundle_folder@,
        result.blocked@,
        windows,
        failure@,
    ).1;
    let mut lines: Vec<Line> = Vec::new();
    proof {
        assert(line_views(lines@) =~= Seq::<(LineKind, Seq<char>)>::empty());
    }
    let code: i32 = if result.success {
        let m = deleted_message(result.moved.len(), result.bundle_folder.as_str(), windows);
        push_line(&mut lines, LineKind::Stdout, concat("\n", m.as_str()));
        if result.failed.len() > 0 {
            let n = count_text(result.failed.len());
            push_line(
                &mut lines,
                LineKind::Stderr,
                cat3("Failed to delete ", n.as_str(), " files (in use or protected)."),
            );
        }
        0
    } else if result.moved.len() == 0 && result.failed.len() == 0 {
        if result.blocked.len() > 0 {
            let n = count_text(result.blocked.len());
            push_line(&mut lines, LineKind::Stderr, cat3("Skipped ", n.as_str(), " protected path(s):"));
            let ghost before = line_views(lines@);
            let mut i: usize = 0;
            while i < result.blocked.len()
                invariant
                    i <= result.blocked.len(),
                    line_views(lines@) == before + path_lines(result.blocked@.take(i as int)),
                decreases result.blocked.len() - i,
            {
                push_line(&mut lines, LineKind::Stderr, concat("  ", result.blocked[i].as_str()));
                assert(path_lines(result.blocked@.take(i + 1)) =~= path_lines(
                    result.blocked@.take(i as int),
                ).push((LineKind::Stderr, "  "@ + result.blocked@[i as int]@)));
                assert(line_views(lines@) =~= before + path_lines(result.blocked@.take(i + 1)));
                i = i + 1;
            }
            assert(result.blocked@.take(result.blocked.len() as int) =~= result.blocked@);
        }
        push_line(&mut lines, LineKind::Stdout, owned("Nothing to delete."));
        0
    } else {
        push_line(&mut lines, LineKind::Stderr, concat("\napios: ", failure));
        1
    };
    proof {
        assert(line_views(lines@) =~= expected);
    }
    (code, lines)
}

// ---------------------------------------------------------------------------
// Removals: uninstall, clean-orphan, dev-clean, plugins --clean
// ---------------------------------------------------------------------------

/// Where a removal stands.
#[derive(Clone, Copy, PartialEq, Eq, Debug, Structural)]
pub enum RemovalPhase {
    /// Not started.
    Start,
    /// Waiting for the number of paths to remove.
    Planning,
    /// Waiting for the paths the user may not write.
    Protecting,
    /// Waiting for the answer to the question after the plan.
    Confirming,
    /// Waiting for the running instances to be ended.
    Killing,
    /// Waiting for the removal's outcome.
    Deleting,
    /// Over.
    Finished,
}

/// What the last piece of outside work of a removal gave.
#[derive(Debug)]
pub enum RemovalEvent {
    Begin,
    /// How many paths the removal would take.
    Planned { count: usize },
    /// The paths the user may not write.
    Protected(Vec<String>),
    /// The answer to the question.
    Answer(bool),
    /// How many running instances were ended.
    Killed(u32),
    /// The outcome of moving the paths to the trash.
    Deleted(DeleteResult),
}

/// The next piece of outside work of a removal.
#[derive(Clone, Copy, PartialEq, Eq, Debug, Structural)]
pub enum RemovalAction {
    /// Find the paths to remove.
    Plan,
    /// Find those the user may not write.
    CheckProtected,
    /// Show the plan and ask whether to go on.
    ConfirmPlan,
    /// End the running instances of the application.
    Kill,
    /// Move the paths to the trash.
    Delete,
    /// End the program with this status.
    Exit { code: i32 },
}

/// A removal: what stops it when nothing is planned (the line shown, if the
/// command stops then), the command suggested with `sudo` when files are
/// protected (none when they are not checked), whether running instances
/// are ended first, whether the outcome is reported as for plug-ins, the
/// failure message of the report, whether the trash is the Recycle Bin, and
/// the phase.
#[derive(Clone, Debug)]
pub struct RemovalFlow {
    pub nothing_text: Option<String>,
    pub sudo_hint: Option<String>,
    pub kill_first: bool,
    pub plugin_report: bool,
    pub failure: String,
    pub windows: bool,
    pub phase: RemovalPhase,
}

/// The lines that stop a removal of protected files.
pub open spec fn protected_lines(hint: Seq<char>, paths: Seq<String>) -> Seq<(LineKind, Seq<char>)> {
    seq![
        (LineKind::Stderr, "apios: protected files detected — please run with sudo:"@),
        (LineKind::Stderr, "  sudo "@ + hint),
        (LineKind::Stderr, "Protected files:"@),
    ] + path_lines(paths)
}

/// How a removal of plug-ins reports: the message of `deleted_text` on
/// success, and an error with status 1 when files could not be moved.
pub open spec fn plugin_report_of(r: DeleteResult, windows: bool) -> (i32, Seq<(LineKind, Seq<char>)>) {
    let head = if r.success {
        seq![(LineKind::Stdout, "\n"@ + deleted_text(r.moved@.len(), r.bundle_folder@, windows))]
    } else {
        Seq::empty()
    };
    if r.failed@.len() > 0 {
        (
            1,
            head + seq![
                (
                    LineKind::Stderr,
                    "apios: "@ + decimal(r.failed@.len()) + " file(s) could not be moved"@,
                ),
            ],
        )
    } else {
        (0, head)
    }
}

/// The step of a removal.
pub open spec fn removal_next(f: RemovalFlow, e: RemovalEvent) -> (RemovalPhase, RemovalAction, Seq<
    (LineKind, Seq<char>),
>) {
    let unexpected = (RemovalPhase::Finished, RemovalAction::Exit { code: 1 }, Seq::empty());
    match f.phase {
        RemovalPhase::Start => match e {
            RemovalEvent::Begin => (RemovalPhase::Planning, RemovalAction::Plan, Seq::empty()),
            _ => unexpected,
        },
        RemovalPhase::Planning => match e {
            RemovalEvent::Planned { count } => if count == 0 && f.nothing_text is Some {
                (
                    RemovalPhase::Finished,
                    RemovalAction::Exit { code: 0 },
                    seq![(LineKind::Stdout, f.nothing_text->Some_0@)],
                )
            } else if f.sudo_hint is Some {
                (RemovalPhase::Protecting, RemovalAction::CheckProtected, Seq::empty())
            } else {
                (RemovalPhase::Confirming, RemovalAction::ConfirmPlan, Seq::empty())
            },
            _ => unexpected,
        },
        RemovalPhase::Protecting => match e {
            RemovalEvent::Protected(p) => if p@.len() > 0 {
                (
                    RemovalPhase::Finished,
                    RemovalAction::Exit { code: 1 },
                    protected_lines(
                        match f.sudo_hint {
                            Some(h) => h@,
                            None => Seq::empty(),
                        },
                        p@,
                    ),
                )
            } else {
                (RemovalPhase::Confirming, RemovalAction::ConfirmPlan, Seq::empty())
            },
            _ => unexpected,
        },
        RemovalPhase::Confirming => match e {
            RemovalEvent::Answer(yes) => if !yes {
                (RemovalPhase::Finished, RemovalAction::Exit { code: 0 }, seq![aborted()])
            } else if f.kill_first {
                (RemovalPhase::Killing, RemovalAction::Kill, Seq::empty())
            } else {
                (RemovalPhase::Deleting, RemovalAction::Delete, Seq::empty())
            },
            _ => unexpected,
        },
        RemovalPhase::Killing => match e {
            RemovalEvent::Killed(n) => (
                RemovalPhase::Deleting,
                RemovalAction::Delete,
                if n > 0 {
                    seq![
                        (
                            LineKind::Stdout,
                            "Terminated "@ + decimal(n as nat) + " running process(es)."@,
                        ),
                    ]
                } else {
                    Seq::empty()
                },
            ),
            _ => unexpected,
        },
        RemovalPhase::Deleting => match e {
            RemovalEvent::Deleted(r) => {
                let (code, lines) = if f.plugin_report {
                    plugin_report_of(r, f.windows)
                } else {
                    removal_report_of(
                        r.success,
                        r.moved@.len(),
                        r.failed@.len(),
                        r.bundle_folder@,
                        r.blocked@,
                        f.windows,
                        f.failure@,
                    )
                };
                (RemovalPhase::Finished, RemovalAction::Exit { code }, lines)
            },
            _ => unexpected,
        },
        RemovalPhase::Finished => unexpected,
    }
}

/// The removal at another phase.
pub open spec fn removal_at(f: RemovalFlow, p: RemovalPhase) -> RemovalFlow {
    RemovalFlow {
        nothing_text: f.nothing_text,
        sudo_hint: f.sudo_hint,
        kill_first: f.kill_first,
        plugin_report: f.plugin_report,
        failure: f.failure,
        windows: f.windows,
        phase: p,
    }
}

/// The phase of a removal after the first `i` events.
pub open spec fn removal_phase_after(f: RemovalFlow, events: Seq<RemovalEvent>, i: nat) -> RemovalPhase
    decreases i,
{
    if i == 0 {
        f.phase
    } else {
        removal_next(removal_at(f, removal_phase_after(f, events, (i - 1) as nat)), events[i - 1]).0
    }
}

/// The work a removal asks for on the event of index `i`.
pub open spec fn removal_action_at(f: RemovalFlow, events: Seq<RemovalEvent>, i: nat) -> RemovalAction {
    removal_next(removal_at(f, removal_phase_after(f, events, i)), events[i as int]).1
}

/// Nothing is moved to the trash without a yes: in a run of a removal from
/// its start, the work `Delete` (and ending running instances) is asked for
/// only after the plan was shown and the question answered yes, on that
/// event or the one before.
pub proof fn law_removal_needs_yes(f: RemovalFlow, events: Seq<RemovalEvent>, i: nat)
    requires
        f.phase == RemovalPhase::Start,
        i < events.len(),
        removal_action_at(f, events, i) is Delete || removal_action_at(f, events, i) is Kill,
    ensures
        exists|j: nat|
            j <= i && #[trigger] removal_phase_after(f, events, j) == RemovalPhase::Confirming
                && events[j as int] == RemovalEvent::Answer(true),
{
    let p = removal_phase_after(f, events, i);
    if p == RemovalPhase::Killing {
        assert(i > 0);
        let q = removal_phase_after(f, events, (i - 1) as nat);
        assert(p == removal_next(removal_at(f, q), events[i - 1]).0);
        assert(q == RemovalPhase::Confirming);
        assert(removal_phase_after(f, events, (i - 1) as nat) == RemovalPhase::Confirming);
    } else {
        assert(p == RemovalPhase::Confirming);
        assert(removal_phase_after(f, events, i) == RemovalPhase::Confirming);
    }
}

impl RemovalFlow {
    /// A removal with the given settings, not started.
    pub fn new(
        nothing_text: Option<String>,
        sudo_hint: Option<String>,
        kill_first: bool,
        plugin_report: bool,
        failure: String,
        windows: bool,
    ) -> (r: RemovalFlow)
        ensures
            r.nothing_text == nothing_text,
            r.sudo_hint == sudo_hint,
            r.kill_first == kill_first,
            r.plugin_report == plugin_report,
            r.failure == failure,
            r.windows == windows,
            r.phase == RemovalPhase::Start,
    {
        RemovalFlow {
            nothing_text,
            sudo_hint,
            kill_first,
            plugin_report,
            failure,
            windows,
            phase: RemovalPhase::Start,
        }
    }

    /// The step of a removal (see `removal_next`).
    pub fn step(&self, e: &RemovalEvent) -> (r: (RemovalPhase, RemovalAction, Vec<Line>))
        ensures
            r.0 == removal_next(*self, *e).0,
            r.1 == removal_next(*self, *e).1,
            line_views(r.2@) == removal_next(*self, *e).2,
    {
        let ghost expected = removal_next(*self, *e).2;
        let mut lines: Vec<Line> = Vec::new();
        proof {
            assert(line_views(lines@) =~= Seq::<(LineKind, Seq<char>)>::empty());
        }
        let unexpected = (RemovalPhase::Finished, RemovalAction::Exit { code: 1 });
        let (phase, action) = match self.phase {
            RemovalPhase::Start => match e {
                RemovalEvent::Begin => (RemovalPhase::Planning, RemovalAction::Plan),
                _ => unexpected,
            },
            RemovalPhase::Planning => match e {
                RemovalEvent::Planned { count } => {
                    if *count == 0 && self.nothing_text.is_some() {
                        match &self.nothing_text {
                            Some(t) => push_line(&mut lines, LineKind::Stdout, owned(t.as_str())),
                            None => {},
                        }
                        (RemovalPhase::Finished, RemovalAction::Exit { code: 0 })
                    } else if self.sudo_hint.is_some() {
                        (RemovalPhase::Protecting, RemovalAction::CheckProtected)
                    } else {
                        (RemovalPhase::Confirming, RemovalAction::ConfirmPlan)
                    }
                },
                _ => unexpected,
            },
            RemovalPhase::Protecting => match e {
                RemovalEvent::Protected(p) => {
                    if p.len() > 0 {
                        let hint = match &self.sudo_hint {
                            Some(h) => owned(h.as_str()),
                            None => String::new(),
                        };
                        push_line(
                            &mut lines,
                            LineKind::Stderr,
                            owned("apios: protected files detected — please run with sudo:"),
                        );
                        push_line(&mut lines, LineKind::Stderr, concat("  sudo ", hint.as_str()));
                        push_line(&mut lines, LineKind::Stderr, owned("Protected files:"));
                        let ghost before = line_views(lines@);
                        let mut i: usize = 0;
                        while i < p.len()
                            invariant
                                i <= p.len(),
                                line_views(lines@) == before + path_lines(p@.take(i as int)),
                            decreases p.len() - i,
                        {
                            push_line(&mut lines, LineKind::Stderr, concat("  ", p[i].as_str()));
                            assert(path_lines(p@.take(i + 1)) =~= path_lines(p@.take(i as int)).push(
                                (LineKind::Stderr, "  "@ + p@[i as int]@),
                            ));
                            assert(line_views(lines@) =~= before + path_lines(p@.take(i + 1)));
                            i = i + 1;
                        }
                        assert(p@.take(p.len() as int) =~= p@);
                        (RemovalPhase::Finished, RemovalAction::Exit { code: 1 })
                    } else {
                        (RemovalPhase::Confirming, RemovalAction::ConfirmPlan)
                    }
                },
                _ => unexpected,
            },
            RemovalPhase::Confirming => match e {
                RemovalEvent::Answer(yes) => {
                    if !*yes {
                        push_line(&mut lines, LineKind::Stdout, owned("Aborted — nothing was deleted."));
                        (RemovalPhase::Finished, RemovalAction::Exit { code: 0 })
                    } else if self.kill_first {
                        (RemovalPhase::Killing, RemovalAction::Kill)
                    } else {
                        (RemovalPhase::Deleting, RemovalAction::Delete)
                    }
                },
                _ => unexpected,
            },
            RemovalPhase::Killing => match e {
                RemovalEvent::Killed(n) => {
                    if *n > 0 {
                        let t = count_text(*n as usize);
                        push_line(
                            &mut lines,
                            LineKind::Stdout,
                            cat3("Terminated ", t.as_str(), " running process(es)."),
                        );
                    }
                    (RemovalPhase::Deleting, RemovalAction::Delete)
                },
                _ => unexpected,
            },
            RemovalPhase::Deleting => match e {
                RemovalEvent::Deleted(r) => {
                    let (code, report) = if self.plugin_report {
                        plugin_report(r, self.windows)
                    } else {
                        removal_report(r, self.windows, self.failure.as_str())
                    };
                    lines = report;
                    (RemovalPhase::Finished, RemovalAction::Exit { code })
                },
                _ => unexpected,
            },
            RemovalPhase::Finished => unexpected,
        };
        proof {
            assert(line_views(lines@) =~= expected);
        }
        (phase, action, lines)
    }
}

/// The report of a removal of plug-ins (see `plugin_report_of`).
fn plugin_report(r: &DeleteResult, windows: bool) -> (out: (i32, Vec<Line>))
    ensures
        out.0 == plugin_report_of(*r, windows).0,
        line_views(out.1@) == plugin_report_of(*r, windows).1,
{
    let mut lines: Vec<Line> = Vec::new();
    proof {
        assert(line_views(lines@) =~= Seq::<(LineKind, Seq<char>)>::empty());
    }
    if r.success {
        let m = deleted_message(r.moved.len(), r.bundle_folder.as_str(), windows);
        push_line(&mut lines, LineKind::Stdout, concat("\n", m.as_str()));
    }
    if r.failed.len() > 0 {
        let n = count_text(r.failed.len());
        push_line(&mut lines, LineKind::Stderr, cat3("apios: ", n.as_str(), " file(s) could not be moved"));
        proof {
            assert(line_views(lines@) =~= plugin_report_of(*r, windows).1);
        }
        (1, lines)
    } else {
        proof {
            assert(line_views(lines@) =~= plugin_report_of(*r, windows).1);
        }
        (0, lines)
    }
}

// ---------------------------------------------------------------------------
// Thinning universal binaries
// ---------------------------------------------------------------------------

/// Where a thinning stands.
#[derive(Clone, Copy, PartialEq, Eq, Debug, Structural)]
pub enum ThinPhase {
    Start,
    /// Waiting for the number of binaries that can be thinned.
    Planning,
    /// Waiting for the plan to be shown.
    Showing { count: usize },
    /// Waiting for the answer.
    Confirming { count: usize },
    /// Waiting for the binaries to be thinned.
    Thinning { count: usize },
    /// Waiting for the binaries to be signed again.
    Signing,
    Finished,
}

/// What the last piece of outside work of a thinning gave.
#[derive(Debug)]
pub enum ThinEvent {
    Begin,
    /// How many binaries can be thinned.
    Planned { count: usize },
    /// The plan was shown.
    PlanShown,
    /// The answer to the question.
    Answer(bool),
    /// How many binaries were thinned and how many failed, and the space
    /// freed as shown.
    Thinned { thinned: usize, failed: usize, freed: String },
    /// How many binaries were signed again and how many failed.
    Signed { signed: usize, failed: usize },
}

/// The next piece of outside work of a thinning.
#[derive(Clone, Copy, PartialEq, Eq, Debug, Structural)]
pub enum ThinAction {
    /// Find the binaries and the slice each keeps.
    Plan,
    /// Show the binaries and the space freed.
    ShowPlan,
    /// Ask the question of the last line shown.
    Ask,
    /// Thin every binary of the plan.
    Thin,
    /// Sign every thinned binary again, ad hoc.
    Sign,
    /// End the program with this status.
    Exit { code: i32 },
}

/// A thinning of an application's binaries: its name, whether the
/// binaries are signed again, and the phase.
#[derive(Clone, Debug)]
pub struct ThinFlow {
    pub app_name: String,
    pub sign: bool,
    pub phase: ThinPhase,
}

/// The step of a thinning.
pub open spec fn thin_next(f: ThinFlow, e: ThinEvent) -> (ThinPhase, ThinAction, Seq<(LineKind, Seq<char>)>) {
    let unexpected = (ThinPhase::Finished, ThinAction::Exit { code: 1 }, Seq::empty());
    match f.phase {
        ThinPhase::Start => match e {
            ThinEvent::Begin => (ThinPhase::Planning, ThinAction::Plan, Seq::empty()),
            _ => unexpected,
        },
        ThinPhase::Planning => match e {
            ThinEvent::Planned { count } => if count == 0 {
                (
                    ThinPhase::Finished,
                    ThinAction::Exit { code: 0 },
                    seq![(LineKind::Stdout, "Nothing to thin in "@ + f.app_name@ + "."@)],
                )
            } else {
                (ThinPhase::Showing { count }, ThinAction::ShowPlan, Seq::empty())
            },
            _ => unexpected,
        },
        ThinPhase::Showing { count } => match e {
            ThinEvent::PlanShown => (
                ThinPhase::Confirming { count },
                ThinAction::Ask,
                seq![
                    (
                        LineKind::Stdout,
                        if f.sign {
                            "WARNING: irreversible — binaries are overwritten in place; they will be re-signed ad-hoc."@
                        } else {
                            "WARNING: irreversible — binaries are overwritten in place and code signatures will be invalidated."@
                        },
                    ),
                    (LineKind::Question, "Thin "@ + decimal(count as nat) + " binary(ies)? "@),
                ],
            ),
            _ => unexpected,
        },
        ThinPhase::Confirming { count } => match e {
            ThinEvent::Answer(yes) => if yes {
                (ThinPhase::Thinning { count }, ThinAction::Thin, Seq::empty())
            } else {
                (ThinPhase::Finished, ThinAction::Exit { code: 0 }, seq![aborted()])
            },
            _ => unexpected,
        },
        ThinPhase::Thinning { count } => match e {
            ThinEvent::Thinned { thinned, failed, freed } => if failed > 0 {
                (
                    ThinPhase::Finished,
                    ThinAction::Exit { code: 1 },
                    seq![
                        (
                            LineKind::Stderr,
                            "apios: failed to thin "@ + decimal(failed as nat) + " of "@ + decimal(
                                count as nat,
                            ) + " binary(ies)."@,
                        ),
                    ],
                )
            } else {
                let done = (
                    LineKind::Stdout,
                    "Thinned "@ + decimal(thinned as nat) + " binary(ies) — freed "@ + freed@ + "."@,
                );
                if f.sign {
                    (ThinPhase::Signing, ThinAction::Sign, seq![done])
                } else {
                    (
                        ThinPhase::Finished,
                        ThinAction::Exit { code: 0 },
                        seq![
                            done,
                            (
                                LineKind::Stdout,
                                "Code signatures were invalidated — re-run with `apios lipo thin --sign` to re-sign ad-hoc."@,
                            ),
                        ],
                    )
                }
            },
            _ => unexpected,
        },
        ThinPhase::Signing => match e {
            ThinEvent::Signed { signed, failed } => (
                ThinPhase::Finished,
                ThinAction::Exit { code: 0 },
                seq![(LineKind::Stdout, "Re-signed "@ + decimal(signed as nat) + " binary(ies) (ad-hoc)."@)]
                    + if failed > 0 {
                    seq![
                        (
                            LineKind::Stderr,
                            "apios: warning: "@ + decimal(failed as nat)
                                + " binary(ies) left unsigned — the app may not launch."@,
                        ),
                    ]
                } else {
                    Seq::empty()
                },
            ),
            _ => unexpected,
        },
        ThinPhase::Finished => unexpected,
    }
}

/// Binaries are overwritten only on a yes: the work `Thin` is asked for
/// only on the answer yes to the question that follows the plan.
pub proof fn law_thin_needs_yes(f: ThinFlow, e: ThinEvent)
    requires
        thin_next(f, e).1 is Thin,
    ensures
        f.phase is Confirming,
        e == ThinEvent::Answer(true),
{
}

impl ThinFlow {
    /// A thinning of `app_name`, not started.
    pub fn new(app_name: &str, sign: bool) -> (r: ThinFlow)
        ensures
            r.app_name@ == app_name@,
            r.sign == sign,
            r.phase == ThinPhase::Start,
    {
        ThinFlow { app_name: owned(app_name), sign, phase: ThinPhase::Start }
    }

    /// The step of a thinning (see `thin_next`).
    pub fn step(&self, e: &ThinEvent) -> (r: (ThinPhase, ThinAction, Vec<Line>))
        ensures
            r.0 == thin_next(*self, *e).0,
            r.1 == thin_next(*self, *e).1,
            line_views(r.2@) == thin_next(*self, *e).2,
    {
        let ghost expected = thin_next(*self, *e).2;
        let mut lines: Vec<Line> = Vec::new();
        proof {
            assert(line_views(lines@) =~= Seq::<(LineKind, Seq<char>)>::empty());
        }
        let unexpected = (ThinPhase::Finished, ThinAction::Exit { code: 1 });
        let (phase, action) = match self.phase {
            ThinPhase::Start => match e {
                ThinEvent::Begin => (ThinPhase::Planning, ThinAction::Plan),
                _ => unexpected,
            },
            ThinPhase::Planning => match e {
                ThinEvent::Planned { count } => {
                    if *count == 0 {
                        push_line(&mut lines, LineKind::Stdout, cat3("Nothing to thin in ", self.app_name.as_str(), "."));
                        (ThinPhase::Finished, ThinAction::Exit { code: 0 })
                    } else {
                        (ThinPhase::Showing { count: *count }, ThinAction::ShowPlan)
                    }
                },
                _ => unexpected,
            },
            ThinPhase::Showing { count } => match e {
                ThinEvent::PlanShown => {
                    let warning = if self.sign {
                        "WARNING: irreversible — binaries are overwritten in place; they will be re-signed ad-hoc."
                    } else {
                        "WARNING: irreversible — binaries are overwritten in place and code signatures will be invalidated."
                    };
                    push_line(&mut lines, LineKind::Stdout, owned(warning));
                    let n = count_text(count);
                    push_line(&mut lines, LineKind::Question, cat3("Thin ", n.as_str(), " binary(ies)? "));
                    (ThinPhase::Confirming { count }, ThinAction::Ask)
                },
                _ => unexpected,
            },
            ThinPhase::Confirming { count } => match e {
                ThinEvent::Answer(yes) => {
                    if *yes {
                        (ThinPhase::Thinning { count }, ThinAction::Thin)
                    } else {
                        push_line(&mut lines, LineKind::Stdout, owned("Aborted — nothing was deleted."));
                        (ThinPhase::Finished, ThinAction::Exit { code: 0 })
                    }
                },
                _ => unexpected,
            },
            ThinPhase::Thinning { count } => match e {
                ThinEvent::Thinned { thinned, failed, freed } => {
                    if *failed > 0 {
                        let a = cat3("apios: failed to thin ", count_text(*failed).as_str(), " of ");
                        push_line(&mut lines, LineKind::Stderr, cat3(a.as_str(), count_text(count).as_str(), " binary(ies)."));
                        (ThinPhase::Finished, ThinAction::Exit { code: 1 })
                    } else {
                        let a = cat3("Thinned ", count_text(*thinned).as_str(), " binary(ies) — freed ");
                        push_line(&mut lines, LineKind::Stdout, cat3(a.as_str(), freed.as_str(), "."));
                        if self.sign {
                            (ThinPhase::Signing, ThinAction::Sign)
                        } else {
                            push_line(
                                &mut lines,
                                LineKind::Stdout,
                                owned("Code signatures were invalidated — re-run with `apios lipo thin --sign` to re-sign ad-hoc."),
                            );
                            (ThinPhase::Finished, ThinAction::Exit { code: 0 })
                        }
                    }
                },
                _ => unexpected,
            },
            ThinPhase::Signing => match e {
                ThinEvent::Signed { signed, failed } => {
                    push_line(&mut lines, LineKind::Stdout, cat3("Re-signed ", count_text(*signed).as_str(), " binary(ies) (ad-hoc)."));
                    if *failed > 0 {
                        push_line(
                            &mut lines,
                            LineKind::Stderr,
                            cat3("apios: warning: ", count_text(*failed).as_str(), " binary(ies) left unsigned — the app may not launch."),
                        );
                    }
                    (ThinPhase::Finished, ThinAction::Exit { code: 0 })
                },
                _ => unexpected,
            },
            ThinPhase::Finished => unexpected,
        };
        proof {
            assert(line_views(lines@) =~= expected);
        }
        (phase, action, lines)
    }
}

} // verus!
