//! Homebrew: where the `brew` program may be, the arguments of its commands,
//! and what a `brew uses` run means.

use vstd::prelude::*;

use crate::commands::{brew_error, brew_hint, failure_message};
use crate::pkg::{kept, nonblank_line, parse_brew_uses, PkgKind};
use crate::text::{
    chars_of, concat, contains_str, ends, has_sub, lines, owned, split, split_char, sseqs, starts,
    string_of, vseqs,
};

verus! {

/// `dir` joined with the file name `name` (a separator is added unless `dir`
/// ends with one).
pub open spec fn joined(dir: Seq<char>, name: Seq<char>) -> Seq<char> {
    if dir.len() > 0 && dir.last() == '/' {
        dir + name
    } else {
        dir + "/"@ + name
    }
}

/// `dir` joined with `name` (see `joined`).
pub fn join_path(dir: &str, name: &str) -> (r: String)
    ensures
        r@ == joined(dir@, name@),
{
    let d = chars_of(dir);
    if d.len() > 0 && d[d.len() - 1] == '/' {
        concat(dir, name)
    } else {
        let a = concat(dir, "/");
        let r = concat(a.as_str(), name);
        assert(r@ =~= dir@ + "/"@ + name@);
        r
    }
}

/// The places `brew` may be, in order: the Apple silicon and Intel
/// locations, then `brew` in each absolute folder of the `PATH` value
/// (`:`-separated; empty and relative entries are skipped).
pub open spec fn brew_places(path: Seq<char>) -> Seq<Seq<char>> {
    seq!["/opt/homebrew/bin/brew"@, "/usr/local/bin/brew"@] + kept(
        split(path, ':'),
        |d: Seq<char>|
            if starts(d, "/"@) {
                Some(joined(d, "brew"@))
            } else {
                None
            },
    )
}

/// The places `brew` may be (see `brew_places`).
pub fn brew_candidates(path: &str) -> (r: Vec<String>)
    ensures
        sseqs(r@) == brew_places(path@),
{
    let mut out: Vec<String> = Vec::new();
    out.push(owned("/opt/homebrew/bin/brew"));
    out.push(owned("/usr/local/bin/brew"));
    let ghost head = seq!["/opt/homebrew/bin/brew"@, "/usr/local/bin/brew"@];
    assert(sseqs(out@) =~= head);
    let p = chars_of(path);
    let dirs = split_char(p.as_slice(), ':');
    let ghost f = |d: Seq<char>|
        if starts(d, "/"@) {
            Some(joined(d, "brew"@))
        } else {
            None
        };
    let mut k: usize = 0;
    while k < dirs.len()
        invariant
            k <= dirs.len(),
            vseqs(dirs@) == split(path@, ':'),
            head == seq!["/opt/homebrew/bin/brew"@, "/usr/local/bin/brew"@],
            f == (|d: Seq<char>|
                if starts(d, "/"@) {
                    Some(joined(d, "brew"@))
                } else {
                    None
                }),
            sseqs(out@) == head + kept(vseqs(dirs@).take(k as int), f),
        decreases dirs.len() - k,
    {
        assert(vseqs(dirs@).take(k + 1).drop_last() =~= vseqs(dirs@).take(k as int));
        assert(vseqs(dirs@)[k as int] == dirs@[k as int]@);
        let d = &dirs[k];
        if crate::text::starts_with_str(d.as_slice(), "/") {
            let ghost before = sseqs(out@);
            let c = join_path(string_of(d.as_slice()).as_str(), "brew");
            out.push(c);
            assert(sseqs(out@) =~= before.push(c@));
            assert(head + kept(vseqs(dirs@).take(k + 1), f) =~= (head + kept(
                vseqs(dirs@).take(k as int),
                f,
            )).push(c@));
        }
        k = k + 1;
    }
    assert(vseqs(dirs@).take(dirs@.len() as int) =~= vseqs(dirs@));
    out
}

/// The `--formula` / `--cask` flag of a Homebrew package kind.
pub open spec fn kind_flag(kind: PkgKind) -> Seq<char> {
    if kind == PkgKind::Formula {
        "--formula"@
    } else {
        "--cask"@
    }
}

/// `uninstall`, the kind flag, `--zap` for a cask when asked,
/// `--ignore-dependencies` when asked, and the name (never `--force`).
pub open spec fn uninstall_arguments(name: Seq<char>, kind: PkgKind, zap: bool, ignore_deps: bool) -> Seq<
    Seq<char>,
> {
    let a = seq!["uninstall"@, kind_flag(kind)];
    let b = if zap && kind == PkgKind::Cask {
        a.push("--zap"@)
    } else {
        a
    };
    let c = if ignore_deps {
        b.push("--ignore-dependencies"@)
    } else {
        b
    };
    c.push(name)
}

/// The kind flag of a Homebrew package kind (see `kind_flag`).
fn kind_flag_string(kind: PkgKind) -> (r: String)
    requires
        kind != PkgKind::Package,
    ensures
        r@ == kind_flag(kind),
{
    match kind {
        PkgKind::Formula => owned("--formula"),
        _ => owned("--cask"),
    }
}

/// Arguments of `brew uninstall` (see `uninstall_arguments`); Homebrew has
/// no plain packages.
pub fn uninstall_args(name: &str, kind: PkgKind, zap: bool, ignore_deps: bool) -> (r: Vec<String>)
    requires
        kind != PkgKind::Package,
    ensures
        sseqs(r@) == uninstall_arguments(name@, kind, zap, ignore_deps),
{
    let mut args: Vec<String> = Vec::new();
    args.push(owned("uninstall"));
    args.push(kind_flag_string(kind));
    let ghost a = seq!["uninstall"@, kind_flag(kind)];
    assert(sseqs(args@) =~= a);
    let is_cask = match kind {
        PkgKind::Cask => true,
        _ => false,
    };
    if zap && is_cask {
        args.push(owned("--zap"));
    }
    let ghost b = if zap && kind == PkgKind::Cask {
        a.push("--zap"@)
    } else {
        a
    };
    assert(sseqs(args@) =~= b);
    if ignore_deps {
        args.push(owned("--ignore-dependencies"));
    }
    let ghost c = if ignore_deps {
        b.push("--ignore-dependencies"@)
    } else {
        b
    };
    assert(sseqs(args@) =~= c);
    args.push(owned(name));
    assert(sseqs(args@) =~= c.push(name@));
    args
}

/// Arguments of `brew uses --installed <name>`.
pub fn uses_args(name: &str) -> (r: Vec<String>)
    ensures
        sseqs(r@) == seq!["uses"@, "--installed"@, name@],
{
    let r = vec![owned("uses"), owned("--installed"), owned(name)];
    assert(sseqs(r@) =~= seq!["uses"@, "--installed"@, name@]);
    r
}

/// Arguments of `brew list --versions` for a kind.
pub fn list_args(kind: PkgKind) -> (r: Vec<String>)
    requires
        kind != PkgKind::Package,
    ensures
        sseqs(r@) == seq!["list"@, "--versions"@, kind_flag(kind)],
{
    let r = vec![owned("list"), owned("--versions"), kind_flag_string(kind)];
    assert(sseqs(r@) =~= seq!["list"@, "--versions"@, kind_flag(kind)]);
    r
}

/// The Homebrew package manager: where `brew` was found, if anywhere.
#[derive(Clone, Debug)]
pub struct Homebrew {
    pub brew_path: Option<String>,
}

impl Homebrew {
    /// The manager for the `brew` found at `brew_path`, if any.
    pub fn with_path(brew_path: Option<String>) -> (r: Homebrew)
        ensures
            r.brew_path == brew_path,
    {
        Homebrew { brew_path }
    }

    /// The path of `brew`, or the error that it is not installed.
    pub fn require_brew(&self) -> (r: Result<String, String>)
        ensures
            match r {
                Ok(p) => self.brew_path matches Some(b) && p@ == b@,
                Err(m) => self.brew_path is None && m@
                    == "Homebrew is not installed (checked /opt/homebrew/bin, /usr/local/bin, PATH)"@,
            },
    {
        match &self.brew_path {
            Some(b) => Ok(owned(b.as_str())),
            None => Err(
                owned(
                    "Homebrew is not installed (checked /opt/homebrew/bin, /usr/local/bin, PATH)",
                ),
            ),
        }
    }
}

/// What a `brew uses --installed` run means. Its lines are the dependents
/// whatever the exit status when there are any (brew fails after printing
/// them for a cask); a run that printed none means no dependents when it
/// succeeded or only warned that no formula matches a cask, and is an error
/// otherwise.
pub open spec fn uses_outcome(success: bool, stdout: Seq<char>, stderr: Seq<char>) -> Option<
    Seq<Seq<char>>,
> {
    let deps = kept(lines(stdout), |l: Seq<char>| nonblank_line(l));
    if success || deps.len() > 0 || has_sub(stderr, "No available formula"@) {
        Some(deps)
    } else {
        None
    }
}

/// The dependents a `brew uses --installed` run reports (see
/// `uses_outcome`); the error is the failure message of `brew`.
pub fn dependents_outcome(brew: &str, success: bool, stdout: &str, stderr: &str) -> (r: Result<
    Vec<String>,
    String,
>)
    ensures
        match r {
            Ok(d) => uses_outcome(success, stdout@, stderr@) == Some(sseqs(d@)),
            Err(m) => uses_outcome(success, stdout@, stderr@) is None && m@ == failure_message(
                brew@,
                stderr@,
            ) + brew_hint(stderr@),
        },
{
    let deps = parse_brew_uses(stdout);
    if success || deps.len() > 0 {
        return Ok(deps);
    }
    let e = chars_of(stderr);
    if contains_str(e.as_slice(), "No available formula") {
        return Ok(deps);
    }
    Err(brew_error(brew, stderr))
}

} // verus!
