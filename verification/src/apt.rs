//! The apt package manager: which program and arguments each operation
//! runs.

use vstd::prelude::*;

use crate::pkg::PkgKind;
use crate::text::{owned, sseqs};

verus! {

/// The apt package manager.
pub struct Apt;

/// A command: the program and its arguments.
pub open spec fn command_view(c: (String, Vec<String>)) -> (Seq<char>, Seq<Seq<char>>) {
    (c.0@, sseqs(c.1@))
}

/// A command from a program and arguments.
fn command(program: &str, args: Vec<&str>) -> (r: (String, Vec<String>))
    ensures
        r.0@ == program@,
        sseqs(r.1@) == crate::text::strs(args@),
{
    (owned(program), crate::text::owned_all(&args))
}

impl Apt {
    /// The manager's name.
    pub fn name(&self) -> (r: &'static str)
        ensures
            r@ == "apt"@,
    {
        "apt"
    }

    /// The kinds of package apt manages: packages only.
    pub fn supported_kinds(&self) -> (r: Vec<PkgKind>)
        ensures
            r@ == seq![PkgKind::Package],
    {
        vec![PkgKind::Package]
    }

    /// The command that lists installed packages of a kind: none for kinds
    /// apt does not manage, else `apt list --installed`.
    pub fn list_command(&self, kind: PkgKind) -> (r: Option<(String, Vec<String>)>)
        ensures
            kind != PkgKind::Package ==> r is None,
            kind == PkgKind::Package ==> (r matches Some(c) && command_view(c) == (
                "apt"@,
                seq!["list"@, "--installed"@],
            )),
    {
        match kind {
            PkgKind::Package => {
                let c = command("apt", vec!["list", "--installed"]);
                assert(sseqs(c.1@) =~= seq!["list"@, "--installed"@]);
                Some(c)
            },
            _ => None,
        }
    }

    /// The command that lists the installed packages depending on `name`.
    pub fn dependents_command(&self, name: &str) -> (r: (String, Vec<String>))
        ensures
            command_view(r) == ("apt-cache"@, seq!["rdepends"@, "--installed"@, name@]),
    {
        let c = command("apt-cache", vec!["rdepends", "--installed", name]);
        assert(sseqs(c.1@) =~= seq!["rdepends"@, "--installed"@, name@]);
        c
    }

    /// The command that removes a package.
    pub fn uninstall_command(&self, name: &str) -> (r: (String, Vec<String>))
        ensures
            command_view(r) == ("apt-get"@, seq!["remove"@, "-y"@, name@]),
    {
        let c = command("apt-get", vec!["remove", "-y", name]);
        assert(sseqs(c.1@) =~= seq!["remove"@, "-y"@, name@]);
        c
    }

    /// The command that shows what automatic removal would remove.
    pub fn autoremove_dry_run_command(&self) -> (r: (String, Vec<String>))
        ensures
            command_view(r) == ("apt-get"@, seq!["autoremove"@, "--dry-run"@]),
    {
        let c = command("apt-get", vec!["autoremove", "--dry-run"]);
        assert(sseqs(c.1@) =~= seq!["autoremove"@, "--dry-run"@]);
        c
    }

    /// The command that removes packages nothing needs any more.
    pub fn autoremove_command(&self) -> (r: (String, Vec<String>))
        ensures
            command_view(r) == ("apt-get"@, seq!["autoremove"@, "-y"@]),
    {
        let c = command("apt-get", vec!["autoremove", "-y"]);
        assert(sseqs(c.1@) =~= seq!["autoremove"@, "-y"@]);
        c
    }
}

} // verus!
