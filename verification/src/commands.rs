//! Messages and decisions around external commands: the tail of a failed
//! command's error output, the hints for known package-manager failures,
//! and which entries of a temporary folder may be cleaned.

use vstd::prelude::*;

use crate::text::{
    ascii_lower_seq, chars_of, concat, contains_str, has_sub, join, join_chars, lines, lines_of,
    owned, starts, starts_with_str, string_of, to_ascii_lower_chars, vseqs,
};

verus! {

/// The last `n` lines of a text (all of them when it has fewer).
pub open spec fn last_lines(s: Seq<char>, n: nat) -> Seq<Seq<char>> {
    let ls = lines(s);
    if ls.len() <= n {
        ls
    } else {
        ls.subrange(ls.len() - n, ls.len() as int)
    }
}

/// The message of a failed command: `<program> failed:` and the last five
/// lines of its error output, one per line.
pub open spec fn failure_message(program: Seq<char>, stderr: Seq<char>) -> Seq<char> {
    program + " failed:\n"@ + join(last_lines(stderr, 5), '\n')
}

/// The message of a failed command (see `failure_message`).
pub fn stderr_tail(stderr: &str, program: &str) -> (r: String)
    ensures
        r@ == failure_message(program@, stderr@),
{
    let text = chars_of(stderr);
    let ls = lines_of(text.as_slice());
    let from = if ls.len() <= 5 {
        0
    } else {
        ls.len() - 5
    };
    let mut tail: Vec<Vec<char>> = Vec::new();
    let mut i = from;
    while i < ls.len()
        invariant
            from <= i <= ls.len(),
            vseqs(ls@) == lines(stderr@),
            from == (if ls.len() <= 5 {
                0
            } else {
                ls.len() - 5
            }),
            vseqs(tail@) == vseqs(ls@).subrange(from as int, i as int),
        decreases ls.len() - i,
    {
        let ghost before = vseqs(tail@);
        tail.push(crate::text::copy_chars(ls[i].as_slice()));
        assert(vseqs(tail@) =~= before.push(ls@[i as int]@));
        i = i + 1;
        assert(vseqs(ls@).subrange(from as int, i as int) =~= vseqs(ls@).subrange(
            from as int,
            i - 1,
        ).push(vseqs(ls@)[i - 1]));
    }
    assert(vseqs(ls@).subrange(0, ls@.len() as int) =~= vseqs(ls@));
    let body = join_chars(&tail, tail.len(), '\n');
    assert(vseqs(tail@).take(tail@.len() as int) =~= vseqs(tail@));
    let head = concat(program, " failed:\n");
    concat(head.as_str(), string_of(body.as_slice()).as_str())
}

/// Hint added to a failed `brew` command: unpin a pinned formula first, or
/// remove all versions of one installed in several.
pub open spec fn brew_hint(stderr: Seq<char>) -> Seq<char> {
    if has_sub(stderr, "is pinned"@) {
        "\nHint: run `brew unpin` first, then retry (or uninstall via `brew uninstall --force`)."@
    } else if has_sub(stderr, "multiple installed versions"@) {
        "\nHint: run `brew uninstall --force` to remove all installed versions."@
    } else {
        Seq::empty()
    }
}

/// The message of a failed `brew` command: the failure message and the hint.
pub fn brew_error(brew: &str, stderr: &str) -> (r: String)
    ensures
        r@ == failure_message(brew@, stderr@) + brew_hint(stderr@),
{
    let msg = stderr_tail(stderr, brew);
    let e = chars_of(stderr);
    if contains_str(e.as_slice(), "is pinned") {
        concat(
            msg.as_str(),
            "\nHint: run `brew unpin` first, then retry (or uninstall via `brew uninstall --force`).",
        )
    } else if contains_str(e.as_slice(), "multiple installed versions") {
        concat(msg.as_str(), "\nHint: run `brew uninstall --force` to remove all installed versions.")
    } else {
        assert(msg@ + Seq::<char>::empty() =~= msg@);
        msg
    }
}

/// Hint added to a failed `apt` command when its error output (in ASCII
/// lower case) speaks of a denied permission or a lock file.
pub open spec fn apt_hint(stderr: Seq<char>) -> Seq<char> {
    let l = ascii_lower_seq(stderr);
    if has_sub(l, "permission denied"@) || has_sub(l, "lock file"@) {
        "\nHint: apt needs root — run with sudo: sudo apios pkg apt ..."@
    } else {
        Seq::empty()
    }
}

/// The message of a failed `apt` command: the failure message and the hint.
pub fn apt_error(stderr: &str, program: &str) -> (r: String)
    ensures
        r@ == failure_message(program@, stderr@) + apt_hint(stderr@),
{
    let msg = stderr_tail(stderr, program);
    let e = chars_of(stderr);
    let l = to_ascii_lower_chars(e.as_slice());
    if contains_str(l.as_slice(), "permission denied") || contains_str(l.as_slice(), "lock file") {
        concat(msg.as_str(), "\nHint: apt needs root — run with sudo: sudo apios pkg apt ...")
    } else {
        assert(msg@ + Seq::<char>::empty() =~= msg@);
        msg
    }
}

// ---------------------------------------------------------------------------
// Temporary folders
// ---------------------------------------------------------------------------

/// Run-time files of a graphical session.
pub open spec fn x_session_runtime(name: Seq<char>) -> bool {
    name == ".X11-unix"@ || name == ".X0-lock"@ || name == ".XIM-unix"@ || name == ".font-unix"@
        || name == ".ICE-unix"@ || name == ".X11-pipe"@
}

/// Whether a name is a graphical session's run-time file.
fn is_x_session_runtime(name: &[char]) -> (r: bool)
    ensures
        r == x_session_runtime(name@),
{
    crate::text::chars_eq_str(name, ".X11-unix") || crate::text::chars_eq_str(name, ".X0-lock")
        || crate::text::chars_eq_str(name, ".XIM-unix") || crate::text::chars_eq_str(
        name,
        ".font-unix",
    ) || crate::text::chars_eq_str(name, ".ICE-unix") || crate::text::chars_eq_str(
        name,
        ".X11-pipe",
    )
}

/// An entry of a temporary folder that is never cleaned: a session run-time
/// file, a service's private folder (`systemd-private-*`), a system
/// service's folder (`com.apple.*`), a socket, or a lock file (`*.lock`).
pub open spec fn tmp_excluded(name: Seq<char>, is_socket: bool) -> bool {
    x_session_runtime(name) || starts(name, "systemd-private-"@) || starts(name, "com.apple."@)
        || is_socket || crate::text::ends(name, ".lock"@)
}

/// Whether an entry of a temporary folder is never cleaned (see
/// `tmp_excluded`).
pub fn is_tmp_excluded(name: &str, is_socket: bool) -> (r: bool)
    ensures
        r == tmp_excluded(name@, is_socket),
{
    let n = chars_of(name);
    is_x_session_runtime(n.as_slice()) || starts_with_str(n.as_slice(), "systemd-private-")
        || starts_with_str(n.as_slice(), "com.apple.") || is_socket || crate::text::ends_with_str(
        n.as_slice(),
        ".lock",
    )
}

/// The newest of a modification time and those of an entry's children.
pub fn newest_modified(modified: u64, children_modified: &Vec<u64>) -> (r: u64)
    ensures
        r >= modified,
        forall|i: int| 0 <= i < children_modified@.len() ==> r >= #[trigger] children_modified@[i],
        r == modified || children_modified@.contains(r),
{
    let mut r = modified;
    let mut i: usize = 0;
    while i < children_modified.len()
        invariant
            i <= children_modified.len(),
            r >= modified,
            forall|j: int| 0 <= j < i ==> r >= #[trigger] children_modified@[j],
            r == modified || children_modified@.contains(r),
        decreases children_modified.len() - i,
    {
        if children_modified[i] > r {
            r = children_modified[i];
        }
        i = i + 1;
    }
    r
}

/// Whether an entry of a temporary folder is offered for cleaning: it is
/// not excluded, its modification time is known, and neither it nor any of
/// its children (`children_modified`, the known modification times of the
/// entries directly inside a folder; empty for a file) was changed at or
/// after `cutoff`. A folder with a fresh child is fresh.
pub fn tmp_entry_selected(
    name: &str,
    is_socket: bool,
    modified: Option<u64>,
    children_modified: &Vec<u64>,
    cutoff: u64,
) -> (r: bool)
    ensures
        r == (!tmp_excluded(name@, is_socket) && modified is Some && modified->Some_0 < cutoff
            && forall|i: int| 0 <= i < children_modified@.len() ==> #[trigger] children_modified@[i] < cutoff),
{
    if is_tmp_excluded(name, is_socket) {
        return false;
    }
    match modified {
        Some(m) => {
            let newest = newest_modified(m, children_modified);
            if newest < cutoff {
                true
            } else {
                proof {
                    if m < cutoff {
                        let j = choose|j: int|
                            0 <= j < children_modified@.len() && children_modified@[j] == newest;
                        assert(children_modified@[j] >= cutoff);
                    }
                }
                false
            }
        },
        None => false,
    }
}

} // verus!
