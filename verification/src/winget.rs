//! The winget package manager: where `winget.exe` may be, the arguments of
//! its commands, the message of a failed run, and the reading of its
//! package table.

use vstd::prelude::*;

use crate::commands::failure_message;
use crate::order::text_le;
use crate::pattern::{compile, regex_compiles, regex_pieces, split_by};
use crate::pkg::{pkg_views, sort_by_name, sort_pkgs_by_name, PkgInfo, PkgKind};
use crate::text::{
    chars_of, concat, lines, lines_of, owned, split, split_char, sseqs, starts, starts_with_str,
    string_of, trim, trim_chars, vseqs, words, words_of,
};
use crate::windows::win_join;

verus! {

/// The places `winget.exe` may be: `winget.exe` in each folder of a `PATH`
/// value (folders separated by `;`, empty ones skipped).
pub open spec fn winget_places(dirs: Seq<Seq<char>>) -> Seq<Seq<char>>
    decreases dirs.len(),
{
    if dirs.len() == 0 {
        Seq::empty()
    } else {
        let p = winget_places(dirs.drop_last());
        if dirs.last().len() == 0 {
            p
        } else {
            p.push(win_join(dirs.last(), "winget.exe"@))
        }
    }
}

/// The places `winget.exe` may be for a `PATH` value (see `winget_places`).
pub fn winget_candidates(path: &str) -> (r: Vec<String>)
    ensures
        sseqs(r@) == winget_places(split(path@, ';')),
{
    let c = chars_of(path);
    let dirs = split_char(c.as_slice(), ';');
    let mut r: Vec<String> = Vec::new();
    let mut i: usize = 0;
    while i < dirs.len()
        invariant
            i <= dirs.len(),
            vseqs(dirs@) == split(path@, ';'),
            sseqs(r@) == winget_places(vseqs(dirs@).take(i as int)),
        decreases dirs.len() - i,
    {
        assert(vseqs(dirs@).take(i + 1).drop_last() =~= vseqs(dirs@).take(i as int));
        assert(vseqs(dirs@).take(i + 1).last() == dirs@[i as int]@);
        let d = &dirs[i];
        if d.len() > 0 {
            let ds = string_of(d.as_slice());
            let joined = if d[d.len() - 1] == '\\' || d[d.len() - 1] == '/' {
                concat(ds.as_str(), "winget.exe")
            } else {
                let a = concat(ds.as_str(), "\\");
                concat(a.as_str(), "winget.exe")
            };
            let ghost before = r@;
            r.push(joined);
            assert(sseqs(r@) =~= sseqs(before).push(win_join(d@, "winget.exe"@)));
        }
        i = i + 1;
    }
    assert(vseqs(dirs@).take(dirs.len() as int) =~= vseqs(dirs@));
    r
}

/// The winget package manager: where `winget.exe` was found, if anywhere.
pub struct Winget {
    pub winget_path: Option<String>,
}

/// The flags every winget command gets so that it never waits for input.
pub open spec fn automation_flags() -> Seq<Seq<char>> {
    seq!["--accept-source-agreements"@, "--disable-interactivity"@]
}

impl Winget {
    /// The manager for the `winget.exe` found at `winget_path`, if any.
    pub fn with_path(winget_path: Option<String>) -> (r: Winget)
        ensures
            r.winget_path == winget_path,
    {
        Winget { winget_path }
    }

    /// The path of `winget.exe`, or the error that it is not installed.
    pub fn require_winget(&self) -> (r: Result<String, String>)
        ensures
            match r {
                Ok(p) => self.winget_path matches Some(w) && p@ == w@,
                Err(m) => self.winget_path is None && m@
                    == "winget is not installed (checked PATH; install App Installer from the Microsoft Store)"@,
            },
    {
        match &self.winget_path {
            Some(w) => Ok(owned(w.as_str())),
            None => Err(
                owned(
                    "winget is not installed (checked PATH; install App Installer from the Microsoft Store)",
                ),
            ),
        }
    }

    /// The arguments that list installed packages of a kind: none for casks
    /// (winget has none), else the name and version columns.
    pub fn list_args(kind: PkgKind) -> (r: Option<Vec<String>>)
        ensures
            kind == PkgKind::Cask ==> r is None,
            kind != PkgKind::Cask ==> (r matches Some(a) && sseqs(a@) == seq![
                "list"@,
                "--columns"@,
                "Name,Version"@,
            ] + automation_flags()),
    {
        match kind {
            PkgKind::Cask => None,
            _ => {
                let r = vec![
                    owned("list"),
                    owned("--columns"),
                    owned("Name,Version"),
                    owned("--accept-source-agreements"),
                    owned("--disable-interactivity"),
                ];
                assert(sseqs(r@) =~= seq!["list"@, "--columns"@, "Name,Version"@]
                    + automation_flags());
                Some(r)
            },
        }
    }

    /// The arguments that uninstall a package by name, silently.
    pub fn uninstall_args(name: &str) -> (r: Vec<String>)
        ensures
            sseqs(r@) == seq!["uninstall"@, "--name"@, name@, "--silent"@] + automation_flags(),
    {
        let r = vec![
            owned("uninstall"),
            owned("--name"),
            owned(name),
            owned("--silent"),
            owned("--accept-source-agreements"),
            owned("--disable-interactivity"),
        ];
        assert(sseqs(r@) =~= seq!["uninstall"@, "--name"@, name@, "--silent"@]
            + automation_flags());
        r
    }
}

/// The first line of a text, empty when it has none.
pub open spec fn first_line(s: Seq<char>) -> Seq<char> {
    if lines(s).len() > 0 {
        lines(s)[0]
    } else {
        Seq::empty()
    }
}

/// The number of bytes a character takes in UTF-8.
pub open spec fn utf8_width(c: char) -> nat {
    let v = c as u32;
    if v < 0x80 {
        1
    } else if v < 0x800 {
        2
    } else if v < 0x10000 {
        3
    } else {
        4
    }
}

/// The number of bytes a text takes in UTF-8.
pub open spec fn utf8_len(s: Seq<char>) -> nat
    decreases s.len(),
{
    if s.len() == 0 {
        0
    } else {
        utf8_len(s.drop_last()) + utf8_width(s.last())
    }
}

/// Whether a text takes fewer than `limit` bytes in UTF-8.
fn utf8_shorter_than(s: &[char], limit: usize) -> (r: bool)
    requires
        0 < limit <= 1024,
    ensures
        r == (utf8_len(s@) < limit),
{
    let mut n: usize = 0;
    let mut i: usize = 0;
    while i < s.len()
        invariant
            i <= s.len(),
            n == utf8_len(s@.take(i as int)),
            n < limit,
            0 < limit <= 1024,
        decreases s.len() - i,
    {
        assert(s@.take(i + 1).drop_last() =~= s@.take(i as int));
        let v = s[i] as u32;
        let w: usize = if v < 0x80 {
            1
        } else if v < 0x800 {
            2
        } else if v < 0x10000 {
            3
        } else {
            4
        };
        assert(w == utf8_width(s@[i as int]));
        assert(n + w == utf8_len(s@.take(i + 1)));
        if n + w >= limit {
            proof {
                lemma_utf8_len_prefix(s@, i + 1);
            }
            return false;
        }
        n = n + w;
        i = i + 1;
    }
    assert(s@.take(s.len() as int) =~= s@);
    true
}

/// A prefix takes no more bytes than the whole text.
proof fn lemma_utf8_len_prefix(s: Seq<char>, k: int)
    requires
        0 <= k <= s.len(),
    ensures
        utf8_len(s.take(k)) <= utf8_len(s),
    decreases s.len(),
{
    if k < s.len() {
        assert(s.drop_last().take(k) =~= s.take(k));
        lemma_utf8_len_prefix(s.drop_last(), k);
    } else {
        assert(s.take(k) =~= s);
    }
}

/// The message of a failed winget run: its first error line after
/// `winget: ` when there is one shorter than 160 bytes, else
/// `winget <command> failed:` and the last five error lines.
pub open spec fn winget_failure(command: Seq<char>, stderr: Seq<char>) -> Seq<char> {
    let head = first_line(stderr);
    if head.len() > 0 && utf8_len(head) < 160 {
        "winget: "@ + head
    } else {
        failure_message("winget "@ + command, stderr)
    }
}

/// The message of a failed winget run (see `winget_failure`).
pub fn winget_error(command: &str, stderr: &str) -> (r: String)
    ensures
        r@ == winget_failure(command@, stderr@),
{
    let text = chars_of(stderr);
    let ls = lines_of(text.as_slice());
    if ls.len() > 0 {
        assert(vseqs(ls@)[0] == ls@[0]@);
        if ls[0].len() > 0 && utf8_shorter_than(ls[0].as_slice(), 160) {
            let head = string_of(ls[0].as_slice());
            return concat("winget: ", head.as_str());
        }
    }
    let program = concat("winget ", command);
    crate::commands::stderr_tail(stderr, program.as_str())
}

/// A line made only of `-` and spaces (a table rule).
pub open spec fn rule_line(t: Seq<char>) -> bool {
    forall|i: int| 0 <= i < t.len() ==> (#[trigger] t[i] == '-' || t[i] == ' ')
}

/// The expression that separates the cells of a table row: two or more
/// white space characters.
pub open spec fn cell_gap() -> Seq<char> {
    "\\s{2,}"@
}

/// The package a row of `winget list` describes: its trimmed text, unless
/// empty, the header (starting with `Name`) or a rule, split at gaps of two
/// or more white space characters; with two or more cells the first is the
/// name and the last the version; a row that does not split but is made of
/// exactly two words gives name and version too.
pub open spec fn winget_row(line: Seq<char>, gap_compiles: bool, pieces: Seq<Seq<char>>) -> Option<
    (Seq<char>, Seq<char>, PkgKind),
> {
    let t = trim(line);
    if t.len() == 0 || starts(t, "Name"@) || rule_line(t) {
        None
    } else {
        let cells = if gap_compiles {
            pieces
        } else {
            seq![t]
        };
        if cells.len() >= 2 {
            Some((cells[0], cells.last(), PkgKind::Formula))
        } else if words(t).len() == 2 {
            Some((words(t)[0], words(t)[1], PkgKind::Formula))
        } else {
            None
        }
    }
}

/// The rows `winget list` printed, in order (see `winget_row`), before
/// sorting.
pub open spec fn winget_rows(ls: Seq<Seq<char>>) -> Seq<(Seq<char>, Seq<char>, PkgKind)>
    decreases ls.len(),
{
    if ls.len() == 0 {
        Seq::empty()
    } else {
        let p = winget_rows(ls.drop_last());
        match winget_row(
            ls.last(),
            regex_compiles(cell_gap()),
            regex_pieces(cell_gap(), trim(ls.last())),
        ) {
            Some(x) => p.push(x),
            None => p,
        }
    }
}

/// Only the header and the rules of `winget list` are skipped: a row whose
/// trimmed text is not empty, does not begin with `Name`, holds a character
/// other than `-` and space, and splits into two or more cells is the
/// package named by its first cell at the version of its last; a row that
/// begins with `Name`, and an empty row or a rule made of `-` and spaces,
/// give none.
pub proof fn law_winget_row(line: Seq<char>, pieces: Seq<Seq<char>>)
    ensures
        ({
            let t = trim(line);
            &&& t.len() > 0
            &&& !(t.len() >= 4 && t[0] == 'N' && t[1] == 'a' && t[2] == 'm' && t[3] == 'e')
            &&& exists|i: int| 0 <= i < t.len() && #[trigger] t[i] != '-' && t[i] != ' '
            &&& pieces.len() >= 2
        }) ==> winget_row(line, true, pieces) == Some((pieces[0], pieces.last(), PkgKind::Formula)),
        ({
            let t = trim(line);
            t.len() >= 4 && t[0] == 'N' && t[1] == 'a' && t[2] == 'm' && t[3] == 'e'
        }) ==> winget_row(line, true, pieces) is None,
        (forall|i: int| 0 <= i < trim(line).len() ==> #[trigger] trim(line)[i] == '-' || trim(line)[i]
            == ' ') ==> winget_row(line, true, pieces) is None,
{
    reveal_strlit("Name");
    let t = trim(line);
    if t.len() >= 4 && t[0] == 'N' && t[1] == 'a' && t[2] == 'm' && t[3] == 'e' {
        assert(t.subrange(0, 4) =~= "Name"@);
    }
    if exists|i: int| 0 <= i < t.len() && #[trigger] t[i] != '-' && t[i] != ' ' {
        let i = choose|i: int| 0 <= i < t.len() && #[trigger] t[i] != '-' && t[i] != ' ';
        assert(!rule_line(t));
    }
    if starts(t, "Name"@) {
        assert(t[0] == t.subrange(0, 4)[0] && t[1] == t.subrange(0, 4)[1] && t[2] == t.subrange(0, 4)[2]
            && t[3] == t.subrange(0, 4)[3]);
    }
}

/// Every row of the output that `winget_row` turns into a package is among
/// the packages listed, whatever the order they come in.
pub proof fn law_winget_rows_listed(ls: Seq<Seq<char>>, i: int)
    requires
        0 <= i < ls.len(),
        winget_row(ls[i], regex_compiles(cell_gap()), regex_pieces(cell_gap(), trim(ls[i]))) is Some,
    ensures
        sort_by_name(winget_rows(ls)).contains(
            winget_row(ls[i], regex_compiles(cell_gap()), regex_pieces(cell_gap(), trim(ls[i])))->Some_0,
        ),
{
    let x = winget_row(ls[i], regex_compiles(cell_gap()), regex_pieces(cell_gap(), trim(ls[i])))->Some_0;
    lemma_rows_hold(ls, i);
    crate::pkg::law_sort_by_name(winget_rows(ls));
    vstd::seq_lib::to_multiset_contains(winget_rows(ls), x);
    vstd::seq_lib::to_multiset_contains(sort_by_name(winget_rows(ls)), x);
}

/// `winget_rows` keeps the package of every row that gives one.
proof fn lemma_rows_hold(ls: Seq<Seq<char>>, i: int)
    requires
        0 <= i < ls.len(),
        winget_row(ls[i], regex_compiles(cell_gap()), regex_pieces(cell_gap(), trim(ls[i]))) is Some,
    ensures
        winget_rows(ls).contains(
            winget_row(ls[i], regex_compiles(cell_gap()), regex_pieces(cell_gap(), trim(ls[i])))->Some_0,
        ),
    decreases ls.len(),
{
    let x = winget_row(ls[i], regex_compiles(cell_gap()), regex_pieces(cell_gap(), trim(ls[i])))->Some_0;
    let p = winget_rows(ls.drop_last());
    if i == ls.len() - 1 {
        assert(winget_rows(ls) == p.push(x));
        assert(winget_rows(ls)[p.len() as int] == x);
    } else {
        assert(ls.drop_last()[i] == ls[i]);
        lemma_rows_hold(ls.drop_last(), i);
        let k = choose|k: int| 0 <= k < p.len() && p[k] == x;
        match winget_row(ls.last(), regex_compiles(cell_gap()), regex_pieces(cell_gap(), trim(ls.last()))) {
            Some(y) => {
                assert(winget_rows(ls) == p.push(y));
                assert(winget_rows(ls)[k] == x);
            },
            None => {
                assert(winget_rows(ls) == p);
            },
        }
    }
}

/// Whether a line is a table rule (see `rule_line`).
fn is_rule_line(t: &[char]) -> (r: bool)
    ensures
        r == rule_line(t@),
{
    let mut i: usize = 0;
    while i < t.len()
        invariant
            i <= t.len(),
            forall|k: int| 0 <= k < i ==> (#[trigger] t@[k] == '-' || t@[k] == ' '),
        decreases t.len() - i,
    {
        if t[i] != '-' && t[i] != ' ' {
            return false;
        }
        i = i + 1;
    }
    true
}

/// The installed packages `winget list` printed, sorted by name (see
/// `winget_rows` and `sort_by_name`).
pub fn parse_winget_list(output: &str) -> (r: Vec<PkgInfo>)
    ensures
        pkg_views(r@) == sort_by_name(winget_rows(lines(output@))),
{
    let gap = compile("\\s{2,}");
    let text = chars_of(output);
    let ls = lines_of(text.as_slice());
    let mut pkgs: Vec<PkgInfo> = Vec::new();
    let mut k: usize = 0;
    while k < ls.len()
        invariant
            k <= ls.len(),
            vseqs(ls@) == lines(output@),
            gap is Some <==> regex_compiles(cell_gap()),
            gap matches Some(p) ==> p.source() == cell_gap(),
            pkg_views(pkgs@) == winget_rows(vseqs(ls@).take(k as int)),
        decreases ls.len() - k,
    {
        assert(vseqs(ls@).take(k + 1).drop_last() =~= vseqs(ls@).take(k as int));
        assert(vseqs(ls@).take(k + 1).last() == ls@[k as int]@);
        let t = trim_chars(ls[k].as_slice());
        let ghost before = pkgs@;
        if t.len() > 0 && !starts_with_str(t.as_slice(), "Name") && !is_rule_line(t.as_slice()) {
            let ts = string_of(t.as_slice());
            let cells: Vec<String> = match &gap {
                Some(p) => split_by(p, ts.as_str()),
                None => vec![owned(ts.as_str())],
            };
            proof {
                if gap is None {
                    assert(sseqs(cells@) =~= seq![t@]);
                }
            }
            if cells.len() >= 2 {
                assert(sseqs(cells@)[0] == cells@[0]@);
                assert(sseqs(cells@).last() == cells@[cells.len() - 1]@);
                pkgs.push(
                    PkgInfo {
                        name: owned(cells[0].as_str()),
                        version: owned(cells[cells.len() - 1].as_str()),
                        kind: PkgKind::Formula,
                    },
                );
                assert(pkg_views(pkgs@) =~= pkg_views(before).push(
                    (cells@[0]@, cells@[cells.len() - 1]@, PkgKind::Formula),
                ));
            } else {
                let w = words_of(t.as_slice());
                if w.len() == 2 {
                    assert(vseqs(w@)[0] == w@[0]@ && vseqs(w@)[1] == w@[1]@);
                    pkgs.push(
                        PkgInfo {
                            name: string_of(w[0].as_slice()),
                            version: string_of(w[1].as_slice()),
                            kind: PkgKind::Formula,
                        },
                    );
                    assert(pkg_views(pkgs@) =~= pkg_views(before).push(
                        (w@[0]@, w@[1]@, PkgKind::Formula),
                    ));
                }
            }
        }
        k = k + 1;
    }
    assert(vseqs(ls@).take(ls@.len() as int) =~= vseqs(ls@));
    sort_pkgs_by_name(pkgs)
}

} // verus!
