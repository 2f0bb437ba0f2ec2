//! Desktop entry files (`.desktop`): the `[Desktop Entry]` group of an
//! application launcher, and the program its `Exec` line starts.
//!
//! Only `Type=Application` entries count; an entry without `Name` or `Exec`
//! yields nothing, and for menus neither does one with `NoDisplay=true`
//! (application discovery keeps it, flagged). Localized keys (`Name[de]`) are
//! other keys and are ignored.

use vstd::prelude::*;

use crate::text::{
    chars_eq_str, chars_of, find, find_char, find_whitespace, find_ws, lemma_find, lemma_find_ws,
    lemma_trim_start_head, lemma_trim_start_suffix, lines, lines_of, opt_seq, starts,
    starts_with_str, string_of, sub_chars, trim, trim_chars, trim_start, trim_start_chars,
    vseqs,
};

verus! {

/// A launcher described by a desktop entry.
#[derive(Clone, Debug, PartialEq, Eq)]
pub struct DesktopEntry {
    pub name: String,
    pub exec_line: String,
    pub icon: Option<String>,
    pub no_display: bool,
}

/// What the reader knows after some lines.
pub struct EntryState {
    pub name: Option<Seq<char>>,
    pub exec_line: Option<Seq<char>>,
    pub icon: Option<Seq<char>>,
    pub no_display: bool,
    pub in_entry: bool,
    pub rejected: bool,
}

/// The state before the first line.
pub open spec fn initial_state() -> EntryState {
    EntryState {
        name: None,
        exec_line: None,
        icon: None,
        no_display: false,
        in_entry: false,
        rejected: false,
    }
}

/// The state after one more line. A group header switches the reader into
/// or out of `[Desktop Entry]`; inside it, blank lines, comments and lines
/// without `=` are skipped, and a `key=value` line (both trimmed) sets the
/// known keys; a `Type` other than `Application` rejects the entry.
pub open spec fn next_state(st: EntryState, raw: Seq<char>) -> EntryState {
    let line = trim(raw);
    if st.rejected {
        st
    } else if starts(line, "["@) {
        EntryState { in_entry: line == "[Desktop Entry]"@, ..st }
    } else if !st.in_entry || line.len() == 0 || starts(line, "#"@) {
        st
    } else {
        let i = find(line, '=');
        if i == line.len() {
            st
        } else {
            let key = trim(line.subrange(0, i));
            let value = trim(line.subrange(i + 1, line.len() as int));
            if key == "Type"@ && value != "Application"@ {
                EntryState { rejected: true, ..st }
            } else if key == "Name"@ {
                EntryState { name: Some(value), ..st }
            } else if key == "Exec"@ {
                EntryState { exec_line: Some(value), ..st }
            } else if key == "Icon"@ {
                EntryState { icon: Some(value), ..st }
            } else if key == "NoDisplay"@ && value == "true"@ {
                EntryState { no_display: true, ..st }
            } else {
                st
            }
        }
    }
}

/// The state after the given lines.
pub open spec fn state_after(ls: Seq<Seq<char>>) -> EntryState
    decreases ls.len(),
{
    if ls.len() == 0 {
        initial_state()
    } else {
        next_state(state_after(ls.drop_last()), ls.last())
    }
}

/// The launcher a desktop file describes: name, command and icon; nothing
/// when it is rejected, hidden, or lacks a name or a command.
pub open spec fn desktop_entry_of(content: Seq<char>) -> Option<
    (Seq<char>, Seq<char>, Option<Seq<char>>),
> {
    let st = state_after(lines(content));
    if st.rejected || st.no_display || st.name is None || st.exec_line is None {
        None
    } else {
        Some((st.name->Some_0, st.exec_line->Some_0, st.icon))
    }
}

/// The launcher a desktop file describes, hidden or not: name, command,
/// icon and whether it is hidden from menus; nothing when it is rejected or
/// lacks a name or a command.
pub open spec fn launcher_entry_of(content: Seq<char>) -> Option<
    (Seq<char>, Seq<char>, Option<Seq<char>>, bool),
> {
    let st = state_after(lines(content));
    if st.rejected || st.name is None || st.exec_line is None {
        None
    } else {
        Some((st.name->Some_0, st.exec_line->Some_0, st.icon, st.no_display))
    }
}

/// Reads the `[Desktop Entry]` group of a desktop file (see
/// `desktop_entry_of`): a hidden launcher yields nothing.
pub fn parse_desktop(content: &str) -> (r: Option<DesktopEntry>)
    ensures
        match r {
            Some(e) => desktop_entry_of(content@) == Some((e.name@, e.exec_line@, opt_seq(e.icon)))
                && !e.no_display,
            None => desktop_entry_of(content@) is None,
        },
{
    match read_desktop_entry(content) {
        Some(e) => {
            if e.no_display {
                None
            } else {
                Some(e)
            }
        },
        None => None,
    }
}

/// Reads the `[Desktop Entry]` group of a desktop file, keeping a launcher
/// hidden from menus with its `no_display` flag set (see
/// `launcher_entry_of`); an installed application counts whether its menu
/// entry is shown or not.
pub fn read_desktop_entry(content: &str) -> (r: Option<DesktopEntry>)
    ensures
        match r {
            Some(e) => launcher_entry_of(content@) == Some(
                (e.name@, e.exec_line@, opt_seq(e.icon), e.no_display),
            ),
            None => launcher_entry_of(content@) is None,
        },
{
    let text = chars_of(content);
    let ls = lines_of(text.as_slice());
    let mut name: Option<String> = None;
    let mut exec_line: Option<String> = None;
    let mut icon: Option<String> = None;
    let mut no_display = false;
    let mut in_entry = false;
    let mut k: usize = 0;
    while k < ls.len()
        invariant
            k <= ls.len(),
            vseqs(ls@) == lines(content@),
            ({
                let st = state_after(vseqs(ls@).take(k as int));
                &&& !st.rejected
                &&& st.name == opt_seq(name)
                &&& st.exec_line == opt_seq(exec_line)
                &&& st.icon == opt_seq(icon)
                &&& st.no_display == no_display
                &&& st.in_entry == in_entry
            }),
        decreases ls.len() - k,
    {
        proof {
            reveal_strlit("Type");
            reveal_strlit("Name");
            reveal_strlit("Exec");
            reveal_strlit("Icon");
            reveal_strlit("NoDisplay");
        }
        let ghost before = vseqs(ls@).take(k as int);
        assert(vseqs(ls@).take(k + 1).drop_last() =~= before);
        assert(vseqs(ls@)[k as int] == ls@[k as int]@);
        let ghost st0 = state_after(before);
        let ghost raw = ls@[k as int]@;
        assert(state_after(vseqs(ls@).take(k + 1)) == next_state(st0, raw));
        let line = trim_chars(ls[k].as_slice());
        k = k + 1;
        if starts_with_str(line.as_slice(), "[") {
            in_entry = chars_eq_str(line.as_slice(), "[Desktop Entry]");
            continue;
        }
        if !in_entry || line.len() == 0 || starts_with_str(line.as_slice(), "#") {
            continue;
        }
        let i = find_char(line.as_slice(), '=');
        if i == line.len() {
            continue;
        }
        proof {
            lemma_find(line@, '=');
        }
        let kc = sub_chars(line.as_slice(), 0, i);
        let key = trim_chars(kc.as_slice());
        let vc = sub_chars(line.as_slice(), i + 1, line.len());
        let value = trim_chars(vc.as_slice());
        assert(line@ == trim(raw));
        assert(!starts(line@, "["@));
        assert(st0.in_entry && !st0.rejected);
        assert(find(line@, '=') == i);
        assert(key@ == trim(line@.subrange(0, i as int)));
        assert(value@ == trim(line@.subrange(i + 1, line@.len() as int)));
        assert("Type"@[0] == 'T' && "Name"@[0] == 'N' && "Exec"@[0] == 'E' && "Icon"@[0] == 'I'
            && "NoDisplay"@[0] == 'N' && "Name"@.len() != "NoDisplay"@.len());
        if chars_eq_str(key.as_slice(), "Type") {
            if !chars_eq_str(value.as_slice(), "Application") {
                proof {
                    lemma_rejected_stays(vseqs(ls@), k as nat);
                    assert(vseqs(ls@).take(ls@.len() as int) =~= vseqs(ls@));
                }
                return None;
            }
        } else if chars_eq_str(key.as_slice(), "Name") {
            name = Some(string_of(value.as_slice()));
        } else if chars_eq_str(key.as_slice(), "Exec") {
            exec_line = Some(string_of(value.as_slice()));
        } else if chars_eq_str(key.as_slice(), "Icon") {
            icon = Some(string_of(value.as_slice()));
        } else if chars_eq_str(key.as_slice(), "NoDisplay") && chars_eq_str(
            value.as_slice(),
            "true",
        ) {
            no_display = true;
        }
    }
    assert(vseqs(ls@).take(ls@.len() as int) =~= vseqs(ls@));
    match (name, exec_line) {
        (Some(n), Some(e)) => Some(DesktopEntry { name: n, exec_line: e, icon, no_display }),
        _ => None,
    }
}

/// Once the entry is rejected, later lines leave it rejected.
proof fn lemma_rejected_stays(ls: Seq<Seq<char>>, k: nat)
    requires
        k <= ls.len(),
        state_after(ls.take(k as int)).rejected,
    ensures
        state_after(ls).rejected,
    decreases ls.len() - k,
{
    if k < ls.len() {
        assert(ls.take(k + 1 as int).drop_last() =~= ls.take(k as int));
        lemma_rejected_stays(ls, k + 1);
    } else {
        assert(ls.take(k as int) =~= ls);
    }
}

// ---------------------------------------------------------------------------
// The command of an Exec line
// ---------------------------------------------------------------------------

/// The first token of `s` after leading white space, and the rest after it:
/// a token in double or single quotes is what lies between them (none when
/// the quote is not closed or encloses nothing); otherwise it runs up to the
/// next white space.
pub open spec fn first_token(s: Seq<char>) -> Option<(Seq<char>, Seq<char>)> {
    let t = trim_start(s);
    if t.len() == 0 {
        None
    } else if t[0] == '"' || t[0] == '\'' {
        let rest = t.drop_first();
        let end = find(rest, t[0]);
        if end == rest.len() || end == 0 {
            None
        } else {
            Some((rest.subrange(0, end), rest.subrange(end + 1, rest.len() as int)))
        }
    } else {
        let end = find_ws(t);
        if end == 0 {
            None
        } else {
            Some((t.subrange(0, end), t.subrange(end, t.len() as int)))
        }
    }
}

/// The rest after the first token is shorter than the text.
pub proof fn lemma_first_token_shorter(s: Seq<char>)
    ensures
        first_token(s) matches Some((tok, rest)) ==> rest.len() < s.len(),
{
    lemma_trim_start_suffix(s);
    let t = trim_start(s);
    if t.len() > 0 {
        if t[0] == '"' || t[0] == '\'' {
            lemma_find(t.drop_first(), t[0]);
        } else {
            lemma_find_ws(t);
        }
    }
}

/// An `env` variable assignment: an `=` after a non-empty run of ASCII
/// upper-case letters and underscores.
pub open spec fn env_assignment(tok: Seq<char>) -> bool {
    let i = find(tok, '=');
    i < tok.len() && i > 0 && forall|j: int|
        0 <= j < i ==> ('A' <= #[trigger] tok[j] <= 'Z' || tok[j] == '_')
}

/// The first token that is not a variable assignment.
pub open spec fn command_after_env(s: Seq<char>) -> Option<Seq<char>>
    decreases s.len(),
{
    match first_token(s) {
        None => None,
        Some((tok, rest)) => {
            proof {
                lemma_first_token_shorter(s);
            }
            if env_assignment(tok) {
                command_after_env(rest)
            } else {
                Some(tok)
            }
        },
    }
}

/// The program an Exec line starts: its first token, or, after `env`, the
/// first token that is not a variable assignment.
pub open spec fn exec_command(line: Seq<char>) -> Option<Seq<char>> {
    match first_token(line) {
        None => None,
        Some((first, rest)) => if first == "env"@ {
            command_after_env(rest)
        } else {
            Some(first)
        },
    }
}

/// The first token of `s` and the rest (see `first_token`).
pub fn split_first_token(s: &[char]) -> (r: Option<(Vec<char>, Vec<char>)>)
    ensures
        match r {
            Some((tok, rest)) => first_token(s@) == Some((tok@, rest@)),
            None => first_token(s@) is None,
        },
{
    let t = trim_start_chars(s);
    if t.len() == 0 {
        return None;
    }
    let q = t[0];
    if q == '"' || q == '\'' {
        let rest = sub_chars(t.as_slice(), 1, t.len());
        assert(rest@ =~= t@.drop_first());
        let end = find_char(rest.as_slice(), q);
        proof {
            lemma_find(rest@, q);
        }
        if end == rest.len() || end == 0 {
            return None;
        }
        Some((sub_chars(rest.as_slice(), 0, end), sub_chars(rest.as_slice(), end + 1, rest.len())))
    } else {
        let end = find_whitespace(t.as_slice());
        proof {
            lemma_find_ws(t@);
        }
        if end == 0 {
            return None;
        }
        Some((sub_chars(t.as_slice(), 0, end), sub_chars(t.as_slice(), end, t.len())))
    }
}

/// Whether a token is a variable assignment (see `env_assignment`).
pub fn is_env_assignment(tok: &[char]) -> (r: bool)
    ensures
        r == env_assignment(tok@),
{
    let i = find_char(tok, '=');
    proof {
        lemma_find(tok@, '=');
    }
    if i == tok.len() || i == 0 {
        return false;
    }
    let mut j: usize = 0;
    while j < i
        invariant
            i < tok.len(),
            i == find(tok@, '='),
            j <= i,
            forall|m: int| 0 <= m < j ==> ('A' <= #[trigger] tok@[m] <= 'Z' || tok@[m] == '_'),
        decreases i - j,
    {
        let c = tok[j];
        if !(('A' <= c && c <= 'Z') || c == '_') {
            assert(!('A' <= tok@[j as int] <= 'Z' || tok@[j as int] == '_'));
            return false;
        }
        j = j + 1;
    }
    true
}

/// The program an Exec line starts (see `exec_command`).
pub fn exec_first_word(line: &str) -> (r: Option<String>)
    ensures
        opt_seq(r) == exec_command(line@),
{
    let e = chars_of(line);
    let (first, rest0) = match split_first_token(e.as_slice()) {
        Some(p) => p,
        None => {
            return None;
        },
    };
    if !chars_eq_str(first.as_slice(), "env") {
        return Some(string_of(first.as_slice()));
    }
    let mut rest = rest0;
    loop
        invariant
            first@ == "env"@,
            exec_command(line@) == command_after_env(rest@),
        decreases rest@.len(),
    {
        proof {
            lemma_first_token_shorter(rest@);
        }
        let (t, r) = match split_first_token(rest.as_slice()) {
            Some(p) => p,
            None => {
                return None;
            },
        };
        if !is_env_assignment(t.as_slice()) {
            return Some(string_of(t.as_slice()));
        }
        rest = r;
    }
}

} // verus!
