//! Package managers: the kinds of packages and the readers of their command
//! output (`brew list --versions`, `brew uses`, `brew autoremove -n`,
//! `apt list --installed`, `apt-get autoremove --dry-run`,
//! `apt-cache rdepends --installed`). Running the commands is the caller's
//! business.

use vstd::prelude::*;

use crate::order::{
    lemma_text_lt_transitive, lemma_text_lt_trichotomy, sort_dedup, string_less, strictly_sorted,
    text_le, text_lt,
};
use crate::text::{
    chars_of, contains_str, find, find_char, find_whitespace, find_ws, has_any_eq, has_sub,
    is_whitespace, lemma_find, lemma_find_ws, lines, lines_of, sseqs, starts, starts_with_str,
    string_of, sub_chars, trim, trim_chars, vseqs, words, words_of,
};

verus! {

/// Kind of package: a Homebrew formula or cask, or a plain package of a
/// manager without that distinction.
#[derive(Clone, Copy, PartialEq, Eq, Debug, Structural)]
pub enum PkgKind {
    Formula,
    Cask,
    Package,
}

impl PkgKind {
    /// The kind's name ("formula", "cask", "package").
    pub fn as_str(&self) -> (r: &'static str)
        ensures
            r == match *self {
                PkgKind::Formula => "formula",
                PkgKind::Cask => "cask",
                PkgKind::Package => "package",
            },
    {
        match self {
            PkgKind::Formula => "formula",
            PkgKind::Cask => "cask",
            PkgKind::Package => "package",
        }
    }
}

/// One installed package.
#[derive(Clone, Debug)]
pub struct PkgInfo {
    pub name: String,
    pub version: String,
    pub kind: PkgKind,
}

/// A package as plain values: name, version, kind.
pub open spec fn pkg_view(p: PkgInfo) -> (Seq<char>, Seq<char>, PkgKind) {
    (p.name@, p.version@, p.kind)
}

/// The plain values of a list of packages.
pub open spec fn pkg_views(s: Seq<PkgInfo>) -> Seq<(Seq<char>, Seq<char>, PkgKind)> {
    s.map_values(|p: PkgInfo| pkg_view(p))
}

// ---------------------------------------------------------------------------
// Stable sorting by name
// ---------------------------------------------------------------------------

/// `x` placed into `s` after every entry whose name does not come after its
/// own.
pub open spec fn insert_by_name(
    s: Seq<(Seq<char>, Seq<char>, PkgKind)>,
    x: (Seq<char>, Seq<char>, PkgKind),
) -> Seq<(Seq<char>, Seq<char>, PkgKind)>
    decreases s.len(),
{
    if s.len() == 0 {
        seq![x]
    } else if text_le(s.last().0, x.0) {
        s.push(x)
    } else {
        insert_by_name(s.drop_last(), x).push(s.last())
    }
}

/// The entries sorted by name; entries of equal name keep their order.
pub open spec fn sort_by_name(s: Seq<(Seq<char>, Seq<char>, PkgKind)>) -> Seq<
    (Seq<char>, Seq<char>, PkgKind),
>
    decreases s.len(),
{
    if s.len() == 0 {
        s
    } else {
        insert_by_name(sort_by_name(s.drop_last()), s.last())
    }
}

/// Entries in order of name.
pub open spec fn sorted_by_name(s: Seq<(Seq<char>, Seq<char>, PkgKind)>) -> bool {
    forall|i: int, j: int| 0 <= i < j < s.len() ==> text_le((#[trigger] s[i]).0, (#[trigger] s[j]).0)
}

/// `text_le` is transitive.
proof fn lemma_text_le_transitive(a: Seq<char>, b: Seq<char>, c: Seq<char>)
    requires
        text_le(a, b),
        text_le(b, c),
    ensures
        text_le(a, c),
{
    if a != b && b != c {
        lemma_text_lt_transitive(a, b, c);
    }
}

/// Inserting into a sorted sequence keeps it sorted and adds one entry.
proof fn lemma_insert_by_name(
    s: Seq<(Seq<char>, Seq<char>, PkgKind)>,
    x: (Seq<char>, Seq<char>, PkgKind),
)
    requires
        sorted_by_name(s),
    ensures
        sorted_by_name(insert_by_name(s, x)),
        insert_by_name(s, x).to_multiset() == s.to_multiset().insert(x),
        insert_by_name(s, x).len() == s.len() + 1,
        forall|i: int|
            0 <= i < insert_by_name(s, x).len() ==> (#[trigger] insert_by_name(s, x)[i] == x
                || s.contains(insert_by_name(s, x)[i])),
    decreases s.len(),
{
    broadcast use vstd::seq_lib::to_multiset_build;

    if s.len() == 0 {
        assert(seq![x] =~= s.push(x));
    } else if text_le(s.last().0, x.0) {
        assert forall|i: int, j: int| 0 <= i < j < s.push(x).len() implies text_le(
            (#[trigger] s.push(x)[i]).0,
            (#[trigger] s.push(x)[j]).0,
        ) by {
            if j == s.len() && i < s.len() - 1 {
                lemma_text_le_transitive(s[i].0, s.last().0, x.0);
            }
        }
        assert forall|i: int| 0 <= i < s.push(x).len() implies (#[trigger] s.push(x)[i] == x
            || s.contains(s.push(x)[i])) by {
            if i < s.len() {
                assert(s[i] == s.push(x)[i]);
            }
        }
    } else {
        let t = s.drop_last();
        assert(sorted_by_name(t));
        lemma_insert_by_name(t, x);
        let u = insert_by_name(t, x);
        assert(s =~= t.push(s.last()));
        lemma_text_lt_trichotomy(s.last().0, x.0);
        assert forall|i: int, j: int| 0 <= i < j < u.push(s.last()).len() implies text_le(
            (#[trigger] u.push(s.last())[i]).0,
            (#[trigger] u.push(s.last())[j]).0,
        ) by {
            if j == u.len() {
                assert(u[i] == x || t.contains(u[i]));
                if u[i] != x {
                    let k = choose|k: int| 0 <= k < t.len() && t[k] == u[i];
                    assert(s[k] == t[k]);
                    assert(text_le(s[k].0, s[s.len() - 1].0));
                }
            }
        }
        assert forall|i: int| 0 <= i < u.push(s.last()).len() implies (#[trigger] u.push(
            s.last(),
        )[i] == x || s.contains(u.push(s.last())[i])) by {
            if i < u.len() {
                assert(u.push(s.last())[i] == u[i]);
                if u[i] != x {
                    let k = choose|k: int| 0 <= k < t.len() && t[k] == u[i];
                    assert(s[k] == t[k]);
                }
            } else {
                assert(s[s.len() - 1] == s.last());
            }
        }
        assert(u.push(s.last()).to_multiset() =~= s.to_multiset().insert(x)) by {
            broadcast use vstd::multiset::group_multiset_axioms;

        }
    }
}

/// Sorting by name gives a sorted sequence of the same entries.
pub proof fn law_sort_by_name(s: Seq<(Seq<char>, Seq<char>, PkgKind)>)
    ensures
        sorted_by_name(sort_by_name(s)),
        sort_by_name(s).to_multiset() == s.to_multiset(),
        sort_by_name(s).len() == s.len(),
    decreases s.len(),
{
    broadcast use vstd::seq_lib::to_multiset_build;

    if s.len() > 0 {
        law_sort_by_name(s.drop_last());
        lemma_insert_by_name(sort_by_name(s.drop_last()), s.last());
        assert(s =~= s.drop_last().push(s.last()));
    }
}

/// Inserting where the scan from the end stops is `insert_by_name`.
proof fn lemma_insert_at(
    s: Seq<(Seq<char>, Seq<char>, PkgKind)>,
    x: (Seq<char>, Seq<char>, PkgKind),
    p: int,
)
    requires
        0 <= p <= s.len(),
        p == 0 || !text_lt(x.0, s[p - 1].0),
        forall|i: int| p <= i < s.len() ==> text_lt(x.0, #[trigger] s[i].0),
    ensures
        insert_by_name(s, x) == s.insert(p, x),
    decreases s.len(),
{
    if s.len() == 0 {
        assert(s.insert(p, x) =~= seq![x]);
    } else if p == s.len() {
        lemma_text_lt_trichotomy(x.0, s.last().0);
        assert(s.insert(p, x) =~= s.push(x));
    } else {
        lemma_text_lt_trichotomy(x.0, s.last().0);
        assert(text_lt(x.0, s[s.len() - 1].0));
        lemma_insert_at(s.drop_last(), x, p);
        assert(s.insert(p, x) =~= s.drop_last().insert(p, x).push(s.last()));
    }
}

/// Packages sorted by name (see `sort_by_name`).
pub fn sort_pkgs_by_name(v: Vec<PkgInfo>) -> (r: Vec<PkgInfo>)
    ensures
        pkg_views(r@) == sort_by_name(pkg_views(v@)),
{
    let ghost orig = pkg_views(v@);
    let mut v = v;
    let mut r: Vec<PkgInfo> = Vec::new();
    let ghost mut k: int = 0;
    while v.len() > 0
        invariant
            0 <= k <= orig.len(),
            pkg_views(v@) == orig.subrange(k, orig.len() as int),
            pkg_views(r@) == sort_by_name(orig.take(k)),
        decreases v.len(),
    {
        let ghost old_v = v@;
        assert(pkg_views(old_v).len() == old_v.len());
        assert(k < orig.len());
        assert(orig.subrange(k, orig.len() as int)[0] == orig[k]);
        assert(pkg_views(old_v)[0] == pkg_view(old_v[0]));
        assert(pkg_views(old_v)[0] == orig[k]);
        let x = v.remove(0);
        let ghost xv = pkg_view(x);
        assert(xv == orig[k]);
        let mut p = r.len();
        while p > 0 && string_less(&x.name, &r[p - 1].name)
            invariant
                p <= r.len(),
                forall|i: int| p <= i < r.len() ==> text_lt(x.name@, #[trigger] r@[i].name@),
            decreases p,
        {
            p = p - 1;
        }
        let ghost before = pkg_views(r@);
        proof {
            assert forall|i: int| p <= i < before.len() implies text_lt(xv.0, #[trigger] before[i].0) by {
                assert(before[i] == pkg_view(r@[i]));
            }
            if p > 0 {
                assert(before[p - 1] == pkg_view(r@[p - 1]));
            }
            lemma_insert_at(before, xv, p as int);
        }
        r.insert(p, x);
        proof {
            assert(pkg_views(r@) =~= before.insert(p as int, xv));
            assert(orig.take(k + 1).drop_last() =~= orig.take(k));
            k = k + 1;
            assert(v@ =~= old_v.subrange(1, old_v.len() as int));
            assert forall|i: int| 0 <= i < v@.len() implies #[trigger] pkg_views(v@)[i] == orig.subrange(
                k,
                orig.len() as int,
            )[i] by {
                assert(pkg_views(old_v)[i + 1] == pkg_view(old_v[i + 1]));
                assert(orig.subrange(k - 1, orig.len() as int)[i + 1] == orig[k + i]);
            }
            assert(pkg_views(v@) =~= orig.subrange(k, orig.len() as int));
        }
    }
    assert(orig.take(k) =~= orig);
    r
}

// ---------------------------------------------------------------------------
// Line-by-line readers
// ---------------------------------------------------------------------------

/// What a reader keeps of each line, in order.
pub open spec fn kept<T>(ls: Seq<Seq<char>>, f: spec_fn(Seq<char>) -> Option<T>) -> Seq<T>
    decreases ls.len(),
{
    if ls.len() == 0 {
        Seq::empty()
    } else {
        let p = kept(ls.drop_last(), f);
        match f(ls.last()) {
            Some(x) => p.push(x),
            None => p,
        }
    }
}

/// One more line for `kept`.
proof fn lemma_kept_step<T>(ls: Seq<Seq<char>>, f: spec_fn(Seq<char>) -> Option<T>, k: int)
    requires
        0 <= k < ls.len(),
    ensures
        kept(ls.take(k + 1), f) == match f(ls[k]) {
            Some(x) => kept(ls.take(k), f).push(x),
            None => kept(ls.take(k), f),
        },
{
    assert(ls.take(k + 1).drop_last() =~= ls.take(k));
}

/// A `brew list --versions` line: the name before the first white space and
/// the trimmed rest as the version (several versions stay space-separated);
/// blank lines give nothing.
pub open spec fn brew_list_entry(line: Seq<char>) -> Option<(Seq<char>, Seq<char>)> {
    let t = trim(line);
    if t.len() == 0 {
        None
    } else {
        let i = find_ws(t);
        let name = if i == t.len() {
            t
        } else {
            t.subrange(0, i)
        };
        let rest = if i == t.len() {
            Seq::empty()
        } else {
            trim(t.subrange(i + 1, t.len() as int))
        };
        if name.len() == 0 {
            None
        } else {
            Some((name, rest))
        }
    }
}

/// The packages a `brew list --versions` output lists, of the given kind.
pub open spec fn brew_list_entries(output: Seq<char>, kind: PkgKind) -> Seq<
    (Seq<char>, Seq<char>, PkgKind),
> {
    kept(
        lines(output),
        |l: Seq<char>|
            match brew_list_entry(l) {
                Some((n, v)) => Some((n, v, kind)),
                None => None,
            },
    )
}

/// Reads `brew list --versions`: its packages, sorted by name.
pub fn parse_brew_list_versions(output: &str, kind: PkgKind) -> (r: Vec<PkgInfo>)
    ensures
        pkg_views(r@) == sort_by_name(brew_list_entries(output@, kind)),
{
    let text = chars_of(output);
    let ls = lines_of(text.as_slice());
    let ghost f = |l: Seq<char>|
        match brew_list_entry(l) {
            Some((n, v)) => Some((n, v, kind)),
            None => None,
        };
    let mut pkgs: Vec<PkgInfo> = Vec::new();
    let mut k: usize = 0;
    while k < ls.len()
        invariant
            k <= ls.len(),
            vseqs(ls@) == lines(output@),
            f == (|l: Seq<char>|
                match brew_list_entry(l) {
                    Some((n, v)) => Some((n, v, kind)),
                    None => None,
                }),
            pkg_views(pkgs@) == kept(vseqs(ls@).take(k as int), f),
        decreases ls.len() - k,
    {
        proof {
            lemma_kept_step(vseqs(ls@), f, k as int);
        }
        assert(vseqs(ls@)[k as int] == ls@[k as int]@);
        let t = trim_chars(ls[k].as_slice());
        k = k + 1;
        if t.len() == 0 {
            continue;
        }
        let i = find_whitespace(t.as_slice());
        proof {
            lemma_find_ws(t@);
        }
        let (name, rest) = if i == t.len() {
            (crate::text::copy_chars(t.as_slice()), Vec::new())
        } else {
            let r = sub_chars(t.as_slice(), i + 1, t.len());
            (sub_chars(t.as_slice(), 0, i), trim_chars(r.as_slice()))
        };
        if name.len() == 0 {
            continue;
        }
        let ghost before = pkg_views(pkgs@);
        pkgs.push(
            PkgInfo { name: string_of(name.as_slice()), version: string_of(rest.as_slice()), kind },
        );
        assert(pkg_views(pkgs@) =~= before.push((name@, rest@, kind)));
    }
    assert(vseqs(ls@).take(ls@.len() as int) =~= vseqs(ls@));
    sort_pkgs_by_name(pkgs)
}

/// A trimmed line that is not blank.
pub open spec fn nonblank_line(line: Seq<char>) -> Option<Seq<char>> {
    if trim(line).len() == 0 {
        None
    } else {
        Some(trim(line))
    }
}

/// Reads `brew uses --installed`: its non-blank lines, trimmed.
pub fn parse_brew_uses(output: &str) -> (r: Vec<String>)
    ensures
        sseqs(r@) == kept(lines(output@), |l: Seq<char>| nonblank_line(l)),
{
    let text = chars_of(output);
    let ls = lines_of(text.as_slice());
    let ghost f = |l: Seq<char>| nonblank_line(l);
    let mut out: Vec<String> = Vec::new();
    let mut k: usize = 0;
    while k < ls.len()
        invariant
            k <= ls.len(),
            vseqs(ls@) == lines(output@),
            f == (|l: Seq<char>| nonblank_line(l)),
            sseqs(out@) == kept(vseqs(ls@).take(k as int), f),
        decreases ls.len() - k,
    {
        proof {
            lemma_kept_step(vseqs(ls@), f, k as int);
        }
        assert(vseqs(ls@)[k as int] == ls@[k as int]@);
        let t = trim_chars(ls[k].as_slice());
        k = k + 1;
        if t.len() != 0 {
            let ghost before = sseqs(out@);
            out.push(string_of(t.as_slice()));
            assert(sseqs(out@) =~= before.push(t@));
        }
    }
    assert(vseqs(ls@).take(ls@.len() as int) =~= vseqs(ls@));
    out
}

/// A `brew autoremove -n` line naming a package: non-blank and not a header
/// ("Would autoremove ...", "Autoremoving ...").
pub open spec fn autoremove_line(line: Seq<char>) -> Option<Seq<char>> {
    let t = trim(line);
    if t.len() == 0 || starts(t, "Would autoremove"@) || starts(t, "Autoremoving"@) {
        None
    } else {
        Some(t)
    }
}

/// Reads `brew autoremove -n`: the packages it would remove.
pub fn parse_brew_autoremove(output: &str) -> (r: Vec<String>)
    ensures
        sseqs(r@) == kept(lines(output@), |l: Seq<char>| autoremove_line(l)),
{
    let text = chars_of(output);
    let ls = lines_of(text.as_slice());
    let ghost f = |l: Seq<char>| autoremove_line(l);
    let mut out: Vec<String> = Vec::new();
    let mut k: usize = 0;
    while k < ls.len()
        invariant
            k <= ls.len(),
            vseqs(ls@) == lines(output@),
            f == (|l: Seq<char>| autoremove_line(l)),
            sseqs(out@) == kept(vseqs(ls@).take(k as int), f),
        decreases ls.len() - k,
    {
        proof {
            lemma_kept_step(vseqs(ls@), f, k as int);
        }
        assert(vseqs(ls@)[k as int] == ls@[k as int]@);
        let t = trim_chars(ls[k].as_slice());
        k = k + 1;
        if t.len() != 0 && !starts_with_str(t.as_slice(), "Would autoremove") && !starts_with_str(
            t.as_slice(),
            "Autoremoving",
        ) {
            let ghost before = sseqs(out@);
            out.push(string_of(t.as_slice()));
            assert(sseqs(out@) =~= before.push(t@));
        }
    }
    assert(vseqs(ls@).take(ls@.len() as int) =~= vseqs(ls@));
    out
}

/// The kind of an installed package: a formula when the formula list holds
/// its name (first, as Homebrew resolves names), else a cask when the cask
/// list does; nothing otherwise.
pub open spec fn kind_of(name: Seq<char>, formulae: Seq<String>, casks: Seq<String>) -> Option<
    PkgKind,
> {
    if sseqs(formulae).contains(name) {
        Some(PkgKind::Formula)
    } else if sseqs(casks).contains(name) {
        Some(PkgKind::Cask)
    } else {
        None
    }
}

/// The kind of an installed package (see `kind_of`).
pub fn detect_kind(name: &str, formulae: &Vec<String>, casks: &Vec<String>) -> (r: Option<
    PkgKind,
>)
    ensures
        r == kind_of(name@, formulae@, casks@),
{
    let n = chars_of(name);
    let in_formulae = has_any_eq(n.as_slice(), formulae);
    let in_casks = has_any_eq(n.as_slice(), casks);
    proof {
        lemma_any_eq_contains(name@, formulae@);
        lemma_any_eq_contains(name@, casks@);
    }
    if in_formulae {
        Some(PkgKind::Formula)
    } else if in_casks {
        Some(PkgKind::Cask)
    } else {
        None
    }
}

/// `any_eq` is membership among the strings' texts.
proof fn lemma_any_eq_contains(s: Seq<char>, list: Seq<String>)
    ensures
        crate::text::any_eq(s, list) <==> sseqs(list).contains(s),
{
    if sseqs(list).contains(s) {
        let j = choose|j: int| 0 <= j < sseqs(list).len() && sseqs(list)[j] == s;
        assert(list[j]@ == s);
    }
    if crate::text::any_eq(s, list) {
        let j = choose|j: int| 0 <= j < list.len() && #[trigger] list[j]@ == s;
        assert(sseqs(list)[j] == s);
    }
}

/// An `apt list --installed` line (`name/archive,now version arch [...]`):
/// the name before the first `/` and the second white-space separated field
/// after it; lines without `/` or without a version give nothing.
pub open spec fn apt_list_entry(line: Seq<char>) -> Option<(Seq<char>, Seq<char>)> {
    let t = trim(line);
    let i = find(t, '/');
    if i == t.len() {
        None
    } else {
        let name = t.subrange(0, i);
        let fields = words(t.subrange(i + 1, t.len() as int));
        if fields.len() < 2 || name.len() == 0 {
            None
        } else {
            Some((name, fields[1]))
        }
    }
}

/// The packages an `apt list --installed` output lists.
pub open spec fn apt_list_entries(output: Seq<char>) -> Seq<(Seq<char>, Seq<char>, PkgKind)> {
    kept(
        lines(output),
        |l: Seq<char>|
            match apt_list_entry(l) {
                Some((n, v)) => Some((n, v, PkgKind::Package)),
                None => None,
            },
    )
}

/// Reads `apt list --installed`: its packages, sorted by name.
pub fn parse_apt_list(output: &str) -> (r: Vec<PkgInfo>)
    ensures
        pkg_views(r@) == sort_by_name(apt_list_entries(output@)),
{
    let text = chars_of(output);
    let ls = lines_of(text.as_slice());
    let ghost f = |l: Seq<char>|
        match apt_list_entry(l) {
            Some((n, v)) => Some((n, v, PkgKind::Package)),
            None => None,
        };
    let mut pkgs: Vec<PkgInfo> = Vec::new();
    let mut k: usize = 0;
    while k < ls.len()
        invariant
            k <= ls.len(),
            vseqs(ls@) == lines(output@),
            f == (|l: Seq<char>|
                match apt_list_entry(l) {
                    Some((n, v)) => Some((n, v, PkgKind::Package)),
                    None => None,
                }),
            pkg_views(pkgs@) == kept(vseqs(ls@).take(k as int), f),
        decreases ls.len() - k,
    {
        proof {
            lemma_kept_step(vseqs(ls@), f, k as int);
        }
        assert(vseqs(ls@)[k as int] == ls@[k as int]@);
        let t = trim_chars(ls[k].as_slice());
        k = k + 1;
        let i = find_char(t.as_slice(), '/');
        proof {
            lemma_find(t@, '/');
        }
        if i == t.len() {
            continue;
        }
        let rest = sub_chars(t.as_slice(), i + 1, t.len());
        let fields = words_of(rest.as_slice());
        if fields.len() < 2 || i == 0 {
            continue;
        }
        assert(vseqs(fields@)[1] == fields@[1]@);
        let name = sub_chars(t.as_slice(), 0, i);
        let ghost before = pkg_views(pkgs@);
        pkgs.push(
            PkgInfo {
                name: string_of(name.as_slice()),
                version: string_of(fields[1].as_slice()),
                kind: PkgKind::Package,
            },
        );
        assert(pkg_views(pkgs@) =~= before.push((name@, fields@[1]@, PkgKind::Package)));
    }
    assert(vseqs(ls@).take(ls@.len() as int) =~= vseqs(ls@));
    sort_pkgs_by_name(pkgs)
}

/// Appends strings made of the given character vectors.
fn push_all(out: &mut Vec<String>, ws: &Vec<Vec<char>>)
    ensures
        sseqs(final(out)@) == sseqs(old(out)@) + vseqs(ws@),
{
    let ghost start = sseqs(out@);
    let mut j: usize = 0;
    while j < ws.len()
        invariant
            j <= ws.len(),
            sseqs(out@) == start + vseqs(ws@).take(j as int),
        decreases ws.len() - j,
    {
        let ghost before = sseqs(out@);
        out.push(string_of(ws[j].as_slice()));
        assert(sseqs(out@) =~= before.push(ws@[j as int]@));
        j = j + 1;
        assert(start + vseqs(ws@).take(j as int) =~= (start + vseqs(ws@).take(j - 1)).push(
            ws@[j - 1]@,
        ));
    }
    assert(vseqs(ws@).take(ws@.len() as int) =~= vseqs(ws@));
}

/// The package names of the "will be REMOVED" part of an `apt-get
/// autoremove --dry-run` output: the words of the indented lines after the
/// marker line, up to the first line that is neither indented nor blank.
pub open spec fn removed_names(ls: Seq<Seq<char>>, in_section: bool) -> Seq<Seq<char>>
    decreases ls.len(),
{
    if ls.len() == 0 {
        Seq::empty()
    } else {
        let l = ls[0];
        let rest = ls.drop_first();
        if has_sub(l, "will be REMOVED"@) {
            removed_names(rest, true)
        } else if !in_section {
            removed_names(rest, false)
        } else if l.len() > 0 && crate::text::is_ws(l[0]) {
            words(l) + removed_names(rest, true)
        } else if trim(l).len() != 0 {
            Seq::empty()
        } else {
            removed_names(rest, true)
        }
    }
}

/// Reads `apt-get autoremove --dry-run`: the packages it would remove, sorted
/// and each once.
pub fn parse_apt_autoremove(output: &str) -> (r: Vec<String>)
    ensures
        strictly_sorted(sseqs(r@)),
        forall|x: Seq<char>|
            sseqs(r@).contains(x) <==> removed_names(lines(output@), false).contains(x),
{
    let text = chars_of(output);
    let ls = lines_of(text.as_slice());
    let ghost all = vseqs(ls@);
    let mut acc: Vec<String> = Vec::new();
    let mut in_section = false;
    let mut k: usize = 0;
    assert(all.subrange(0, all.len() as int) =~= all);
    while k < ls.len()
        invariant
            k <= ls.len(),
            all == vseqs(ls@),
            all == lines(output@),
            sseqs(acc@) + removed_names(all.subrange(k as int, all.len() as int), in_section)
                == removed_names(all, false),
        decreases ls.len() - k,
    {
        let ghost rest = all.subrange(k as int, all.len() as int);
        assert(rest[0] == ls@[k as int]@);
        assert(rest.drop_first() =~= all.subrange(k + 1, all.len() as int));
        let line = ls[k].as_slice();
        k = k + 1;
        if contains_str(line, "will be REMOVED") {
            in_section = true;
            continue;
        }
        if in_section {
            if line.len() > 0 && is_whitespace(line[0]) {
                let ws = words_of(line);
                let ghost before = sseqs(acc@);
                push_all(&mut acc, &ws);
                assert(before + (words(rest[0]) + removed_names(rest.drop_first(), true)) =~= (
                before + words(rest[0])) + removed_names(rest.drop_first(), true));
            } else {
                let t = trim_chars(line);
                if t.len() != 0 {
                    assert(sseqs(acc@) + Seq::<Seq<char>>::empty() =~= sseqs(acc@));
                    return sort_dedup(acc);
                }
            }
        }
    }
    assert(removed_names(all.subrange(k as int, all.len() as int), in_section) =~= Seq::<
        Seq<char>,
    >::empty());
    assert(sseqs(acc@) + Seq::<Seq<char>>::empty() =~= sseqs(acc@));
    sort_dedup(acc)
}

/// `t` without its leading `|` characters.
pub open spec fn strip_bars(t: Seq<char>) -> Seq<char>
    decreases t.len(),
{
    if t.len() > 0 && t[0] == '|' {
        strip_bars(t.drop_first())
    } else {
        t
    }
}

/// The names of the "Reverse Depends" part of an `apt-cache rdepends
/// --installed` output: every non-blank line after the marker, trimmed and
/// without the `|` that marks an alternative.
pub open spec fn rdepends_names(ls: Seq<Seq<char>>, in_section: bool) -> Seq<Seq<char>>
    decreases ls.len(),
{
    if ls.len() == 0 {
        Seq::empty()
    } else {
        let l = ls[0];
        let rest = ls.drop_first();
        if has_sub(l, "Reverse Depends"@) {
            rdepends_names(rest, true)
        } else if !in_section || trim(strip_bars(trim(l))).len() == 0 {
            rdepends_names(rest, in_section)
        } else {
            seq![trim(strip_bars(trim(l)))] + rdepends_names(rest, true)
        }
    }
}

/// `t` without its leading `|` characters (see `strip_bars`).
fn strip_bars_chars(t: &[char]) -> (r: Vec<char>)
    ensures
        r@ == strip_bars(t@),
{
    let mut i: usize = 0;
    assert(t@.subrange(0, t@.len() as int) =~= t@);
    while i < t.len() && t[i] == '|'
        invariant
            i <= t.len(),
            strip_bars(t@) == strip_bars(t@.subrange(i as int, t@.len() as int)),
        decreases t.len() - i,
    {
        assert(t@.subrange(i as int, t@.len() as int).drop_first() =~= t@.subrange(
            i + 1,
            t@.len() as int,
        ));
        i = i + 1;
    }
    sub_chars(t, i, t.len())
}

/// Reads `apt-cache rdepends --installed`: the installed packages that
/// depend on the package, sorted and each once.
pub fn parse_apt_rdepends(output: &str) -> (r: Vec<String>)
    ensures
        strictly_sorted(sseqs(r@)),
        forall|x: Seq<char>|
            sseqs(r@).contains(x) <==> rdepends_names(lines(output@), false).contains(x),
{
    let text = chars_of(output);
    let ls = lines_of(text.as_slice());
    let ghost all = vseqs(ls@);
    let mut acc: Vec<String> = Vec::new();
    let mut in_section = false;
    let mut k: usize = 0;
    assert(all.subrange(0, all.len() as int) =~= all);
    while k < ls.len()
        invariant
            k <= ls.len(),
            all == vseqs(ls@),
            all == lines(output@),
            sseqs(acc@) + rdepends_names(all.subrange(k as int, all.len() as int), in_section)
                == rdepends_names(all, false),
        decreases ls.len() - k,
    {
        let ghost rest = all.subrange(k as int, all.len() as int);
        assert(rest[0] == ls@[k as int]@);
        assert(rest.drop_first() =~= all.subrange(k + 1, all.len() as int));
        let line = ls[k].as_slice();
        k = k + 1;
        if contains_str(line, "Reverse Depends") {
            in_section = true;
            continue;
        }
        if in_section {
            let t = trim_chars(line);
            let b = strip_bars_chars(t.as_slice());
            let u = trim_chars(b.as_slice());
            if u.len() != 0 {
                let ghost before = sseqs(acc@);
                acc.push(string_of(u.as_slice()));
                assert(sseqs(acc@) =~= before.push(u@));
                assert(before + (seq![u@] + rdepends_names(rest.drop_first(), true)) =~= before.push(
                    u@,
                ) + rdepends_names(rest.drop_first(), true));
            }
        }
    }
    assert(rdepends_names(all.subrange(k as int, all.len() as int), in_section) =~= Seq::<
        Seq<char>,
    >::empty());
    assert(sseqs(acc@) + Seq::<Seq<char>>::empty() =~= sseqs(acc@));
    sort_dedup(acc)
}

} // verus!
