//! Paths as `/`-separated texts. A path's components are the non-empty pieces
//! between separators other than `.`; the final component is the file name
//! (none for a path that ends in `..` or has no component).

use vstd::prelude::*;

use crate::text::{chars_eq, find, split, split_char, vseqs};

verus! {

/// A piece between separators that names no component (empty or `.`).
pub open spec fn skipped_piece(c: Seq<char>) -> bool {
    c.len() == 0 || c == seq!['.']
}

/// The last component among `pieces`, if any.
pub open spec fn last_component(pieces: Seq<Seq<char>>) -> Option<Seq<char>>
    decreases pieces.len(),
{
    if pieces.len() == 0 {
        None
    } else if skipped_piece(pieces.last()) {
        last_component(pieces.drop_last())
    } else {
        Some(pieces.last())
    }
}

/// The file name of a path: its last component, unless that is `..`.
pub open spec fn file_name(p: Seq<char>) -> Option<Seq<char>> {
    match last_component(split(p, '/')) {
        Some(c) => if c == seq!['.', '.'] {
            None
        } else {
            Some(c)
        },
        None => None,
    }
}

/// Whether `c` is skipped between separators.
fn is_skipped_piece(c: &[char]) -> (r: bool)
    ensures
        r == skipped_piece(c@),
{
    if c.len() == 0 {
        return true;
    }
    if c.len() == 1 && c[0] == '.' {
        assert(c@ =~= seq!['.']);
        return true;
    }
    if c.len() == 1 {
        assert(c@ != seq!['.']) by {
            assert(c@[0] != seq!['.'][0]);
        }
    }
    false
}

/// The file name of a path (see `file_name`).
pub fn file_name_of(p: &[char]) -> (r: Option<Vec<char>>)
    ensures
        match r {
            Some(v) => file_name(p@) == Some(v@),
            None => file_name(p@) is None,
        },
{
    let pieces = split_char(p, '/');
    let ghost all = vseqs(pieces@);
    let mut n = pieces.len();
    assert(all.take(n as int) =~= all);
    while n > 0 && is_skipped_piece(pieces[n - 1].as_slice())
        invariant
            n <= pieces.len(),
            all == vseqs(pieces@),
            all == split(p@, '/'),
            last_component(all) == last_component(all.take(n as int)),
        decreases n,
    {
        assert(all.take(n as int).drop_last() =~= all.take(n - 1));
        n = n - 1;
    }
    if n == 0 {
        return None;
    }
    assert(all.take(n as int).last() == pieces@[n - 1]@);
    let last = crate::text::copy_chars(pieces[n - 1].as_slice());
    let dots = ['.', '.'];
    if chars_eq(last.as_slice(), dots.as_slice()) {
        assert(dots@ =~= seq!['.', '.']);
        None
    } else {
        assert(dots@ =~= seq!['.', '.']);
        Some(last)
    }
}

/// File name split at its last dot: `(stem, extension)`. A name without a dot,
/// or whose only dot is its first character, has no extension; `..` is all stem.
pub open spec fn split_at_last_dot(name: Seq<char>) -> (Seq<char>, Option<Seq<char>>) {
    let rev_index = find(name.reverse(), '.');
    if name == seq!['.', '.'] || rev_index == name.len() || rev_index == name.len() - 1 {
        (name, None)
    } else {
        let dot = name.len() - 1 - rev_index;
        (name.subrange(0, dot), Some(name.subrange(dot + 1, name.len() as int)))
    }
}

/// The extension of a path: what follows the last dot of its file name.
pub open spec fn extension(p: Seq<char>) -> Option<Seq<char>> {
    match file_name(p) {
        Some(n) => split_at_last_dot(n).1,
        None => None,
    }
}

/// The stem of a path: its file name without the extension.
pub open spec fn file_stem(p: Seq<char>) -> Option<Seq<char>> {
    match file_name(p) {
        Some(n) => Some(split_at_last_dot(n).0),
        None => None,
    }
}

/// Index of the last dot of `name` (`name.len()` when there is none).
fn last_dot(name: &[char]) -> (i: usize)
    ensures
        i <= name.len(),
        i == name.len() <==> find(name@.reverse(), '.') == name.len(),
        i < name.len() ==> i == name.len() - 1 - find(name@.reverse(), '.'),
{
    proof {
        crate::text::lemma_find(name@.reverse(), '.');
    }
    let mut j = name.len();
    while j > 0 && name[j - 1] != '.'
        invariant
            j <= name.len(),
            forall|k: int| j <= k < name.len() ==> name@[k] != '.',
        decreases j,
    {
        j = j - 1;
    }
    let ghost r = name@.reverse();
    if j == 0 {
        assert forall|k: int| 0 <= k < r.len() implies r[k] != '.' by {
            assert(r[k] == name@[name.len() - 1 - k]);
        }
        assert(!r.contains('.'));
        name.len()
    } else {
        let ghost f = find(r, '.');
        assert(r[name.len() - j] == '.');
        assert(f <= name.len() - j) by {
            if f > name.len() - j {
                assert(r[name.len() - j] != '.');
            }
        }
        assert(f >= name.len() - j) by {
            if f < name.len() - j {
                assert(r[f] == name@[name.len() - 1 - f]);
            }
        }
        j - 1
    }
}

/// `(stem, extension)` of a file name (see `split_at_last_dot`).
pub fn split_name_at_dot(name: &[char]) -> (r: (Vec<char>, Option<Vec<char>>))
    ensures
        r.0@ == split_at_last_dot(name@).0,
        match r.1 {
            Some(e) => split_at_last_dot(name@).1 == Some(e@),
            None => split_at_last_dot(name@).1 is None,
        },
{
    let dots = ['.', '.'];
    assert(dots@ =~= seq!['.', '.']);
    let i = last_dot(name);
    if chars_eq(name, dots.as_slice()) || i == name.len() || i == 0 {
        (crate::text::copy_chars(name), None)
    } else {
        let stem = crate::text::sub_chars(name, 0, i);
        let ext = crate::text::sub_chars(name, i + 1, name.len());
        (stem, Some(ext))
    }
}

/// The extension of a path (see `extension`).
pub fn extension_of(p: &[char]) -> (r: Option<Vec<char>>)
    ensures
        match r {
            Some(e) => extension(p@) == Some(e@),
            None => extension(p@) is None,
        },
{
    match file_name_of(p) {
        Some(n) => split_name_at_dot(n.as_slice()).1,
        None => None,
    }
}

/// The stem of a path (see `file_stem`).
pub fn file_stem_of(p: &[char]) -> (r: Option<Vec<char>>)
    ensures
        match r {
            Some(s) => file_stem(p@) == Some(s@),
            None => file_stem(p@) is None,
        },
{
    match file_name_of(p) {
        Some(n) => Some(split_name_at_dot(n.as_slice()).0),
        None => None,
    }
}

/// `s` without trailing separators (a path made only of separators keeps one).
pub open spec fn trim_seps(s: Seq<char>) -> Seq<char>
    decreases s.len(),
{
    if s.len() > 1 && s.last() == '/' {
        trim_seps(s.drop_last())
    } else {
        s
    }
}

/// The parent of a path: the path without its last component and the
/// separators before it; none for the root or the empty path. The parent of a
/// one-component relative path is the empty path.
pub open spec fn parent(p: Seq<char>) -> Option<Seq<char>> {
    let t = trim_seps(p);
    if t.len() == 0 || t == seq!['/'] {
        None
    } else {
        let rev_index = find(t.reverse(), '/');
        if rev_index == t.len() {
            Some(Seq::empty())
        } else {
            let slash = t.len() - 1 - rev_index;
            if slash == 0 {
                Some(seq!['/'])
            } else {
                Some(trim_seps(t.subrange(0, slash)))
            }
        }
    }
}

/// `s[..end]` without trailing separators: the new end.
fn trim_seps_end(s: &[char], end: usize) -> (e: usize)
    requires
        end <= s.len(),
    ensures
        e <= end,
        trim_seps(s@.subrange(0, end as int)) == s@.subrange(0, e as int),
{
    let mut e = end;
    while e > 1 && s[e - 1] == '/'
        invariant
            e <= end <= s.len(),
            trim_seps(s@.subrange(0, end as int)) == trim_seps(s@.subrange(0, e as int)),
        decreases e,
    {
        assert(s@.subrange(0, e as int).drop_last() =~= s@.subrange(0, e - 1));
        e = e - 1;
    }
    e
}

/// The parent of a path (see `parent`).
pub fn parent_of(p: &[char]) -> (r: Option<Vec<char>>)
    ensures
        match r {
            Some(v) => parent(p@) == Some(v@),
            None => parent(p@) is None,
        },
{
    assert(p@.subrange(0, p@.len() as int) =~= p@);
    let e = trim_seps_end(p, p.len());
    let ghost t = p@.subrange(0, e as int);
    if e == 0 {
        return None;
    }
    if e == 1 && p[0] == '/' {
        assert(t =~= seq!['/']);
        return None;
    }
    assert(t != seq!['/']) by {
        if e == 1 {
            assert(t[0] != seq!['/'][0]);
        } else {
            assert(t.len() != seq!['/'].len());
        }
    }
    let t_exec = crate::text::sub_chars(p, 0, e);
    let i = last_slash(t_exec.as_slice());
    if i == e {
        Some(Vec::new())
    } else if i == 0 {
        let mut root: Vec<char> = Vec::new();
        root.push('/');
        Some(root)
    } else {
        assert(t_exec@.subrange(0, i as int) =~= t.subrange(0, i as int));
        let e2 = trim_seps_end(t_exec.as_slice(), i);
        Some(crate::text::sub_chars(t_exec.as_slice(), 0, e2))
    }
}

/// Index of the last separator of `name` (`name.len()` when there is none).
fn last_slash(name: &[char]) -> (i: usize)
    ensures
        i <= name.len(),
        i == name.len() <==> find(name@.reverse(), '/') == name.len(),
        i < name.len() ==> i == name.len() - 1 - find(name@.reverse(), '/'),
{
    proof {
        crate::text::lemma_find(name@.reverse(), '/');
    }
    let mut j = name.len();
    while j > 0 && name[j - 1] != '/'
        invariant
            j <= name.len(),
            forall|k: int| j <= k < name.len() ==> name@[k] != '/',
        decreases j,
    {
        j = j - 1;
    }
    let ghost r = name@.reverse();
    if j == 0 {
        assert forall|k: int| 0 <= k < r.len() implies r[k] != '/' by {
            assert(r[k] == name@[name.len() - 1 - k]);
        }
        assert(!r.contains('/'));
        name.len()
    } else {
        let ghost f = find(r, '/');
        assert(r[name.len() - j] == '/');
        assert(f <= name.len() - j) by {
            if f > name.len() - j {
                assert(r[name.len() - j] != '/');
            }
        }
        assert(f >= name.len() - j) by {
            if f < name.len() - j {
                assert(r[f] == name@[name.len() - 1 - f]);
            }
        }
        j - 1
    }
}

/// Whether some component of the path equals `name`.
pub open spec fn has_component(p: Seq<char>, name: Seq<char>) -> bool {
    !skipped_piece(name) && split(p, '/').contains(name)
}

/// Whether some component of the path equals `name` (see `has_component`).
pub fn has_component_exec(p: &[char], name: &[char]) -> (r: bool)
    ensures
        r == has_component(p@, name@),
{
    if is_skipped_piece(name) {
        return false;
    }
    let pieces = split_char(p, '/');
    let ghost all = vseqs(pieces@);
    let mut i: usize = 0;
    while i < pieces.len()
        invariant
            i <= pieces.len(),
            all == vseqs(pieces@),
            all == split(p@, '/'),
            !skipped_piece(name@),
            forall|k: int| 0 <= k < i ==> all[k] != name@,
        decreases pieces.len() - i,
    {
        if chars_eq(pieces[i].as_slice(), name) {
            assert(all[i as int] == pieces@[i as int]@);
            assert(all[i as int] == name@);
            assert(all.contains(name@));
            return true;
        }
        i = i + 1;
    }
    false
}

} // verus!
