//! Character-sequence primitives shared by every parser in the crate.
//!
//! Strings are modelled by their character sequences (`Seq<char>`); each
//! executable helper here works on `Vec<char>`/`[char]` and states its result
//! over the spec functions of this module.

use vstd::prelude::*;

verus! {

/// `String::push`: the string afterwards is the string before with the
/// character appended, as its documentation states.
pub assume_specification[ String::push ](s: &mut String, ch: char)
    ensures
        final(s)@ == old(s)@.push(ch),
;

// ---------------------------------------------------------------------------
// Conversions
// ---------------------------------------------------------------------------

/// The characters of a string slice, in order.
pub fn chars_of(s: &str) -> (v: Vec<char>)
    ensures
        v@ == s@,
{
    let mut v: Vec<char> = Vec::new();
    for c in it: s.chars()
        invariant
            v@ == it.seq().take(it.index() as int),
    {
        v.push(c);
    }
    v
}

/// A string made of the given characters.
pub fn string_of(v: &[char]) -> (s: String)
    ensures
        s@ == v@,
{
    let mut s = String::new();
    let mut i: usize = 0;
    while i < v.len()
        invariant
            i <= v.len(),
            s@ == v@.take(i as int),
        decreases v.len() - i,
    {
        s.push(v[i]);
        i = i + 1;
        assert(v@.take(i as int) =~= v@.take((i - 1) as int).push(v@[i - 1]));
    }
    assert(v@.take(v.len() as int) =~= v@);
    s
}

/// A copy of a string slice as an owned string.
pub fn owned(s: &str) -> (r: String)
    ensures
        r@ == s@,
{
    let v = chars_of(s);
    string_of(v.as_slice())
}

/// Appends the characters of `src` to `dst`.
pub fn append_chars(dst: &mut Vec<char>, src: &[char])
    ensures
        final(dst)@ == old(dst)@ + src@,
{
    let mut i: usize = 0;
    while i < src.len()
        invariant
            i <= src.len(),
            dst@ == old(dst)@ + src@.take(i as int),
        decreases src.len() - i,
    {
        dst.push(src[i]);
        i = i + 1;
        assert(src@.take(i as int) =~= src@.take((i - 1) as int).push(src@[i - 1]));
    }
    assert(src@.take(src.len() as int) =~= src@);
}

/// A copy of a slice of characters.
pub fn copy_chars(src: &[char]) -> (r: Vec<char>)
    ensures
        r@ == src@,
{
    let mut r: Vec<char> = Vec::new();
    append_chars(&mut r, src);
    r
}

/// The characters `v[from..to]`.
pub fn sub_chars(v: &[char], from: usize, to: usize) -> (r: Vec<char>)
    requires
        from <= to <= v.len(),
    ensures
        r@ == v@.subrange(from as int, to as int),
{
    let mut r: Vec<char> = Vec::new();
    let mut i = from;
    while i < to
        invariant
            from <= i <= to <= v.len(),
            r@ == v@.subrange(from as int, i as int),
        decreases to - i,
    {
        r.push(v[i]);
        i = i + 1;
        assert(v@.subrange(from as int, i as int) =~= v@.subrange(from as int, (i - 1) as int).push(
            v@[i - 1],
        ));
    }
    r
}

// ---------------------------------------------------------------------------
// Equality, prefixes, suffixes, substrings
// ---------------------------------------------------------------------------

/// Whether two character sequences are equal.
pub fn chars_eq(a: &[char], b: &[char]) -> (r: bool)
    ensures
        r == (a@ == b@),
{
    if a.len() != b.len() {
        return false;
    }
    let mut i: usize = 0;
    while i < a.len()
        invariant
            a.len() == b.len(),
            i <= a.len(),
            forall|k: int| 0 <= k < i ==> a@[k] == b@[k],
        decreases a.len() - i,
    {
        if a[i] != b[i] {
            return false;
        }
        i = i + 1;
    }
    assert(a@ =~= b@);
    true
}

/// Whether a character sequence equals a string slice.
pub fn chars_eq_str(a: &[char], b: &str) -> (r: bool)
    ensures
        r == (a@ == b@),
{
    let bv = chars_of(b);
    chars_eq(a, bv.as_slice())
}

/// `p` occurs in `s` starting at index `i`.
pub open spec fn occurs_at(s: Seq<char>, p: Seq<char>, i: int) -> bool {
    0 <= i && i + p.len() <= s.len() && s.subrange(i, i + p.len()) == p
}

/// `p` is a substring of `s` (the empty sequence is a substring of every sequence).
pub open spec fn has_sub(s: Seq<char>, p: Seq<char>) -> bool {
    exists|i: int| occurs_at(s, p, i)
}

/// `p` is a prefix of `s`.
pub open spec fn starts(s: Seq<char>, p: Seq<char>) -> bool {
    p.len() <= s.len() && s.subrange(0, p.len() as int) == p
}

/// `p` is a suffix of `s`.
pub open spec fn ends(s: Seq<char>, p: Seq<char>) -> bool {
    p.len() <= s.len() && s.subrange(s.len() - p.len(), s.len() as int) == p
}

/// Whether `p` occurs in `s` at index `i`.
pub fn occurs_at_exec(s: &[char], p: &[char], i: usize) -> (r: bool)
    ensures
        r == occurs_at(s@, p@, i as int),
{
    if i > s.len() || p.len() > s.len() - i {
        return false;
    }
    let mut k: usize = 0;
    while k < p.len()
        invariant
            i + p.len() <= s.len(),
            k <= p.len(),
            forall|j: int| 0 <= j < k ==> s@[i + j] == p@[j],
        decreases p.len() - k,
    {
        if s[i + k] != p[k] {
            assert(s@.subrange(i as int, i + p.len())[k as int] != p@[k as int]);
            return false;
        }
        k = k + 1;
    }
    assert(s@.subrange(i as int, i + p.len()) =~= p@);
    true
}

/// Whether `s` starts with `p`.
pub fn starts_with(s: &[char], p: &[char]) -> (r: bool)
    ensures
        r == starts(s@, p@),
{
    occurs_at_exec(s, p, 0)
}

/// Whether `s` starts with the string slice `p`.
pub fn starts_with_str(s: &[char], p: &str) -> (r: bool)
    ensures
        r == starts(s@, p@),
{
    let pv = chars_of(p);
    starts_with(s, pv.as_slice())
}

/// Whether `s` ends with `p`.
pub fn ends_with(s: &[char], p: &[char]) -> (r: bool)
    ensures
        r == ends(s@, p@),
{
    if p.len() > s.len() {
        return false;
    }
    occurs_at_exec(s, p, s.len() - p.len())
}

/// Whether `s` ends with the string slice `p`.
pub fn ends_with_str(s: &[char], p: &str) -> (r: bool)
    ensures
        r == ends(s@, p@),
{
    let pv = chars_of(p);
    ends_with(s, pv.as_slice())
}

/// Whether `p` is a substring of `s`.
pub fn contains(s: &[char], p: &[char]) -> (r: bool)
    ensures
        r == has_sub(s@, p@),
{
    if p.len() == 0 {
        assert(s@.subrange(0, 0) =~= p@);
        assert(occurs_at(s@, p@, 0));
        return true;
    }
    if p.len() > s.len() {
        assert forall|i: int| !occurs_at(s@, p@, i) by {}
        return false;
    }
    let mut i: usize = 0;
    while i <= s.len() - p.len()
        invariant
            1 <= p.len() <= s.len(),
            i <= s.len() - p.len() + 1,
            forall|j: int| 0 <= j < i ==> !occurs_at(s@, p@, j),
        decreases s.len() - p.len() + 1 - i,
    {
        if occurs_at_exec(s, p, i) {
            return true;
        }
        i = i + 1;
    }
    assert forall|j: int| !occurs_at(s@, p@, j) by {
        if 0 <= j && j + p@.len() <= s@.len() {
            assert(j < i);
        }
    }
    false
}

/// Whether the string slice `p` is a substring of `s`.
pub fn contains_str(s: &[char], p: &str) -> (r: bool)
    ensures
        r == has_sub(s@, p@),
{
    let pv = chars_of(p);
    contains(s, pv.as_slice())
}

/// Whether the character `c` occurs in `s`.
pub fn contains_char(s: &[char], c: char) -> (r: bool)
    ensures
        r == s@.contains(c),
{
    let mut i: usize = 0;
    while i < s.len()
        invariant
            i <= s.len(),
            forall|j: int| 0 <= j < i ==> s@[j] != c,
        decreases s.len() - i,
    {
        if s[i] == c {
            return true;
        }
        i = i + 1;
    }
    false
}

// ---------------------------------------------------------------------------
// White space and trimming
// ---------------------------------------------------------------------------

/// Unicode `White_Space` (the property `char::is_whitespace` tests).
pub open spec fn is_ws(c: char) -> bool {
    ||| '\u{9}' <= c <= '\u{d}'
    ||| c == ' '
    ||| c == '\u{85}'
    ||| c == '\u{a0}'
    ||| c == '\u{1680}'
    ||| '\u{2000}' <= c <= '\u{200a}'
    ||| c == '\u{2028}'
    ||| c == '\u{2029}'
    ||| c == '\u{202f}'
    ||| c == '\u{205f}'
    ||| c == '\u{3000}'
}

/// Whether `c` is Unicode white space.
pub fn is_whitespace(c: char) -> (r: bool)
    ensures
        r == is_ws(c),
{
    ('\u{9}' <= c && c <= '\u{d}') || c == ' ' || c == '\u{85}' || c == '\u{a0}' || c
        == '\u{1680}' || ('\u{2000}' <= c && c <= '\u{200a}') || c == '\u{2028}' || c
        == '\u{2029}' || c == '\u{202f}' || c == '\u{205f}' || c == '\u{3000}'
}

/// `s` without its leading white space.
pub open spec fn trim_start(s: Seq<char>) -> Seq<char>
    decreases s.len(),
{
    if s.len() > 0 && is_ws(s[0]) {
        trim_start(s.drop_first())
    } else {
        s
    }
}

/// `s` without its trailing white space.
pub open spec fn trim_end(s: Seq<char>) -> Seq<char>
    decreases s.len(),
{
    if s.len() > 0 && is_ws(s.last()) {
        trim_end(s.drop_last())
    } else {
        s
    }
}

/// `s` without leading and trailing white space.
pub open spec fn trim(s: Seq<char>) -> Seq<char> {
    trim_end(trim_start(s))
}

/// Index of the first character of `s` that is not white space (or its length).
fn skip_ws_front(s: &[char]) -> (i: usize)
    ensures
        i <= s.len(),
        trim_start(s@) == s@.subrange(i as int, s@.len() as int),
{
    let mut i: usize = 0;
    assert(s@.subrange(0, s@.len() as int) =~= s@);
    while i < s.len() && is_whitespace(s[i])
        invariant
            i <= s.len(),
            trim_start(s@) == trim_start(s@.subrange(i as int, s@.len() as int)),
        decreases s.len() - i,
    {
        assert(s@.subrange(i as int, s@.len() as int).drop_first() =~= s@.subrange(
            i + 1,
            s@.len() as int,
        ));
        i = i + 1;
    }
    i
}

/// Index just past the last character of `s[..end]` that is not white space.
fn skip_ws_back(s: &[char], end: usize) -> (j: usize)
    requires
        end <= s.len(),
    ensures
        j <= end,
        trim_end(s@.subrange(0, end as int)) == s@.subrange(0, j as int),
{
    let mut j = end;
    while j > 0 && is_whitespace(s[j - 1])
        invariant
            j <= end <= s.len(),
            trim_end(s@.subrange(0, end as int)) == trim_end(s@.subrange(0, j as int)),
        decreases j,
    {
        assert(s@.subrange(0, j as int).drop_last() =~= s@.subrange(0, j - 1));
        j = j - 1;
    }
    j
}

/// The first character of `trim_start(s)`, if any, is not white space.
pub proof fn lemma_trim_start_head(s: Seq<char>)
    ensures
        trim_start(s).len() > 0 ==> !is_ws(trim_start(s)[0]),
    decreases s.len(),
{
    if s.len() > 0 && is_ws(s[0]) {
        lemma_trim_start_head(s.drop_first());
    }
}

/// `trim_start(s)` is a suffix of `s`.
pub proof fn lemma_trim_start_suffix(s: Seq<char>)
    ensures
        trim_start(s).len() <= s.len(),
        trim_start(s) =~= s.subrange(s.len() - trim_start(s).len(), s.len() as int),
    decreases s.len(),
{
    if s.len() > 0 && is_ws(s[0]) {
        lemma_trim_start_suffix(s.drop_first());
    } else {
        assert(s.subrange(0, s.len() as int) =~= s);
    }
}

/// Trimming never lengthens a sequence.
proof fn lemma_trim_end_len(s: Seq<char>)
    ensures
        trim_end(s).len() <= s.len(),
        trim_end(s).len() == s.len() ==> trim_end(s) == s,
    decreases s.len(),
{
    if s.len() > 0 && is_ws(s.last()) {
        lemma_trim_end_len(s.drop_last());
    }
}

/// Index range `[a, b)` of `trim(s)` inside `s`.
pub fn trim_bounds(s: &[char]) -> (r: (usize, usize))
    ensures
        r.0 <= r.1 <= s.len(),
        trim(s@) == s@.subrange(r.0 as int, r.1 as int),
{
    let a = skip_ws_front(s);
    let b = skip_ws_back(s, s.len());
    proof {
        lemma_trim_start_head(s@);
        if a < s.len() {
            assert(s@.subrange(a as int, s@.len() as int)[0] == s@[a as int]);
        }
    }
    if b <= a {
        // all white space between a and the end
        proof {
            lemma_trim_end_suffix(s@, a as int, b as int);
        }
        (a, a)
    } else {
        proof {
            lemma_trim_end_suffix(s@, a as int, b as int);
        }
        (a, b)
    }
}

/// Trimming the tail `s[a..]` ends at the same place as trimming `s` (when that
/// place is past `a`), or is empty.
proof fn lemma_trim_end_suffix(s: Seq<char>, a: int, b: int)
    requires
        0 <= a <= s.len(),
        0 <= b <= s.len(),
        trim_end(s.subrange(0, s.len() as int)) == s.subrange(0, b),
        a < s.len() ==> !is_ws(s[a]),
    ensures
        b <= a ==> trim_end(s.subrange(a, s.len() as int)) =~= Seq::<char>::empty(),
        a < b ==> trim_end(s.subrange(a, s.len() as int)) =~= s.subrange(a, b),
    decreases s.len(),
{
    assert(s.subrange(0, s.len() as int) =~= s);
    lemma_trim_end_len(s);
    if s.len() == 0 {
    } else if b == s.len() {
        // last char is not white space
        lemma_trim_end_len(s.drop_last());
        assert(!is_ws(s.last()));
        if a < s.len() {
            assert(!is_ws(s.subrange(a, s.len() as int).last()));
        }
    } else {
        // last char is white space; recurse on the prefix
        assert(is_ws(s.last()));
        let t = s.drop_last();
        assert(trim_end(s) == trim_end(t));
        assert(t.subrange(0, t.len() as int) =~= t);
        assert(s.subrange(0, b) =~= t.subrange(0, b));
        if a < s.len() {
            assert(a < t.len() || a == t.len());
            if a == t.len() {
                assert(s[a] == s.last());
                assert(false);
            }
            lemma_trim_end_suffix(t, a, b);
            assert(s.subrange(a, s.len() as int).drop_last() =~= t.subrange(a, t.len() as int));
            assert(is_ws(s.subrange(a, s.len() as int).last()));
        } else {
            assert(s.subrange(a, s.len() as int) =~= Seq::<char>::empty());
        }
    }
}

/// `s` without leading and trailing white space.
pub fn trim_chars(s: &[char]) -> (r: Vec<char>)
    ensures
        r@ == trim(s@),
{
    let (a, b) = trim_bounds(s);
    sub_chars(s, a, b)
}

/// `s` without leading white space.
pub fn trim_start_chars(s: &[char]) -> (r: Vec<char>)
    ensures
        r@ == trim_start(s@),
{
    let a = skip_ws_front(s);
    sub_chars(s, a, s.len())
}

// ---------------------------------------------------------------------------
// Sequences of character sequences
// ---------------------------------------------------------------------------

/// The character sequences of a sequence of character vectors.
pub open spec fn vseqs(v: Seq<Vec<char>>) -> Seq<Seq<char>> {
    v.map_values(|x: Vec<char>| x@)
}

/// The character sequences of a sequence of strings.
pub open spec fn sseqs(v: Seq<String>) -> Seq<Seq<char>> {
    v.map_values(|x: String| x@)
}

/// Strings made of the given character vectors.
pub fn strings_of(v: &Vec<Vec<char>>) -> (r: Vec<String>)
    ensures
        sseqs(r@) == vseqs(v@),
{
    let mut r: Vec<String> = Vec::new();
    let mut i: usize = 0;
    while i < v.len()
        invariant
            i <= v.len(),
            sseqs(r@) == vseqs(v@.take(i as int)),
        decreases v.len() - i,
    {
        r.push(string_of(v[i].as_slice()));
        i = i + 1;
        assert(vseqs(v@.take(i as int)) =~= vseqs(v@.take((i - 1) as int)).push(v@[i - 1]@));
        assert(sseqs(r@) =~= sseqs(r@.drop_last()).push(r@.last()@));
    }
    assert(v@.take(v.len() as int) =~= v@);
    r
}

/// The character sequences of a sequence of string slices.
pub open spec fn strs(v: Seq<&str>) -> Seq<Seq<char>> {
    v.map_values(|x: &str| x@)
}

/// Owned copies of the given string slices.
pub fn owned_all(v: &Vec<&str>) -> (r: Vec<String>)
    ensures
        sseqs(r@) == strs(v@),
{
    let mut r: Vec<String> = Vec::new();
    let mut i: usize = 0;
    while i < v.len()
        invariant
            i <= v.len(),
            sseqs(r@) == strs(v@.take(i as int)),
        decreases v.len() - i,
    {
        r.push(owned(v[i]));
        i = i + 1;
        assert(strs(v@.take(i as int)) =~= strs(v@.take((i - 1) as int)).push(v@[i - 1]@));
        assert(sseqs(r@) =~= sseqs(r@.drop_last()).push(r@.last()@));
    }
    assert(v@.take(v.len() as int) =~= v@);
    r
}

/// The text `a` followed by the text `b`.
pub fn concat(a: &str, b: &str) -> (r: String)
    ensures
        r@ == a@ + b@,
{
    let mut v = chars_of(a);
    let w = chars_of(b);
    append_chars(&mut v, w.as_slice());
    string_of(v.as_slice())
}

/// The texts one after the other.
pub open spec fn flatten_texts(parts: Seq<Seq<char>>) -> Seq<char>
    decreases parts.len(),
{
    if parts.len() == 0 {
        Seq::empty()
    } else {
        flatten_texts(parts.drop_last()) + parts.last()
    }
}

/// Five texts one after the other.
pub proof fn reveal_flatten5(p: Seq<Seq<char>>)
    requires
        p.len() == 5,
    ensures
        flatten_texts(p) == p[0] + p[1] + p[2] + p[3] + p[4],
{
    reveal_with_fuel(flatten_texts, 6);
    assert(p.take(0) =~= Seq::<Seq<char>>::empty());
    assert(flatten_texts(p) =~= p[0] + p[1] + p[2] + p[3] + p[4]) by {
        assert(p.drop_last().drop_last().drop_last().drop_last().drop_last() =~= Seq::<Seq<char>>::empty());
    }
}

/// Nine texts one after the other.
pub proof fn reveal_flatten9(p: Seq<Seq<char>>)
    requires
        p.len() == 9,
    ensures
        flatten_texts(p) == p[0] + p[1] + p[2] + p[3] + p[4] + p[5] + p[6] + p[7] + p[8],
{
    reveal_with_fuel(flatten_texts, 10);
    assert(p.drop_last().drop_last().drop_last().drop_last().drop_last().drop_last().drop_last().drop_last().drop_last() =~= Seq::<Seq<char>>::empty());
    assert(flatten_texts(p) =~= p[0] + p[1] + p[2] + p[3] + p[4] + p[5] + p[6] + p[7] + p[8]);
}

/// The non-empty strings of `v`, in order.
pub fn nonempty_only(v: &Vec<String>) -> (r: Vec<String>)
    ensures
        sseqs(r@) == crate::pkg::kept(
            sseqs(v@),
            |p: Seq<char>|
                if p.len() == 0 {
                    None
                } else {
                    Some(p)
                },
        ),
{
    let ghost f = |p: Seq<char>|
        if p.len() == 0 {
            None
        } else {
            Some(p)
        };
    let mut r: Vec<String> = Vec::new();
    let mut i: usize = 0;
    while i < v.len()
        invariant
            i <= v.len(),
            f == (|p: Seq<char>|
                if p.len() == 0 {
                    None
                } else {
                    Some(p)
                }),
            sseqs(r@) == crate::pkg::kept(sseqs(v@).take(i as int), f),
        decreases v.len() - i,
    {
        assert(sseqs(v@).take(i + 1).drop_last() =~= sseqs(v@).take(i as int));
        assert(sseqs(v@).take(i + 1).last() == v@[i as int]@);
        let c = chars_of(v[i].as_str());
        if c.len() != 0 {
            let ghost before = sseqs(r@);
            r.push(owned(v[i].as_str()));
            assert(sseqs(r@) =~= before.push(v@[i as int]@));
        }
        i = i + 1;
    }
    assert(sseqs(v@).take(v@.len() as int) =~= sseqs(v@));
    r
}

/// Whether a string equals the character sequence `s`.
pub fn string_eq_chars(a: &String, s: &[char]) -> (r: bool)
    ensures
        r == (a@ == s@),
{
    let av = chars_of(a.as_str());
    chars_eq(av.as_slice(), s)
}

// ---------------------------------------------------------------------------
// Searching and splitting
// ---------------------------------------------------------------------------

/// Index of the first occurrence of `c` in `s` (`s.len()` when absent).
pub open spec fn find(s: Seq<char>, c: char) -> int
    decreases s.len(),
{
    if s.len() == 0 {
        0
    } else if s[0] == c {
        0
    } else {
        1 + find(s.drop_first(), c)
    }
}

/// `find` lies in `[0, s.len()]`, the character there is `c`, and no earlier
/// character is `c`.
pub proof fn lemma_find(s: Seq<char>, c: char)
    ensures
        0 <= find(s, c) <= s.len(),
        find(s, c) < s.len() ==> s[find(s, c)] == c,
        forall|j: int| 0 <= j < find(s, c) ==> s[j] != c,
        find(s, c) == s.len() <==> !s.contains(c),
    decreases s.len(),
{
    if s.len() > 0 && s[0] != c {
        lemma_find(s.drop_first(), c);
        assert forall|j: int| 0 <= j < find(s, c) implies s[j] != c by {
            if j > 0 {
                assert(s[j] == s.drop_first()[j - 1]);
            }
        }
        if find(s, c) == s.len() {
            assert forall|j: int| 0 <= j < s.len() implies s[j] != c by {}
        } else {
            assert(s[find(s, c)] == s.drop_first()[find(s.drop_first(), c)]);
        }
    }
}

/// Index of the first occurrence of `c` in `s` (`s.len()` when absent).
pub fn find_char(s: &[char], c: char) -> (i: usize)
    ensures
        i == find(s@, c),
{
    let mut i: usize = 0;
    assert(s@.subrange(0, s@.len() as int) =~= s@);
    while i < s.len() && s[i] != c
        invariant
            i <= s.len(),
            find(s@, c) == i + find(s@.subrange(i as int, s@.len() as int), c),
        decreases s.len() - i,
    {
        assert(s@.subrange(i as int, s@.len() as int).drop_first() =~= s@.subrange(
            i + 1,
            s@.len() as int,
        ));
        i = i + 1;
    }
    i
}

/// Index of the first white-space character of `s` (`s.len()` when absent).
pub open spec fn find_ws(s: Seq<char>) -> int
    decreases s.len(),
{
    if s.len() == 0 {
        0
    } else if is_ws(s[0]) {
        0
    } else {
        1 + find_ws(s.drop_first())
    }
}

/// Bounds of `find_ws`.
pub proof fn lemma_find_ws(s: Seq<char>)
    ensures
        0 <= find_ws(s) <= s.len(),
        find_ws(s) < s.len() ==> is_ws(s[find_ws(s)]),
        forall|j: int| 0 <= j < find_ws(s) ==> !is_ws(s[j]),
    decreases s.len(),
{
    if s.len() > 0 && !is_ws(s[0]) {
        lemma_find_ws(s.drop_first());
        assert forall|j: int| 0 <= j < find_ws(s) implies !is_ws(s[j]) by {
            if j > 0 {
                assert(s[j] == s.drop_first()[j - 1]);
            }
        }
        if find_ws(s) < s.len() {
            assert(s[find_ws(s)] == s.drop_first()[find_ws(s.drop_first())]);
        }
    }
}

/// Index of the first white-space character of `s` (`s.len()` when absent).
pub fn find_whitespace(s: &[char]) -> (i: usize)
    ensures
        i == find_ws(s@),
{
    let mut i: usize = 0;
    assert(s@.subrange(0, s@.len() as int) =~= s@);
    while i < s.len() && !is_whitespace(s[i])
        invariant
            i <= s.len(),
            find_ws(s@) == i + find_ws(s@.subrange(i as int, s@.len() as int)),
        decreases s.len() - i,
    {
        assert(s@.subrange(i as int, s@.len() as int).drop_first() =~= s@.subrange(
            i + 1,
            s@.len() as int,
        ));
        i = i + 1;
    }
    i
}

/// The pieces of `s` between occurrences of `sep` (always at least one piece).
pub open spec fn split(s: Seq<char>, sep: char) -> Seq<Seq<char>>
    decreases s.len(),
{
    if s.len() == 0 {
        seq![Seq::<char>::empty()]
    } else {
        let p = split(s.drop_last(), sep);
        if s.last() == sep {
            p.push(Seq::<char>::empty())
        } else {
            p.update(p.len() - 1, p.last().push(s.last()))
        }
    }
}

/// `split` yields at least one piece.
pub proof fn lemma_split_len(s: Seq<char>, sep: char)
    ensures
        split(s, sep).len() >= 1,
    decreases s.len(),
{
    if s.len() > 0 {
        lemma_split_len(s.drop_last(), sep);
    }
}

/// The pieces of `s` between occurrences of `sep`.
pub fn split_char(s: &[char], sep: char) -> (r: Vec<Vec<char>>)
    ensures
        vseqs(r@) == split(s@, sep),
{
    let mut parts: Vec<Vec<char>> = Vec::new();
    let mut cur: Vec<char> = Vec::new();
    let mut i: usize = 0;
    while i < s.len()
        invariant
            i <= s.len(),
            vseqs(parts@).push(cur@) == split(s@.take(i as int), sep),
        decreases s.len() - i,
    {
        let ghost before = s@.take(i as int);
        proof {
            lemma_split_len(before, sep);
        }
        assert(s@.take(i + 1).drop_last() =~= before);
        if s[i] == sep {
            let done = cur;
            parts.push(done);
            cur = Vec::new();
            assert(vseqs(parts@) =~= vseqs(parts@.drop_last()).push(parts@.last()@));
        } else {
            cur.push(s[i]);
        }
        i = i + 1;
        assert(vseqs(parts@).push(cur@) =~= split(s@.take(i as int), sep));
    }
    assert(s@.take(s.len() as int) =~= s@);
    parts.push(cur);
    assert(vseqs(parts@) =~= vseqs(parts@.drop_last()).push(parts@.last()@));
    parts
}

/// `l` without one trailing carriage return.
pub open spec fn strip_cr(l: Seq<char>) -> Seq<char> {
    if l.len() > 0 && l.last() == '\r' {
        l.drop_last()
    } else {
        l
    }
}

/// Number of lines in a `\n`-split: the empty piece after a final `\n`
/// (or of an empty text) does not count.
pub open spec fn line_count(parts: Seq<Seq<char>>) -> int {
    if parts.len() > 0 && parts.last().len() == 0 {
        parts.len() - 1
    } else {
        parts.len() as int
    }
}

/// Line `i` of a `\n`-split: a piece followed by `\n` loses one `\r`.
pub open spec fn line_piece(parts: Seq<Seq<char>>, i: int) -> Seq<char> {
    if i + 1 < parts.len() {
        strip_cr(parts[i])
    } else {
        parts[i]
    }
}

/// The lines of `s` as `str::lines` yields them: split at `\n`, a `\r`
/// directly before a `\n` dropped, and no empty line after a final `\n`.
pub open spec fn lines(s: Seq<char>) -> Seq<Seq<char>> {
    Seq::new(line_count(split(s, '\n')) as nat, |i: int| line_piece(split(s, '\n'), i))
}

/// `l` without one trailing carriage return.
fn strip_cr_chars(l: Vec<char>) -> (r: Vec<char>)
    ensures
        r@ == strip_cr(l@),
{
    let mut l = l;
    if l.len() > 0 && l[l.len() - 1] == '\r' {
        l.pop();
    }
    l
}

/// The lines of `s` (see `lines`).
pub fn lines_of(s: &[char]) -> (r: Vec<Vec<char>>)
    ensures
        vseqs(r@) == lines(s@),
{
    let parts = split_char(s, '\n');
    proof {
        lemma_split_len(s@, '\n');
    }
    let ghost sp = split(s@, '\n');
    let n = if parts[parts.len() - 1].len() == 0 {
        parts.len() - 1
    } else {
        parts.len()
    };
    assert(sp.len() == parts@.len());
    assert(sp.last() == parts@.last()@);
    assert(line_count(sp) == n);
    assert(lines(s@).len() == n);
    let mut r: Vec<Vec<char>> = Vec::new();
    let mut i: usize = 0;
    while i < n
        invariant
            n <= parts.len(),
            sp == split(s@, '\n'),
            vseqs(parts@) == sp,
            i <= n,
            vseqs(r@) == lines(s@).take(i as int),
            lines(s@).len() == n,
        decreases n - i,
    {
        let piece = copy_chars(parts[i].as_slice());
        assert(piece@ == sp[i as int]);
        let line = if i + 1 < parts.len() {
            strip_cr_chars(piece)
        } else {
            piece
        };
        assert(sp.len() == parts@.len());
        assert(lines(s@)[i as int] == line_piece(sp, i as int));
        assert(line@ == lines(s@)[i as int]);
        let ghost prev = r@;
        r.push(line);
        assert(vseqs(r@) =~= vseqs(prev).push(line@));
        i = i + 1;
        assert(vseqs(r@) =~= lines(s@).take(i as int));
    }
    assert(lines(s@).take(n as int) =~= lines(s@));
    r
}

/// The maximal runs of non-white-space characters of `s`, as
/// `str::split_whitespace` yields them.
pub open spec fn words(s: Seq<char>) -> Seq<Seq<char>>
    decreases s.len(),
{
    if s.len() == 0 {
        Seq::empty()
    } else {
        let w = words(s.drop_last());
        let c = s.last();
        if is_ws(c) {
            w
        } else if s.len() >= 2 && !is_ws(s[s.len() - 2]) && w.len() > 0 {
            w.update(w.len() - 1, w.last().push(c))
        } else {
            w.push(seq![c])
        }
    }
}

/// The words of `s` (see `words`).
pub fn words_of(s: &[char]) -> (r: Vec<Vec<char>>)
    ensures
        vseqs(r@) == words(s@),
{
    let mut r: Vec<Vec<char>> = Vec::new();
    let mut i: usize = 0;
    while i < s.len()
        invariant
            i <= s.len(),
            vseqs(r@) == words(s@.take(i as int)),
        decreases s.len() - i,
    {
        let ghost before = s@.take(i as int);
        assert(s@.take(i + 1).drop_last() =~= before);
        let c = s[i];
        if is_whitespace(c) {
        } else if i >= 1 && !is_whitespace(s[i - 1]) && r.len() > 0 {
            let mut last = r.pop().unwrap();
            last.push(c);
            r.push(last);
            assert(s@.take(i + 1)[i - 1] == s@[i - 1]);
        } else {
            let mut w: Vec<char> = Vec::new();
            w.push(c);
            r.push(w);
            proof {
                if i >= 1 {
                    assert(s@.take(i + 1)[i - 1] == s@[i - 1]);
                }
            }
        }
        i = i + 1;
        assert(vseqs(r@) =~= words(s@.take(i as int)));
    }
    assert(s@.take(s.len() as int) =~= s@);
    r
}

/// `s` with every non-overlapping occurrence of `pat` (leftmost first)
/// replaced by `rep`.
pub open spec fn replace_all(s: Seq<char>, pat: Seq<char>, rep: Seq<char>) -> Seq<char>
    decreases s.len(),
{
    if pat.len() == 0 || s.len() == 0 {
        s
    } else if starts(s, pat) {
        rep + replace_all(s.subrange(pat.len() as int, s.len() as int), pat, rep)
    } else {
        seq![s[0]] + replace_all(s.drop_first(), pat, rep)
    }
}

/// `s` with every occurrence of `pat` replaced by `rep` (see `replace_all`).
pub fn replace_chars(s: &[char], pat: &[char], rep: &[char]) -> (r: Vec<char>)
    requires
        pat.len() > 0,
    ensures
        r@ == replace_all(s@, pat@, rep@),
{
    let mut r: Vec<char> = Vec::new();
    let mut i: usize = 0;
    assert(s@.subrange(0, s@.len() as int) =~= s@);
    while i < s.len()
        invariant
            pat.len() > 0,
            i <= s.len(),
            r@ + replace_all(s@.subrange(i as int, s@.len() as int), pat@, rep@) == replace_all(
                s@,
                pat@,
                rep@,
            ),
        decreases s.len() - i,
    {
        let ghost rest = s@.subrange(i as int, s@.len() as int);
        if occurs_at_exec(s, pat, i) {
            assert(rest.subrange(0, pat@.len() as int) =~= s@.subrange(i as int, i + pat@.len()));
            assert(rest.subrange(pat@.len() as int, rest.len() as int) =~= s@.subrange(
                i + pat@.len(),
                s@.len() as int,
            ));
            append_chars(&mut r, rep);
            assert(r@ + replace_all(s@.subrange(i + pat@.len(), s@.len() as int), pat@, rep@)
                =~= replace_all(s@, pat@, rep@));
            i = i + pat.len();
        } else {
            proof {
                if starts(rest, pat@) {
                    assert(rest.subrange(0, pat@.len() as int) =~= s@.subrange(
                        i as int,
                        i + pat@.len(),
                    ));
                }
            }
            assert(rest.drop_first() =~= s@.subrange(i + 1, s@.len() as int));
            r.push(s[i]);
            assert(r@ + replace_all(s@.subrange(i + 1, s@.len() as int), pat@, rep@) =~= replace_all(
                s@,
                pat@,
                rep@,
            ));
            i = i + 1;
        }
    }
    assert(s@.subrange(s@.len() as int, s@.len() as int) =~= Seq::<char>::empty());
    assert(r@ + Seq::<char>::empty() =~= r@);
    r
}

// ---------------------------------------------------------------------------
// ASCII case and ordering
// ---------------------------------------------------------------------------

/// ASCII lower-case mapping of one character (other characters unchanged).
pub open spec fn ascii_lower(c: char) -> char {
    if 'A' <= c <= 'Z' {
        ((c as u32) + 32) as char
    } else {
        c
    }
}

/// ASCII lower-case mapping of one character.
pub fn to_ascii_lower(c: char) -> (r: char)
    ensures
        r == ascii_lower(c),
{
    if 'A' <= c && c <= 'Z' {
        let u = c as u32;
        let b = u as u8;
        assert(b as u32 == u) by (bit_vector)
            requires
                b == u as u8,
                u <= 90,
        ;
        (b + 32) as char
    } else {
        c
    }
}

/// ASCII lower-case mapping of a sequence.
pub open spec fn ascii_lower_seq(s: Seq<char>) -> Seq<char> {
    s.map_values(|c: char| ascii_lower(c))
}

/// ASCII lower-case mapping of a sequence.
pub fn to_ascii_lower_chars(s: &[char]) -> (r: Vec<char>)
    ensures
        r@ == ascii_lower_seq(s@),
{
    let mut r: Vec<char> = Vec::new();
    let mut i: usize = 0;
    while i < s.len()
        invariant
            i <= s.len(),
            r@ == ascii_lower_seq(s@.take(i as int)),
        decreases s.len() - i,
    {
        r.push(to_ascii_lower(s[i]));
        i = i + 1;
        assert(r@ =~= ascii_lower_seq(s@.take(i as int)));
    }
    assert(s@.take(s.len() as int) =~= s@);
    r
}

/// The character sequence of an optional string.
pub open spec fn opt_seq(o: Option<String>) -> Option<Seq<char>> {
    match o {
        Some(s) => Some(s@),
        None => None,
    }
}

/// `parts` joined with `sep` between consecutive parts.
pub open spec fn join(parts: Seq<Seq<char>>, sep: char) -> Seq<char>
    decreases parts.len(),
{
    if parts.len() == 0 {
        Seq::empty()
    } else if parts.len() == 1 {
        parts[0]
    } else {
        join(parts.drop_last(), sep).push(sep) + parts.last()
    }
}

/// `parts[..n]` joined with `sep` (see `join`).
pub fn join_chars(parts: &Vec<Vec<char>>, n: usize, sep: char) -> (r: Vec<char>)
    requires
        n <= parts.len(),
    ensures
        r@ == join(vseqs(parts@).take(n as int), sep),
{
    let mut r: Vec<char> = Vec::new();
    let mut i: usize = 0;
    while i < n
        invariant
            n <= parts.len(),
            i <= n,
            r@ == join(vseqs(parts@).take(i as int), sep),
        decreases n - i,
    {
        let ghost prev = vseqs(parts@).take(i as int);
        assert(vseqs(parts@).take(i + 1).drop_last() =~= prev);
        if i > 0 {
            r.push(sep);
        }
        append_chars(&mut r, parts[i].as_slice());
        i = i + 1;
        proof {
            if i == 1 {
                assert(vseqs(parts@).take(1)[0] == parts@[0]@);
                assert(r@ =~= join(vseqs(parts@).take(1), sep));
            } else {
                assert(vseqs(parts@).take(i as int).last() == parts@[i - 1]@);
            }
        }
    }
    r
}

// ---------------------------------------------------------------------------
// Membership tests over lists of strings
// ---------------------------------------------------------------------------

/// Some string of `list` is a prefix of `s`.
pub open spec fn any_prefix(s: Seq<char>, list: Seq<String>) -> bool {
    exists|j: int| 0 <= j < list.len() && starts(s, #[trigger] list[j]@)
}

/// Some string of `list` occurs in `s`.
pub open spec fn any_sub(s: Seq<char>, list: Seq<String>) -> bool {
    exists|j: int| 0 <= j < list.len() && has_sub(s, #[trigger] list[j]@)
}

/// Some string of `list` equals `s`.
pub open spec fn any_eq(s: Seq<char>, list: Seq<String>) -> bool {
    exists|j: int| 0 <= j < list.len() && #[trigger] list[j]@ == s
}

/// Whether some string of `list` is a prefix of `s`.
pub fn has_any_prefix(s: &[char], list: &Vec<String>) -> (r: bool)
    ensures
        r == any_prefix(s@, list@),
{
    let mut j: usize = 0;
    while j < list.len()
        invariant
            j <= list.len(),
            forall|k: int| 0 <= k < j ==> !starts(s@, #[trigger] list@[k]@),
        decreases list.len() - j,
    {
        let p = chars_of(list[j].as_str());
        if starts_with(s, p.as_slice()) {
            return true;
        }
        j = j + 1;
    }
    false
}

/// Whether some string of `list` occurs in `s`.
pub fn has_any_sub(s: &[char], list: &Vec<String>) -> (r: bool)
    ensures
        r == any_sub(s@, list@),
{
    let mut j: usize = 0;
    while j < list.len()
        invariant
            j <= list.len(),
            forall|k: int| 0 <= k < j ==> !has_sub(s@, #[trigger] list@[k]@),
        decreases list.len() - j,
    {
        let p = chars_of(list[j].as_str());
        if contains(s, p.as_slice()) {
            return true;
        }
        j = j + 1;
    }
    false
}

/// Whether some string of `list` equals `s`.
pub fn has_any_eq(s: &[char], list: &Vec<String>) -> (r: bool)
    ensures
        r == any_eq(s@, list@),
{
    let mut j: usize = 0;
    while j < list.len()
        invariant
            j <= list.len(),
            forall|k: int| 0 <= k < j ==> #[trigger] list@[k]@ != s@,
        decreases list.len() - j,
    {
        if string_eq_chars(&list[j], s) {
            return true;
        }
        j = j + 1;
    }
    false
}

} // verus!
