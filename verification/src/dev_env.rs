//! Developer caches: the home folder and wildcards in the cache tables,
//! the nesting of cache folders, and the lookup of a tool by name.

use vstd::prelude::*;

use crate::pattern::{compile, escape, is_match, regex_compiles, regex_escaped, regex_matches};
use crate::search::{key_lt, path_key, sort_by_key, sort_paths, sorted_by_key};
use crate::text::{
    chars_eq_str, chars_of, concat, owned, split, split_char, sseqs, starts, starts_with_str,
    string_of, strs, sub_chars, vseqs,
};
use crate::unicode::{str_to_lower, unicode_str_lower};

verus! {

/// A developer tool and the cache folders it leaves (`~` stands for the
/// home folder; a `*` in a component matches any name).
#[derive(Clone, Debug)]
pub struct DevEnv {
    pub name: String,
    pub paths: Vec<String>,
}

/// A path with a leading `~` (alone or followed by `/`) replaced by the home
/// folder; other paths are kept.
pub open spec fn expanded_home(pattern: Seq<char>, home: Seq<char>) -> Seq<char> {
    if pattern == "~"@ {
        home
    } else if starts(pattern, "~/"@) {
        home + "/"@ + pattern.subrange(2, pattern.len() as int)
    } else {
        pattern
    }
}

/// A path with the home folder put in (see `expanded_home`).
pub fn expand_home(pattern: &str, home: &str) -> (r: String)
    ensures
        r@ == expanded_home(pattern@, home@),
{
    let p = chars_of(pattern);
    proof {
        reveal_strlit("~/");
    }
    if chars_eq_str(p.as_slice(), "~") {
        owned(home)
    } else if starts_with_str(p.as_slice(), "~/") {
        let rest = sub_chars(p.as_slice(), 2, p.len());
        let a = concat(home, "/");
        concat(a.as_str(), string_of(rest.as_slice()).as_str())
    } else {
        owned(pattern)
    }
}

/// A table row of developer caches.
pub(crate) fn dev_env(name: &str, paths: Vec<&str>) -> (r: DevEnv)
    ensures
        r.name@ == name@,
        sseqs(r.paths@) == strs(paths@),
{
    DevEnv { name: owned(name), paths: crate::text::owned_all(&paths) }
}

/// A table agrees with rows of names and paths.
pub open spec fn dev_table_is(r: Seq<DevEnv>, src: Seq<(Seq<char>, Seq<Seq<char>>)>) -> bool {
    r.len() == src.len() && forall|i: int|
        0 <= i < r.len() ==> (#[trigger] r[i]).name@ == src[i].0 && sseqs(r[i].paths@) =~= src[i].1
}


// ---------------------------------------------------------------------------
// Wildcard segments
// ---------------------------------------------------------------------------

/// The chunks of a wildcard segment, each escaped and followed by `.*`.
pub open spec fn escaped_chunks(chunks: Seq<Seq<char>>) -> Seq<char>
    decreases chunks.len(),
{
    if chunks.len() == 0 {
        Seq::empty()
    } else {
        escaped_chunks(chunks.drop_last()) + regex_escaped(chunks.last()) + ".*"@
    }
}

/// The regular expression a wildcard segment stands for: anchored at both
/// ends, its pieces between `*` matched literally, each followed by `.*`.
pub open spec fn glob_source(segment: Seq<char>) -> Seq<char> {
    "^"@ + escaped_chunks(split(segment, '*')) + "$"@
}

/// Whether a path or segment holds a wildcard.
pub fn has_wildcard(s: &str) -> (r: bool)
    ensures
        r == s@.contains('*'),
{
    let c = chars_of(s);
    crate::text::contains_char(c.as_slice(), '*')
}

/// The regular expression of a wildcard segment (see `glob_source`).
pub fn glob_regex_source(segment: &str) -> (r: String)
    ensures
        r@ == glob_source(segment@),
{
    let s = chars_of(segment);
    let chunks = split_char(s.as_slice(), '*');
    let mut out = chars_of("^");
    let dot_star = chars_of(".*");
    let ghost head = out@;
    let mut i: usize = 0;
    while i < chunks.len()
        invariant
            i <= chunks.len(),
            vseqs(chunks@) == split(segment@, '*'),
            dot_star@ == ".*"@,
            out@ == head + escaped_chunks(vseqs(chunks@).take(i as int)),
            head == "^"@,
        decreases chunks.len() - i,
    {
        assert(vseqs(chunks@).take(i + 1).drop_last() =~= vseqs(chunks@).take(i as int));
        assert(vseqs(chunks@).take(i + 1).last() == chunks@[i as int]@);
        let chunk = string_of(chunks[i].as_slice());
        let e = escape(chunk.as_str());
        let ec = chars_of(e.as_str());
        let ghost before = out@;
        crate::text::append_chars(&mut out, ec.as_slice());
        crate::text::append_chars(&mut out, dot_star.as_slice());
        assert(out@ =~= before + regex_escaped(chunks@[i as int]@) + ".*"@);
        i = i + 1;
    }
    assert(vseqs(chunks@).take(chunks.len() as int) =~= vseqs(chunks@));
    let ghost before = out@;
    out.push('$');
    proof {
        reveal_strlit("$");
        assert(out@ =~= before + "$"@);
    }
    string_of(out.as_slice())
}

/// Whether a folder entry's name matches a wildcard segment (no name does
/// when its expression does not compile).
pub fn segment_matches(segment: &str, name: &str) -> (r: bool)
    ensures
        r == (regex_compiles(glob_source(segment@)) && regex_matches(glob_source(segment@), name@)),
{
    let source = glob_regex_source(segment);
    match compile(source.as_str()) {
        Some(p) => is_match(&p, name),
        None => false,
    }
}

// ---------------------------------------------------------------------------
// Nested folders
// ---------------------------------------------------------------------------

/// `a` is a prefix of `b`, component by component.
pub open spec fn key_prefix(a: Seq<Seq<char>>, b: Seq<Seq<char>>) -> bool {
    a.len() <= b.len() && b.subrange(0, a.len() as int) == a
}

/// `x` is the folder `o` or lies inside it (compared by components).
pub open spec fn inside(x: Seq<char>, o: Seq<char>) -> bool {
    key_prefix(path_key(o), path_key(x))
}

/// Some folder of `kept` holds `x`.
pub open spec fn held(x: Seq<char>, kept: Seq<Seq<char>>) -> bool {
    exists|j: int| 0 <= j < kept.len() && inside(x, #[trigger] kept[j])
}

/// The folders, in order, without those inside a folder kept before them.
pub open spec fn unnested(s: Seq<Seq<char>>) -> Seq<Seq<char>>
    decreases s.len(),
{
    if s.len() == 0 {
        s
    } else {
        let k = unnested(s.drop_last());
        if held(s.last(), k) {
            k
        } else {
            k.push(s.last())
        }
    }
}

/// Whether the components `a` begin the components `b`.
pub(crate) fn key_prefix_of(a: &Vec<Vec<char>>, b: &Vec<Vec<char>>) -> (r: bool)
    ensures
        r == key_prefix(vseqs(a@), vseqs(b@)),
{
    if a.len() > b.len() {
        return false;
    }
    let mut i: usize = 0;
    while i < a.len()
        invariant
            i <= a.len() <= b.len(),
            forall|k: int| 0 <= k < i ==> #[trigger] vseqs(a@)[k] == vseqs(b@)[k],
        decreases a.len() - i,
    {
        if !crate::text::chars_eq(a[i].as_slice(), b[i].as_slice()) {
            assert(vseqs(b@).subrange(0, a.len() as int)[i as int] != vseqs(a@)[i as int]);
            return false;
        }
        i = i + 1;
    }
    assert(vseqs(b@).subrange(0, a.len() as int) =~= vseqs(a@));
    true
}

/// Removes from `dirs` every folder that lies inside another (or repeats
/// it), after putting them in path order (see `unnested` and
/// `sort_by_key`).
pub fn dedup_nested(dirs: &mut Vec<String>)
    ensures
        sseqs(final(dirs)@) == unnested(sort_by_key(sseqs(old(dirs)@))),
{
    let mut taken: Vec<String> = Vec::new();
    std::mem::swap(&mut taken, dirs);
    let sorted = sort_paths(taken);
    let ghost s = sseqs(sorted@);
    let mut kept: Vec<String> = Vec::new();
    let mut keys: Vec<Vec<Vec<char>>> = Vec::new();
    let mut i: usize = 0;
    while i < sorted.len()
        invariant
            i <= sorted.len(),
            s == sseqs(sorted@),
            sseqs(kept@) == unnested(s.take(i as int)),
            keys@.len() == kept@.len(),
            forall|j: int| 0 <= j < keys@.len() ==> vseqs(#[trigger] keys@[j]@) == path_key(kept@[j]@),
        decreases sorted.len() - i,
    {
        assert(s.take(i + 1).drop_last() =~= s.take(i as int));
        assert(s.take(i + 1).last() == sorted@[i as int]@);
        let p = chars_of(sorted[i].as_str());
        let key = crate::search::path_key_of(p.as_slice());
        let mut nested = false;
        let mut j: usize = 0;
        while j < keys.len()
            invariant
                j <= keys.len(),
                keys@.len() == kept@.len(),
                forall|m: int| 0 <= m < keys@.len() ==> vseqs(#[trigger] keys@[m]@) == path_key(kept@[m]@),
                vseqs(key@) == path_key(sorted@[i as int]@),
                nested == exists|m: int| 0 <= m < j && inside(sorted@[i as int]@, #[trigger] sseqs(kept@)[m]),
            decreases keys.len() - j,
        {
            if key_prefix_of(&keys[j], &key) {
                assert(inside(sorted@[i as int]@, sseqs(kept@)[j as int]));
                nested = true;
            }
            j = j + 1;
        }
        if !nested {
            let ghost before = sseqs(kept@);
            kept.push(owned(sorted[i].as_str()));
            keys.push(key);
            assert(sseqs(kept@) =~= before.push(sorted@[i as int]@));
        }
        i = i + 1;
    }
    assert(s.take(sorted.len() as int) =~= s);
    *dirs = kept;
}

/// After removing nested folders, every folder given lies in one that is
/// kept, and no kept folder lies in one kept before it.
pub proof fn law_dedup_nested(s: Seq<Seq<char>>)
    ensures
        forall|i: int| 0 <= i < s.len() ==> held(#[trigger] s[i], unnested(sort_by_key(s))),
        forall|i: int, j: int|
            0 <= i < j < unnested(sort_by_key(s)).len() ==> !inside(
                #[trigger] unnested(sort_by_key(s))[j],
                #[trigger] unnested(sort_by_key(s))[i],
            ),
{
    let t = sort_by_key(s);
    crate::search::law_sort_by_key(s);
    lemma_unnested(t);
    s.to_multiset_ensures();
    t.to_multiset_ensures();
    assert forall|i: int| 0 <= i < s.len() implies held(#[trigger] s[i], unnested(t)) by {
        assert(s.contains(s[i]));
        assert(s.to_multiset().count(s[i]) > 0);
        assert(t.to_multiset().count(s[i]) > 0);
        assert(t.contains(s[i]));
        let k = choose|k: int| 0 <= k < t.len() && t[k] == s[i];
        assert(held(t[k], unnested(t)));
    }
}

/// What `unnested` keeps holds every folder, and no kept folder lies in an
/// earlier one.
proof fn lemma_unnested(s: Seq<Seq<char>>)
    ensures
        forall|i: int| 0 <= i < s.len() ==> held(#[trigger] s[i], unnested(s)),
        forall|i: int, j: int|
            0 <= i < j < unnested(s).len() ==> !inside(#[trigger] unnested(s)[j], #[trigger] unnested(s)[i]),
    decreases s.len(),
{
    if s.len() > 0 {
        let t = s.drop_last();
        lemma_unnested(t);
        let k = unnested(t);
        assert forall|i: int| 0 <= i < s.len() implies held(#[trigger] s[i], unnested(s)) by {
            if i < t.len() {
                assert(s[i] == t[i]);
                assert(held(t[i], k));
                let m = choose|m: int| 0 <= m < k.len() && inside(t[i], #[trigger] k[m]);
                if !held(s.last(), k) {
                    assert(k.push(s.last())[m] == k[m]);
                }
            } else {
                if !held(s.last(), k) {
                    assert(k.push(s.last())[k.len() as int] == s.last());
                    assert(key_prefix(path_key(s.last()), path_key(s.last()))) by {
                        assert(path_key(s.last()).subrange(0, path_key(s.last()).len() as int)
                            =~= path_key(s.last()));
                    }
                }
            }
        }
        if !held(s.last(), k) {
            assert forall|i: int, j: int| 0 <= i < j < k.push(s.last()).len() implies !inside(
                #[trigger] k.push(s.last())[j],
                #[trigger] k.push(s.last())[i],
            ) by {
                if j == k.len() {
                    assert(k.push(s.last())[i] == k[i]);
                } else {
                    assert(k.push(s.last())[i] == k[i]);
                    assert(k.push(s.last())[j] == k[j]);
                }
            }
        }
    }
}

// ---------------------------------------------------------------------------
// Finding a tool by name
// ---------------------------------------------------------------------------

/// All cache folders of a table, in order.
pub open spec fn all_paths(envs: Seq<DevEnv>) -> Seq<Seq<char>>
    decreases envs.len(),
{
    if envs.len() == 0 {
        Seq::empty()
    } else {
        all_paths(envs.drop_last()) + sseqs(envs.last().paths@)
    }
}

/// The index of the first tool whose name in lower case is `lower`.
pub open spec fn first_named(envs: Seq<DevEnv>, lower: Seq<char>, i: int) -> bool {
    &&& 0 <= i < envs.len()
    &&& unicode_str_lower(envs[i].name@) == lower
    &&& forall|j: int| 0 <= j < i ==> unicode_str_lower(#[trigger] envs[j].name@) != lower
}

/// Copies of strings.
pub(crate) fn copy_strings(v: &Vec<String>) -> (r: Vec<String>)
    ensures
        sseqs(r@) == sseqs(v@),
{
    let mut r: Vec<String> = Vec::new();
    let mut i: usize = 0;
    while i < v.len()
        invariant
            i <= v.len(),
            sseqs(r@) == sseqs(v@).take(i as int),
        decreases v.len() - i,
    {
        let ghost before = r@;
        r.push(owned(v[i].as_str()));
        assert(sseqs(r@) =~= sseqs(before).push(v@[i as int]@));
        assert(sseqs(v@).take(i + 1) =~= sseqs(v@).take(i as int).push(v@[i as int]@));
        i = i + 1;
    }
    assert(sseqs(v@).take(v.len() as int) =~= sseqs(v@));
    r
}

/// The tool a name asks for, ignoring case: `all` asks for every folder of
/// the table under the name `All`; another name for the first tool of that
/// name, if any.
pub fn find_env(name: &str, envs: &Vec<DevEnv>) -> (r: Option<DevEnv>)
    ensures
        unicode_str_lower(name@) == "all"@ ==> (r matches Some(e) && e.name@ == "All"@ && sseqs(
            e.paths@,
        ) == all_paths(envs@)),
        unicode_str_lower(name@) != "all"@ ==> match r {
            Some(e) => exists|i: int|
                first_named(envs@, unicode_str_lower(name@), i) && e.name@ == envs@[i].name@
                    && sseqs(e.paths@) == sseqs(envs@[i].paths@),
            None => forall|i: int|
                0 <= i < envs@.len() ==> unicode_str_lower(#[trigger] envs@[i].name@) != unicode_str_lower(
                    name@,
                ),
        },
{
    let lower = str_to_lower(name);
    let l = chars_of(lower.as_str());
    if chars_eq_str(l.as_slice(), "all") {
        let mut paths: Vec<String> = Vec::new();
        let mut i: usize = 0;
        while i < envs.len()
            invariant
                i <= envs.len(),
                sseqs(paths@) == all_paths(envs@.take(i as int)),
            decreases envs.len() - i,
        {
            assert(envs@.take(i + 1).drop_last() =~= envs@.take(i as int));
            let more = copy_strings(&envs[i].paths);
            let ghost before = sseqs(paths@);
            let mut k: usize = 0;
            while k < more.len()
                invariant
                    k <= more.len(),
                    sseqs(paths@) == before + sseqs(more@).take(k as int),
                decreases more.len() - k,
            {
                let ghost prev = paths@;
                paths.push(owned(more[k].as_str()));
                assert(sseqs(paths@) =~= sseqs(prev).push(more@[k as int]@));
                assert(sseqs(more@).take(k + 1) =~= sseqs(more@).take(k as int).push(more@[k as int]@));
                assert(sseqs(paths@) =~= before + sseqs(more@).take(k + 1));
                k = k + 1;
            }
            assert(sseqs(more@).take(more.len() as int) =~= sseqs(more@));
            i = i + 1;
        }
        assert(envs@.take(envs.len() as int) =~= envs@);
        return Some(DevEnv { name: owned("All"), paths });
    }
    let mut i: usize = 0;
    while i < envs.len()
        invariant
            i <= envs.len(),
            l@ == unicode_str_lower(name@),
            l@ != "all"@,
            forall|j: int| 0 <= j < i ==> unicode_str_lower(#[trigger] envs@[j].name@) != l@,
        decreases envs.len() - i,
    {
        let en = str_to_lower(envs[i].name.as_str());
        let ec = chars_of(en.as_str());
        if crate::text::chars_eq(ec.as_slice(), l.as_slice()) {
            let e = DevEnv { name: owned(envs[i].name.as_str()), paths: copy_strings(&envs[i].paths) };
            assert(first_named(envs@, l@, i as int));
            return Some(e);
        }
        i = i + 1;
    }
    None
}

} // verus!
