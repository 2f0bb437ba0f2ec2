//! The search for an application's files: the application itself, the
//! entries of the search folders that match it (see `matcher`), its
//! containers and forced paths, and the final, sorted collection without
//! paths that lie inside other collected paths.
//!
//! Walking the folders is the caller's: for each folder entry it asks
//! `entry_decision` what to collect and whether to descend, and hands the
//! collected items of each folder to `insert_results`.

use vstd::prelude::*;

use crate::format::{normal_form, pear_format};
use crate::identifiers::{identifiers_of, CachedIdentifiers};
use crate::matcher::{belongs_to_app, should_skip_item, skipped, specific_condition};
use crate::model::{AppInfo, Condition, Sensitivity, SkipCondition};
use crate::order::{lemma_text_lt_transitive, lemma_text_lt_trichotomy, text_less, text_lt};
use crate::paths::{
    extension, extension_of, file_name, file_name_of, file_stem, file_stem_of, has_component,
    has_component_exec, parent, parent_of, skipped_piece,
};
use crate::text::{
    chars_eq, chars_of, concat, contains_str, has_sub, opt_seq, owned, split, split_char, sseqs,
    starts, starts_with, string_of, vseqs,
};

verus! {

// ---------------------------------------------------------------------------
// Trash
// ---------------------------------------------------------------------------

/// A path inside a trash folder: one of its components is `.Trash` (a
/// component, not a part of a name: `.TrashFoo` does not count).
pub open spec fn in_trash(path: Seq<char>) -> bool {
    has_component(path, ".Trash"@)
}

/// Whether a path lies inside a trash folder (see `in_trash`).
pub fn is_in_trash(path_str: &str) -> (r: bool)
    ensures
        r == in_trash(path_str@),
{
    let p = chars_of(path_str);
    let t = chars_of(".Trash");
    has_component_exec(p.as_slice(), t.as_slice())
}

// ---------------------------------------------------------------------------
// Path order
// ---------------------------------------------------------------------------

/// The named components of a path: the pieces between `/` that are neither
/// empty nor `.`.
pub open spec fn named_parts(pieces: Seq<Seq<char>>) -> Seq<Seq<char>>
    decreases pieces.len(),
{
    if pieces.len() == 0 {
        Seq::empty()
    } else if skipped_piece(pieces.last()) {
        named_parts(pieces.drop_last())
    } else {
        named_parts(pieces.drop_last()).push(pieces.last())
    }
}

/// The key by which paths are ordered: the root (as an empty text, which
/// comes before every name) for an absolute path, then the named components.
pub open spec fn path_key(p: Seq<char>) -> Seq<Seq<char>> {
    let root = if p.len() > 0 && p[0] == '/' {
        seq![Seq::<char>::empty()]
    } else {
        Seq::empty()
    };
    root + named_parts(split(p, '/'))
}

/// `a` comes before `b`, component by component.
pub open spec fn key_lt(a: Seq<Seq<char>>, b: Seq<Seq<char>>) -> bool
    decreases a.len(),
{
    if a.len() == 0 {
        b.len() > 0
    } else if b.len() == 0 {
        false
    } else if a[0] != b[0] {
        text_lt(a[0], b[0])
    } else {
        key_lt(a.drop_first(), b.drop_first())
    }
}

/// Of two different keys exactly one comes first; none comes before itself.
pub proof fn lemma_key_lt_trichotomy(a: Seq<Seq<char>>, b: Seq<Seq<char>>)
    ensures
        !key_lt(a, a),
        a != b ==> (key_lt(a, b) != key_lt(b, a)),
        a == b ==> !key_lt(a, b),
    decreases a.len(),
{
    if a.len() > 0 && b.len() > 0 {
        lemma_key_lt_trichotomy(a.drop_first(), b.drop_first());
        lemma_key_lt_trichotomy(a.drop_first(), a.drop_first());
        lemma_text_lt_trichotomy(a[0], b[0]);
        if a[0] == b[0] && a != b {
            assert(a.drop_first() != b.drop_first()) by {
                if a.drop_first() == b.drop_first() {
                    assert(a =~= seq![a[0]] + a.drop_first());
                    assert(b =~= seq![b[0]] + b.drop_first());
                }
            }
        }
    } else if a.len() > 0 {
        lemma_key_lt_trichotomy(a.drop_first(), a.drop_first());
    } else if b.len() == 0 {
        assert(a =~= b);
    }
}

/// The key order is transitive.
pub proof fn lemma_key_lt_transitive(a: Seq<Seq<char>>, b: Seq<Seq<char>>, c: Seq<Seq<char>>)
    requires
        key_lt(a, b),
        key_lt(b, c),
    ensures
        key_lt(a, c),
    decreases a.len(),
{
    if a.len() > 0 && b.len() > 0 && c.len() > 0 {
        if a[0] == b[0] && b[0] == c[0] {
            lemma_key_lt_transitive(a.drop_first(), b.drop_first(), c.drop_first());
        } else if a[0] != b[0] && b[0] != c[0] {
            lemma_text_lt_transitive(a[0], b[0], c[0]);
            lemma_text_lt_trichotomy(a[0], c[0]);
        }
    }
}

/// The named components of a path's pieces (see `named_parts`).
fn named_parts_of(pieces: &Vec<Vec<char>>) -> (r: Vec<Vec<char>>)
    ensures
        vseqs(r@) == named_parts(vseqs(pieces@)),
{
    let mut r: Vec<Vec<char>> = Vec::new();
    let mut i: usize = 0;
    while i < pieces.len()
        invariant
            i <= pieces.len(),
            vseqs(r@) == named_parts(vseqs(pieces@).take(i as int)),
        decreases pieces.len() - i,
    {
        assert(vseqs(pieces@).take(i + 1).drop_last() =~= vseqs(pieces@).take(i as int));
        assert(vseqs(pieces@).take(i + 1).last() == pieces@[i as int]@);
        let p = &pieces[i];
        let skip = p.len() == 0 || (p.len() == 1 && p[0] == '.');
        proof {
            if p.len() == 1 && p[0] == '.' {
                assert(p@ =~= seq!['.']);
            }
            if p.len() == 1 && p[0] != '.' {
                assert(p@ != seq!['.']) by {
                    assert(p@[0] != seq!['.'][0]);
                }
            }
            if p.len() > 1 {
                assert(p@.len() != seq!['.'].len());
            }
        }
        if !skip {
            let ghost before = vseqs(r@);
            r.push(crate::text::copy_chars(p.as_slice()));
            assert(vseqs(r@) =~= before.push(p@));
        }
        i = i + 1;
    }
    assert(vseqs(pieces@).take(pieces@.len() as int) =~= vseqs(pieces@));
    r
}

/// The key of a path (see `path_key`).
pub(crate) fn path_key_of(p: &[char]) -> (r: Vec<Vec<char>>)
    ensures
        vseqs(r@) == path_key(p@),
{
    let pieces = split_char(p, '/');
    let named = named_parts_of(&pieces);
    let mut r: Vec<Vec<char>> = Vec::new();
    if p.len() > 0 && p[0] == '/' {
        r.push(Vec::new());
    }
    let ghost start = vseqs(r@);
    assert(start =~= if p@.len() > 0 && p@[0] == '/' {
        seq![Seq::<char>::empty()]
    } else {
        Seq::<Seq<char>>::empty()
    });
    let mut i: usize = 0;
    while i < named.len()
        invariant
            i <= named.len(),
            vseqs(r@) == start + vseqs(named@).take(i as int),
        decreases named.len() - i,
    {
        let ghost before = vseqs(r@);
        r.push(crate::text::copy_chars(named[i].as_slice()));
        assert(vseqs(r@) =~= before.push(named@[i as int]@));
        i = i + 1;
        assert(start + vseqs(named@).take(i as int) =~= (start + vseqs(named@).take(i - 1)).push(
            vseqs(named@)[i - 1],
        ));
    }
    assert(vseqs(named@).take(named@.len() as int) =~= vseqs(named@));
    r
}

/// Whether key `a` comes before key `b` (see `key_lt`).
fn key_less(a: &Vec<Vec<char>>, b: &Vec<Vec<char>>) -> (r: bool)
    ensures
        r == key_lt(vseqs(a@), vseqs(b@)),
{
    let ghost av = vseqs(a@);
    let ghost bv = vseqs(b@);
    let mut i: usize = 0;
    assert(av.subrange(0, av.len() as int) =~= av);
    assert(bv.subrange(0, bv.len() as int) =~= bv);
    while i < a.len() && i < b.len() && chars_eq(a[i].as_slice(), b[i].as_slice())
        invariant
            i <= a.len(),
            i <= b.len(),
            av == vseqs(a@),
            bv == vseqs(b@),
            key_lt(av, bv) == key_lt(
                av.subrange(i as int, av.len() as int),
                bv.subrange(i as int, bv.len() as int),
            ),
        decreases a.len() - i,
    {
        assert(av.subrange(i as int, av.len() as int).drop_first() =~= av.subrange(
            i + 1,
            av.len() as int,
        ));
        assert(bv.subrange(i as int, bv.len() as int).drop_first() =~= bv.subrange(
            i + 1,
            bv.len() as int,
        ));
        assert(av[i as int] == a@[i as int]@);
        assert(bv[i as int] == b@[i as int]@);
        i = i + 1;
    }
    if i == a.len() {
        i < b.len()
    } else if i == b.len() {
        false
    } else {
        assert(av[i as int] == a@[i as int]@);
        assert(bv[i as int] == b@[i as int]@);
        text_less(a[i].as_slice(), b[i].as_slice())
    }
}

/// `x` placed into `s` after every path that does not come after it.
pub open spec fn insert_by_key(s: Seq<Seq<char>>, x: Seq<char>) -> Seq<Seq<char>>
    decreases s.len(),
{
    if s.len() == 0 {
        seq![x]
    } else if !key_lt(path_key(x), path_key(s.last())) {
        s.push(x)
    } else {
        insert_by_key(s.drop_last(), x).push(s.last())
    }
}

/// The paths in path order; paths of equal key keep their order.
pub open spec fn sort_by_key(s: Seq<Seq<char>>) -> Seq<Seq<char>>
    decreases s.len(),
{
    if s.len() == 0 {
        s
    } else {
        insert_by_key(sort_by_key(s.drop_last()), s.last())
    }
}

/// Paths in path order.
pub open spec fn sorted_by_key(s: Seq<Seq<char>>) -> bool {
    forall|i: int, j: int|
        0 <= i < j < s.len() ==> !key_lt(path_key(#[trigger] s[j]), path_key(#[trigger] s[i]))
}

/// Inserting where the scan from the end stops is `insert_by_key`.
proof fn lemma_insert_key_at(s: Seq<Seq<char>>, x: Seq<char>, p: int)
    requires
        0 <= p <= s.len(),
        p == 0 || !key_lt(path_key(x), path_key(s[p - 1])),
        forall|i: int| p <= i < s.len() ==> key_lt(path_key(x), path_key(#[trigger] s[i])),
    ensures
        insert_by_key(s, x) == s.insert(p, x),
    decreases s.len(),
{
    if s.len() == 0 {
        assert(s.insert(p, x) =~= seq![x]);
    } else if p == s.len() {
        assert(s.insert(p, x) =~= s.push(x));
    } else {
        assert(key_lt(path_key(x), path_key(s[s.len() - 1])));
        lemma_insert_key_at(s.drop_last(), x, p);
        assert(s.insert(p, x) =~= s.drop_last().insert(p, x).push(s.last()));
    }
}

/// Inserting into a sorted sequence keeps it sorted and adds one path.
proof fn lemma_insert_by_key(s: Seq<Seq<char>>, x: Seq<char>)
    requires
        sorted_by_key(s),
    ensures
        sorted_by_key(insert_by_key(s, x)),
        insert_by_key(s, x).to_multiset() == s.to_multiset().insert(x),
        forall|i: int|
            0 <= i < insert_by_key(s, x).len() ==> (#[trigger] insert_by_key(s, x)[i] == x
                || s.contains(insert_by_key(s, x)[i])),
    decreases s.len(),
{
    broadcast use vstd::seq_lib::to_multiset_build;

    if s.len() == 0 {
        assert(seq![x] =~= s.push(x));
    } else if !key_lt(path_key(x), path_key(s.last())) {
        assert forall|i: int, j: int| 0 <= i < j < s.push(x).len() implies !key_lt(
            path_key(#[trigger] s.push(x)[j]),
            path_key(#[trigger] s.push(x)[i]),
        ) by {
            if j == s.len() && i < s.len() - 1 {
                if key_lt(path_key(x), path_key(s[i])) {
                    lemma_key_lt_trichotomy(path_key(s[i]), path_key(s.last()));
                    if path_key(s[i]) != path_key(s.last()) {
                        lemma_key_lt_transitive(path_key(x), path_key(s[i]), path_key(s.last()));
                    }
                }
            }
        }
        assert forall|i: int| 0 <= i < s.push(x).len() implies (#[trigger] s.push(x)[i] == x
            || s.contains(s.push(x)[i])) by {
            if i < s.len() {
                assert(s[i] == s.push(x)[i]);
            }
        }
    } else {
        let t = s.drop_last();
        assert(sorted_by_key(t));
        lemma_insert_by_key(t, x);
        let u = insert_by_key(t, x);
        assert(s =~= t.push(s.last()));
        lemma_key_lt_trichotomy(path_key(x), path_key(s.last()));
        assert forall|i: int, j: int| 0 <= i < j < u.push(s.last()).len() implies !key_lt(
            path_key(#[trigger] u.push(s.last())[j]),
            path_key(#[trigger] u.push(s.last())[i]),
        ) by {
            if j == u.len() {
                assert(u[i] == x || t.contains(u[i]));
                if u[i] != x {
                    let k = choose|k: int| 0 <= k < t.len() && t[k] == u[i];
                    assert(s[k] == t[k]);
                    assert(!key_lt(path_key(s[s.len() - 1]), path_key(s[k])));
                } else {
                    lemma_key_lt_trichotomy(path_key(s.last()), path_key(x));
                }
            }
        }
        assert forall|i: int| 0 <= i < u.push(s.last()).len() implies (#[trigger] u.push(
            s.last(),
        )[i] == x || s.contains(u.push(s.last())[i])) by {
            if i < u.len() {
                assert(u.push(s.last())[i] == u[i]);
                if u[i] != x {
                    let k = choose|k: int| 0 <= k < t.len() && t[k] == u[i];
                    assert(s[k] == t[k]);
                }
            } else {
                assert(s[s.len() - 1] == s.last());
            }
        }
        assert(u.push(s.last()).to_multiset() =~= s.to_multiset().insert(x)) by {
            broadcast use vstd::multiset::group_multiset_axioms;

        }
    }
}

/// Sorting gives paths in path order, the same paths as before.
pub proof fn law_sort_by_key(s: Seq<Seq<char>>)
    ensures
        sorted_by_key(sort_by_key(s)),
        sort_by_key(s).to_multiset() == s.to_multiset(),
    decreases s.len(),
{
    broadcast use vstd::seq_lib::to_multiset_build;

    if s.len() > 0 {
        law_sort_by_key(s.drop_last());
        lemma_insert_by_key(sort_by_key(s.drop_last()), s.last());
        assert(s =~= s.drop_last().push(s.last()));
    }
}

/// Paths sorted in path order (see `sort_by_key`).
pub fn sort_paths(v: Vec<String>) -> (r: Vec<String>)
    ensures
        sseqs(r@) == sort_by_key(sseqs(v@)),
{
    let ghost orig = sseqs(v@);
    let mut r: Vec<String> = Vec::new();
    let mut keys: Vec<Vec<Vec<char>>> = Vec::new();
    let mut k: usize = 0;
    while k < v.len()
        invariant
            k <= v.len(),
            orig == sseqs(v@),
            sseqs(r@) == sort_by_key(orig.take(k as int)),
            keys@.len() == r@.len(),
            forall|i: int| 0 <= i < keys@.len() ==> vseqs(#[trigger] keys@[i]@) == path_key(r@[i]@),
        decreases v.len() - k,
    {
        let x = &v[k];
        let xc = chars_of(x.as_str());
        let xk = path_key_of(xc.as_slice());
        let mut p = r.len();
        while p > 0 && key_less(&xk, &keys[p - 1])
            invariant
                p <= r.len(),
                keys@.len() == r@.len(),
                forall|i: int|
                    0 <= i < keys@.len() ==> vseqs(#[trigger] keys@[i]@) == path_key(r@[i]@),
                forall|i: int| p <= i < r.len() ==> key_lt(vseqs(xk@), path_key(#[trigger] r@[i]@)),
            decreases p,
        {
            assert(vseqs(keys@[p - 1]@) == path_key(r@[p - 1]@));
            p = p - 1;
        }
        let ghost before = sseqs(r@);
        proof {
            assert forall|i: int| p <= i < before.len() implies key_lt(
                path_key(x@),
                path_key(#[trigger] before[i]),
            ) by {
                assert(before[i] == r@[i]@);
            }
            if p > 0 {
                assert(before[p - 1] == r@[p - 1]@);
                assert(vseqs(keys@[p - 1]@) == path_key(r@[p - 1]@));
            }
            lemma_insert_key_at(before, x@, p as int);
        }
        let ghost old_keys = keys@;
        let ghost old_r = r@;
        r.insert(p, owned(x.as_str()));
        keys.insert(p, xk);
        proof {
            assert(sseqs(r@) =~= before.insert(p as int, x@));
            assert(orig.take(k + 1).drop_last() =~= orig.take(k as int));
            assert(orig.take(k + 1).last() == x@);
            assert forall|i: int| 0 <= i < keys@.len() implies vseqs(#[trigger] keys@[i]@)
                == path_key(r@[i]@) by {
                if i < p {
                    assert(keys@[i] == old_keys[i] && r@[i] == old_r[i]);
                } else if i > p {
                    assert(keys@[i] == old_keys[i - 1] && r@[i] == old_r[i - 1]);
                }
            }
        }
        k = k + 1;
    }
    assert(orig.take(v@.len() as int) =~= orig);
    r
}

// ---------------------------------------------------------------------------
// The finder
// ---------------------------------------------------------------------------

/// The path the search starts from: none for an application in the trash;
/// for an application directly inside a folder whose name contains
/// "Wrapper", the folder above that one; else the application itself.
pub open spec fn initial_item(path: Seq<char>) -> Option<Seq<char>> {
    if in_trash(path) {
        None
    } else {
        let parent_name = match parent(path) {
            Some(q) => match file_name(q) {
                Some(n) => n,
                None => Seq::empty(),
            },
            None => Seq::empty(),
        };
        if has_sub(parent_name, "Wrapper"@) {
            match parent(path) {
                Some(q) => match parent(q) {
                    Some(g) => Some(g),
                    None => Some(path),
                },
                None => Some(path),
            }
        } else {
            Some(path)
        }
    }
}

/// Searches the files of one application.
pub struct AppPathFinder {
    pub app: AppInfo,
    pub identifiers: CachedIdentifiers,
    /// The home folder.
    pub home: String,
    /// The folders searched.
    pub apps_paths: Vec<String>,
    pub sensitivity: Sensitivity,
    /// The paths collected, each once.
    pub collection: Vec<String>,
    /// The application's containers.
    pub containers: Vec<String>,
    pub conditions: Vec<Condition>,
    pub skip_conditions: Vec<SkipCondition>,
    /// Standard subfolders of a Library folder.
    pub standard_subdirs: Vec<String>,
    /// Subfolders of a Library folder that a deep search never enters.
    pub deep_skips: Vec<String>,
    /// The game id the application's Steam launcher starts, if any.
    pub launcher_game_id: Option<String>,
}

/// Adds a path to a collection unless it is there already.
fn insert_unique(c: &mut Vec<String>, p: &str)
    ensures
        sseqs(final(c)@) == if sseqs(old(c)@).contains(p@) {
            sseqs(old(c)@)
        } else {
            sseqs(old(c)@).push(p@)
        },
{
    let pc = chars_of(p);
    if !crate::order::contains_string(c, pc.as_slice()) {
        let ghost before = sseqs(c@);
        c.push(owned(p));
        assert(sseqs(c@) =~= before.push(p@));
    }
}

/// Whether a location is a Library folder (the user's or the system's),
/// which is searched two levels deep.
pub open spec fn library_directory(location: Seq<char>, home: Seq<char>) -> bool {
    location == home + "/Library"@ || location == "/Library"@
}

/// The name by which a folder entry is matched: its normal form, without the
/// extension for a file that has one.
pub open spec fn entry_name(name: Seq<char>, path: Seq<char>, is_dir: bool) -> Seq<char> {
    if !is_dir && extension(path) is Some {
        normal_form(file_stem(path)->Some_0)
    } else {
        normal_form(name)
    }
}

/// What a matching entry adds: at depth 2 of a Library folder, its folder
/// when that is no standard subfolder (a vendor's folder), else the entry.
pub open spec fn item_to_add(
    path: Seq<char>,
    depth: nat,
    is_library_root: bool,
    standard: Seq<Seq<char>>,
) -> Seq<char> {
    if is_library_root && depth == 2 {
        match parent(path) {
            Some(q) => {
                let pn = match file_name(q) {
                    Some(n) => n,
                    None => Seq::empty(),
                };
                if !standard.contains(pn) {
                    q
                } else {
                    path
                }
            },
            None => path,
        }
    } else {
        path
    }
}

/// Whether the search descends into an entry: a folder above the maximal
/// depth, except the skipped subfolders of a Library folder's top level.
pub open spec fn descends(
    path: Seq<char>,
    is_dir: bool,
    depth: nat,
    max_depth: nat,
    is_library_root: bool,
    deep_skips: Seq<Seq<char>>,
) -> bool {
    let n = match file_name(path) {
        Some(n) => n,
        None => Seq::empty(),
    };
    is_dir && depth < max_depth && !(is_library_root && depth == 0 && deep_skips.contains(n))
}

impl AppPathFinder {
    /// The view of the finder's optional launcher game id.
    pub open spec fn launcher_id(&self) -> Option<Seq<char>> {
        opt_seq(self.launcher_game_id)
    }

    /// A finder for an application; the collection starts with the
    /// application's own path (see `initial_item`).
    pub fn new(
        app: AppInfo,
        home: String,
        apps_paths: Vec<String>,
        sensitivity: Sensitivity,
        containers: Vec<String>,
        conditions: Vec<Condition>,
        skip_conditions: Vec<SkipCondition>,
        standard_subdirs: Vec<String>,
        deep_skips: Vec<String>,
        launcher_game_id: Option<String>,
    ) -> (r: AppPathFinder)
        ensures
            r.app == app,
            identifiers_of(app, r.identifiers),
            r.home == home,
            r.apps_paths == apps_paths,
            r.sensitivity == sensitivity,
            sseqs(r.collection@) == match initial_item(app.path@) {
                Some(p) => seq![p],
                None => Seq::<Seq<char>>::empty(),
            },
            r.containers == containers,
            r.conditions == conditions,
            r.skip_conditions == skip_conditions,
            r.standard_subdirs == standard_subdirs,
            r.deep_skips == deep_skips,
            r.launcher_game_id == launcher_game_id,
    {
        let identifiers = CachedIdentifiers::from_app_info(&app);
        let mut collection: Vec<String> = Vec::new();
        match initial_url_item(app.path.as_str()) {
            Some(p) => {
                collection.push(p);
                assert(sseqs(collection@) =~= seq![collection@[0]@]);
            },
            None => {
                assert(sseqs(collection@) =~= Seq::<Seq<char>>::empty());
            },
        }
        AppPathFinder {
            app,
            identifiers,
            home,
            apps_paths,
            sensitivity,
            collection,
            containers,
            conditions,
            skip_conditions,
            standard_subdirs,
            deep_skips,
            launcher_game_id,
        }
    }

    /// Whether a location is a Library folder (see `library_directory`).
    pub fn is_library_directory(&self, location: &str) -> (r: bool)
        ensures
            r == library_directory(location@, self.home@),
    {
        let a = concat(self.home.as_str(), "/Library");
        let l = chars_of(location);
        let ac = chars_of(a.as_str());
        chars_eq(l.as_slice(), ac.as_slice()) || crate::text::chars_eq_str(l.as_slice(), "/Library")
    }

    /// What to do with one entry of a searched folder (its name, path, and
    /// whether it is a folder) at `depth` of a walk that goes `max_depth`
    /// deep: the path to collect, if the entry is not skipped and belongs to
    /// the application (see `item_to_add`), and whether to descend into it
    /// (see `descends`).
    pub fn entry_decision(
        &self,
        name: &str,
        path: &str,
        is_dir: bool,
        depth: usize,
        max_depth: usize,
        is_library_root: bool,
    ) -> (r: (Option<String>, bool))
        ensures
            ({
                let n = entry_name(name@, path@, is_dir);
                let hit = !skipped(n, path@, self.collection@, self.skip_conditions@)
                    && belongs_to_app(
                    n,
                    path@,
                    self.app,
                    self.identifiers,
                    self.sensitivity,
                    self.conditions@,
                    self.launcher_id(),
                );
                &&& opt_seq(r.0) == if hit {
                    Some(item_to_add(path@, depth as nat, is_library_root, sseqs(self.standard_subdirs@)))
                } else {
                    None
                }
                &&& r.1 == descends(
                    path@,
                    is_dir,
                    depth as nat,
                    max_depth as nat,
                    is_library_root,
                    sseqs(self.deep_skips@),
                )
            }),
    {
        let p = chars_of(path);
        let n = if !is_dir && extension_of(p.as_slice()).is_some() {
            match file_stem_of(p.as_slice()) {
                Some(s) => pear_format(string_of(s.as_slice()).as_str()),
                None => pear_format(name),
            }
        } else {
            pear_format(name)
        };
        let skip = should_skip_item(n.as_str(), path, &self.collection, &self.skip_conditions);
        let hit = !skip && specific_condition(
            n.as_str(),
            path,
            &self.app,
            &self.identifiers,
            self.sensitivity,
            &self.conditions,
            match &self.launcher_game_id {
                Some(g) => Some(g.as_str()),
                None => None,
            },
        );
        let item = if hit {
            Some(self.item_for(path, depth, is_library_root))
        } else {
            None
        };
        let fname: Vec<char> = match file_name_of(p.as_slice()) {
            Some(f) => f,
            None => Vec::new(),
        };
        let skip_deep = is_library_root && depth == 0 && crate::order::contains_string(
            &self.deep_skips,
            fname.as_slice(),
        );
        let descend = is_dir && depth < max_depth && !skip_deep;
        (item, descend)
    }

    /// What a matching entry adds (see `item_to_add`).
    fn item_for(&self, path: &str, depth: usize, is_library_root: bool) -> (r: String)
        ensures
            r@ == item_to_add(path@, depth as nat, is_library_root, sseqs(self.standard_subdirs@)),
    {
        if is_library_root && depth == 2 {
            let p = chars_of(path);
            match parent_of(p.as_slice()) {
                Some(q) => {
                    let pn: Vec<char> = match file_name_of(q.as_slice()) {
                        Some(n) => n,
                        None => Vec::new(),
                    };
                    if !crate::order::contains_string(&self.standard_subdirs, pn.as_slice()) {
                        string_of(q.as_slice())
                    } else {
                        owned(path)
                    }
                },
                None => owned(path),
            }
        } else {
            owned(path)
        }
    }

    /// Adds the items collected in one folder, each once.
    pub fn insert_results(&mut self, items: &Vec<String>)
        ensures
            forall|x: Seq<char>|
                sseqs(final(self).collection@).contains(x) <==> (sseqs(
                    old(self).collection@,
                ).contains(x) || sseqs(items@).contains(x)),
            sseqs(final(self).collection@).no_duplicates() <== sseqs(
                old(self).collection@,
            ).no_duplicates(),
            final(self).app == old(self).app,
            final(self).identifiers == old(self).identifiers,
            final(self).home == old(self).home,
            final(self).apps_paths == old(self).apps_paths,
            final(self).sensitivity == old(self).sensitivity,
            final(self).containers == old(self).containers,
            final(self).conditions == old(self).conditions,
            final(self).skip_conditions == old(self).skip_conditions,
            final(self).standard_subdirs == old(self).standard_subdirs,
            final(self).deep_skips == old(self).deep_skips,
            final(self).launcher_game_id == old(self).launcher_game_id,
    {
        let ghost start = sseqs(self.collection@);
        let mut i: usize = 0;
        while i < items.len()
            invariant
                i <= items.len(),
                forall|x: Seq<char>|
                    #[trigger] sseqs(self.collection@).contains(x) <==> (start.contains(x) || sseqs(
                        items@,
                    ).take(i as int).contains(x)),
                start.no_duplicates() ==> sseqs(self.collection@).no_duplicates(),
                self.app == old(self).app,
                self.identifiers == old(self).identifiers,
                self.home == old(self).home,
                self.apps_paths == old(self).apps_paths,
                self.sensitivity == old(self).sensitivity,
                self.containers == old(self).containers,
                self.conditions == old(self).conditions,
                self.skip_conditions == old(self).skip_conditions,
                self.standard_subdirs == old(self).standard_subdirs,
                self.deep_skips == old(self).deep_skips,
                self.launcher_game_id == old(self).launcher_game_id,
                start == sseqs(old(self).collection@),
            decreases items.len() - i,
        {
            let ghost before = sseqs(self.collection@);
            insert_unique(&mut self.collection, items[i].as_str());
            proof {
                let x = items@[i as int]@;
                crate::order::lemma_push_contains(before, x);
                crate::order::lemma_push_contains(sseqs(items@).take(i as int), x);
                assert(sseqs(items@).take(i + 1) =~= sseqs(items@).take(i as int).push(x));
                assert(sseqs(items@)[i as int] == x);
                assert forall|y: Seq<char>|
                    #[trigger] sseqs(self.collection@).contains(y) <==> (start.contains(y) || sseqs(
                        items@,
                    ).take(i + 1).contains(y)) by {
                    assert(before.contains(y) <==> (start.contains(y) || sseqs(items@).take(
                        i as int,
                    ).contains(y)));
                    assert(sseqs(items@).take(i as int).push(x).contains(y) <==> (sseqs(
                        items@,
                    ).take(i as int).contains(y) || y == x));
                    if before.contains(x) {
                        assert(sseqs(self.collection@) == before);
                    } else {
                        assert(sseqs(self.collection@) == before.push(x));
                        assert(before.push(x).contains(y) <==> (before.contains(y) || y == x));
                    }
                }
                if !before.contains(x) && start.no_duplicates() {
                    assert(before.push(x).no_duplicates()) by {
                        assert forall|a: int, b: int|
                            0 <= a < before.push(x).len() && 0 <= b < before.push(x).len() && a
                                != b implies before.push(x)[a] != before.push(x)[b] by {
                            if a == before.len() {
                                assert(before[b] != x);
                            } else if b == before.len() {
                                assert(before[a] != x);
                            }
                        }
                    }
                }
            }
            i = i + 1;
        }
        assert(sseqs(items@).take(items@.len() as int) =~= sseqs(items@));
    }

    /// The forced paths of the rules whose bundle identifier is exactly the
    /// application's (normal form): to inclusive or to exclude.
    pub fn handle_outliers(&self, inclusive: bool) -> (r: Vec<String>)
        ensures
            sseqs(r@) == outliers(
                self.conditions@,
                normal_form(self.app.bundle_identifier@),
                inclusive,
            ),
    {
        let bid = pear_format(self.app.bundle_identifier.as_str());
        let bidc = chars_of(bid.as_str());
        let mut out: Vec<String> = Vec::new();
        let mut k: usize = 0;
        while k < self.conditions.len()
            invariant
                k <= self.conditions.len(),
                bidc@ == normal_form(self.app.bundle_identifier@),
                sseqs(out@) == outliers(self.conditions@.take(k as int), bidc@, inclusive),
            decreases self.conditions.len() - k,
        {
            let c = &self.conditions[k];
            assert(self.conditions@.take(k + 1).drop_last() =~= self.conditions@.take(k as int));
            let ghost before = sseqs(out@);
            if crate::text::string_eq_chars(&c.bundle_id, bidc.as_slice()) {
                let src = if inclusive {
                    &c.include_force
                } else {
                    &c.exclude_force
                };
                let mut j: usize = 0;
                while j < src.len()
                    invariant
                        j <= src.len(),
                        sseqs(out@) == before + sseqs(src@).take(j as int),
                    decreases src.len() - j,
                {
                    let ghost b2 = sseqs(out@);
                    out.push(owned(src[j].as_str()));
                    assert(sseqs(out@) =~= b2.push(src@[j as int]@));
                    j = j + 1;
                    assert(before + sseqs(src@).take(j as int) =~= (before + sseqs(src@).take(
                        j - 1,
                    )).push(src@[j - 1]@));
                }
                assert(sseqs(src@).take(src@.len() as int) =~= sseqs(src@));
            } else {
                assert(sseqs(out@) =~= before + Seq::<Seq<char>>::empty());
            }
            k = k + 1;
        }
        assert(self.conditions@.take(self.conditions@.len() as int) =~= self.conditions@);
        out
    }
}

/// The start of the collection for an application path (see
/// `initial_item`).
fn initial_url_item(path: &str) -> (r: Option<String>)
    ensures
        opt_seq(r) == initial_item(path@),
{
    if is_in_trash(path) {
        return None;
    }
    let p = chars_of(path);
    let par = parent_of(p.as_slice());
    let parent_name: Vec<char> = match &par {
        Some(q) => match file_name_of(q.as_slice()) {
            Some(n) => n,
            None => Vec::new(),
        },
        None => Vec::new(),
    };
    if contains_str(parent_name.as_slice(), "Wrapper") {
        match &par {
            Some(q) => match parent_of(q.as_slice()) {
                Some(g) => Some(string_of(g.as_slice())),
                None => Some(owned(path)),
            },
            None => Some(owned(path)),
        }
    } else {
        Some(owned(path))
    }
}

/// The forced paths of the rules whose bundle identifier equals `bid`.
pub open spec fn outliers(conds: Seq<Condition>, bid: Seq<char>, inclusive: bool) -> Seq<Seq<char>>
    decreases conds.len(),
{
    if conds.len() == 0 {
        Seq::empty()
    } else {
        let c = conds.last();
        let here = if c.bundle_id@ == bid {
            if inclusive {
                sseqs(c.include_force@)
            } else {
                sseqs(c.exclude_force@)
            }
        } else {
            Seq::empty()
        };
        outliers(conds.drop_last(), bid, inclusive) + here
    }
}

// ---------------------------------------------------------------------------
// The final collection
// ---------------------------------------------------------------------------

/// `x` is `k` or lies inside it (as text: `k` followed by `/` starts `x`).
pub open spec fn covered_by(x: Seq<char>, k: Seq<char>) -> bool {
    x == k || starts(x, k + "/"@)
}

/// Some path of `kept` covers `x`.
pub open spec fn covered(x: Seq<char>, kept: Seq<Seq<char>>) -> bool {
    exists|j: int| 0 <= j < kept.len() && covered_by(x, #[trigger] kept[j])
}

/// The paths, in order, without those covered by an earlier kept path.
pub open spec fn prune(s: Seq<Seq<char>>) -> Seq<Seq<char>>
    decreases s.len(),
{
    if s.len() == 0 {
        s
    } else {
        let k = prune(s.drop_last());
        if covered(s.last(), k) {
            k
        } else {
            k.push(s.last())
        }
    }
}

/// The paths of `s` that are not listed in `ex`.
pub open spec fn unlisted(s: Seq<Seq<char>>, ex: Seq<Seq<char>>) -> Seq<Seq<char>>
    decreases s.len(),
{
    if s.len() == 0 {
        s
    } else if ex.contains(s.last()) {
        unlisted(s.drop_last(), ex)
    } else {
        unlisted(s.drop_last(), ex).push(s.last())
    }
}

/// Every path of a pruned sequence is covered by a kept path, and no kept
/// path is covered by an earlier one.
pub proof fn law_prune(s: Seq<Seq<char>>)
    ensures
        forall|i: int| 0 <= i < s.len() ==> covered(#[trigger] s[i], prune(s)),
        forall|i: int, j: int|
            0 <= i < j < prune(s).len() ==> !covered_by(#[trigger] prune(s)[j], #[trigger] prune(s)[i]),
    decreases s.len(),
{
    if s.len() > 0 {
        let t = s.drop_last();
        law_prune(t);
        let k = prune(t);
        assert forall|i: int| 0 <= i < s.len() implies covered(#[trigger] s[i], prune(s)) by {
            if i < t.len() {
                assert(s[i] == t[i]);
                assert(covered(t[i], k));
                let j = choose|j: int| 0 <= j < k.len() && covered_by(t[i], #[trigger] k[j]);
                if !covered(s.last(), k) {
                    assert(prune(s)[j] == k[j]);
                }
            } else if !covered(s.last(), k) {
                assert(prune(s)[k.len() as int] == s.last());
            }
        }
        if !covered(s.last(), k) {
            assert forall|i: int, j: int|
                0 <= i < j < prune(s).len() implies !covered_by(
                #[trigger] prune(s)[j],
                #[trigger] prune(s)[i],
            ) by {
                if j == k.len() {
                    assert(prune(s)[i] == k[i]);
                }
            }
        }
    }
}

/// Whether a path is `k` or lies inside it (see `covered_by`).
fn is_covered_by(x: &[char], k: &String) -> (r: bool)
    ensures
        r == covered_by(x@, k@),
{
    let kc = chars_of(k.as_str());
    if chars_eq(x, kc.as_slice()) {
        return true;
    }
    let mut ks = kc;
    ks.push('/');
    assert(ks@ =~= k@ + "/"@) by {
        reveal_strlit("/");
    }
    starts_with(x, ks.as_slice())
}

/// The paths without those covered by an earlier kept one (see `prune`).
pub fn prune_nested(v: &Vec<String>) -> (r: Vec<String>)
    ensures
        sseqs(r@) == prune(sseqs(v@)),
{
    let ghost s = sseqs(v@);
    let mut out: Vec<String> = Vec::new();
    let mut i: usize = 0;
    while i < v.len()
        invariant
            i <= v.len(),
            s == sseqs(v@),
            sseqs(out@) == prune(s.take(i as int)),
        decreases v.len() - i,
    {
        let x = chars_of(v[i].as_str());
        assert(s.take(i + 1).drop_last() =~= s.take(i as int));
        assert(s.take(i + 1).last() == x@);
        let mut j: usize = 0;
        let mut hit = false;
        while j < out.len()
            invariant
                j <= out.len(),
                !hit ==> forall|m: int| 0 <= m < j ==> !covered_by(x@, #[trigger] out@[m]@),
                hit ==> covered(x@, sseqs(out@)),
            decreases out.len() - j,
        {
            if is_covered_by(x.as_slice(), &out[j]) {
                hit = true;
                assert(sseqs(out@)[j as int] == out@[j as int]@);
            }
            j = j + 1;
        }
        proof {
            if !hit {
                assert forall|m: int| 0 <= m < sseqs(out@).len() implies !covered_by(
                    x@,
                    #[trigger] sseqs(out@)[m],
                ) by {
                    assert(sseqs(out@)[m] == out@[m]@);
                }
            }
        }
        if !hit {
            let ghost before = sseqs(out@);
            out.push(string_of(x.as_slice()));
            assert(sseqs(out@) =~= before.push(x@));
        }
        i = i + 1;
    }
    assert(s.take(v@.len() as int) =~= s);
    out
}

/// The paths of `v` not listed in `ex` (see `unlisted`).
fn without_listed(v: &Vec<String>, ex: &Vec<String>) -> (r: Vec<String>)
    ensures
        sseqs(r@) == unlisted(sseqs(v@), sseqs(ex@)),
{
    let ghost s = sseqs(v@);
    let mut out: Vec<String> = Vec::new();
    let mut i: usize = 0;
    while i < v.len()
        invariant
            i <= v.len(),
            s == sseqs(v@),
            sseqs(out@) == unlisted(s.take(i as int), sseqs(ex@)),
        decreases v.len() - i,
    {
        let x = chars_of(v[i].as_str());
        assert(s.take(i + 1).drop_last() =~= s.take(i as int));
        assert(s.take(i + 1).last() == x@);
        if !crate::order::contains_string(ex, x.as_slice()) {
            let ghost before = sseqs(out@);
            out.push(string_of(x.as_slice()));
            assert(sseqs(out@) =~= before.push(x@));
        }
        i = i + 1;
    }
    assert(s.take(v@.len() as int) =~= s);
    out
}

/// The final result of a search for an application whose collected paths
/// are `collection` and containers `containers`, with the forced paths to
/// include and exclude and the index-search results `spotlight`: all of
/// them (index results only when not collected already) except the
/// excluded, sorted in path order, without paths covered by an earlier
/// kept one; nothing when the only result lies in the trash.
pub open spec fn final_paths(
    collection: Seq<Seq<char>>,
    containers: Seq<Seq<char>>,
    forced: Seq<Seq<char>>,
    excluded: Seq<Seq<char>>,
    spotlight: Seq<Seq<char>>,
) -> Seq<Seq<char>> {
    let extra = unlisted(spotlight, collection);
    let all = collection + containers + forced + extra;
    let pruned = prune(sort_by_key(unlisted(all, excluded)));
    if pruned.len() == 1 && in_trash(pruned[0]) {
        Seq::empty()
    } else {
        pruned
    }
}

impl AppPathFinder {
    /// The final result of the search, given the index-search results
    /// `spotlight` (see `final_paths`).
    pub fn finalize_collection_cli(&self, spotlight: &Vec<String>) -> (r: Vec<String>)
        ensures
            sseqs(r@) == final_paths(
                sseqs(self.collection@),
                sseqs(self.containers@),
                outliers(self.conditions@, normal_form(self.app.bundle_identifier@), true),
                outliers(self.conditions@, normal_form(self.app.bundle_identifier@), false),
                sseqs(spotlight@),
            ),
    {
        let forced = self.handle_outliers(true);
        let excluded = self.handle_outliers(false);
        let extra = without_listed(spotlight, &self.collection);
        let mut all: Vec<String> = Vec::new();
        append_strings(&mut all, &self.collection);
        append_strings(&mut all, &self.containers);
        append_strings(&mut all, &forced);
        append_strings(&mut all, &extra);
        let kept = without_listed(&all, &excluded);
        let sorted = sort_paths(kept);
        let pruned = prune_nested(&sorted);
        if pruned.len() == 1 && is_in_trash(pruned[0].as_str()) {
            assert(sseqs(pruned@)[0] == pruned@[0]@);
            Vec::new()
        } else {
            proof {
                if pruned.len() == 1 {
                    assert(sseqs(pruned@)[0] == pruned@[0]@);
                }
            }
            pruned
        }
    }
}

/// Appends copies of the strings of `src`.
fn append_strings(dst: &mut Vec<String>, src: &Vec<String>)
    ensures
        sseqs(final(dst)@) == sseqs(old(dst)@) + sseqs(src@),
{
    let ghost start = sseqs(dst@);
    let mut j: usize = 0;
    while j < src.len()
        invariant
            j <= src.len(),
            sseqs(dst@) == start + sseqs(src@).take(j as int),
        decreases src.len() - j,
    {
        let ghost before = sseqs(dst@);
        dst.push(owned(src[j].as_str()));
        assert(sseqs(dst@) =~= before.push(src@[j as int]@));
        j = j + 1;
        assert(start + sseqs(src@).take(j as int) =~= (start + sseqs(src@).take(j - 1)).push(
            src@[j - 1]@,
        ));
    }
    assert(sseqs(src@).take(src@.len() as int) =~= sseqs(src@));
}

} // verus!
