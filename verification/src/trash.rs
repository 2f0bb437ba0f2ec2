//! Moving files to the trash: the guard against deleting system roots or
//! the home folder, the name of the archive folder a removal goes into,
//! the names files take there, and the record of what was moved.

use vstd::prelude::*;

use crate::paths::{file_stem, file_stem_of};
use crate::text::{chars_eq_str, chars_of, owned, sseqs, string_of, strs, trim, trim_chars};
use crate::xdg::{decimal, decimal_chars, lemma_decimal};

verus! {

/// A moved file: where it is in the trash and where it came from.
#[derive(Clone, Debug)]
pub struct FilePair {
    pub trash_path: String,
    pub original_path: String,
}

/// What a removal did: whether it succeeded, the archive folder, the files
/// moved, those refused as protected and those that could not be moved.
#[derive(Debug)]
pub struct DeleteResult {
    pub success: bool,
    pub bundle_folder: String,
    pub moved: Vec<FilePair>,
    pub blocked: Vec<String>,
    pub failed: Vec<String>,
}

/// Paths that are never deleted.
pub open spec fn critical_roots() -> Seq<Seq<char>> {
    strs(
        seq![
            "/",
            "/Applications",
            "/Library",
            "/System",
            "/usr",
            "/bin",
            "/sbin",
            "/etc",
            "/var",
            "/private",
            "/opt",
        ],
    )
}

/// A path may be deleted: it is not blank, not a critical root and not the
/// home folder.
pub open spec fn deletable(path: Seq<char>, home: Seq<char>) -> bool {
    trim(path).len() > 0 && !critical_roots().contains(path) && path != home
}

/// Whether a path may be deleted (see `deletable`).
pub fn validate_path(path: &str, home: &str) -> (r: bool)
    ensures
        r == deletable(path@, home@),
{
    let p = chars_of(path);
    let t = trim_chars(p.as_slice());
    if t.len() == 0 {
        return false;
    }
    let roots = vec![
        "/",
        "/Applications",
        "/Library",
        "/System",
        "/usr",
        "/bin",
        "/sbin",
        "/etc",
        "/var",
        "/private",
        "/opt",
    ];
    let mut j: usize = 0;
    while j < roots.len()
        invariant
            j <= roots.len(),
            strs(roots@) == critical_roots(),
            p@ == path@,
            forall|k: int| 0 <= k < j ==> #[trigger] roots@[k]@ != path@,
        decreases roots.len() - j,
    {
        if chars_eq_str(p.as_slice(), roots[j]) {
            assert(critical_roots()[j as int] == path@);
            return false;
        }
        j = j + 1;
    }
    assert(!critical_roots().contains(path@)) by {
        if critical_roots().contains(path@) {
            let k = choose|k: int| 0 <= k < critical_roots().len() && critical_roots()[k] == path@;
            assert(roots@[k]@ == path@);
        }
    }
    !chars_eq_str(p.as_slice(), home)
}

/// The deletable paths, in order.
pub open spec fn deletable_paths(urls: Seq<Seq<char>>, home: Seq<char>) -> Seq<Seq<char>>
    decreases urls.len(),
{
    if urls.len() == 0 {
        Seq::empty()
    } else {
        let p = deletable_paths(urls.drop_last(), home);
        if deletable(urls.last(), home) {
            p.push(urls.last())
        } else {
            p
        }
    }
}

/// The protected paths, in order.
pub open spec fn protected_paths(urls: Seq<Seq<char>>, home: Seq<char>) -> Seq<Seq<char>>
    decreases urls.len(),
{
    if urls.len() == 0 {
        Seq::empty()
    } else {
        let p = protected_paths(urls.drop_last(), home);
        if deletable(urls.last(), home) {
            p
        } else {
            p.push(urls.last())
        }
    }
}

/// A removal never touches a protected path: every path it keeps is not
/// blank, not a critical root and not the home folder; every path it
/// refuses is one of those; and each path given lands in exactly one of the
/// two lists.
pub proof fn law_split_protects(urls: Seq<Seq<char>>, home: Seq<char>)
    ensures
        deletable_paths(urls, home).len() + protected_paths(urls, home).len() == urls.len(),
        forall|i: int|
            0 <= i < deletable_paths(urls, home).len() ==> {
                let p = #[trigger] deletable_paths(urls, home)[i];
                trim(p).len() > 0 && !critical_roots().contains(p) && p != home
            },
        forall|i: int|
            0 <= i < protected_paths(urls, home).len() ==> !deletable(
                #[trigger] protected_paths(urls, home)[i],
                home,
            ),
    decreases urls.len(),
{
    if urls.len() > 0 {
        law_split_protects(urls.drop_last(), home);
    }
}

/// The paths a removal may delete and those it refuses, each in order.
pub fn split_deletable(urls: &Vec<String>, home: &str) -> (r: (Vec<String>, Vec<String>))
    ensures
        sseqs(r.0@) == deletable_paths(sseqs(urls@), home@),
        sseqs(r.1@) == protected_paths(sseqs(urls@), home@),
{
    let mut valid: Vec<String> = Vec::new();
    let mut blocked: Vec<String> = Vec::new();
    let mut i: usize = 0;
    while i < urls.len()
        invariant
            i <= urls.len(),
            sseqs(valid@) == deletable_paths(sseqs(urls@).take(i as int), home@),
            sseqs(blocked@) == protected_paths(sseqs(urls@).take(i as int), home@),
        decreases urls.len() - i,
    {
        assert(sseqs(urls@).take(i + 1).drop_last() =~= sseqs(urls@).take(i as int));
        assert(sseqs(urls@).take(i + 1).last() == urls@[i as int]@);
        if validate_path(urls[i].as_str(), home) {
            let ghost prev = valid@;
            valid.push(owned(urls[i].as_str()));
            assert(sseqs(valid@) =~= sseqs(prev).push(urls@[i as int]@));
        } else {
            let ghost prev = blocked@;
            blocked.push(owned(urls[i].as_str()));
            assert(sseqs(blocked@) =~= sseqs(prev).push(urls@[i as int]@));
        }
        i = i + 1;
    }
    assert(sseqs(urls@).take(urls.len() as int) =~= sseqs(urls@));
    (valid, blocked)
}

/// A name with every `/` and `:` replaced by `_`.
pub open spec fn folder_safe(name: Seq<char>) -> Seq<char> {
    name.map_values(|c: char| if c == '/' || c == ':' { '_' } else { c })
}

/// The name of the archive folder a removal goes into: the application's
/// name made folder-safe when one is given and not empty, else the stem of
/// the first deletable path, else `Mixed Files`; then `_` and the time stamp.
pub open spec fn archive_folder_name(
    bundle_name: Option<Seq<char>>,
    valid: Seq<Seq<char>>,
    stamp: Seq<char>,
) -> Seq<char> {
    let base = match bundle_name {
        Some(n) if n.len() > 0 => folder_safe(n),
        _ => if valid.len() > 0 && file_stem(valid[0]) is Some {
            file_stem(valid[0])->Some_0
        } else {
            "Mixed Files"@
        },
    };
    base + "_"@ + stamp
}

/// The name of the archive folder (see `archive_folder_name`).
pub fn archive_folder(bundle_name: Option<&str>, valid: &Vec<String>, stamp: &str) -> (r: String)
    ensures
        r@ == archive_folder_name(
            match bundle_name {
                Some(n) => Some(n@),
                None => None,
            },
            sseqs(valid@),
            stamp@,
        ),
{
    let mut base: Vec<char> = Vec::new();
    let mut named = false;
    if let Some(n) = bundle_name {
        let c = chars_of(n);
        if c.len() > 0 {
            let mut i: usize = 0;
            while i < c.len()
                invariant
                    i <= c.len(),
                    base@ == folder_safe(c@.take(i as int)),
                decreases c.len() - i,
            {
                let x = c[i];
                if x == '/' || x == ':' {
                    base.push('_');
                } else {
                    base.push(x);
                }
                assert(base@ =~= folder_safe(c@.take(i + 1)));
                i = i + 1;
            }
            assert(c@.take(c.len() as int) =~= c@);
            named = true;
        }
    }
    if !named {
        let mut found = false;
        if valid.len() > 0 {
            assert(sseqs(valid@)[0] == valid@[0]@);
            let p = chars_of(valid[0].as_str());
            match file_stem_of(p.as_slice()) {
                Some(s) => {
                    base = s;
                    found = true;
                },
                None => {},
            }
        }
        if !found {
            base = chars_of("Mixed Files");
        }
    }
    let ghost b0 = base@;
    base.push('_');
    let st = chars_of(stamp);
    crate::text::append_chars(&mut base, st.as_slice());
    proof {
        reveal_strlit("_");
        assert(base@ =~= b0 + "_"@ + stamp@);
    }
    string_of(base.as_slice())
}

/// Candidate `i` for a file named `base` in an archive folder: the name
/// itself, then `base-1`, `base-2`, ...
pub open spec fn archive_candidate(base: Seq<char>, i: nat) -> Seq<char> {
    if i == 0 {
        base
    } else {
        base + "-"@ + decimal(i)
    }
}

/// Different candidates are different names.
proof fn lemma_archive_candidates_distinct(base: Seq<char>, i: nat, j: nat)
    requires
        i != j,
    ensures
        archive_candidate(base, i) != archive_candidate(base, j),
{
    lemma_decimal(i, j);
    lemma_decimal(j, i);
    reveal_strlit("-");
    if i > 0 && j > 0 && archive_candidate(base, i) == archive_candidate(base, j) {
        let a = archive_candidate(base, i);
        let k: int = (base.len() + 1) as int;
        assert(a.subrange(k, a.len() as int) =~= decimal(i));
        assert(archive_candidate(base, j).subrange(k, a.len() as int) =~= decimal(j));
    }
}

/// Among the candidates `from ..= from + n` one is not among `n` names.
proof fn lemma_some_archive_candidate_free(base: Seq<char>, from: nat, taken: Seq<Seq<char>>)
    ensures
        exists|i: nat|
            from <= i <= from + taken.len() && !taken.contains(#[trigger] archive_candidate(base, i)),
{
    let n = taken.len();
    let cands = Seq::new(n + 1, |i: int| archive_candidate(base, (from + i) as nat));
    if forall|i: nat| from <= i <= from + n ==> taken.contains(#[trigger] archive_candidate(base, i)) {
        assert(cands.no_duplicates()) by {
            assert forall|i: int, j: int| 0 <= i < cands.len() && 0 <= j < cands.len() && i
                != j implies cands[i] != cands[j] by {
                lemma_archive_candidates_distinct(base, (from + i) as nat, (from + j) as nat);
            }
        }
        cands.unique_seq_to_set();
        taken.lemma_cardinality_of_set();
        assert(cands.to_set().subset_of(taken.to_set())) by {
            assert forall|x: Seq<char>| cands.to_set().contains(x) implies taken.to_set().contains(
                x,
            ) by {
                let i = choose|i: int| 0 <= i < cands.len() && cands[i] == x;
                assert(taken.contains(archive_candidate(base, (from + i) as nat)));
            }
        }
        vstd::set_lib::lemma_len_subset(cands.to_set(), taken.to_set());
        assert(false);
    }
}

/// `i` is the first candidate number from `from` on whose name is not
/// among `taken`.
pub open spec fn first_free_from(base: Seq<char>, from: nat, taken: Seq<Seq<char>>, i: nat) -> bool {
    &&& from <= i
    &&& !taken.contains(archive_candidate(base, i))
    &&& forall|j: nat| from <= j < i ==> taken.contains(#[trigger] archive_candidate(base, j))
}

/// One base never gets the same name twice from a namer: after a name of
/// index `i` the next search starts past `i` (the count recorded is `i + 1`),
/// so the next name differs, whatever the names taken in the folder.
pub proof fn law_namer_never_repeats(
    base: Seq<char>,
    from: nat,
    taken1: Seq<Seq<char>>,
    i: nat,
    taken2: Seq<Seq<char>>,
    j: nat,
)
    requires
        first_free_from(base, from, taken1, i),
        first_free_from(base, i + 1, taken2, j),
    ensures
        archive_candidate(base, i) != archive_candidate(base, j),
{
    lemma_archive_candidates_distinct(base, i, j);
}

/// Whether a name is among the given strings.
fn among(c: &Vec<char>, taken: &Vec<String>) -> (r: bool)
    ensures
        r == sseqs(taken@).contains(c@),
{
    let mut j: usize = 0;
    while j < taken.len()
        invariant
            j <= taken.len(),
            forall|k: int| 0 <= k < j ==> taken@[k]@ != c@,
        decreases taken.len() - j,
    {
        if crate::text::string_eq_chars(&taken[j], c.as_slice()) {
            assert(sseqs(taken@)[j as int] == c@);
            return true;
        }
        j = j + 1;
    }
    proof {
        if sseqs(taken@).contains(c@) {
            let k = choose|k: int| 0 <= k < sseqs(taken@).len() && sseqs(taken@)[k] == c@;
            assert(taken@[k]@ == c@);
        }
    }
    false
}

/// The name of candidate `i` (see `archive_candidate`).
fn archive_candidate_of(base: &Vec<char>, i: u32) -> (r: Vec<char>)
    ensures
        r@ == archive_candidate(base@, i as nat),
{
    let mut c = crate::text::copy_chars(base.as_slice());
    if i > 0 {
        c.push('-');
        let d = decimal_chars(i as usize);
        crate::text::append_chars(&mut c, d.as_slice());
        assert(c@ =~= base@ + "-"@ + decimal(i as nat)) by {
            reveal_strlit("-");
        }
    }
    c
}

/// The count recorded for `base` (the first record of it), or zero.
pub open spec fn recorded(seen: Seq<(Seq<char>, u32)>, base: Seq<char>) -> u32
    decreases seen.len(),
{
    if seen.len() == 0 {
        0
    } else if seen[0].0 == base {
        seen[0].1
    } else {
        recorded(seen.drop_first(), base)
    }
}

/// Chooses the names files take in one archive folder. For each name it
/// remembers how many candidates were used, so that the next file of the
/// same name starts after them.
pub struct ArchiveNamer {
    seen: Vec<(String, u32)>,
}

impl ArchiveNamer {
    /// The counts recorded so far.
    pub closed spec fn counts(&self) -> Seq<(Seq<char>, u32)> {
        self.seen@.map_values(|e: (String, u32)| (e.0@, e.1))
    }

    /// A namer that has named nothing yet.
    pub fn new() -> (r: ArchiveNamer)
        ensures
            forall|b: Seq<char>| recorded(r.counts(), b) == 0,
    {
        let r = ArchiveNamer { seen: Vec::new() };
        assert forall|b: Seq<char>| recorded(r.counts(), b) == 0 by {
            assert(r.counts().len() == 0);
        }
        r
    }

    /// The count recorded for `base` (see `recorded`).
    fn lookup(&self, base: &Vec<char>) -> (r: (Option<usize>, u32))
        ensures
            r.1 == recorded(self.counts(), base@),
            match r.0 {
                Some(k) => k < self.seen@.len() && self.counts()[k as int].0 == base@ && forall|
                    j: int,
                | 0 <= j < k ==> #[trigger] self.counts()[j].0 != base@,
                None => forall|j: int| 0 <= j < self.counts().len() ==> #[trigger] self.counts()[j].0 != base@,
            },
    {
        let mut k: usize = 0;
        assert(self.counts().skip(0) =~= self.counts());
        while k < self.seen.len()
            invariant
                k <= self.seen.len(),
                forall|j: int| 0 <= j < k ==> #[trigger] self.counts()[j].0 != base@,
                recorded(self.counts(), base@) == recorded(self.counts().skip(k as int), base@),
            decreases self.seen.len() - k,
        {
            assert(self.counts().skip(k as int).drop_first() =~= self.counts().skip(k + 1));
            if crate::text::string_eq_chars(&self.seen[k].0, base.as_slice()) {
                return (Some(k), self.seen[k].1);
            }
            k = k + 1;
        }
        (None, 0)
    }

    /// The name the next file named `base` takes, given the names `taken`
    /// in the folder: the first candidate from the recorded count on that is
    /// not taken. The count recorded for `base` becomes one past the
    /// candidate used; other counts stay.
    pub fn next_name(&mut self, base: &str, taken: &Vec<String>) -> (r: String)
        requires
            recorded(old(self).counts(), base@) + taken.len() + 1 < u32::MAX,
        ensures
            exists|i: nat|
                #![trigger archive_candidate(base@, i)]
                first_free_from(base@, recorded(old(self).counts(), base@) as nat, sseqs(taken@), i)
                    && r@ == archive_candidate(base@, i) && recorded(final(self).counts(), base@)
                    == i + 1,
            forall|b: Seq<char>|
                b != base@ ==> #[trigger] recorded(final(self).counts(), b) == recorded(
                    old(self).counts(),
                    b,
                ),
    {
        let b = chars_of(base);
        let (slot, start) = self.lookup(&b);
        let ghost t = sseqs(taken@);
        proof {
            lemma_some_archive_candidate_free(base@, start as nat, t);
        }
        let mut i: u32 = start;
        let mut c = archive_candidate_of(&b, i);
        while among(&c, taken)
            invariant
                start <= i <= start + taken.len(),
                t == sseqs(taken@),
                t.len() == taken@.len(),
                b@ == base@,
                c@ == archive_candidate(base@, i as nat),
                start + taken.len() + 1 < u32::MAX,
                forall|j: nat| start <= j < i ==> t.contains(#[trigger] archive_candidate(base@, j)),
                exists|k: nat|
                    start <= k <= start + t.len() && !t.contains(#[trigger] archive_candidate(base@, k)),
            decreases start + taken.len() - i,
        {
            proof {
                if i == start + taken.len() {
                    let k = choose|k: nat|
                        start <= k <= start + t.len() && !t.contains(
                            #[trigger] archive_candidate(base@, k),
                        );
                    assert(t.contains(archive_candidate(base@, k)));
                }
            }
            i = i + 1;
            c = archive_candidate_of(&b, i);
        }
        let ghost old_counts = self.counts();
        match slot {
            Some(k) => {
                let key = owned(self.seen[k].0.as_str());
                self.seen.set(k, (key, i + 1));
                proof {
                    assert forall|x: Seq<char>| #[trigger]
                        recorded(self.counts(), x) == (if x == base@ {
                            (i + 1) as u32
                        } else {
                            recorded(old_counts, x)
                        }) by {
                        lemma_recorded_update(old_counts, k as int, base@, (i + 1) as u32, x);
                        assert(self.counts() =~= old_counts.update(k as int, (base@, (i + 1) as u32)));
                    }
                }
            },
            None => {
                self.seen.push((owned(base), i + 1));
                proof {
                    assert forall|x: Seq<char>| #[trigger]
                        recorded(self.counts(), x) == (if x == base@ {
                            (i + 1) as u32
                        } else {
                            recorded(old_counts, x)
                        }) by {
                        lemma_recorded_push(old_counts, base@, (i + 1) as u32, x);
                        assert(self.counts() =~= old_counts.push((base@, (i + 1) as u32)));
                    }
                }
            },
        }
        string_of(c.as_slice())
    }
}

/// Replacing the first record of `base` changes only its count.
proof fn lemma_recorded_update(s: Seq<(Seq<char>, u32)>, k: int, base: Seq<char>, n: u32, x: Seq<char>)
    requires
        0 <= k < s.len(),
        s[k].0 == base,
        forall|j: int| 0 <= j < k ==> #[trigger] s[j].0 != base,
    ensures
        recorded(s.update(k, (base, n)), x) == (if x == base {
            n
        } else {
            recorded(s, x)
        }),
    decreases s.len(),
{
    if k > 0 {
        assert(s.update(k, (base, n)).drop_first() =~= s.drop_first().update(k - 1, (base, n)));
        assert forall|j: int| 0 <= j < k - 1 implies #[trigger] s.drop_first()[j].0 != base by {
            assert(s[j + 1].0 != base);
        }
        lemma_recorded_update(s.drop_first(), k - 1, base, n, x);
    } else {
        assert(s.update(k, (base, n)).drop_first() =~= s.drop_first());
    }
}

/// Adding a record of a name not recorded yet gives it that count only.
proof fn lemma_recorded_push(s: Seq<(Seq<char>, u32)>, base: Seq<char>, n: u32, x: Seq<char>)
    requires
        forall|j: int| 0 <= j < s.len() ==> #[trigger] s[j].0 != base,
    ensures
        recorded(s.push((base, n)), x) == (if x == base {
            n
        } else {
            recorded(s, x)
        }),
    decreases s.len(),
{
    let t = s.push((base, n));
    if s.len() > 0 {
        assert(t[0] == s[0]);
        assert(s[0].0 != base);
        assert(t.drop_first() =~= s.drop_first().push((base, n)));
        assert forall|j: int| 0 <= j < s.drop_first().len() implies #[trigger] s.drop_first()[j].0
            != base by {
            assert(s[j + 1].0 != base);
        }
        lemma_recorded_push(s.drop_first(), base, n, x);
        if s[0].0 == x {
            assert(recorded(t, x) == s[0].1);
            assert(recorded(s, x) == s[0].1);
        } else {
            assert(recorded(t, x) == recorded(t.drop_first(), x));
            assert(recorded(s, x) == recorded(s.drop_first(), x));
        }
    } else {
        assert(t[0] == (base, n));
        assert(t.drop_first() =~= Seq::<(Seq<char>, u32)>::empty());
        if x != base {
            assert(recorded(t, x) == recorded(t.drop_first(), x));
        }
    }
}

/// A removal succeeded when nothing failed and something was moved.
pub fn removal_succeeded(moved: usize, failed: usize) -> (r: bool)
    ensures
        r == (failed == 0 && moved > 0),
{
    failed == 0 && moved > 0
}

} // verus!
