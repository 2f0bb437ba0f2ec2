//! The order of texts (code point by code point, as `str` compares them) and
//! sorting with it.

use vstd::prelude::*;

use crate::text::{chars_of, sseqs};

verus! {

/// `a` comes before `b`: at the first difference `a` has the smaller
/// character, or `a` is a proper prefix of `b`.
pub open spec fn text_lt(a: Seq<char>, b: Seq<char>) -> bool
    decreases a.len(),
{
    if a.len() == 0 {
        b.len() > 0
    } else if b.len() == 0 {
        false
    } else if a[0] != b[0] {
        a[0] < b[0]
    } else {
        text_lt(a.drop_first(), b.drop_first())
    }
}

/// `a` comes before `b` or equals it.
pub open spec fn text_le(a: Seq<char>, b: Seq<char>) -> bool {
    a == b || text_lt(a, b)
}

/// Of two different texts exactly one comes first, and no text comes before
/// itself.
pub proof fn lemma_text_lt_trichotomy(a: Seq<char>, b: Seq<char>)
    ensures
        !text_lt(a, a),
        a != b ==> (text_lt(a, b) != text_lt(b, a)),
        a == b ==> !text_lt(a, b) && !text_lt(b, a),
    decreases a.len(),
{
    if a.len() > 0 && b.len() > 0 {
        lemma_text_lt_trichotomy(a.drop_first(), b.drop_first());
        lemma_text_lt_trichotomy(a.drop_first(), a.drop_first());
        if a[0] == b[0] && a != b {
            assert(a.drop_first() != b.drop_first()) by {
                if a.drop_first() == b.drop_first() {
                    assert(a =~= seq![a[0]] + a.drop_first());
                    assert(b =~= seq![b[0]] + b.drop_first());
                }
            }
        }
    } else if a.len() > 0 {
        lemma_text_lt_trichotomy(a.drop_first(), a.drop_first());
    } else if b.len() == 0 {
        assert(a =~= b);
    }
}

/// The order is transitive.
pub proof fn lemma_text_lt_transitive(a: Seq<char>, b: Seq<char>, c: Seq<char>)
    requires
        text_lt(a, b),
        text_lt(b, c),
    ensures
        text_lt(a, c),
    decreases a.len(),
{
    if a.len() > 0 && b.len() > 0 && c.len() > 0 && a[0] == b[0] && b[0] == c[0] {
        lemma_text_lt_transitive(a.drop_first(), b.drop_first(), c.drop_first());
    }
}

/// Whether `a` comes before `b` (see `text_lt`).
pub fn text_less(a: &[char], b: &[char]) -> (r: bool)
    ensures
        r == text_lt(a@, b@),
{
    let mut i: usize = 0;
    assert(a@.subrange(0, a@.len() as int) =~= a@);
    assert(b@.subrange(0, b@.len() as int) =~= b@);
    while i < a.len() && i < b.len() && a[i] == b[i]
        invariant
            i <= a.len(),
            i <= b.len(),
            text_lt(a@, b@) == text_lt(
                a@.subrange(i as int, a@.len() as int),
                b@.subrange(i as int, b@.len() as int),
            ),
        decreases a.len() - i,
    {
        assert(a@.subrange(i as int, a@.len() as int).drop_first() =~= a@.subrange(
            i + 1,
            a@.len() as int,
        ));
        assert(b@.subrange(i as int, b@.len() as int).drop_first() =~= b@.subrange(
            i + 1,
            b@.len() as int,
        ));
        i = i + 1;
    }
    if i == a.len() {
        i < b.len()
    } else if i == b.len() {
        false
    } else {
        a[i] < b[i]
    }
}

/// Whether the string `a` comes before the string `b`.
pub fn string_less(a: &String, b: &String) -> (r: bool)
    ensures
        r == text_lt(a@, b@),
{
    let x = chars_of(a.as_str());
    let y = chars_of(b.as_str());
    text_less(x.as_slice(), y.as_slice())
}

/// Each text comes strictly before the next: sorted and without repeats.
pub open spec fn strictly_sorted(s: Seq<Seq<char>>) -> bool {
    forall|i: int, j: int| 0 <= i < j < s.len() ==> text_lt(#[trigger] s[i], #[trigger] s[j])
}

/// The strings in order, each once (as a sort followed by removing repeats
/// leaves them): the result is strictly sorted and holds exactly the texts
/// of the input.
pub fn sort_dedup(v: Vec<String>) -> (r: Vec<String>)
    ensures
        strictly_sorted(sseqs(r@)),
        forall|x: Seq<char>| sseqs(r@).contains(x) <==> sseqs(v@).contains(x),
{
    let mut r: Vec<String> = Vec::new();
    let mut k: usize = 0;
    while k < v.len()
        invariant
            k <= v.len(),
            strictly_sorted(sseqs(r@)),
            forall|x: Seq<char>| sseqs(r@).contains(x) <==> sseqs(v@.take(k as int)).contains(x),
        decreases v.len() - k,
    {
        let x = &v[k];
        let ghost xs = x@;
        // first position whose text does not come before x
        let mut p: usize = 0;
        while p < r.len() && string_less(&r[p], x)
            invariant
                p <= r.len(),
                forall|i: int| 0 <= i < p ==> text_lt(#[trigger] sseqs(r@)[i], xs),
                xs == x@,
            decreases r.len() - p,
        {
            p = p + 1;
        }
        let ghost old_r = sseqs(r@);
        assert(sseqs(v@.take(k + 1)) =~= sseqs(v@.take(k as int)).push(xs));
        proof {
            lemma_push_contains(sseqs(v@.take(k as int)), xs);
        }
        if p < r.len() && string_eq(&r[p], x) {
            // already present
            assert(old_r[p as int] == xs);
            assert(old_r.contains(xs));
        } else {
            proof {
                // every later element comes after x
                assert forall|i: int| p <= i < old_r.len() implies text_lt(xs, #[trigger] old_r[i]) by {
                    lemma_text_lt_trichotomy(old_r[p as int], xs);
                    if i > p {
                        lemma_text_lt_transitive(xs, old_r[p as int], old_r[i]);
                    }
                }
            }
            r.insert(p, x.clone());
            proof {
                let nr = sseqs(r@);
                assert(nr =~= old_r.insert(p as int, xs));
                assert forall|i: int, j: int| 0 <= i < j < nr.len() implies text_lt(
                    #[trigger] nr[i],
                    #[trigger] nr[j],
                ) by {
                    if j < p {
                    } else if j == p {
                    } else if i < p {
                        lemma_text_lt_transitive(nr[i], xs, nr[j]);
                    } else if i == p {
                    } else {
                        assert(nr[i] == old_r[i - 1] && nr[j] == old_r[j - 1]);
                    }
                }
                assert forall|y: Seq<char>| nr.contains(y) <==> old_r.contains(y) || y == xs by {
                    if nr.contains(y) {
                        let i = choose|i: int| 0 <= i < nr.len() && nr[i] == y;
                        if i < p {
                            assert(old_r[i] == y);
                        } else if i > p {
                            assert(old_r[i - 1] == y);
                        }
                    }
                    if old_r.contains(y) {
                        let i = choose|i: int| 0 <= i < old_r.len() && old_r[i] == y;
                        if i < p {
                            assert(nr[i] == y);
                        } else {
                            assert(nr[i + 1] == y);
                        }
                    }
                    if y == xs {
                        assert(nr[p as int] == y);
                    }
                }
            }
        }
        k = k + 1;
    }
    assert(v@.take(v.len() as int) =~= v@);
    r
}

/// What a sequence holds after a push.
pub proof fn lemma_push_contains(s: Seq<Seq<char>>, a: Seq<char>)
    ensures
        forall|y: Seq<char>| #[trigger] s.push(a).contains(y) <==> (s.contains(y) || y == a),
{
    assert forall|y: Seq<char>| #[trigger] s.push(a).contains(y) <==> (s.contains(y) || y == a) by {
        if s.push(a).contains(y) {
            let i = choose|i: int| 0 <= i < s.push(a).len() && s.push(a)[i] == y;
            if i < s.len() {
                assert(s[i] == y);
            }
        }
        if s.contains(y) {
            let i = choose|i: int| 0 <= i < s.len() && s[i] == y;
            assert(s.push(a)[i] == y);
        }
        if y == a {
            assert(s.push(a)[s.len() as int] == y);
        }
    }
}

/// Whether the texts of `v` include `s`.
pub fn contains_string(v: &Vec<String>, s: &[char]) -> (r: bool)
    ensures
        r == sseqs(v@).contains(s@),
{
    let mut i: usize = 0;
    while i < v.len()
        invariant
            i <= v.len(),
            forall|k: int| 0 <= k < i ==> v@[k]@ != s@,
        decreases v.len() - i,
    {
        if crate::text::string_eq_chars(&v[i], s) {
            assert(sseqs(v@)[i as int] == s@);
            return true;
        }
        i = i + 1;
    }
    proof {
        if sseqs(v@).contains(s@) {
            let k = choose|k: int| 0 <= k < sseqs(v@).len() && sseqs(v@)[k] == s@;
            assert(v@[k]@ == s@);
        }
    }
    false
}

/// Whether two strings are equal.
pub fn string_eq(a: &String, b: &String) -> (r: bool)
    ensures
        r == (a@ == b@),
{
    let x = chars_of(a.as_str());
    let y = chars_of(b.as_str());
    crate::text::chars_eq(x.as_slice(), y.as_slice())
}

} // verus!
