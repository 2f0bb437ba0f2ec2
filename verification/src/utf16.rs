//! UTF-16 as the Windows interfaces use it: encoding text into code units,
//! decoding code units into text (each unpaired surrogate becomes the
//! replacement character), and the null-terminated buffers of those
//! interfaces.

use vstd::prelude::*;

verus! {

broadcast use {vstd::utf8::char_is_scalar, vstd::utf8::char_u32_cast};

/// `core::char::from_u32`: the character with the given code point, when
/// it is one (not a surrogate and at most `0x10FFFF`).
pub assume_specification[ core::char::from_u32 ](i: u32) -> (r: Option<char>)
    ensures
        r == (if i <= 0xD7FF || (0xE000 <= i && i <= 0x10FFFF) {
            Some(i as char)
        } else {
            None
        }),
;

/// A high (leading) surrogate.
pub open spec fn is_high(u: u16) -> bool {
    0xD800 <= u <= 0xDBFF
}

/// A low (trailing) surrogate.
pub open spec fn is_low(u: u16) -> bool {
    0xDC00 <= u <= 0xDFFF
}

/// The code point a surrogate pair stands for.
pub open spec fn pair_point(hi: u16, lo: u16) -> int {
    (hi - 0xD800) * 1024 + (lo - 0xDC00) + 0x10000
}

/// The UTF-16 code units of one character.
pub open spec fn char_units(c: char) -> Seq<u16> {
    let v = c as u32;
    if v < 0x10000 {
        seq![v as u16]
    } else {
        seq![(0xD800 + (v - 0x10000) / 1024) as u16, (0xDC00 + (v - 0x10000) % 1024) as u16]
    }
}

/// The UTF-16 code units of a text.
pub open spec fn utf16_units(s: Seq<char>) -> Seq<u16>
    decreases s.len(),
{
    if s.len() == 0 {
        Seq::empty()
    } else {
        utf16_units(s.drop_last()) + char_units(s.last())
    }
}

/// The text that code units decode to: a surrogate pair gives its
/// character, any other surrogate the replacement character `U+FFFD`, any
/// other unit its own character.
pub open spec fn utf16_text(u: Seq<u16>) -> Seq<char>
    decreases u.len(),
{
    if u.len() == 0 {
        Seq::empty()
    } else if u.len() >= 2 && is_high(u[0]) && is_low(u[1]) {
        seq![pair_point(u[0], u[1]) as char] + utf16_text(u.skip(2))
    } else if is_high(u[0]) || is_low(u[0]) {
        seq!['\u{FFFD}'] + utf16_text(u.skip(1))
    } else {
        seq![u[0] as char] + utf16_text(u.skip(1))
    }
}

/// The UTF-16 code units of a text (see `utf16_units`).
pub fn encode_utf16(s: &[char]) -> (r: Vec<u16>)
    ensures
        r@ == utf16_units(s@),
{
    let mut r: Vec<u16> = Vec::new();
    let mut i: usize = 0;
    while i < s.len()
        invariant
            i <= s.len(),
            r@ == utf16_units(s@.take(i as int)),
        decreases s.len() - i,
    {
        assert(s@.take(i + 1).drop_last() =~= s@.take(i as int));
        let v = s[i] as u32;
        let ghost before = r@;
        if v < 0x10000 {
            r.push(v as u16);
        } else {
            let w = v - 0x10000;
            r.push((0xD800 + w / 1024) as u16);
            r.push((0xDC00 + w % 1024) as u16);
        }
        assert(r@ =~= before + char_units(s@[i as int]));
        i = i + 1;
    }
    assert(s@.take(s.len() as int) =~= s@);
    r
}

/// The text code units decode to (see `utf16_text`).
pub fn decode_utf16(u: &[u16]) -> (r: Vec<char>)
    ensures
        r@ == utf16_text(u@),
{
    let mut r: Vec<char> = Vec::new();
    let mut i: usize = 0;
    assert(u@.skip(0) =~= u@);
    while i < u.len()
        invariant
            i <= u.len(),
            r@ + utf16_text(u@.skip(i as int)) == utf16_text(u@),
        decreases u.len() - i,
    {
        let a = u[i];
        let ghost rest = u@.skip(i as int);
        assert(rest[0] == a);
        if i + 1 < u.len() && 0xD800 <= a && a <= 0xDBFF && 0xDC00 <= u[i + 1] && u[i + 1] <= 0xDFFF {
            let b = u[i + 1];
            assert(rest[1] == b);
            let p: u32 = ((a - 0xD800) as u32) * 1024 + ((b - 0xDC00) as u32) + 0x10000;
            let c = core::char::from_u32(p);
            match c {
                Some(ch) => r.push(ch),
                None => r.push('\u{FFFD}'),
            }
            assert(rest.skip(2) =~= u@.skip(i + 2));
            assert(r@ + utf16_text(u@.skip(i + 2)) =~= utf16_text(u@));
            i = i + 2;
        } else if 0xD800 <= a && a <= 0xDFFF {
            r.push('\u{FFFD}');
            assert(rest.skip(1) =~= u@.skip(i + 1));
            assert(r@ + utf16_text(u@.skip(i + 1)) =~= utf16_text(u@));
            i = i + 1;
        } else {
            let c = core::char::from_u32(a as u32);
            match c {
                Some(ch) => r.push(ch),
                None => r.push('\u{FFFD}'),
            }
            assert(rest.skip(1) =~= u@.skip(i + 1));
            assert(r@ + utf16_text(u@.skip(i + 1)) =~= utf16_text(u@));
            i = i + 1;
        }
    }
    assert(r@ + utf16_text(u@.skip(u.len() as int)) =~= r@);
    r
}

/// The units up to the first zero (all of them when there is none).
pub open spec fn before_nul(u: Seq<u16>) -> Seq<u16>
    decreases u.len(),
{
    if u.len() == 0 {
        u
    } else if u[0] == 0 {
        Seq::empty()
    } else {
        seq![u[0]] + before_nul(u.drop_first())
    }
}

/// A null-terminated buffer for a text: its code units and a zero.
pub fn widen(s: &str) -> (r: Vec<u16>)
    ensures
        r@ == utf16_units(s@).push(0),
{
    let c = crate::text::chars_of(s);
    let mut r = encode_utf16(c.as_slice());
    r.push(0);
    r
}

/// The text of a null-terminated buffer: the units before the first zero,
/// decoded (see `utf16_text`).
pub fn narrow(buf: &[u16]) -> (r: String)
    ensures
        r@ == utf16_text(before_nul(buf@)),
{
    let mut end: usize = 0;
    assert(buf@.skip(0) =~= buf@);
    assert(buf@.take(0) + buf@ =~= buf@);
    while end < buf.len() && buf[end] != 0
        invariant
            end <= buf.len(),
            forall|k: int| 0 <= k < end ==> buf@[k] != 0,
            before_nul(buf@) == buf@.take(end as int) + before_nul(buf@.skip(end as int)),
        decreases buf.len() - end,
    {
        let ghost rest = buf@.skip(end as int);
        assert(rest.drop_first() =~= buf@.skip(end + 1));
        assert(buf@.take(end + 1) =~= buf@.take(end as int).push(buf@[end as int]));
        assert(seq![rest[0]] + before_nul(rest.drop_first()) =~= seq![buf@[end as int]] + before_nul(
            buf@.skip(end + 1),
        ));
        end = end + 1;
    }
    proof {
        if end < buf.len() {
            assert(buf@.skip(end as int)[0] == 0);
        }
        assert(before_nul(buf@.skip(end as int)) =~= Seq::<u16>::empty());
        assert(before_nul(buf@) =~= buf@.take(end as int));
    }
    let units = vstd::slice::slice_subrange(buf, 0, end);
    let chars = decode_utf16(units);
    crate::text::string_of(chars.as_slice())
}

/// A character's code units decode back to it, whatever follows them.
proof fn lemma_char_round_trip(c: char, rest: Seq<u16>)
    ensures
        utf16_text(char_units(c) + rest) == seq![c] + utf16_text(rest),
{
    let v = c as u32;
    let u = char_units(c) + rest;
    if v < 0x10000 {
        assert(u[0] == v as u16);
        assert(!(0xD800 <= v <= 0xDFFF));
        assert(u.skip(1) =~= rest);
        assert((v as u16) as u32 == v);
        assert((v as u16) as char == v as char);
    } else {
        let w = v - 0x10000;
        assert(0 <= w < 0x100000);
        assert(u[0] == (0xD800 + w / 1024) as u16);
        assert(u[1] == (0xDC00 + w % 1024) as u16);
        assert(u.skip(2) =~= rest);
        assert(pair_point(u[0], u[1]) == v);
        assert(pair_point(u[0], u[1]) as char == c);
    }
}

/// Encoding a text without zero characters into a null-terminated buffer
/// and reading the buffer back gives the text.
pub proof fn law_narrow_widen(s: Seq<char>)
    requires
        !s.contains('\0'),
    ensures
        utf16_text(before_nul(utf16_units(s).push(0))) == s,
{
    lemma_no_nul_units(s);
    lemma_before_nul_stop(utf16_units(s));
    lemma_units_round_trip(s, Seq::empty());
    assert(utf16_units(s) + Seq::<u16>::empty() =~= utf16_units(s));
}

/// Decoding the units of a text followed by other units gives the text
/// followed by what those decode to.
proof fn lemma_units_round_trip(s: Seq<char>, rest: Seq<u16>)
    ensures
        utf16_text(utf16_units(s) + rest) == s + utf16_text(rest),
    decreases s.len(),
{
    if s.len() == 0 {
        assert(utf16_units(s) + rest =~= rest);
        assert(s + utf16_text(rest) =~= utf16_text(rest));
    } else {
        let t = s.drop_last();
        lemma_char_round_trip(s.last(), rest);
        lemma_units_round_trip(t, char_units(s.last()) + rest);
        assert(utf16_units(s) + rest =~= utf16_units(t) + (char_units(s.last()) + rest));
        assert(s =~= t.push(s.last()));
        assert(t + (seq![s.last()] + utf16_text(rest)) =~= s + utf16_text(rest));
    }
}

/// The units of a text without zero characters hold no zero.
proof fn lemma_no_nul_units(s: Seq<char>)
    requires
        !s.contains('\0'),
    ensures
        !utf16_units(s).contains(0),
    decreases s.len(),
{
    if s.len() > 0 {
        let t = s.drop_last();
        assert(!t.contains('\0')) by {
            if t.contains('\0') {
                let k = choose|k: int| 0 <= k < t.len() && t[k] == '\0';
                assert(s[k] == '\0');
            }
        }
        lemma_no_nul_units(t);
        assert(s.last() != '\0') by {
            assert(s[s.len() - 1] == s.last());
        }
        let u = utf16_units(s);
        assert(u == utf16_units(t) + char_units(s.last()));
        let c = s.last();
        assert(c as u32 != 0) by {
            if c as u32 == 0 {
                vstd::utf8::char_u32_cast(c, c as u32);
                vstd::utf8::char_u32_cast('\0', '\0' as u32);
                assert(('\0' as u32) == 0);
            }
        }
        assert forall|k: int| 0 <= k < char_units(c).len() implies char_units(c)[k] != 0 by {
            let v = c as u32;
            vstd::utf8::char_is_scalar(c);
            if v < 0x10000 {
                assert(k == 0);
                assert(char_units(c)[0] == v as u16);
                assert((v as u16) as u32 == v);
            } else {
                let w = v - 0x10000;
                assert(w / 1024 < 0x400);
                assert(char_units(c)[0] == (0xD800 + w / 1024) as u16);
                assert(char_units(c)[1] == (0xDC00 + w % 1024) as u16);
            }
        }
        assert forall|k: int| 0 <= k < u.len() implies u[k] != 0 by {
            if k < utf16_units(t).len() {
                assert(u[k] == utf16_units(t)[k]);
            } else {
                assert(u[k] == char_units(s.last())[k - utf16_units(t).len()]);
            }
        }
    }
}

/// Units without zero followed by a zero stop right there.
proof fn lemma_before_nul_stop(u: Seq<u16>)
    requires
        !u.contains(0),
    ensures
        before_nul(u.push(0)) == u,
    decreases u.len(),
{
    if u.len() == 0 {
        assert(u.push(0)[0] == 0);
    } else {
        assert(u.push(0)[0] == u[0]);
        assert(u[0] != 0);
        assert(u.push(0).drop_first() =~= u.drop_first().push(0));
        assert(!u.drop_first().contains(0)) by {
            if u.drop_first().contains(0) {
                let k = choose|k: int| 0 <= k < u.drop_first().len() && u.drop_first()[k] == 0;
                assert(u[k + 1] == 0);
            }
        }
        lemma_before_nul_stop(u.drop_first());
        assert(seq![u[0]] + u.drop_first() =~= u);
    }
}

} // verus!
