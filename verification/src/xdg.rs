//! The freedesktop trash: percent-encoding of original paths, `.trashinfo`
//! records and the names of trash entries.
//!
//! Moving a file to the trash puts it at `<trash>/files/<name>` and writes
//! `<trash>/info/<name>.trashinfo` with a `[Trash Info]` group holding the
//! percent-encoded original path (`Path=`) and the deletion time
//! (`DeletionDate=`).

use vstd::prelude::*;
use vstd::utf8::{
    decode_utf8, encode_utf8, encode_utf8_decode_utf8, encode_utf8_valid_utf8, is_ascii_chars,
    is_ascii_chars_encode_utf8, valid_utf8,
};

use crate::text::{
    chars_eq_str, chars_of, concat, ends, ends_with_str, lines, lines_of, opt_seq, split, sseqs, starts,
    starts_with_str, string_of, sub_chars, vseqs,
};

verus! {

// ---------------------------------------------------------------------------
// Percent-encoding
// ---------------------------------------------------------------------------

/// Bytes that stand for themselves in an encoded path: ASCII letters and
/// digits and `/ - _ . ~`.
pub open spec fn unreserved(b: u8) -> bool {
    (65 <= b <= 90) || (97 <= b <= 122) || (48 <= b <= 57) || b == 47 || b == 45 || b == 95 || b
        == 46 || b == 126
}

/// The upper-case hexadecimal digit of `d` (below 16), as a byte.
pub open spec fn hex_digit(d: u8) -> u8 {
    if d < 10 {
        (48 + d) as u8
    } else {
        (55 + d) as u8
    }
}

/// The value of a hexadecimal digit byte (either case), if it is one.
pub open spec fn hex_value(b: u8) -> Option<u8> {
    if 48 <= b <= 57 {
        Some((b - 48) as u8)
    } else if 97 <= b <= 102 {
        Some((b - 87) as u8)
    } else if 65 <= b <= 70 {
        Some((b - 55) as u8)
    } else {
        None
    }
}

/// Encoding of one byte: itself when unreserved, else `%` and two upper-case
/// hexadecimal digits.
pub open spec fn escape_byte(b: u8) -> Seq<u8> {
    if unreserved(b) {
        seq![b]
    } else {
        seq![37u8, hex_digit(b / 16), hex_digit(b % 16)]
    }
}

/// Percent-encoding of a byte sequence.
pub open spec fn escape(bytes: Seq<u8>) -> Seq<u8>
    decreases bytes.len(),
{
    if bytes.len() == 0 {
        Seq::empty()
    } else {
        escape(bytes.drop_last()) + escape_byte(bytes.last())
    }
}

/// The characters of ASCII bytes.
pub open spec fn ascii_text(bytes: Seq<u8>) -> Seq<char> {
    bytes.map_values(|b: u8| b as char)
}

/// Percent-decoding: `%` followed by two hexadecimal digits stands for the
/// byte they spell; every other byte, a `%` without two digits after it
/// included, stands for itself.
pub open spec fn unescape(bytes: Seq<u8>) -> Seq<u8>
    decreases bytes.len(),
{
    if bytes.len() == 0 {
        Seq::empty()
    } else if bytes[0] == 37 && 2 < bytes.len() && hex_value(bytes[1]) is Some && hex_value(
        bytes[2],
    ) is Some {
        seq![(hex_value(bytes[1])->Some_0 * 16 + hex_value(bytes[2])->Some_0) as u8] + unescape(
            bytes.subrange(3, bytes.len() as int),
        )
    } else {
        seq![bytes[0]] + unescape(bytes.drop_first())
    }
}

/// Name for what `String::from_utf8_lossy` makes of bytes that are not
/// valid UTF-8: their text, each invalid sequence replaced by U+FFFD.
pub uninterp spec fn utf8_lossy(bytes: Seq<u8>) -> Seq<char>;

/// The text of bytes: their UTF-8 decoding when valid, else the lossy one.
pub open spec fn lossy_text(bytes: Seq<u8>) -> Seq<char> {
    if valid_utf8(bytes) {
        decode_utf8(bytes)
    } else {
        utf8_lossy(bytes)
    }
}

/// `String::from_utf8_lossy`, made owned. Its documentation promises that
/// valid UTF-8 comes back as the text it encodes; what replaces invalid
/// sequences is left to the name.
#[verifier::external_body]
fn from_utf8_lossy(bytes: &[u8]) -> (r: String)
    ensures
        valid_utf8(bytes@) ==> r@ == decode_utf8(bytes@),
        !valid_utf8(bytes@) ==> r@ == utf8_lossy(bytes@),
{
    String::from_utf8_lossy(bytes).into_owned()
}

/// The `Path=` value of an original path: its UTF-8 bytes, percent-encoded.
pub open spec fn encoded_path(path: Seq<char>) -> Seq<char> {
    ascii_text(escape(encode_utf8(path)))
}

/// The original path of a `Path=` value.
pub open spec fn decoded_path(encoded: Seq<char>) -> Seq<char> {
    lossy_text(unescape(encode_utf8(encoded)))
}

/// The hexadecimal digit of `d` (see `hex_digit`).
fn hex_char(d: u8) -> (c: char)
    requires
        d < 16,
    ensures
        c == hex_digit(d) as char,
        c as u32 == hex_digit(d),
{
    if d < 10 {
        (48 + d) as char
    } else {
        (55 + d) as char
    }
}

/// The `Path=` value of an original path (see `encoded_path`).
pub fn encode_path(path: &str) -> (r: String)
    ensures
        r@ == encoded_path(path@),
{
    let bytes = path.as_bytes();
    let mut out = String::new();
    let mut i: usize = 0;
    while i < bytes.len()
        invariant
            i <= bytes.len(),
            bytes@ == encode_utf8(path@),
            out@ == ascii_text(escape(bytes@.take(i as int))),
        decreases bytes.len() - i,
    {
        let b = bytes[i];
        let ghost before = out@;
        assert(bytes@.take(i + 1).drop_last() =~= bytes@.take(i as int));
        if (65 <= b && b <= 90) || (97 <= b && b <= 122) || (48 <= b && b <= 57) || b == 47 || b
            == 45 || b == 95 || b == 46 || b == 126 {
            out.push(b as char);
        } else {
            out.push('%');
            out.push(hex_char(b / 16));
            out.push(hex_char(b % 16));
        }
        i = i + 1;
        assert(out@ =~= ascii_text(escape(bytes@.take(i as int))));
    }
    assert(bytes@.take(bytes@.len() as int) =~= bytes@);
    out
}

/// The value of a hexadecimal digit (see `hex_value`).
fn hex_val(b: u8) -> (r: Option<u8>)
    ensures
        r == hex_value(b),
{
    if 48 <= b && b <= 57 {
        Some(b - 48)
    } else if 97 <= b && b <= 102 {
        Some(b - 87)
    } else if 65 <= b && b <= 70 {
        Some(b - 55)
    } else {
        None
    }
}

/// The original path of a `Path=` value (see `decoded_path`).
pub fn decode_path(encoded: &str) -> (r: String)
    ensures
        r@ == decoded_path(encoded@),
{
    let bytes = encoded.as_bytes();
    let mut out: Vec<u8> = Vec::new();
    let mut i: usize = 0;
    assert(bytes@.subrange(0, bytes@.len() as int) =~= bytes@);
    while i < bytes.len()
        invariant
            i <= bytes.len(),
            bytes@ == encode_utf8(encoded@),
            out@ + unescape(bytes@.subrange(i as int, bytes@.len() as int)) == unescape(bytes@),
        decreases bytes.len() - i,
    {
        let ghost rest = bytes@.subrange(i as int, bytes@.len() as int);
        let ghost before = out@;
        if bytes[i] == 37 && bytes.len() - i > 2 {
            match (hex_val(bytes[i + 1]), hex_val(bytes[i + 2])) {
                (Some(h), Some(l)) => {
                    out.push(h * 16 + l);
                    assert(rest.subrange(3, rest.len() as int) =~= bytes@.subrange(
                        i + 3,
                        bytes@.len() as int,
                    ));
                    assert(before + unescape(rest) =~= out@ + unescape(
                        bytes@.subrange(i + 3, bytes@.len() as int),
                    ));
                    i = i + 3;
                    continue;
                },
                _ => {},
            }
        }
        out.push(bytes[i]);
        assert(rest.drop_first() =~= bytes@.subrange(i + 1, bytes@.len() as int));
        assert(before + unescape(rest) =~= out@ + unescape(
            bytes@.subrange(i + 1, bytes@.len() as int),
        ));
        i = i + 1;
    }
    assert(out@ + unescape(bytes@.subrange(i as int, bytes@.len() as int)) =~= out@);
    from_utf8_lossy(out.as_slice())
}

// ---------------------------------------------------------------------------
// The round trip
// ---------------------------------------------------------------------------

/// Escaped bytes are ASCII and never a line break.
proof fn lemma_escape_ascii(bytes: Seq<u8>)
    ensures
        forall|i: int|
            0 <= i < escape(bytes).len() ==> (#[trigger] escape(bytes)[i]) < 128 && escape(
                bytes,
            )[i] != 10 && escape(bytes)[i] != 13,
    decreases bytes.len(),
{
    if bytes.len() > 0 {
        lemma_escape_ascii(bytes.drop_last());
        let p = escape(bytes.drop_last());
        let e = escape_byte(bytes.last());
        assert forall|i: int| 0 <= i < escape(bytes).len() implies (#[trigger] escape(bytes)[i])
            < 128 && escape(bytes)[i] != 10 && escape(bytes)[i] != 13 by {
            if i >= p.len() {
                assert(escape(bytes)[i] == e[i - p.len()]);
            }
        }
    }
}

/// Unescaping undoes escaping, byte by byte.
proof fn lemma_unescape_escape(bytes: Seq<u8>)
    ensures
        unescape(escape(bytes)) == bytes,
    decreases bytes.len(),
{
    if bytes.len() > 0 {
        let b = bytes[0];
        let rest = bytes.drop_first();
        lemma_unescape_escape(rest);
        lemma_escape_front(bytes);
        let e = escape_byte(b);
        let whole = e + escape(rest);
        if unreserved(b) {
            assert(whole[0] == b);
            assert(whole.drop_first() =~= escape(rest));
        } else {
            assert(b / 16 < 16 && b % 16 < 16);
            assert(whole[0] == 37 && whole[1] == hex_digit(b / 16) && whole[2] == hex_digit(b % 16));
            assert(whole.subrange(3, whole.len() as int) =~= escape(rest));
            assert((b / 16) * 16 + b % 16 == b);
        }
        assert(seq![b] + rest =~= bytes);
    }
}

/// Escaping a sequence escapes its first byte, then the rest.
proof fn lemma_escape_front(bytes: Seq<u8>)
    requires
        bytes.len() > 0,
    ensures
        escape(bytes) == escape_byte(bytes[0]) + escape(bytes.drop_first()),
    decreases bytes.len(),
{
    if bytes.len() == 1 {
        assert(bytes.drop_first() =~= Seq::<u8>::empty());
        assert(bytes.drop_last() =~= Seq::<u8>::empty());
        assert(escape(Seq::<u8>::empty()) == Seq::<u8>::empty());
        assert(escape(bytes) =~= escape_byte(bytes[0]));
    } else {
        lemma_escape_front(bytes.drop_last());
        assert(bytes.drop_last().drop_first() =~= bytes.drop_first().drop_last());
        assert(bytes.drop_first().last() == bytes.last());
        assert(escape(bytes) =~= escape_byte(bytes[0]) + escape(bytes.drop_first()));
    }
}

/// The UTF-8 bytes of an ASCII text are its characters' codes.
proof fn lemma_ascii_text_bytes(bytes: Seq<u8>)
    requires
        forall|i: int| 0 <= i < bytes.len() ==> #[trigger] bytes[i] < 128,
    ensures
        is_ascii_chars(ascii_text(bytes)),
        encode_utf8(ascii_text(bytes)) == bytes,
{
    let t = ascii_text(bytes);
    assert forall|i: int| 0 <= i < t.len() implies '\0' <= #[trigger] t[i] <= '\u{7f}' by {
        assert(t[i] == bytes[i] as char);
    }
    is_ascii_chars_encode_utf8(t);
    assert forall|i: int| 0 <= i < bytes.len() implies #[trigger] encode_utf8(t)[i] == bytes[i] by {
        assert(t[i] as u8 == encode_utf8(t)[i]);
        assert(t[i] == bytes[i] as char);
    }
    assert(encode_utf8(t) =~= bytes);
}

/// Decoding the encoding of a path gives the path back.
pub proof fn law_decode_encode(path: Seq<char>)
    ensures
        decoded_path(encoded_path(path)) == path,
{
    let b = encode_utf8(path);
    lemma_escape_ascii(b);
    lemma_ascii_text_bytes(escape(b));
    lemma_unescape_escape(b);
    encode_utf8_valid_utf8(path);
    encode_utf8_decode_utf8(path);
}

// ---------------------------------------------------------------------------
// Trash info records
// ---------------------------------------------------------------------------

/// The `.trashinfo` record of a file deleted from `original_path` at
/// `deletion_date`.
pub open spec fn trashinfo_text(original_path: Seq<char>, deletion_date: Seq<char>) -> Seq<char> {
    "[Trash Info]\nPath="@ + encoded_path(original_path) + "\nDeletionDate="@ + deletion_date
        + "\n"@
}

/// The `.trashinfo` record of a deleted file (see `trashinfo_text`).
pub fn generate_trashinfo(original_path: &str, deletion_date: &str) -> (r: String)
    ensures
        r@ == trashinfo_text(original_path@, deletion_date@),
{
    let enc = encode_path(original_path);
    let a = concat("[Trash Info]\nPath=", enc.as_str());
    let b = concat(a.as_str(), "\nDeletionDate=");
    let c = concat(b.as_str(), deletion_date);
    concat(c.as_str(), "\n")
}

/// What a reader of a record knows after some lines.
pub struct InfoState {
    pub path: Option<Seq<char>>,
    pub date: Seq<char>,
    pub in_section: bool,
}

/// Splitting text followed by a piece without the separator extends the
/// last piece.
proof fn lemma_split_append(x: Seq<char>, y: Seq<char>, sep: char)
    requires
        !y.contains(sep),
    ensures
        split(x + y, sep) == split(x, sep).drop_last().push(split(x, sep).last() + y),
    decreases y.len(),
{
    crate::text::lemma_split_len(x, sep);
    if y.len() == 0 {
        assert(x + y =~= x);
        assert(split(x, sep).drop_last().push(split(x, sep).last() + y) =~= split(x, sep));
    } else {
        let y1 = y.drop_last();
        assert(!y1.contains(sep)) by {
            if y1.contains(sep) {
                let k = choose|k: int| 0 <= k < y1.len() && y1[k] == sep;
                assert(y[k] == sep);
            }
        }
        assert(y.last() != sep) by {
            assert(y[y.len() - 1] == y.last());
        }
        lemma_split_append(x, y1, sep);
        assert((x + y).drop_last() =~= x + y1);
        assert((x + y).last() == y.last());
        assert(split(x, sep).last() + y =~= (split(x, sep).last() + y1).push(y.last()));
        assert(split(x + y, sep) =~= split(x, sep).drop_last().push(split(x, sep).last() + y));
    }
}

/// The lines of a record as `trashinfo_text` writes it.
proof fn lemma_record_lines(h: Seq<char>, l1: Seq<char>, l2: Seq<char>)
    requires
        !h.contains('\n'),
        !l1.contains('\n'),
        !l2.contains('\n'),
        h.len() > 0 && h.last() != '\r',
        l1.len() > 0 && l1.last() != '\r',
        l2.len() > 0 && l2.last() != '\r',
    ensures
        lines(h.push('\n') + l1.push('\n') + l2.push('\n')) == seq![h, l1, l2],
{
    let e = Seq::<char>::empty();
    lemma_split_append(e, h, '\n');
    assert(e + h =~= h);
    assert(split(e, '\n') =~= seq![e]);
    assert(split(h, '\n') =~= seq![h]);
    let a = h.push('\n');
    assert(a.drop_last() =~= h);
    assert(a.last() == '\n');
    assert(split(a, '\n') =~= seq![h, e]);
    lemma_split_append(a, l1, '\n');
    assert(split(a + l1, '\n') =~= seq![h, l1]);
    let b = (a + l1).push('\n');
    assert(b.drop_last() =~= a + l1);
    assert(b.last() == '\n');
    assert(split(b, '\n') =~= seq![h, l1, e]);
    lemma_split_append(b, l2, '\n');
    assert(split(b + l2, '\n') =~= seq![h, l1, l2]);
    let c = (b + l2).push('\n');
    assert(c.drop_last() =~= b + l2);
    assert(c.last() == '\n');
    assert(split(c, '\n') =~= seq![h, l1, l2, e]);
    assert(c =~= h.push('\n') + l1.push('\n') + l2.push('\n'));
    assert(lines(c) =~= seq![h, l1, l2]);
}

/// Reading the record written for a file gives back its original path and
/// deletion date (a date without a line feed that does not end in a carriage
/// return, a path that is not empty).
pub proof fn law_trashinfo_round_trip(path: Seq<char>, date: Seq<char>)
    requires
        path.len() > 0,
        !date.contains('\n'),
        date.len() == 0 || date.last() != '\r',
    ensures
        trashinfo_of(trashinfo_text(path, date)) == Some((path, date)),
{
    reveal_strlit("[Trash Info]\nPath=");
    reveal_strlit("\nDeletionDate=");
    reveal_strlit("\n");
    reveal_strlit("[Trash Info]");
    reveal_strlit("Path=");
    reveal_strlit("DeletionDate=");
    let enc = encoded_path(path);
    let b = encode_utf8(path);
    lemma_escape_ascii(b);
    assert forall|i: int| 0 <= i < enc.len() implies enc[i] != '\n' && enc[i] != '\r' by {
        assert(enc[i] == escape(b)[i] as char);
    }
    let h = "[Trash Info]"@;
    let l1 = "Path="@ + enc;
    let l2 = "DeletionDate="@ + date;
    assert(!h.contains('\n')) by {
        if h.contains('\n') {
            let k = choose|k: int| 0 <= k < h.len() && h[k] == '\n';
        }
    }
    assert(!l1.contains('\n')) by {
        if l1.contains('\n') {
            let k = choose|k: int| 0 <= k < l1.len() && l1[k] == '\n';
            if k >= 5 {
                assert(l1[k] == enc[k - 5]);
            }
        }
    }
    assert(!l2.contains('\n')) by {
        if l2.contains('\n') {
            let k = choose|k: int| 0 <= k < l2.len() && l2[k] == '\n';
            if k >= 13 {
                assert(l2[k] == date[k - 13]);
            }
        }
    }
    assert(l1.last() != '\r') by {
        if enc.len() > 0 {
            assert(l1.last() == enc[enc.len() - 1]);
        }
    }
    assert(l2.last() != '\r') by {
        if date.len() > 0 {
            assert(l2.last() == date[date.len() - 1]);
        }
    }
    assert(trashinfo_text(path, date) =~= h.push('\n') + l1.push('\n') + l2.push('\n'));
    lemma_record_lines(h, l1, l2);
    let ls = seq![h, l1, l2];
    assert(ls.drop_last().drop_last().drop_last() =~= Seq::<Seq<char>>::empty());
    assert(ls.drop_last().drop_last() =~= seq![h]);
    assert(ls.drop_last() =~= seq![h, l1]);
    assert(l1 != h) by {
        assert(l1[0] == 'P');
    }
    assert(l2 != h) by {
        assert(l2[0] == 'D');
    }
    assert(!starts(l2, "Path="@)) by {
        assert(l2[0] == 'D');
        if starts(l2, "Path="@) {
            assert(l2.subrange(0, 5)[0] == l2[0]);
        }
    }
    assert(ls.drop_last().last() == l1);
    assert(ls.last() == l2);
    assert(ls.drop_last().drop_last().last() == h);
    assert("Path="@.len() == 5);
    assert("DeletionDate="@.len() == 13);
    assert(starts(l1, "Path="@)) by {
        assert(l1.subrange(0, 5) =~= "Path="@);
    }
    assert(starts(l2, "DeletionDate="@)) by {
        assert(l2.subrange(0, 13) =~= "DeletionDate="@);
    }
    assert(l1.subrange(5, l1.len() as int) =~= enc);
    assert(l2.subrange(13, l2.len() as int) =~= date);
    let st1 = info_state_after(ls.drop_last().drop_last());
    assert(st1.in_section);
    let st2 = next_info_state(st1, l1);
    assert(st2.path == Some(enc));
    assert(info_state_after(ls.drop_last()) == st2);
    assert(info_state_after(ls.drop_last()).path == Some(enc));
    assert(info_state_after(ls).date == date);
    assert(info_state_after(ls).path == Some(enc));
    law_decode_encode(path);
}

/// The state after one more line: the `[Trash Info]` header opens the group;
/// inside it, `Path=` and `DeletionDate=` lines set their values (the last
/// one wins).
pub open spec fn next_info_state(st: InfoState, line: Seq<char>) -> InfoState {
    if line == "[Trash Info]"@ {
        InfoState { in_section: true, ..st }
    } else if !st.in_section {
        st
    } else if starts(line, "Path="@) {
        InfoState { path: Some(line.subrange("Path="@.len() as int, line.len() as int)), ..st }
    } else if starts(line, "DeletionDate="@) {
        InfoState { date: line.subrange("DeletionDate="@.len() as int, line.len() as int), ..st }
    } else {
        st
    }
}

/// The state after the given lines.
pub open spec fn info_state_after(ls: Seq<Seq<char>>) -> InfoState
    decreases ls.len(),
{
    if ls.len() == 0 {
        InfoState { path: None, date: Seq::empty(), in_section: false }
    } else {
        next_info_state(info_state_after(ls.drop_last()), ls.last())
    }
}

/// The original path and deletion date a record holds; nothing when it has
/// no `Path=` in its group or the path decodes to nothing.
pub open spec fn trashinfo_of(content: Seq<char>) -> Option<(Seq<char>, Seq<char>)> {
    let st = info_state_after(lines(content));
    match st.path {
        None => None,
        Some(p) => if decoded_path(p).len() == 0 {
            None
        } else {
            Some((decoded_path(p), st.date))
        },
    }
}

/// Reads a `.trashinfo` record (see `trashinfo_of`).
pub fn parse_trashinfo(content: &str) -> (r: Option<(String, String)>)
    ensures
        match r {
            Some((p, d)) => trashinfo_of(content@) == Some((p@, d@)),
            None => trashinfo_of(content@) is None,
        },
{
    let text = chars_of(content);
    let ls = lines_of(text.as_slice());
    let mut path_enc: Option<String> = None;
    let mut date: Vec<char> = Vec::new();
    let mut in_section = false;
    let mut k: usize = 0;
    while k < ls.len()
        invariant
            k <= ls.len(),
            vseqs(ls@) == lines(content@),
            ({
                let st = info_state_after(vseqs(ls@).take(k as int));
                &&& st.path == opt_seq(path_enc)
                &&& st.date == date@
                &&& st.in_section == in_section
            }),
        decreases ls.len() - k,
    {
        assert(vseqs(ls@).take(k + 1).drop_last() =~= vseqs(ls@).take(k as int));
        assert(vseqs(ls@)[k as int] == ls@[k as int]@);
        let line = ls[k].as_slice();
        k = k + 1;
        if chars_eq_str(line, "[Trash Info]") {
            in_section = true;
            continue;
        }
        if !in_section {
            continue;
        }
        if starts_with_str(line, "Path=") {
            let n = chars_of("Path=");
            path_enc = Some(string_of(sub_chars(line, n.len(), line.len()).as_slice()));
        } else if starts_with_str(line, "DeletionDate=") {
            let n = chars_of("DeletionDate=");
            date = sub_chars(line, n.len(), line.len());
        }
    }
    assert(vseqs(ls@).take(ls@.len() as int) =~= vseqs(ls@));
    match path_enc {
        None => None,
        Some(p) => {
            let path = decode_path(p.as_str());
            if chars_of(path.as_str()).len() == 0 {
                None
            } else {
                Some((path, string_of(date.as_slice())))
            }
        },
    }
}

/// The name of the info record of a trash entry: `<name>.trashinfo`.
pub fn info_file_name(file_name: &str) -> (r: String)
    ensures
        r@ == file_name@ + ".trashinfo"@,
{
    concat(file_name, ".trashinfo")
}

/// The trash entry an info record belongs to: its name without the
/// `.trashinfo` suffix; nothing for other names.
pub open spec fn entry_of_info(info_name: Seq<char>) -> Option<Seq<char>> {
    if ends(info_name, ".trashinfo"@) {
        Some(info_name.subrange(0, info_name.len() - ".trashinfo"@.len()))
    } else {
        None
    }
}

/// The trash entry an info record belongs to (see `entry_of_info`).
pub fn file_name_from_info(info_name: &str) -> (r: Option<String>)
    ensures
        opt_seq(r) == entry_of_info(info_name@),
{
    let n = chars_of(info_name);
    if ends_with_str(n.as_slice(), ".trashinfo") {
        let suffix = chars_of(".trashinfo");
        Some(string_of(sub_chars(n.as_slice(), 0, n.len() - suffix.len()).as_slice()))
    } else {
        None
    }
}

/// The entry of the info record named after an entry is that entry.
pub proof fn law_info_name_round_trip(file_name: Seq<char>)
    ensures
        entry_of_info(file_name + ".trashinfo"@) == Some(file_name),
{
    let n = file_name + ".trashinfo"@;
    assert(n.subrange(n.len() - ".trashinfo"@.len(), n.len() as int) =~= ".trashinfo"@);
    assert(n.subrange(0, n.len() - ".trashinfo"@.len()) =~= file_name);
}

// ---------------------------------------------------------------------------
// Unique entry names
// ---------------------------------------------------------------------------

/// The decimal digit of `d` (below 10).
pub open spec fn digit_char(d: nat) -> char {
    (48 + d) as char
}

/// Decimal notation of `n`, without leading zeros.
pub open spec fn decimal(n: nat) -> Seq<char>
    decreases n,
{
    if n < 10 {
        seq![digit_char(n)]
    } else {
        decimal(n / 10).push(digit_char(n % 10))
    }
}

/// Decimal notation is made of digits, is never empty, and tells numbers
/// apart.
pub proof fn lemma_decimal(a: nat, b: nat)
    ensures
        decimal(a).len() >= 1,
        a >= 10 ==> decimal(a).len() >= 2,
        forall|i: int| 0 <= i < decimal(a).len() ==> '0' <= #[trigger] decimal(a)[i] <= '9',
        decimal(a) == decimal(b) ==> a == b,
    decreases a + b,
{
    if a >= 10 {
        lemma_decimal((a / 10) as nat, (a / 10) as nat);
        assert forall|i: int| 0 <= i < decimal(a).len() implies '0' <= #[trigger] decimal(a)[i]
            <= '9' by {
            if i < decimal(a).len() - 1 {
                assert(decimal(a)[i] == decimal((a / 10) as nat)[i]);
            }
        }
    }
    if b >= 10 {
        lemma_decimal((b / 10) as nat, (b / 10) as nat);
    }
    if decimal(a) == decimal(b) {
        if a < 10 && b < 10 {
            assert(decimal(a)[0] == decimal(b)[0]);
        } else if a >= 10 && b >= 10 {
            assert(decimal(a).last() == decimal(b).last());
            assert(decimal(a).drop_last() =~= decimal((a / 10) as nat));
            assert(decimal(b).drop_last() =~= decimal((b / 10) as nat));
            lemma_decimal((a / 10) as nat, (b / 10) as nat);
        } else {
            assert(decimal(a).len() != decimal(b).len());
        }
    }
}

/// Decimal notation of a number.
pub fn decimal_chars(n: usize) -> (r: Vec<char>)
    ensures
        r@ == decimal(n as nat),
    decreases n,
{
    if n < 10 {
        let c = (48 + n as u8) as char;
        vec![c]
    } else {
        let mut v = decimal_chars(n / 10);
        let c = (48 + (n % 10) as u8) as char;
        v.push(c);
        v
    }
}

/// Candidate `i` for a trash entry named `name`: the name itself, then
/// `name.1`, `name.2`, ...
pub open spec fn candidate(name: Seq<char>, i: nat) -> Seq<char> {
    if i == 0 {
        name
    } else {
        name + "."@ + decimal(i)
    }
}

/// Different candidates are different names.
pub proof fn lemma_candidates_distinct(name: Seq<char>, i: nat, j: nat)
    requires
        i != j,
    ensures
        candidate(name, i) != candidate(name, j),
{
    lemma_decimal(i, j);
    lemma_decimal(j, i);
    if i > 0 && j > 0 && candidate(name, i) == candidate(name, j) {
        let a = candidate(name, i);
        let k: int = (name.len() + "."@.len()) as int;
        assert(a.subrange(k, a.len() as int) =~= decimal(i));
        assert(candidate(name, j).subrange(k, a.len() as int) =~= decimal(j));
    }
}

/// `n + 1` different candidates cannot all lie among `n` names.
proof fn lemma_some_candidate_free(name: Seq<char>, taken: Seq<Seq<char>>)
    ensures
        exists|i: nat| i <= taken.len() && !taken.contains(#[trigger] candidate(name, i)),
{
    let n = taken.len();
    let cands = Seq::new(n + 1, |i: int| candidate(name, i as nat));
    if forall|i: nat| i <= n ==> taken.contains(#[trigger] candidate(name, i)) {
        assert(cands.no_duplicates()) by {
            assert forall|i: int, j: int| 0 <= i < cands.len() && 0 <= j < cands.len() && i
                != j implies cands[i] != cands[j] by {
                lemma_candidates_distinct(name, i as nat, j as nat);
            }
        }
        cands.unique_seq_to_set();
        taken.lemma_cardinality_of_set();
        assert(cands.to_set().subset_of(taken.to_set())) by {
            assert forall|x: Seq<char>| cands.to_set().contains(x) implies taken.to_set().contains(
                x,
            ) by {
                let i = choose|i: int| 0 <= i < cands.len() && cands[i] == x;
                assert(taken.contains(candidate(name, i as nat)));
            }
        }
        vstd::set_lib::lemma_len_subset(cands.to_set(), taken.to_set());
        assert(false);
    }
}

/// The first candidate not among `taken`.
pub open spec fn first_free(name: Seq<char>, taken: Seq<Seq<char>>, r: Seq<char>) -> bool {
    exists|i: nat|
        #![trigger candidate(name, i)]
        r == candidate(name, i) && !taken.contains(r) && forall|j: nat|
            j < i ==> taken.contains(#[trigger] candidate(name, j))
}

/// Whether a name is among the given strings.
fn is_taken(c: &Vec<char>, taken: &Vec<String>) -> (r: bool)
    ensures
        r == sseqs(taken@).contains(c@),
{
    let mut j: usize = 0;
    while j < taken.len()
        invariant
            j <= taken.len(),
            forall|k: int| 0 <= k < j ==> taken@[k]@ != c@,
        decreases taken.len() - j,
    {
        if crate::text::string_eq_chars(&taken[j], c.as_slice()) {
            assert(sseqs(taken@)[j as int] == c@);
            return true;
        }
        j = j + 1;
    }
    proof {
        if sseqs(taken@).contains(c@) {
            let k = choose|k: int| 0 <= k < sseqs(taken@).len() && sseqs(taken@)[k] == c@;
            assert(taken@[k]@ == c@);
        }
    }
    false
}

/// The name for a new trash entry: the first of `name`, `name.1`, `name.2`,
/// ... that is not among the names already `taken`.
pub fn unique_name(name: &str, taken: &Vec<String>) -> (r: String)
    ensures
        first_free(name@, sseqs(taken@), r@),
{
    let base = chars_of(name);
    let dot = chars_of(".");
    let ghost t = sseqs(taken@);
    proof {
        lemma_some_candidate_free(name@, t);
    }
    if !is_taken(&base, taken) {
        assert(base@ == candidate(name@, 0));
        return string_of(base.as_slice());
    }
    let mut i: usize = 1;
    while i <= taken.len()
        invariant
            1 <= i <= taken.len() + 1,
            t == sseqs(taken@),
            t.len() == taken@.len(),
            base@ == name@,
            dot@ == "."@,
            forall|j: nat| j < i ==> t.contains(#[trigger] candidate(name@, j)),
            exists|k: nat| k <= t.len() && !t.contains(#[trigger] candidate(name@, k)),
        decreases taken.len() + 1 - i,
    {
        let mut c = crate::text::copy_chars(base.as_slice());
        crate::text::append_chars(&mut c, dot.as_slice());
        let d = decimal_chars(i);
        crate::text::append_chars(&mut c, d.as_slice());
        assert(c@ == candidate(name@, i as nat));
        if !is_taken(&c, taken) {
            return string_of(c.as_slice());
        }
        i = i + 1;
    }
    proof {
        let k = choose|k: nat| k <= t.len() && !t.contains(#[trigger] candidate(name@, k));
        assert(t.contains(candidate(name@, k)));
    }
    string_of(base.as_slice())
}

/// A candidate is taken in a trash: an entry of that name exists in
/// `files/`, or its record exists in `info/`.
pub open spec fn pair_taken(files: Seq<Seq<char>>, infos: Seq<Seq<char>>, c: Seq<char>) -> bool {
    files.contains(c) || infos.contains(c + ".trashinfo"@)
}

/// The first candidate taken on neither side.
pub open spec fn first_free_pair(
    name: Seq<char>,
    files: Seq<Seq<char>>,
    infos: Seq<Seq<char>>,
    r: Seq<char>,
) -> bool {
    exists|i: nat|
        #![trigger candidate(name, i)]
        r == candidate(name, i) && !pair_taken(files, infos, r) && forall|j: nat|
            j < i ==> pair_taken(files, infos, #[trigger] candidate(name, j))
}

/// An info name belongs to the entry `c` exactly when it is `c.trashinfo`.
proof fn lemma_entry_of_info_iff(x: Seq<char>, c: Seq<char>)
    ensures
        entry_of_info(x) == Some(c) <==> x == c + ".trashinfo"@,
{
    law_info_name_round_trip(c);
    if entry_of_info(x) == Some(c) {
        let k = x.len() - ".trashinfo"@.len();
        assert(x =~= x.subrange(0, k) + x.subrange(k, x.len() as int));
    }
}

/// The name for a new trash entry when both `files/` and `info/` must be
/// free of it: the first of `name`, `name.1`, ... with neither an entry in
/// `files` nor a record in `infos`.
pub fn unique_name_pair(name: &str, files: &Vec<String>, infos: &Vec<String>) -> (r: String)
    ensures
        first_free_pair(name@, sseqs(files@), sseqs(infos@), r@),
{
    let ghost fs = sseqs(files@);
    let ghost is = sseqs(infos@);
    let mut taken: Vec<String> = Vec::new();
    let mut j: usize = 0;
    while j < files.len()
        invariant
            j <= files.len(),
            fs == sseqs(files@),
            sseqs(taken@) == fs.take(j as int),
        decreases files.len() - j,
    {
        let ghost before = sseqs(taken@);
        taken.push(crate::text::owned(files[j].as_str()));
        assert(sseqs(taken@) =~= before.push(fs[j as int]));
        j = j + 1;
        assert(fs.take(j as int) =~= fs.take(j - 1).push(fs[j - 1]));
    }
    assert(fs.take(files.len() as int) =~= fs);
    let mut k: usize = 0;
    while k < infos.len()
        invariant
            k <= infos.len(),
            is == sseqs(infos@),
            forall|c: Seq<char>|
                #![trigger sseqs(taken@).contains(c)]
                sseqs(taken@).contains(c) <==> (fs.contains(c) || is.take(k as int).contains(
                    c + ".trashinfo"@,
                )),
        decreases infos.len() - k,
    {
        let ghost before = sseqs(taken@);
        let ghost x = is[k as int];
        proof {
            crate::order::lemma_push_contains(is.take(k as int), x);
            assert(is.take(k + 1) =~= is.take(k as int).push(x));
        }
        match file_name_from_info(infos[k].as_str()) {
            Some(e) => {
                taken.push(e);
                proof {
                    assert(sseqs(taken@) =~= before.push(e@));
                    crate::order::lemma_push_contains(before, e@);
                    assert forall|c: Seq<char>| #[trigger]
                        sseqs(taken@).contains(c) <==> (fs.contains(c) || is.take(k + 1).contains(
                            c + ".trashinfo"@,
                        )) by {
                        lemma_entry_of_info_iff(x, c);
                    }
                }
            },
            None => {
                proof {
                    assert forall|c: Seq<char>| #[trigger]
                        sseqs(taken@).contains(c) <==> (fs.contains(c) || is.take(k + 1).contains(
                            c + ".trashinfo"@,
                        )) by {
                        lemma_entry_of_info_iff(x, c);
                    }
                }
            },
        }
        k = k + 1;
    }
    assert(is.take(infos.len() as int) =~= is);
    let r = unique_name(name, &taken);
    proof {
        let t = sseqs(taken@);
        let i = choose|i: nat|
            #![trigger candidate(name@, i)]
            r@ == candidate(name@, i) && !t.contains(r@) && forall|j: nat|
                j < i ==> t.contains(#[trigger] candidate(name@, j));
        assert(!t.contains(r@));
        assert forall|j: nat| j < i implies pair_taken(fs, is, #[trigger] candidate(name@, j)) by {
            assert(t.contains(candidate(name@, j)));
        }
    }
    r
}

} // verus!
