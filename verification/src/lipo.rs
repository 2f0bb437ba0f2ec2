//! Universal (fat) Mach-O binaries: the header and architecture table, the
//! choice of the slice to keep, and the bytes of one slice.
//!
//! A fat file starts with a big-endian magic (`0xcafebabe`, or `0xcafebabf`
//! for the 64-bit table), the number of slices, and one table entry per
//! slice: cpu type, cpu subtype, offset, size and alignment.

use vstd::prelude::*;

use crate::paths::{extension, extension_of};
use crate::text::{ascii_lower_seq, chars_eq_str, chars_of, concat, to_ascii_lower_chars};

verus! {

/// Magic of a fat file with a 32-bit architecture table.
pub const FAT_MAGIC: u32 = 0xcafe_babe;

/// Magic of a fat file with a 64-bit architecture table.
pub const FAT_MAGIC_64: u32 = 0xcafe_babf;

/// Magic of a 32-bit Mach-O file.
pub const MH_MAGIC: u32 = 0xfeed_face;

/// Magic of a 32-bit Mach-O file of the other byte order.
pub const MH_CIGAM: u32 = 0xcefa_edfe;

/// Magic of a 64-bit Mach-O file.
pub const MH_MAGIC_64: u32 = 0xfeed_facf;

/// Magic of a 64-bit Mach-O file of the other byte order.
pub const MH_CIGAM_64: u32 = 0xcffa_edfe;

/// Cpu type of 64-bit ARM.
pub const CPU_TYPE_ARM64: u32 = 0x0100_000C;

/// Cpu type of x86-64.
pub const CPU_TYPE_X86_64: u32 = 0x0100_0007;

/// Cpu subtype of arm64e (pointer authentication).
pub const CPU_SUBTYPE_ARM64E: u32 = 2;

/// Cpu subtype of x86_64h (Haswell; needs AVX2).
pub const CPU_SUBTYPE_X86_64H: u32 = 8;

/// Most slices a fat file may declare.
pub const MAX_SLICES: u32 = 32;

/// Size of a 32-bit table entry.
pub const FAT_ARCH32_SIZE: usize = 20;

/// Size of a 64-bit table entry.
pub const FAT_ARCH64_SIZE: usize = 32;

/// One slice of a fat file.
#[derive(Clone, Copy, Debug, PartialEq, Eq, Structural)]
pub struct FatSlice {
    pub cputype: u32,
    pub cpusubtype: u32,
    pub offset: u64,
    pub size: u64,
}

/// The architecture table of a fat file.
#[derive(Clone, Debug, PartialEq, Eq)]
pub struct FatFile {
    pub slices: Vec<FatSlice>,
}

/// Why bytes are not a usable fat file.
#[derive(Clone, Copy, Debug, PartialEq, Eq)]
pub enum LipError {
    /// Not a fat file (a thin Mach-O file or something else).
    NotFat,
    /// The header or the table is cut short.
    Truncated(&'static str),
    /// The structure is invalid (slice count, slice bounds).
    Invalid(&'static str),
}

impl LipError {
    /// The message shown to a user.
    pub fn message(&self) -> (r: String)
        ensures
            r@ == match *self {
                LipError::NotFat => "not a universal (fat) binary"@,
                LipError::Truncated(what) => "truncated file: "@ + what@,
                LipError::Invalid(what) => "invalid fat structure: "@ + what@,
            },
    {
        match self {
            LipError::NotFat => crate::text::owned("not a universal (fat) binary"),
            LipError::Truncated(what) => concat("truncated file: ", what),
            LipError::Invalid(what) => concat("invalid fat structure: ", what),
        }
    }
}

// ---------------------------------------------------------------------------
// Byte model
// ---------------------------------------------------------------------------

/// Big-endian value of the four bytes of `b` at `i`.
pub open spec fn be32(b: Seq<u8>, i: int) -> int {
    b[i] * 16777216 + b[i + 1] * 65536 + b[i + 2] * 256 + b[i + 3]
}

/// Big-endian value of the eight bytes of `b` at `i`.
pub open spec fn be64(b: Seq<u8>, i: int) -> int {
    be32(b, i) * 4294967296 + be32(b, i + 4)
}

/// Size of a table entry.
pub open spec fn entry_size(fat64: bool) -> int {
    if fat64 {
        32
    } else {
        20
    }
}

/// The slice described by entry `k` of a table (before any check).
pub open spec fn entry_at(table: Seq<u8>, k: int, fat64: bool) -> FatSlice {
    if fat64 {
        let b = k * 32;
        FatSlice {
            cputype: be32(table, b) as u32,
            cpusubtype: be32(table, b + 4) as u32,
            offset: be64(table, b + 8) as u64,
            size: be64(table, b + 16) as u64,
        }
    } else {
        let b = k * 20;
        FatSlice {
            cputype: be32(table, b) as u32,
            cpusubtype: be32(table, b + 4) as u32,
            offset: be32(table, b + 8) as u64,
            size: be32(table, b + 12) as u64,
        }
    }
}

/// The slices of the first `n` entries of a table, or the error of the first
/// entry that fails: a zero size, an end past `u64::MAX`, or an end past the
/// file's length.
pub open spec fn table_prefix(table: Seq<u8>, fat64: bool, file_len: int, n: nat) -> Result<
    Seq<FatSlice>,
    LipError,
>
    decreases n,
{
    if n == 0 {
        Ok(Seq::empty())
    } else {
        match table_prefix(table, fat64, file_len, (n - 1) as nat) {
            Err(e) => Err(e),
            Ok(prev) => {
                let s = entry_at(table, n - 1, fat64);
                if s.size == 0 {
                    Err(LipError::Invalid("slice size is zero"))
                } else if s.offset + s.size > u64::MAX {
                    Err(LipError::Invalid("slice size overflow"))
                } else if s.offset + s.size > file_len {
                    Err(LipError::Invalid("slice out of bounds"))
                } else {
                    Ok(prev.push(s))
                }
            },
        }
    }
}

/// Once a prefix of the table fails, every longer prefix fails the same way.
proof fn lemma_table_prefix_err(table: Seq<u8>, fat64: bool, file_len: int, k: nat, n: nat)
    requires
        k <= n,
        table_prefix(table, fat64, file_len, k) is Err,
    ensures
        table_prefix(table, fat64, file_len, n) == table_prefix(table, fat64, file_len, k),
    decreases n - k,
{
    if k < n {
        lemma_table_prefix_err(table, fat64, file_len, k, (n - 1) as nat);
    }
}

/// Number of whole entries in a table.
pub open spec fn entry_count(table: Seq<u8>, fat64: bool) -> nat {
    if fat64 {
        table.len() / 32
    } else {
        table.len() / 20
    }
}

/// The slices of a whole table (trailing bytes short of an entry are ignored).
pub open spec fn table_slices(table: Seq<u8>, fat64: bool, file_len: int) -> Result<
    Seq<FatSlice>,
    LipError,
> {
    table_prefix(table, fat64, file_len, entry_count(table, fat64))
}

/// Length of the table of `nfat` entries.
pub open spec fn table_len(nfat: int, fat64: bool) -> int {
    if fat64 {
        nfat * 32
    } else {
        nfat * 20
    }
}

/// The slices of a fat file, or why the bytes are not one.
pub open spec fn fat_slices(bytes: Seq<u8>) -> Result<Seq<FatSlice>, LipError> {
    if bytes.len() < 8 {
        Err(LipError::Truncated("header"))
    } else if be32(bytes, 0) != FAT_MAGIC && be32(bytes, 0) != FAT_MAGIC_64 {
        Err(LipError::NotFat)
    } else {
        let fat64 = be32(bytes, 0) == FAT_MAGIC_64;
        let nfat = be32(bytes, 4);
        if nfat == 0 {
            Err(LipError::Invalid("nfat_arch is zero"))
        } else if nfat > MAX_SLICES {
            Err(LipError::Invalid("nfat_arch exceeds sane limit"))
        } else if 8 + table_len(nfat, fat64) > bytes.len() {
            Err(LipError::Truncated("architecture table"))
        } else {
            table_slices(bytes.subrange(8, 8 + table_len(nfat, fat64)), fat64, bytes.len() as int)
        }
    }
}

/// A parse result agrees with a modelled one.
pub open spec fn parsed_as(r: Result<FatFile, LipError>, m: Result<Seq<FatSlice>, LipError>) -> bool {
    match (r, m) {
        (Ok(f), Ok(s)) => f.slices@ == s,
        (Err(e), Err(d)) => e == d,
        _ => false,
    }
}

/// Big-endian value of four bytes.
fn read_be32(b: &[u8], i: usize) -> (r: u32)
    requires
        i + 4 <= b.len(),
    ensures
        r == be32(b@, i as int),
{
    (b[i] as u32) * 16777216 + (b[i + 1] as u32) * 65536 + (b[i + 2] as u32) * 256 + (b[i
        + 3] as u32)
}

/// Big-endian value of eight bytes.
fn read_be64(b: &[u8], i: usize) -> (r: u64)
    requires
        i + 8 <= b.len(),
    ensures
        r == be64(b@, i as int),
{
    let hi = read_be32(b, i) as u64;
    let lo = read_be32(b, i + 4) as u64;
    assert(hi * 4294967296 + lo <= u64::MAX) by (nonlinear_arith)
        requires
            hi <= 4294967295,
            lo <= 4294967295,
    ;
    hi * 4294967296 + lo
}

/// The slices of an architecture table (see `table_slices`); `file_len` is
/// the length of the whole file, against which slice ends are checked.
pub fn parse_table(table: &[u8], fat64: bool, file_len: u64) -> (r: Result<FatFile, LipError>)
    ensures
        parsed_as(r, table_slices(table@, fat64, file_len as int)),
{
    let es: usize = if fat64 {
        FAT_ARCH64_SIZE
    } else {
        FAT_ARCH32_SIZE
    };
    let n = table.len() / es;
    let mut slices: Vec<FatSlice> = Vec::new();
    let mut k: usize = 0;
    let mut pos: usize = 0;
    while k < n
        invariant
            es == entry_size(fat64),
            n == entry_count(table@, fat64),
            k <= n,
            pos == table_len(k as int, fat64),
            table_prefix(table@, fat64, file_len as int, k as nat) == Ok::<
                Seq<FatSlice>,
                LipError,
            >(slices@),
        decreases n - k,
    {
        assert(pos + es <= table.len()) by (nonlinear_arith)
            requires
                pos == table_len(k as int, fat64),
                es == entry_size(fat64),
                k < n,
                n == entry_count(table@, fat64),
        ;
        let cputype = read_be32(table, pos);
        let cpusubtype = read_be32(table, pos + 4);
        let (offset, size) = if fat64 {
            (read_be64(table, pos + 8), read_be64(table, pos + 16))
        } else {
            (read_be32(table, pos + 8) as u64, read_be32(table, pos + 12) as u64)
        };
        let s = FatSlice { cputype, cpusubtype, offset, size };
        assert(s == entry_at(table@, k as int, fat64));
        if size == 0 {
            proof {
                lemma_table_prefix_err(table@, fat64, file_len as int, (k + 1) as nat, n as nat);
            }
            return Err(LipError::Invalid("slice size is zero"));
        }
        match offset.checked_add(size) {
            Some(end) => {
                if end > file_len {
                    proof {
                        lemma_table_prefix_err(
                            table@,
                            fat64,
                            file_len as int,
                            (k + 1) as nat,
                            n as nat,
                        );
                    }
                    return Err(LipError::Invalid("slice out of bounds"));
                }
            },
            None => {
                proof {
                    lemma_table_prefix_err(table@, fat64, file_len as int, (k + 1) as nat, n as nat);
                }
                return Err(LipError::Invalid("slice size overflow"));
            },
        }
        slices.push(s);
        k = k + 1;
        pos = pos + es;
    }
    Ok(FatFile { slices })
}

/// The slices of a fat file (see `fat_slices`).
pub fn parse_fat(bytes: &[u8]) -> (r: Result<FatFile, LipError>)
    ensures
        parsed_as(r, fat_slices(bytes@)),
{
    if bytes.len() < 8 {
        return Err(LipError::Truncated("header"));
    }
    let magic = read_be32(bytes, 0);
    let fat64 = if magic == FAT_MAGIC {
        false
    } else if magic == FAT_MAGIC_64 {
        true
    } else {
        return Err(LipError::NotFat);
    };
    let nfat = read_be32(bytes, 4);
    if nfat == 0 {
        return Err(LipError::Invalid("nfat_arch is zero"));
    }
    if nfat > MAX_SLICES {
        return Err(LipError::Invalid("nfat_arch exceeds sane limit"));
    }
    let tl: usize = if fat64 {
        nfat as usize * FAT_ARCH64_SIZE
    } else {
        nfat as usize * FAT_ARCH32_SIZE
    };
    if tl > bytes.len() - 8 {
        return Err(LipError::Truncated("architecture table"));
    }
    let table = crate::bytes::sub_bytes(bytes, 8, 8 + tl);
    parse_table(table.as_slice(), fat64, bytes.len() as u64)
}

// ---------------------------------------------------------------------------
// Laws of the parsed table
// ---------------------------------------------------------------------------

/// Every slice of a valid table prefix is non-empty and ends within the file,
/// and the prefix has one slice per entry.
proof fn lemma_table_prefix_ok(table: Seq<u8>, fat64: bool, file_len: int, n: nat)
    requires
        table_prefix(table, fat64, file_len, n) is Ok,
    ensures
        table_prefix(table, fat64, file_len, n)->Ok_0.len() == n,
        forall|i: int|
            0 <= i < n ==> {
                let s = #[trigger] table_prefix(table, fat64, file_len, n)->Ok_0[i];
                &&& s.size > 0
                &&& s.offset + s.size <= file_len
                &&& s == entry_at(table, i, fat64)
            },
    decreases n,
{
    if n > 0 {
        lemma_table_prefix_ok(table, fat64, file_len, (n - 1) as nat);
    }
}

/// A fat file parses to between one and `MAX_SLICES` slices, as many as its
/// header declares, each of them non-empty and lying within the file.
pub proof fn law_parsed_slices_in_file(bytes: Seq<u8>)
    requires
        fat_slices(bytes) is Ok,
    ensures
        ({
            let s = fat_slices(bytes)->Ok_0;
            &&& 1 <= s.len() <= MAX_SLICES
            &&& s.len() == be32(bytes, 4)
            &&& forall|i: int|
                0 <= i < s.len() ==> (#[trigger] s[i]).size > 0 && s[i].offset + s[i].size
                    <= bytes.len()
        }),
{
    let fat64 = be32(bytes, 0) == FAT_MAGIC_64;
    let nfat = be32(bytes, 4);
    let table = bytes.subrange(8, 8 + table_len(nfat, fat64));
    assert(entry_count(table, fat64) == nfat) by (nonlinear_arith)
        requires
            table.len() == table_len(nfat, fat64),
            nfat >= 0,
    ;
    lemma_table_prefix_ok(table, fat64, bytes.len() as int, entry_count(table, fat64));
}

// ---------------------------------------------------------------------------
// Choosing the slice to keep
// ---------------------------------------------------------------------------

/// A slice may be kept on a machine: its cpu type is the machine's, and it is
/// not x86_64h unless that variant can run there.
pub open spec fn eligible(s: FatSlice, cputype: u32, allow_x86_64h: bool) -> bool {
    s.cputype == cputype && (s.cpusubtype != CPU_SUBTYPE_X86_64H || allow_x86_64h)
}

/// Index `i` holds the slice to keep: it is eligible, no eligible slice has a
/// higher subtype, and no later eligible slice has the same one (the last of
/// equally good slices wins).
pub open spec fn best_index(s: Seq<FatSlice>, cputype: u32, allow_x86_64h: bool, i: int) -> bool {
    &&& 0 <= i < s.len()
    &&& eligible(s[i], cputype, allow_x86_64h)
    &&& forall|j: int|
        0 <= j < s.len() && eligible(#[trigger] s[j], cputype, allow_x86_64h) ==> s[j].cpusubtype
            <= s[i].cpusubtype
    &&& forall|j: int|
        i < j < s.len() && eligible(#[trigger] s[j], cputype, allow_x86_64h) ==> s[j].cpusubtype
            < s[i].cpusubtype
}

/// The outcome of a choice: the best slice when one is eligible, nothing
/// otherwise.
pub open spec fn picked(
    s: Seq<FatSlice>,
    cputype: u32,
    allow_x86_64h: bool,
    r: Option<FatSlice>,
) -> bool {
    match r {
        Some(x) => exists|i: int| best_index(s, cputype, allow_x86_64h, i) && s[i] == x,
        None => forall|j: int| 0 <= j < s.len() ==> !eligible(#[trigger] s[j], cputype, allow_x86_64h),
    }
}

/// The eligible slice with the highest subtype (the last such one).
fn pick(slices: &[FatSlice], cputype: u32, allow_x86_64h: bool) -> (r: Option<&FatSlice>)
    ensures
        picked(
            slices@,
            cputype,
            allow_x86_64h,
            match r {
                Some(x) => Some(*x),
                None => None,
            },
        ),
{
    let mut best: Option<usize> = None;
    let mut i: usize = 0;
    while i < slices.len()
        invariant
            i <= slices.len(),
            match best {
                Some(b) => {
                    &&& b < i
                    &&& eligible(slices@[b as int], cputype, allow_x86_64h)
                    &&& forall|j: int|
                        0 <= j < i && eligible(#[trigger] slices@[j], cputype, allow_x86_64h)
                            ==> slices@[j].cpusubtype <= slices@[b as int].cpusubtype
                    &&& forall|j: int|
                        b < j < i && eligible(#[trigger] slices@[j], cputype, allow_x86_64h)
                            ==> slices@[j].cpusubtype < slices@[b as int].cpusubtype
                },
                None => forall|j: int|
                    0 <= j < i ==> !eligible(#[trigger] slices@[j], cputype, allow_x86_64h),
            },
        decreases slices.len() - i,
    {
        let s = slices[i];
        if s.cputype == cputype && (s.cpusubtype != CPU_SUBTYPE_X86_64H || allow_x86_64h) {
            match best {
                Some(b) => {
                    if s.cpusubtype >= slices[b].cpusubtype {
                        best = Some(i);
                    }
                },
                None => {
                    best = Some(i);
                },
            }
        }
        i = i + 1;
    }
    match best {
        Some(b) => {
            assert(best_index(slices@, cputype, allow_x86_64h, b as int));
            Some(&slices[b])
        },
        None => None,
    }
}

/// The slice of the given cpu type with the highest subtype (arm64e before
/// arm64, x86_64h before x86_64); the last one among equals.
pub fn select_slice(slices: &[FatSlice], cputype: u32) -> (r: Option<&FatSlice>)
    ensures
        picked(
            slices@,
            cputype,
            true,
            match r {
                Some(x) => Some(*x),
                None => None,
            },
        ),
{
    pick(slices, cputype, true)
}

/// The slices left when x86_64h is dropped where it cannot run, in order.
pub open spec fn runnable_slices(s: Seq<FatSlice>, allow_x86_64h: bool) -> Seq<FatSlice>
    decreases s.len(),
{
    if s.len() == 0 {
        Seq::empty()
    } else {
        let p = runnable_slices(s.drop_last(), allow_x86_64h);
        if s.last().cpusubtype != CPU_SUBTYPE_X86_64H || allow_x86_64h {
            p.push(s.last())
        } else {
            p
        }
    }
}

/// The choice made scanning the slices in order: an eligible slice
/// replaces the one chosen so far when its subtype is at least as high.
spec fn scan_choice(s: Seq<FatSlice>, cputype: u32, allow_x86_64h: bool) -> Option<FatSlice>
    decreases s.len(),
{
    if s.len() == 0 {
        None
    } else {
        let prev = scan_choice(s.drop_last(), cputype, allow_x86_64h);
        if eligible(s.last(), cputype, allow_x86_64h) && match prev {
            None => true,
            Some(x) => x.cpusubtype <= s.last().cpusubtype,
        } {
            Some(s.last())
        } else {
            prev
        }
    }
}

/// The scanned choice is a choice (see `picked`).
proof fn lemma_scan_choice_picked(s: Seq<FatSlice>, cputype: u32, allow_x86_64h: bool)
    ensures
        picked(s, cputype, allow_x86_64h, scan_choice(s, cputype, allow_x86_64h)),
    decreases s.len(),
{
    if s.len() > 0 {
        let d = s.drop_last();
        let n = s.len() - 1;
        lemma_scan_choice_picked(d, cputype, allow_x86_64h);
        let prev = scan_choice(d, cputype, allow_x86_64h);
        assert forall|j: int| 0 <= j < n implies #[trigger] s[j] == d[j] by {}
        if eligible(s.last(), cputype, allow_x86_64h) && match prev {
            None => true,
            Some(x) => x.cpusubtype <= s.last().cpusubtype,
        } {
            match prev {
                None => {},
                Some(x) => {
                    let i0 = choose|i: int| best_index(d, cputype, allow_x86_64h, i) && d[i] == x;
                    assert(d[i0] == x);
                },
            }
            assert(best_index(s, cputype, allow_x86_64h, n)) by {
                assert forall|j: int|
                    0 <= j < s.len() && eligible(#[trigger] s[j], cputype, allow_x86_64h) implies s[j].cpusubtype
                    <= s[n].cpusubtype by {
                    if j < n {
                        assert(s[j] == d[j]);
                        assert(eligible(d[j], cputype, allow_x86_64h));
                    }
                }
            }
        } else {
            match prev {
                None => {
                    assert forall|j: int| 0 <= j < s.len() implies !eligible(
                        #[trigger] s[j],
                        cputype,
                        allow_x86_64h,
                    ) by {
                        if j < n {
                            assert(s[j] == d[j]);
                        }
                    }
                },
                Some(x) => {
                    let i0 = choose|i: int| best_index(d, cputype, allow_x86_64h, i) && d[i] == x;
                    assert(best_index(s, cputype, allow_x86_64h, i0)) by {
                        assert forall|j: int|
                            0 <= j < s.len() && eligible(#[trigger] s[j], cputype, allow_x86_64h) implies s[j].cpusubtype
                            <= s[i0].cpusubtype by {
                            if j < n {
                                assert(s[j] == d[j]);
                            }
                        }
                        assert forall|j: int|
                            i0 < j < s.len() && eligible(#[trigger] s[j], cputype, allow_x86_64h) implies s[j].cpusubtype
                            < s[i0].cpusubtype by {
                            if j < n {
                                assert(s[j] == d[j]);
                            }
                        }
                    }
                    assert(s[i0] == x);
                },
            }
        }
    }
}

/// A choice is unique: two outcomes that are both choices are equal.
proof fn lemma_picked_unique(
    s: Seq<FatSlice>,
    cputype: u32,
    allow_x86_64h: bool,
    r1: Option<FatSlice>,
    r2: Option<FatSlice>,
)
    requires
        picked(s, cputype, allow_x86_64h, r1),
        picked(s, cputype, allow_x86_64h, r2),
    ensures
        r1 == r2,
{
    match (r1, r2) {
        (Some(x), Some(y)) => {
            let i = choose|i: int| best_index(s, cputype, allow_x86_64h, i) && s[i] == x;
            let j = choose|j: int| best_index(s, cputype, allow_x86_64h, j) && s[j] == y;
            assert(eligible(s[i], cputype, allow_x86_64h));
            assert(eligible(s[j], cputype, allow_x86_64h));
            if i < j {
                assert(s[j].cpusubtype < s[i].cpusubtype);
                assert(s[j].cpusubtype <= s[i].cpusubtype);
                assert(s[i].cpusubtype <= s[j].cpusubtype);
            } else if j < i {
                assert(s[i].cpusubtype < s[j].cpusubtype);
                assert(s[j].cpusubtype <= s[i].cpusubtype);
            }
        },
        (Some(x), None) => {
            let i = choose|i: int| best_index(s, cputype, allow_x86_64h, i) && s[i] == x;
            assert(!eligible(s[i], cputype, allow_x86_64h));
        },
        (None, Some(y)) => {
            let j = choose|j: int| best_index(s, cputype, allow_x86_64h, j) && s[j] == y;
            assert(!eligible(s[j], cputype, allow_x86_64h));
        },
        (None, None) => {},
    }
}

/// Dropping the slices that cannot run does not change the scanned choice.
proof fn lemma_scan_choice_runnable(s: Seq<FatSlice>, cputype: u32, allow_x86_64h: bool)
    ensures
        scan_choice(s, cputype, allow_x86_64h) == scan_choice(
            runnable_slices(s, allow_x86_64h),
            cputype,
            true,
        ),
    decreases s.len(),
{
    if s.len() > 0 {
        lemma_scan_choice_runnable(s.drop_last(), cputype, allow_x86_64h);
        let p = runnable_slices(s.drop_last(), allow_x86_64h);
        if s.last().cpusubtype != CPU_SUBTYPE_X86_64H || allow_x86_64h {
            let q = p.push(s.last());
            assert(q.drop_last() =~= p);
            assert(q.last() == s.last());
        }
    }
}

/// The runnable choice is the plain choice among the runnable slices: the
/// slice `select_runnable_slice` keeps is the one `select_slice` keeps once
/// x86_64h is dropped where the processor cannot run it.
pub proof fn law_runnable_choice(
    s: Seq<FatSlice>,
    cputype: u32,
    allow_x86_64h: bool,
    r1: Option<FatSlice>,
    r2: Option<FatSlice>,
)
    requires
        picked(s, cputype, allow_x86_64h, r1),
        picked(runnable_slices(s, allow_x86_64h), cputype, true, r2),
    ensures
        r1 == r2,
{
    lemma_scan_choice_picked(s, cputype, allow_x86_64h);
    lemma_scan_choice_picked(runnable_slices(s, allow_x86_64h), cputype, true);
    lemma_scan_choice_runnable(s, cputype, allow_x86_64h);
    lemma_picked_unique(s, cputype, allow_x86_64h, r1, scan_choice(s, cputype, allow_x86_64h));
    lemma_picked_unique(
        runnable_slices(s, allow_x86_64h),
        cputype,
        true,
        r2,
        scan_choice(runnable_slices(s, allow_x86_64h), cputype, true),
    );
}

/// The slice that can run on the machine: as `select_slice`, but x86_64h is
/// a candidate only where `supports_x86_64h` (the processor has AVX2).
pub fn select_runnable_slice(slices: &[FatSlice], cputype: u32, supports_x86_64h: bool) -> (r:
    Option<&FatSlice>)
    ensures
        picked(
            slices@,
            cputype,
            supports_x86_64h,
            match r {
                Some(x) => Some(*x),
                None => None,
            },
        ),
{
    pick(slices, cputype, supports_x86_64h)
}

/// Cpu type of the architecture a program was built for (as Rust names it:
/// "aarch64", "x86_64"); 0 for any other, of which no slice is ever kept.
pub open spec fn cputype_of_arch(arch: Seq<char>) -> u32 {
    if arch == "aarch64"@ {
        CPU_TYPE_ARM64
    } else if arch == "x86_64"@ {
        CPU_TYPE_X86_64
    } else {
        0
    }
}

/// Cpu type of the running program's architecture `arch` (see
/// `cputype_of_arch`).
pub fn current_cputype(arch: &str) -> (r: u32)
    ensures
        r == cputype_of_arch(arch@),
{
    let a = chars_of(arch);
    if chars_eq_str(a.as_slice(), "aarch64") {
        CPU_TYPE_ARM64
    } else if chars_eq_str(a.as_slice(), "x86_64") {
        CPU_TYPE_X86_64
    } else {
        0
    }
}

/// Display name of an architecture.
pub open spec fn cpu_name_of(cputype: u32, cpusubtype: u32) -> &'static str {
    if cputype == CPU_TYPE_ARM64 {
        if cpusubtype == CPU_SUBTYPE_ARM64E {
            "arm64e"
        } else {
            "arm64"
        }
    } else if cputype == CPU_TYPE_X86_64 {
        if cpusubtype == CPU_SUBTYPE_X86_64H {
            "x86_64h"
        } else {
            "x86_64"
        }
    } else {
        "unknown"
    }
}

/// Display name of an architecture (see `cpu_name_of`).
pub fn cpu_name(cputype: u32, cpusubtype: u32) -> (r: &'static str)
    ensures
        r == cpu_name_of(cputype, cpusubtype),
{
    if cputype == CPU_TYPE_ARM64 {
        if cpusubtype == CPU_SUBTYPE_ARM64E {
            "arm64e"
        } else {
            "arm64"
        }
    } else if cputype == CPU_TYPE_X86_64 {
        if cpusubtype == CPU_SUBTYPE_X86_64H {
            "x86_64h"
        } else {
            "x86_64"
        }
    } else {
        "unknown"
    }
}

/// The bytes of one slice of a file.
pub fn thin_bytes(full: &[u8], slice: &FatSlice) -> (r: Vec<u8>)
    requires
        slice.offset + slice.size <= full.len(),
    ensures
        r@ == full@.subrange(slice.offset as int, slice.offset + slice.size),
{
    let start = slice.offset as usize;
    let end = start + slice.size as usize;
    crate::bytes::sub_bytes(full, start, end)
}

/// The kept slice of a parsed file lies within the file, so its bytes can be
/// taken.
pub proof fn law_selected_slice_in_file(
    bytes: Seq<u8>,
    cputype: u32,
    allow_x86_64h: bool,
    kept: FatSlice,
)
    requires
        fat_slices(bytes) is Ok,
        picked(fat_slices(bytes)->Ok_0, cputype, allow_x86_64h, Some(kept)),
    ensures
        kept.size > 0,
        kept.offset + kept.size <= bytes.len(),
        kept.cputype == cputype,
{
    law_parsed_slices_in_file(bytes);
    let s = fat_slices(bytes)->Ok_0;
    let i = choose|i: int| best_index(s, cputype, allow_x86_64h, i) && s[i] == kept;
    assert(s[i] == kept);
}

// ---------------------------------------------------------------------------
// Candidates
// ---------------------------------------------------------------------------

/// The first four bytes are a Mach-O magic (either width, either byte order).
pub open spec fn macho_magic(head: Seq<u8>) -> bool {
    let m = be32(head, 0);
    m == MH_MAGIC || m == MH_CIGAM || m == MH_MAGIC_64 || m == MH_CIGAM_64
}

/// The first four bytes are a fat magic (32-bit or 64-bit table).
pub open spec fn fat_magic(head: Seq<u8>) -> bool {
    let m = be32(head, 0);
    m == FAT_MAGIC || m == FAT_MAGIC_64
}

/// Whether four bytes are a Mach-O magic (see `macho_magic`).
pub fn is_macho_magic(head: [u8; 4]) -> (r: bool)
    ensures
        r == macho_magic(head@),
{
    let m = read_be32(head.as_slice(), 0);
    m == MH_MAGIC || m == MH_CIGAM || m == MH_MAGIC_64 || m == MH_CIGAM_64
}

/// Whether four bytes are a fat magic (see `fat_magic`).
pub fn is_fat_magic(head: [u8; 4]) -> (r: bool)
    ensures
        r == fat_magic(head@),
{
    let m = read_be32(head.as_slice(), 0);
    m == FAT_MAGIC || m == FAT_MAGIC_64
}

/// Extensions of binaries that are candidates whatever they hold.
pub open spec fn binary_extensions() -> Seq<Seq<char>> {
    seq!["dylib"@, "so"@, "bundle"@]
}

/// A file is worth reading as a binary: its extension (in ASCII lower case)
/// is a binary one, or its first four bytes are a Mach-O or fat magic.
pub open spec fn binary_candidate(file_name: Seq<char>, head: Seq<u8>) -> bool {
    let ext = match extension(file_name) {
        Some(e) => ascii_lower_seq(e),
        None => Seq::empty(),
    };
    binary_extensions().contains(ext) || (head.len() >= 4 && (macho_magic(head) || fat_magic(
        head,
    )))
}

/// Whether a file is worth reading as a binary (see `binary_candidate`).
pub fn is_binary_candidate(file_name: &str, head: &[u8]) -> (r: bool)
    ensures
        r == binary_candidate(file_name@, head@),
{
    let name = chars_of(file_name);
    let ext: Vec<char> = match extension_of(name.as_slice()) {
        Some(e) => to_ascii_lower_chars(e.as_slice()),
        None => Vec::new(),
    };
    proof {
        reveal_strlit("dylib");
        reveal_strlit("so");
        reveal_strlit("bundle");
    }
    let listed = chars_eq_str(ext.as_slice(), "dylib") || chars_eq_str(ext.as_slice(), "so")
        || chars_eq_str(ext.as_slice(), "bundle");
    assert(listed == binary_extensions().contains(ext@)) by {
        if binary_extensions().contains(ext@) {
            let k = choose|k: int| 0 <= k < 3 && binary_extensions()[k] == ext@;
            assert(k == 0 || k == 1 || k == 2);
        }
        if listed {
            if ext@ == "dylib"@ {
                assert(binary_extensions()[0] == ext@);
            } else if ext@ == "so"@ {
                assert(binary_extensions()[1] == ext@);
            } else {
                assert(binary_extensions()[2] == ext@);
            }
        }
    }
    if listed {
        return true;
    }
    if head.len() < 4 {
        return false;
    }
    let m = read_be32(head, 0);
    m == MH_MAGIC || m == MH_CIGAM || m == MH_MAGIC_64 || m == MH_CIGAM_64 || m == FAT_MAGIC || m
        == FAT_MAGIC_64
}

/// What to read after the first eight bytes of a file while scanning for fat
/// files: the length of the architecture table and whether it is the 64-bit
/// one; nothing when the file is not a candidate, not fat, or declares no or
/// too many slices.
pub open spec fn table_request(file_name: Seq<char>, head: Seq<u8>) -> Option<(int, bool)> {
    if head.len() < 8 || !binary_candidate(file_name, head.take(4)) || !fat_magic(head) {
        None
    } else {
        let fat64 = be32(head, 0) == FAT_MAGIC_64;
        let nfat = be32(head, 4);
        if nfat == 0 || nfat > MAX_SLICES {
            None
        } else {
            Some((table_len(nfat, fat64), fat64))
        }
    }
}

/// What a fat file's head asks to read is exactly its architecture table:
/// 20 bytes per declared slice after a `0xcafebabe` head, 32 after a
/// `0xcafebabf` one; a candidate fat head declaring from 1 to `MAX_SLICES`
/// slices always gets a request; and the slices of any file that starts with
/// that head are those of the bytes requested, right after the 8-byte head.
pub proof fn law_table_request(file_name: Seq<char>, head: Seq<u8>, file: Seq<u8>)
    ensures
        table_request(file_name, head) matches Some((len, fat64)) ==> {
            &&& head.len() >= 8
            &&& fat64 ==> be32(head, 0) == 0xcafe_babf && len == be32(head, 4) * 32
            &&& !fat64 ==> be32(head, 0) == 0xcafe_babe && len == be32(head, 4) * 20
            &&& 1 <= be32(head, 4) <= 32
        },
        head.len() >= 8 && binary_candidate(file_name, head.take(4)) && (be32(head, 0)
            == 0xcafe_babe || be32(head, 0) == 0xcafe_babf) && 1 <= be32(head, 4) <= 32
            ==> table_request(file_name, head) is Some,
        (table_request(file_name, head) matches Some((len, fat64)) && file.len() >= 8 && file.take(8)
            == head.take(8) && 8 + len <= file.len()) ==> fat_slices(file) == table_slices(
            file.subrange(8, 8 + table_request(file_name, head)->Some_0.0),
            table_request(file_name, head)->Some_0.1,
            file.len() as int,
        ),
{
    if head.len() >= 8 && file.len() >= 8 && file.take(8) == head.take(8) {
        assert(file[0] == head.take(8)[0] && file[1] == head.take(8)[1] && file[2] == head.take(8)[2]
            && file[3] == head.take(8)[3]);
        assert(file[4] == head.take(8)[4] && file[5] == head.take(8)[5] && file[6] == head.take(8)[6]
            && file[7] == head.take(8)[7]);
        assert(be32(file, 0) == be32(head, 0));
        assert(be32(file, 4) == be32(head, 4));
    }
}

/// What to read of a candidate fat file (see `table_request`); the table read
/// then goes to `parse_table` with the file's length.
pub fn fat_table_request(file_name: &str, head: &[u8]) -> (r: Option<(usize, bool)>)
    ensures
        match r {
            Some((len, fat64)) => table_request(file_name@, head@) == Some((len as int, fat64)),
            None => table_request(file_name@, head@) is None,
        },
{
    if head.len() < 8 {
        return None;
    }
    let first = crate::bytes::sub_bytes(head, 0, 4);
    assert(first@ =~= head@.take(4));
    if !is_binary_candidate(file_name, first.as_slice()) {
        return None;
    }
    let magic = read_be32(head, 0);
    let fat64 = if magic == FAT_MAGIC {
        false
    } else if magic == FAT_MAGIC_64 {
        true
    } else {
        return None;
    };
    let nfat = read_be32(head, 4);
    if nfat == 0 || nfat > MAX_SLICES {
        return None;
    }
    if fat64 {
        Some((nfat as usize * FAT_ARCH64_SIZE, true))
    } else {
        Some((nfat as usize * FAT_ARCH32_SIZE, false))
    }
}

} // verus!
