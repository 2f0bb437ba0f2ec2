use apios_core::lipo::{
    cpu_name, current_cputype, fat_table_request, is_binary_candidate, is_fat_magic, is_macho_magic,
    parse_fat, select_runnable_slice, select_slice, thin_bytes, FatFile, FatSlice, LipError,
    CPU_SUBTYPE_ARM64E, CPU_SUBTYPE_X86_64H, CPU_TYPE_ARM64, CPU_TYPE_X86_64, FAT_ARCH32_SIZE,
    FAT_ARCH64_SIZE, FAT_MAGIC, FAT_MAGIC_64, MAX_SLICES, MH_CIGAM, MH_CIGAM_64, MH_MAGIC, MH_MAGIC_64,
};

fn be32(v: u32) -> [u8; 4] {
    v.to_be_bytes()
}

fn make_fat32(slices: &[(u32, u32, &[u8])]) -> Vec<u8> {
    let mut bytes = Vec::new();
    bytes.extend_from_slice(&FAT_MAGIC.to_be_bytes());
    bytes.extend_from_slice(&(slices.len() as u32).to_be_bytes());
    for _ in slices {
        bytes.extend_from_slice(&[0u8; FAT_ARCH32_SIZE]);
    }
    let mut cursor = 8 + slices.len() * FAT_ARCH32_SIZE;
    for (i, (ct, cst, payload)) in slices.iter().enumerate() {
        let entry = 8 + i * FAT_ARCH32_SIZE;
        bytes[entry..entry + 4].copy_from_slice(&be32(*ct));
        bytes[entry + 4..entry + 8].copy_from_slice(&be32(*cst));
        bytes[entry + 8..entry + 12].copy_from_slice(&be32(cursor as u32));
        bytes[entry + 12..entry + 16].copy_from_slice(&be32(payload.len() as u32));
        bytes.extend_from_slice(payload);
        cursor += payload.len();
    }
    bytes
}

fn make_fat64(slices: &[(u32, u32, &[u8])]) -> Vec<u8> {
    let mut bytes = Vec::new();
    bytes.extend_from_slice(&FAT_MAGIC_64.to_be_bytes());
    bytes.extend_from_slice(&(slices.len() as u32).to_be_bytes());
    let table_len = slices.len() * FAT_ARCH64_SIZE;
    for _ in slices {
        bytes.extend_from_slice(&[0u8; FAT_ARCH64_SIZE]);
    }
    let mut cursor = 8 + table_len;
    for (i, (ct, cst, payload)) in slices.iter().enumerate() {
        let entry = 8 + i * FAT_ARCH64_SIZE;
        bytes[entry..entry + 4].copy_from_slice(&be32(*ct));
        bytes[entry + 4..entry + 8].copy_from_slice(&be32(*cst));
        bytes[entry + 8..entry + 16].copy_from_slice(&(cursor as u64).to_be_bytes());
        bytes[entry + 16..entry + 24].copy_from_slice(&(payload.len() as u64).to_be_bytes());
        bytes.extend_from_slice(payload);
        cursor += payload.len();
    }
    bytes
}

fn slice(ct: u32, cst: u32, off: u64, size: u64) -> FatSlice {
    FatSlice { cputype: ct, cpusubtype: cst, offset: off, size }
}

#[test]
fn test_parse_fat32_two_slices() {
    let payload_arm = [0xAAu8; 64];
    let payload_x86 = [0xBBu8; 32];
    let fat = make_fat32(&[(CPU_TYPE_ARM64, 0, &payload_arm), (CPU_TYPE_X86_64, 0, &payload_x86)]);
    let parsed = parse_fat(&fat).unwrap();
    assert_eq!(parsed.slices.len(), 2);
    assert_eq!(parsed.slices[0], slice(CPU_TYPE_ARM64, 0, 48, 64));
    assert_eq!(parsed.slices[1], slice(CPU_TYPE_X86_64, 0, 48 + 64, 32));
}

#[test]
fn test_parse_fat64_large_offsets() {
    let payload = [0xCCu8; 16];
    let fat = make_fat64(&[(CPU_TYPE_ARM64, 0, &payload), (CPU_TYPE_X86_64, 0, &[0xDD; 8])]);
    let parsed = parse_fat(&fat).unwrap();
    assert_eq!(parsed.slices.len(), 2);
    assert_eq!(parsed.slices[0], slice(CPU_TYPE_ARM64, 0, 72, 16));
    assert_eq!(parsed.slices[1], slice(CPU_TYPE_X86_64, 0, 72 + 16, 8));
}

#[test]
fn test_parse_fat64_overflow_guard() {
    let mut bytes = Vec::new();
    bytes.extend_from_slice(&FAT_MAGIC_64.to_be_bytes());
    bytes.extend_from_slice(&1u32.to_be_bytes());
    let mut entry = [0u8; 32];
    entry[0..4].copy_from_slice(&be32(CPU_TYPE_ARM64));
    entry[8..16].copy_from_slice(&u64::MAX.to_be_bytes());
    entry[16..24].copy_from_slice(&1u64.to_be_bytes());
    bytes.extend_from_slice(&entry);
    assert_eq!(parse_fat(&bytes), Err(LipError::Invalid("slice size overflow")));
}

#[test]
fn test_parse_fat32_slice_out_of_bounds() {
    let mut bytes = Vec::new();
    bytes.extend_from_slice(&FAT_MAGIC.to_be_bytes());
    bytes.extend_from_slice(&1u32.to_be_bytes());
    bytes.extend_from_slice(&be32(CPU_TYPE_ARM64));
    bytes.extend_from_slice(&be32(0));
    bytes.extend_from_slice(&be32(8 + 20));
    bytes.extend_from_slice(&be32(9999));
    bytes.extend_from_slice(&be32(0));
    assert_eq!(parse_fat(&bytes), Err(LipError::Invalid("slice out of bounds")));
}

#[test]
fn test_parse_fat_nfat_zero_and_too_many() {
    let mut zero = Vec::new();
    zero.extend_from_slice(&FAT_MAGIC.to_be_bytes());
    zero.extend_from_slice(&0u32.to_be_bytes());
    assert_eq!(parse_fat(&zero), Err(LipError::Invalid("nfat_arch is zero")));

    let mut many = Vec::new();
    many.extend_from_slice(&FAT_MAGIC.to_be_bytes());
    many.extend_from_slice(&(MAX_SLICES + 1).to_be_bytes());
    assert_eq!(parse_fat(&many), Err(LipError::Invalid("nfat_arch exceeds sane limit")));
}

#[test]
fn test_parse_fat_truncated() {
    assert_eq!(parse_fat(&[]), Err(LipError::Truncated("header")));
    assert_eq!(parse_fat(&[0xca, 0xfe, 0xba, 0xbe]), Err(LipError::Truncated("header")));
    let mut bytes = Vec::new();
    bytes.extend_from_slice(&FAT_MAGIC.to_be_bytes());
    bytes.extend_from_slice(&2u32.to_be_bytes());
    bytes.extend_from_slice(&[0u8; FAT_ARCH32_SIZE]);
    assert_eq!(parse_fat(&bytes), Err(LipError::Truncated("architecture table")));
}

#[test]
fn test_parse_fat_not_fat() {
    let thin = [0xcf, 0xfa, 0xed, 0xfe, 0x00, 0x00, 0x00, 0x00];
    assert_eq!(parse_fat(&thin), Err(LipError::NotFat));
}

#[test]
fn test_parse_fat_zero_size_slice() {
    let mut bytes = Vec::new();
    bytes.extend_from_slice(&FAT_MAGIC.to_be_bytes());
    bytes.extend_from_slice(&1u32.to_be_bytes());
    bytes.extend_from_slice(&be32(CPU_TYPE_ARM64));
    bytes.extend_from_slice(&be32(0));
    bytes.extend_from_slice(&be32(28));
    bytes.extend_from_slice(&be32(0));
    bytes.extend_from_slice(&be32(0));
    assert_eq!(parse_fat(&bytes), Err(LipError::Invalid("slice size is zero")));
}

#[test]
fn lip_error_messages() {
    assert_eq!(LipError::NotFat.message(), "not a universal (fat) binary");
    assert_eq!(LipError::Truncated("header").message(), "truncated file: header");
    assert_eq!(LipError::Invalid("slice size is zero").message(), "invalid fat structure: slice size is zero");
}

#[test]
fn test_select_slice_matches_cputype() {
    let fat = FatFile { slices: vec![slice(CPU_TYPE_ARM64, 0, 0, 10), slice(CPU_TYPE_X86_64, 0, 0, 20)] };
    assert_eq!(select_slice(&fat.slices, CPU_TYPE_ARM64).unwrap().size, 10);
    assert_eq!(select_slice(&fat.slices, CPU_TYPE_X86_64).unwrap().size, 20);
}

#[test]
fn test_select_slice_prefers_highest_subtype() {
    let fat = FatFile { slices: vec![slice(CPU_TYPE_ARM64, 0, 0, 10), slice(CPU_TYPE_ARM64, CPU_SUBTYPE_ARM64E, 0, 30)] };
    assert_eq!(select_slice(&fat.slices, CPU_TYPE_ARM64).unwrap().size, 30);
    let fat = FatFile { slices: vec![slice(CPU_TYPE_X86_64, CPU_SUBTYPE_X86_64H, 0, 40), slice(CPU_TYPE_X86_64, 0, 0, 20)] };
    assert_eq!(select_slice(&fat.slices, CPU_TYPE_X86_64).unwrap().size, 40);
}

#[test]
fn test_select_slice_no_match() {
    let fat = FatFile { slices: vec![slice(CPU_TYPE_ARM64, 0, 0, 10)] };
    assert!(select_slice(&fat.slices, CPU_TYPE_X86_64).is_none());
}

#[test]
fn test_select_runnable_x86_64h_capability_gate() {
    let fat = FatFile { slices: vec![slice(CPU_TYPE_X86_64, CPU_SUBTYPE_X86_64H, 0, 40), slice(CPU_TYPE_X86_64, 0, 0, 20)] };
    assert_eq!(select_runnable_slice(&fat.slices, CPU_TYPE_X86_64, true).unwrap().size, 40);
    assert_eq!(select_runnable_slice(&fat.slices, CPU_TYPE_X86_64, false).unwrap().size, 20);
}

#[test]
fn test_select_runnable_arm64e_still_preferred() {
    let fat = FatFile { slices: vec![slice(CPU_TYPE_ARM64, 0, 0, 10), slice(CPU_TYPE_ARM64, CPU_SUBTYPE_ARM64E, 0, 30)] };
    assert_eq!(select_runnable_slice(&fat.slices, CPU_TYPE_ARM64, false).unwrap().size, 30);
    assert_eq!(select_runnable_slice(&fat.slices, CPU_TYPE_ARM64, true).unwrap().size, 30);
}

#[test]
fn runnable_choice_equals_choice_among_runnable_slices() {
    let all = vec![slice(CPU_TYPE_X86_64, CPU_SUBTYPE_X86_64H, 0, 40), slice(CPU_TYPE_X86_64, 0, 0, 20)];
    for avx2 in [false, true] {
        let kept: Vec<FatSlice> =
            all.iter().filter(|s| s.cpusubtype != CPU_SUBTYPE_X86_64H || avx2).copied().collect();
        assert_eq!(
            select_runnable_slice(&all, CPU_TYPE_X86_64, avx2).copied(),
            select_slice(&kept, CPU_TYPE_X86_64).copied()
        );
    }
    assert_eq!(select_runnable_slice(&all, CPU_TYPE_X86_64, false).unwrap().size, 20);
    let arm = vec![slice(CPU_TYPE_ARM64, 0, 0, 10), slice(CPU_TYPE_ARM64, CPU_SUBTYPE_ARM64E, 0, 30)];
    assert_eq!(select_runnable_slice(&arm, CPU_TYPE_ARM64, false).copied(), select_slice(&arm, CPU_TYPE_ARM64).copied());
}

#[test]
fn test_current_cputype_matches_target() {
    assert_eq!(current_cputype("aarch64"), CPU_TYPE_ARM64);
    assert_eq!(current_cputype("x86_64"), CPU_TYPE_X86_64);
    assert_eq!(current_cputype("riscv64"), 0);
}

#[test]
fn test_thin_bytes_extracts_exact_slice() {
    let payload_arm = [0xAAu8; 64];
    let payload_x86 = [0xBBu8; 32];
    let fat = make_fat32(&[(CPU_TYPE_ARM64, 0, &payload_arm), (CPU_TYPE_X86_64, 0, &payload_x86)]);
    let parsed = parse_fat(&fat).unwrap();
    let arm = select_slice(&parsed.slices, CPU_TYPE_ARM64).unwrap();
    assert_eq!(thin_bytes(&fat, arm), payload_arm);
    let x86 = select_slice(&parsed.slices, CPU_TYPE_X86_64).unwrap();
    assert_eq!(thin_bytes(&fat, x86), payload_x86);
}

#[test]
fn test_magic_detection() {
    assert!(is_fat_magic(FAT_MAGIC.to_be_bytes()));
    assert!(is_fat_magic(FAT_MAGIC_64.to_be_bytes()));
    assert!(!is_fat_magic(MH_MAGIC.to_be_bytes()));
    assert!(is_macho_magic(MH_MAGIC.to_be_bytes()));
    assert!(is_macho_magic(MH_CIGAM.to_be_bytes()));
    assert!(is_macho_magic(MH_MAGIC_64.to_be_bytes()));
    assert!(is_macho_magic(MH_CIGAM_64.to_be_bytes()));
    assert!(!is_macho_magic(FAT_MAGIC.to_be_bytes()));
    assert!(!is_macho_magic(0x1122_3344u32.to_be_bytes()));
}

#[test]
fn test_binary_candidate_extensions() {
    assert!(is_binary_candidate("libfoo.dylib", &[]));
    assert!(is_binary_candidate("foo.so", &[]));
    assert!(is_binary_candidate("x.bundle", &[]));
    assert!(is_binary_candidate("libfoo.DYLIB", &[]));
}

#[test]
fn test_binary_candidate_magic() {
    assert!(is_binary_candidate("Foo", &FAT_MAGIC.to_be_bytes()));
    assert!(is_binary_candidate("Foo", &MH_MAGIC_64.to_be_bytes()));
    assert!(!is_binary_candidate("readme.txt", &[0x11, 0x22, 0x33, 0x44]));
    assert!(!is_binary_candidate("Foo", &[]));
}

#[test]
fn test_cpu_names() {
    assert_eq!(cpu_name(CPU_TYPE_ARM64, 0), "arm64");
    assert_eq!(cpu_name(CPU_TYPE_ARM64, CPU_SUBTYPE_ARM64E), "arm64e");
    assert_eq!(cpu_name(CPU_TYPE_X86_64, 0), "x86_64");
    assert_eq!(cpu_name(CPU_TYPE_X86_64, CPU_SUBTYPE_X86_64H), "x86_64h");
    assert_eq!(cpu_name(0x1234, 0), "unknown");
}

#[test]
fn fat_table_request_only_for_fat_heads() {
    assert!(fat_table_request("tool", &MH_MAGIC_64.to_be_bytes()).is_none());
    let mut head = FAT_MAGIC.to_be_bytes().to_vec();
    head.extend_from_slice(&2u32.to_be_bytes());
    let req = fat_table_request("tool", &head);
    assert!(req.is_some());
}
