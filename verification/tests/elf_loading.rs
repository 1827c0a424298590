use eonix::elf::{
    build_initial_stack, check_magic, elf_class, entry_ip, init_aux_vec, interp_location,
    is_shared_object, load_base, load_segments, parse_elf32_header, parse_program_headers,
    ph_addr, segment_kind, segment_layout, segment_mappings, segment_permission, ElfClass,
    Permission, ProgramHeader32, SegmentKind, AT_ENTRY, AT_PAGESZ, AT_PHDR, AT_PHENT, AT_PHNUM,
    DYN_BASE_ADDR, PT_INTERP, PT_LOAD, STACK_BASE_ADDR,
};
use eonix::errno::ENOEXEC;

fn put16(b: &mut [u8], at: usize, v: u16) {
    b[at..at + 2].copy_from_slice(&v.to_le_bytes());
}

fn put32(b: &mut [u8], at: usize, v: u32) {
    b[at..at + 4].copy_from_slice(&v.to_le_bytes());
}

fn header_bytes(type_: u16) -> Vec<u8> {
    let mut b = vec![0u8; 52];
    b[0..4].copy_from_slice(&[0x7f, b'E', b'L', b'F']);
    b[4] = 1;
    put16(&mut b, 16, type_);
    put16(&mut b, 18, 3);
    put32(&mut b, 20, 1);
    put32(&mut b, 24, 0x0804_8100);
    put32(&mut b, 28, 52);
    put16(&mut b, 42, 32);
    put16(&mut b, 44, 2);
    b
}

fn ph(type_: u32, offset: u32, vaddr: u32, file_size: u32, mem_size: u32, flags: u32) -> ProgramHeader32 {
    ProgramHeader32 {
        type_,
        offset,
        virtual_addr: vaddr,
        physical_addr: vaddr,
        file_size,
        mem_size,
        flags,
        align: 0x1000,
    }
}

#[test]
fn header_fields_are_little_endian() {
    let h = parse_elf32_header(&header_bytes(2)).unwrap();
    assert_eq!(h.class, 1);
    assert_eq!(h.type_, 2);
    assert_eq!(h.machine, 3);
    assert_eq!(h.entry_point, 0x0804_8100);
    assert_eq!(h.ph_offset, 52);
    assert_eq!(h.ph_entry_size, 32);
    assert_eq!(h.ph_count, 2);
    assert_eq!(parse_elf32_header(&[0u8; 51]).err(), Some(ENOEXEC));
}

#[test]
fn identification() {
    let b = header_bytes(2);
    assert_eq!(check_magic(&b), Ok(()));
    assert_eq!(check_magic(b"\x7fELG"), Err(ENOEXEC));
    assert_eq!(elf_class(&b), Ok(ElfClass::Elf32));
    let mut b64 = b.clone();
    b64[4] = 2;
    assert_eq!(elf_class(&b64), Ok(ElfClass::Elf64));
    b64[4] = 9;
    assert_eq!(elf_class(&b64), Err(ENOEXEC));
    assert_eq!(elf_class(&b[..8]), Err(ENOEXEC));
}

#[test]
fn shared_objects_are_loaded_at_the_dynamic_base() {
    let exe = parse_elf32_header(&header_bytes(2)).unwrap();
    let dyn_ = parse_elf32_header(&header_bytes(3)).unwrap();
    assert!(!is_shared_object(&exe));
    assert!(is_shared_object(&dyn_));
    assert_eq!(load_base(&exe), 0);
    assert_eq!(load_base(&dyn_), DYN_BASE_ADDR);
    assert_eq!(entry_ip(&exe, 0, None), 0x0804_8100);
    assert_eq!(entry_ip(&dyn_, DYN_BASE_ADDR, None), DYN_BASE_ADDR + 0x0804_8100);
    assert_eq!(entry_ip(&dyn_, DYN_BASE_ADDR, Some(0xf000_1000)), 0xf000_1000);
}

#[test]
fn segment_permissions_from_flags() {
    let p = segment_permission(&ph(PT_LOAD, 0, 0, 0, 0, 5));
    assert_eq!(p, Permission { read: true, write: false, execute: true });
    let q = segment_permission(&ph(PT_LOAD, 0, 0, 0, 0, 2));
    assert_eq!(q, Permission { read: false, write: true, execute: false });
}

#[test]
fn segment_mapping_layout() {
    let l = segment_layout(&ph(PT_LOAD, 0x2345, 0x1234, 0x100, 0x3000, 6), 0);
    assert_eq!(l.vmap_start, 0x1000);
    assert_eq!(l.vmem_len, 0x4000);
    assert_eq!(l.file_len, 0x1000);
    assert_eq!(l.real_file_length, 0x334);
    assert_eq!(l.file_offset, 0x2000);
    assert_eq!(l.permission, Permission { read: true, write: true, execute: false });
    assert_eq!(segment_mappings(&l), (true, true));
    let at_base = segment_layout(&ph(PT_LOAD, 0, 0x1000, 0x2000, 0x2000, 4), 0x4000_0000);
    assert_eq!(at_base.vmap_start, 0x4000_1000);
    assert_eq!(segment_mappings(&at_base), (true, false));
}

#[test]
fn segment_kinds() {
    assert_eq!(segment_kind(PT_LOAD), Ok(SegmentKind::Load));
    assert_eq!(segment_kind(PT_INTERP), Ok(SegmentKind::Interp));
    assert_eq!(segment_kind(6), Ok(SegmentKind::Other));
    assert_eq!(segment_kind(0x6474e552), Ok(SegmentKind::Other));
    assert_eq!(segment_kind(0x1234_5678), Err(ENOEXEC));
}

#[test]
fn program_header_table() {
    let mut b = vec![0u8; 64];
    put32(&mut b, 0, PT_LOAD);
    put32(&mut b, 8, 0x0804_8000);
    put32(&mut b, 16, 0x1000);
    put32(&mut b, 20, 0x1000);
    put32(&mut b, 24, 5);
    put32(&mut b, 32, PT_INTERP);
    put32(&mut b, 36, 0x100);
    put32(&mut b, 48, 0x13);
    let phs = parse_program_headers(&b, 2).unwrap();
    assert_eq!(phs.len(), 2);
    assert_eq!(
        phs[0],
        ProgramHeader32 {
            type_: PT_LOAD,
            offset: 0,
            virtual_addr: 0x0804_8000,
            physical_addr: 0,
            file_size: 0x1000,
            mem_size: 0x1000,
            flags: 5,
            align: 0,
        }
    );
    assert_eq!(phs[1].offset, 0x100);
    assert_eq!(parse_program_headers(&b, 3).err(), Some(ENOEXEC));
    assert_eq!(interp_location(&phs), Ok(Some((0x100, 0x12))));
    let h = parse_elf32_header(&header_bytes(2)).unwrap();
    assert_eq!(ph_addr(&h, &phs), Ok(0x0804_8034));
}

#[test]
fn interpreter_lookup_stops_at_unknown_types() {
    let phs = vec![ph(0x1234_5678, 0, 0, 0, 0, 0), ph(PT_INTERP, 0x10, 0, 5, 5, 4)];
    assert_eq!(interp_location(&phs), Err(ENOEXEC));
    let none = vec![ph(PT_LOAD, 0, 0, 0, 0, 4)];
    assert_eq!(interp_location(&none), Ok(None));
    let h = parse_elf32_header(&header_bytes(2)).unwrap();
    assert_eq!(ph_addr(&h, &none), Err(ENOEXEC));
}

#[test]
fn loading_segments_reports_the_end() {
    let phs = vec![
        ph(PT_LOAD, 0, 0x0804_8000, 0x1000, 0x1000, 5),
        ph(6, 0, 0, 0, 0, 0),
        ph(PT_LOAD, 0x1000, 0x0804_9000, 0x100, 0x2100, 6),
    ];
    let (end, layouts) = load_segments(&phs, 0).unwrap();
    assert_eq!(layouts.len(), 2);
    assert_eq!(end, 0x0804_c000);
    let bad = vec![ph(0x1234_5678, 0, 0, 0, 0, 0)];
    assert_eq!(load_segments(&bad, 0).err(), Some(ENOEXEC));
}

#[test]
fn auxiliary_vector() {
    let h = parse_elf32_header(&header_bytes(2)).unwrap();
    let aux = init_aux_vec(&h, 0x0804_8034, 0, None);
    assert_eq!(
        aux,
        vec![
            (AT_PHDR, 0x0804_8034),
            (AT_PHENT, 32),
            (AT_PHNUM, 2),
            (AT_PAGESZ, 4096),
            (AT_ENTRY, 0x0804_8100)
        ]
    );
    let d = parse_elf32_header(&header_bytes(3)).unwrap();
    let aux = init_aux_vec(&d, 0x34, 0x4000_0000, Some(0xf000_0000));
    assert_eq!(aux[0], (AT_PHDR, 0x4000_0034));
    assert_eq!(aux[4], (7, 0xf000_0000));
    assert_eq!(aux[5], (AT_ENTRY, 0x4000_0000 + 0x0804_8100));
}

#[test]
fn initial_stack_image() {
    let args = vec![b"sh".to_vec()];
    let envs = vec![b"A=1".to_vec()];
    let aux = vec![(AT_PAGESZ, 4096u32)];
    let (sp, image) = build_initial_stack(&args, &envs, &aux);
    assert_eq!(sp, 0xfffe_ffd0);
    assert_eq!(sp % 16, 0);
    assert_eq!(sp + image.len(), STACK_BASE_ADDR);
    let mut expected = Vec::new();
    for w in [1u32, 0xfffe_fff9, 0, 0xfffe_fffc, 0, AT_PAGESZ, 4096, 0, 0] {
        expected.extend_from_slice(&w.to_le_bytes());
    }
    expected.extend_from_slice(&[0; 5]);
    expected.extend_from_slice(b"sh\0A=1\0");
    assert_eq!(image, expected);
}
