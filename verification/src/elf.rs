//! Loading 32-bit ELF programs: the headers, the layout of the segments in
//! memory, the auxiliary vector and the entry point.

use vstd::prelude::*;

use crate::errno::{KResult, ENOEXEC};

verus! {

pub const ELF_MAGIC: [u8; 4] = [0x7F, 0x45, 0x4C, 0x46];
pub const PAGE_SIZE: usize = 4096;

/// Where a shared object (one without a fixed address) is loaded.
pub const DYN_BASE_ADDR: usize = 0x4000_0000;
/// Where the dynamic linker is loaded.
pub const LDSO_BASE_ADDR: usize = 0xf000_0000;
/// Top of the initial user stack.
pub const STACK_BASE_ADDR: usize = 0xffff_0000;
/// Size of the initial user stack.
pub const INIT_STACK_SIZE: usize = 0x80_0000;

/// Size of the identification part and of the rest of a 32-bit ELF header.
pub const HEADER_PT1_SIZE: usize = 16;
pub const ELF32_HEADER_SIZE: usize = 52;
/// Size of a 32-bit program header.
pub const PH32_SIZE: usize = 32;

pub const ELFCLASS32: u8 = 1;
pub const ELFCLASS64: u8 = 2;

pub const PT_LOAD: u32 = 1;
pub const PT_INTERP: u32 = 3;
pub const PT_GNU_RELRO: u32 = 0x6474e552;
pub const PT_LOOS: u32 = 0x60000000;
pub const PT_HIOS: u32 = 0x6fffffff;
pub const PT_LOPROC: u32 = 0x70000000;
pub const PT_HIPROC: u32 = 0x7fffffff;

/// A little-endian 16-bit value.
pub open spec fn le16(b0: u8, b1: u8) -> u16 {
    ((b0 as u16) | ((b1 as u16) << 8u16)) as u16
}

/// A little-endian 32-bit value.
pub open spec fn le32(b0: u8, b1: u8, b2: u8, b3: u8) -> u32 {
    ((b0 as u32) | ((b1 as u32) << 8u32) | ((b2 as u32) << 16u32) | ((b3 as u32) << 24u32)) as u32
}

pub open spec fn le16_at(s: Seq<u8>, i: int) -> u16 {
    le16(s[i], s[i + 1])
}

pub open spec fn le32_at(s: Seq<u8>, i: int) -> u32 {
    le32(s[i], s[i + 1], s[i + 2], s[i + 3])
}

fn read_u16(b: &[u8], i: usize) -> (r: u16)
    requires
        i + 2 <= b@.len(),
    ensures
        r == le16_at(b@, i as int),
{
    (b[i] as u16) | ((b[i + 1] as u16) << 8)
}

fn read_u32(b: &[u8], i: usize) -> (r: u32)
    requires
        i + 4 <= b@.len(),
    ensures
        r == le32_at(b@, i as int),
{
    (b[i] as u32) | ((b[i + 1] as u32) << 8) | ((b[i + 2] as u32) << 16) | ((b[i + 3] as u32) << 24)
}

/// The fields of a 32-bit ELF header that loading reads.
#[derive(Debug, Clone, Copy, PartialEq, Eq, Structural)]
pub struct Elf32Header {
    pub class: u8,
    pub type_: u16,
    pub machine: u16,
    pub version: u32,
    pub entry_point: u32,
    pub ph_offset: u32,
    pub sh_offset: u32,
    pub flags: u32,
    pub header_size: u16,
    pub ph_entry_size: u16,
    pub ph_count: u16,
    pub sh_entry_size: u16,
    pub sh_count: u16,
    pub sh_str_index: u16,
}

/// The header that the first bytes of a file hold.
pub open spec fn header_of(b: Seq<u8>) -> Elf32Header {
    Elf32Header {
        class: b[4],
        type_: le16_at(b, 16),
        machine: le16_at(b, 18),
        version: le32_at(b, 20),
        entry_point: le32_at(b, 24),
        ph_offset: le32_at(b, 28),
        sh_offset: le32_at(b, 32),
        flags: le32_at(b, 36),
        header_size: le16_at(b, 40),
        ph_entry_size: le16_at(b, 42),
        ph_count: le16_at(b, 44),
        sh_entry_size: le16_at(b, 46),
        sh_count: le16_at(b, 48),
        sh_str_index: le16_at(b, 50),
    }
}

/// The ELF header at the start of `bytes`; `ENOEXEC` when the file is
/// shorter than a header.
pub fn parse_elf32_header(bytes: &[u8]) -> (r: KResult<Elf32Header>)
    ensures
        bytes@.len() < ELF32_HEADER_SIZE ==> r == Err::<Elf32Header, u32>(ENOEXEC),
        bytes@.len() >= ELF32_HEADER_SIZE ==> r == Ok::<Elf32Header, u32>(header_of(bytes@)),
{
    if bytes.len() < ELF32_HEADER_SIZE {
        return Err(ENOEXEC);
    }
    Ok(
        Elf32Header {
            class: bytes[4],
            type_: read_u16(bytes, 16),
            machine: read_u16(bytes, 18),
            version: read_u32(bytes, 20),
            entry_point: read_u32(bytes, 24),
            ph_offset: read_u32(bytes, 28),
            sh_offset: read_u32(bytes, 32),
            flags: read_u32(bytes, 36),
            header_size: read_u16(bytes, 40),
            ph_entry_size: read_u16(bytes, 42),
            ph_count: read_u16(bytes, 44),
            sh_entry_size: read_u16(bytes, 46),
            sh_count: read_u16(bytes, 48),
            sh_str_index: read_u16(bytes, 50),
        },
    )
}

/// The format of a program that starts with the ELF magic.
#[derive(Debug, Clone, Copy, PartialEq, Eq, Structural)]
pub enum ElfClass {
    Elf32,
    Elf64,
}

/// The class byte of the identification; `ENOEXEC` for a file shorter than
/// the identification or a class that is neither 32 nor 64 bits.
pub fn elf_class(ident: &[u8]) -> (r: KResult<ElfClass>)
    ensures
        r == (if ident@.len() < HEADER_PT1_SIZE {
            Err::<ElfClass, u32>(ENOEXEC)
        } else if ident@[4] == ELFCLASS32 {
            Ok::<ElfClass, u32>(ElfClass::Elf32)
        } else if ident@[4] == ELFCLASS64 {
            Ok::<ElfClass, u32>(ElfClass::Elf64)
        } else {
            Err::<ElfClass, u32>(ENOEXEC)
        }),
{
    if ident.len() < HEADER_PT1_SIZE {
        return Err(ENOEXEC);
    }
    if ident[4] == ELFCLASS32 {
        Ok(ElfClass::Elf32)
    } else if ident[4] == ELFCLASS64 {
        Ok(ElfClass::Elf64)
    } else {
        Err(ENOEXEC)
    }
}

/// The file starts with the ELF magic number (`ENOEXEC` otherwise).
pub fn check_magic(magic: &[u8]) -> (r: KResult<()>)
    ensures
        r == (if magic@.len() >= 4 && magic@[0] == 0x7F && magic@[1] == 0x45 && magic@[2] == 0x4C
            && magic@[3] == 0x46 {
            Ok::<(), u32>(())
        } else {
            Err::<(), u32>(ENOEXEC)
        }),
{
    if magic.len() >= 4 && magic[0] == 0x7F && magic[1] == 0x45 && magic[2] == 0x4C && magic[3]
        == 0x46 {
        Ok(())
    } else {
        Err(ENOEXEC)
    }
}

/// A 32-bit program header.
#[derive(Debug, Clone, Copy, PartialEq, Eq, Structural)]
pub struct ProgramHeader32 {
    pub type_: u32,
    pub offset: u32,
    pub virtual_addr: u32,
    pub physical_addr: u32,
    pub file_size: u32,
    pub mem_size: u32,
    pub flags: u32,
    pub align: u32,
}

/// The program header at byte `i` of `b`.
pub open spec fn program_header_at(b: Seq<u8>, i: int) -> ProgramHeader32 {
    ProgramHeader32 {
        type_: le32_at(b, i),
        offset: le32_at(b, i + 4),
        virtual_addr: le32_at(b, i + 8),
        physical_addr: le32_at(b, i + 12),
        file_size: le32_at(b, i + 16),
        mem_size: le32_at(b, i + 20),
        flags: le32_at(b, i + 24),
        align: le32_at(b, i + 28),
    }
}

/// The program headers in the table that `bytes` holds; a table shorter
/// than `count` headers is `ENOEXEC`.
pub fn parse_program_headers(bytes: &[u8], count: u16) -> (r: KResult<Vec<ProgramHeader32>>)
    ensures
        bytes@.len() < count * PH32_SIZE ==> r == Err::<Vec<ProgramHeader32>, u32>(ENOEXEC),
        bytes@.len() >= count * PH32_SIZE ==> r is Ok && r->Ok_0@.len() == count && forall|k: int|
            0 <= k < count ==> #[trigger] r->Ok_0@[k] == program_header_at(bytes@, k * 32),
{
    let n = count as usize;
    if bytes.len() / PH32_SIZE < n {
        return Err(ENOEXEC);
    }
    let mut out: Vec<ProgramHeader32> = Vec::new();
    let mut k: usize = 0;
    while k < n
        invariant
            k <= n,
            n == count,
            n * 32 <= bytes@.len(),
            out@.len() == k,
            forall|j: int| 0 <= j < k ==> #[trigger] out@[j] == program_header_at(bytes@, j * 32),
        decreases n - k,
    {
        assert(k * 32 + 32 <= n * 32) by (nonlinear_arith)
            requires
                k < n,
        ;
        let i = k * 32;
        out.push(
            ProgramHeader32 {
                type_: read_u32(bytes, i),
                offset: read_u32(bytes, i + 4),
                virtual_addr: read_u32(bytes, i + 8),
                physical_addr: read_u32(bytes, i + 12),
                file_size: read_u32(bytes, i + 16),
                mem_size: read_u32(bytes, i + 20),
                flags: read_u32(bytes, i + 24),
                align: read_u32(bytes, i + 28),
            },
        );
        k = k + 1;
    }
    Ok(out)
}

/// The kinds of program headers that loading tells apart.
#[derive(Debug, Clone, Copy, PartialEq, Eq, Structural)]
pub enum SegmentKind {
    Load,
    Interp,
    Other,
}

/// The segment types that ELF defines: the standard ones, `GNU_RELRO`
/// and the OS and processor ranges; anything else makes the file invalid.
pub open spec fn ph_type_known(t: u32) -> bool {
    t <= 7 || t == PT_GNU_RELRO || (PT_LOOS <= t <= PT_HIOS) || (PT_LOPROC <= t <= PT_HIPROC)
}

/// The program header types that ELF defines are exactly the standard
/// ones, 0 to 7, and the whole range 0x60000000..=0x7fffffff of OS- and
/// processor-specific types (`PT_GNU_STACK` 0x6474e551, `PT_GNU_EH_FRAME`
/// 0x6474e550 and `PT_GNU_RELRO` 0x6474e552 among them): a header of any
/// of these types is loaded past, and any other type makes the file
/// invalid.
pub proof fn law_known_segment_types(t: u32)
    ensures
        ph_type_known(t) == (t <= 7 || (0x6000_0000 <= t && t <= 0x7fff_ffff)),
{
}

/// The kind of a program header; `ENOEXEC` for an undefined type.
pub fn segment_kind(t: u32) -> (r: KResult<SegmentKind>)
    ensures
        0x6000_0000 <= t <= 0x7fff_ffff ==> r == Ok::<SegmentKind, u32>(SegmentKind::Other),
        8 <= t < 0x6000_0000 ==> r == Err::<SegmentKind, u32>(ENOEXEC),
        t == 1 ==> r == Ok::<SegmentKind, u32>(SegmentKind::Load),
        t == 3 ==> r == Ok::<SegmentKind, u32>(SegmentKind::Interp),
        r == (if !ph_type_known(t) {
            Err::<SegmentKind, u32>(ENOEXEC)
        } else if t == PT_LOAD {
            Ok::<SegmentKind, u32>(SegmentKind::Load)
        } else if t == PT_INTERP {
            Ok::<SegmentKind, u32>(SegmentKind::Interp)
        } else {
            Ok::<SegmentKind, u32>(SegmentKind::Other)
        }),
{
    if !(t <= 7 || t == PT_GNU_RELRO || (PT_LOOS <= t && t <= PT_HIOS) || (PT_LOPROC <= t && t
        <= PT_HIPROC)) {
        Err(ENOEXEC)
    } else if t == PT_LOAD {
        Ok(SegmentKind::Load)
    } else if t == PT_INTERP {
        Ok(SegmentKind::Interp)
    } else {
        Ok(SegmentKind::Other)
    }
}

/// `xmas_elf::header::Type_::as_type` tells a shared object (`ET_DYN`,
/// value 3) from the other object types.
#[verifier::external_body]
fn elf_type_is_shared_object(type_: u16) -> (r: bool)
    ensures
        r == (type_ == 3),
{
    match xmas_elf::header::Type_(type_).as_type() {
        xmas_elf::header::Type::SharedObject => true,
        _ => false,
    }
}

/// `xmas_elf::program::Flags::is_read`: the `PF_R` bit (4) is set.
#[verifier::external_body]
fn segment_flags_read(flags: u32) -> (r: bool)
    ensures
        r == (flags & 4 == 4),
{
    xmas_elf::program::Flags(flags).is_read()
}

/// `xmas_elf::program::Flags::is_write`: the `PF_W` bit (2) is set.
#[verifier::external_body]
fn segment_flags_write(flags: u32) -> (r: bool)
    ensures
        r == (flags & 2 == 2),
{
    xmas_elf::program::Flags(flags).is_write()
}

/// `xmas_elf::program::Flags::is_execute`: the `PF_X` bit (1) is set.
#[verifier::external_body]
fn segment_flags_execute(flags: u32) -> (r: bool)
    ensures
        r == (flags & 1 == 1),
{
    xmas_elf::program::Flags(flags).is_execute()
}

/// `align_ext::AlignExt::align_down` on `usize`: clears the bits below the
/// alignment, which the crate asserts is a power of two of at least 2.
#[verifier::external_body]
fn align_down_usize(value: usize, align: usize) -> (r: usize)
    requires
        align >= 2,
        align & ((align - 1) as usize) == 0,
    ensures
        r == value & !((align - 1) as usize),
{
    align_ext::AlignExt::align_down(value, align)
}

/// The object is a shared object (`ET_DYN`).
pub fn is_shared_object(header: &Elf32Header) -> (r: bool)
    ensures
        r == (header.type_ == 3),
{
    elf_type_is_shared_object(header.type_)
}

/// Access rights of a segment.
#[derive(Debug, Clone, Copy, PartialEq, Eq, Structural)]
pub struct Permission {
    pub read: bool,
    pub write: bool,
    pub execute: bool,
}

pub fn segment_permission(ph: &ProgramHeader32) -> (r: Permission)
    ensures
        r.read == (ph.flags & 4 == 4),
        r.write == (ph.flags & 2 == 2),
        r.execute == (ph.flags & 1 == 1),
{
    Permission {
        read: segment_flags_read(ph.flags),
        write: segment_flags_write(ph.flags),
        execute: segment_flags_execute(ph.flags),
    }
}

/// `i` is the first header whose file range holds `off`.
pub open spec fn first_covering(phs: Seq<ProgramHeader32>, off: u32, i: int) -> bool {
    &&& 0 <= i <= phs.len()
    &&& i < phs.len() ==> phs[i].offset <= off < phs[i].offset + phs[i].file_size
    &&& forall|j: int|
        0 <= j < i ==> !(#[trigger] phs[j].offset <= off < phs[j].offset + phs[j].file_size)
}

/// No header's file range or address arithmetic overflows 32 bits.
pub open spec fn headers_fit(phs: Seq<ProgramHeader32>, off: u32) -> bool {
    forall|j: int|
        0 <= j < phs.len() ==> #[trigger] phs[j].offset + phs[j].file_size <= u32::MAX && (
        phs[j].offset <= off ==> off - phs[j].offset + phs[j].virtual_addr <= u32::MAX)
}

/// The address at which the program header table is mapped: found through
/// the first segment whose file range holds it; `ENOEXEC` when none does.
pub fn ph_addr(header: &Elf32Header, phs: &Vec<ProgramHeader32>) -> (r: KResult<u32>)
    requires
        headers_fit(phs@, header.ph_offset),
    ensures
        exists|i: int|
            #![trigger first_covering(phs@, header.ph_offset, i)]
            first_covering(phs@, header.ph_offset, i) && r == (if i < phs@.len() {
                Ok::<u32, u32>(
                    (header.ph_offset - phs@[i].offset + phs@[i].virtual_addr) as u32,
                )
            } else {
                Err::<u32, u32>(ENOEXEC)
            }),
{
    let off = header.ph_offset;
    let mut i: usize = 0;
    while i < phs.len()
        invariant
            i <= phs@.len(),
            off == header.ph_offset,
            headers_fit(phs@, off),
            forall|j: int|
                0 <= j < i ==> !(#[trigger] phs@[j].offset <= off < phs@[j].offset
                    + phs@[j].file_size),
        decreases phs@.len() - i,
    {
        let ph = phs[i];
        assert(phs@[i as int] == ph);
        if ph.offset <= off && off < ph.offset + ph.file_size {
            assert(first_covering(phs@, off, i as int));
            return Ok(off - ph.offset + ph.virtual_addr);
        }
        i = i + 1;
    }
    assert(first_covering(phs@, off, i as int));
    Err(ENOEXEC)
}

/// How a loadable segment is mapped.
#[derive(Debug, Clone, Copy, PartialEq, Eq, Structural)]
pub struct SegmentLayout {
    /// First page of the segment.
    pub vmap_start: usize,
    /// Length mapped from the file, whole pages.
    pub file_len: usize,
    /// Offset in the file of the first mapped page.
    pub file_offset: usize,
    /// Bytes of the file mapping that come from the file.
    pub real_file_length: usize,
    /// Length of the whole mapping, whole pages.
    pub vmem_len: usize,
    pub permission: Permission,
}

pub open spec fn page_floor(x: int) -> int {
    x - x % (PAGE_SIZE as int)
}

pub open spec fn page_ceil(x: int) -> int {
    if x % (PAGE_SIZE as int) == 0 {
        x
    } else {
        x - x % (PAGE_SIZE as int) + PAGE_SIZE
    }
}

/// The mapping of a loadable segment at `base`: pages from the one holding
/// its start to the one holding its memory end; the part up to the file end
/// is mapped from the file, the rest is anonymous.
pub fn segment_layout(ph: &ProgramHeader32, base: usize) -> (r: SegmentLayout)
    requires
        base + ph.virtual_addr + ph.mem_size + PAGE_SIZE <= usize::MAX,
        base + ph.virtual_addr + ph.file_size + PAGE_SIZE <= usize::MAX,
    ensures
        ({
            let va = base + ph.virtual_addr;
            let start = page_floor(va);
            &&& r.vmap_start == start
            &&& r.vmem_len == page_ceil(va + ph.mem_size) - start
            &&& r.file_len == page_ceil(va + ph.file_size) - start
            &&& r.real_file_length == va + ph.file_size - start
            &&& r.file_offset == ph.offset - (ph.offset as int) % (PAGE_SIZE as int)
            &&& r.permission == segment_permission_spec(ph.flags)
            &&& r == layout_spec(*ph, base)
        }),
{
    let va = base + ph.virtual_addr as usize;
    let vmem_end = va + ph.mem_size as usize;
    let load_end = va + ph.file_size as usize;
    let start = va - va % PAGE_SIZE;
    let vmem_ceil = if vmem_end % PAGE_SIZE == 0 {
        vmem_end
    } else {
        vmem_end - vmem_end % PAGE_SIZE + PAGE_SIZE
    };
    let load_ceil = if load_end % PAGE_SIZE == 0 {
        load_end
    } else {
        load_end - load_end % PAGE_SIZE + PAGE_SIZE
    };
    let off = ph.offset as usize;
    proof {
        assert(4096usize & ((4096 - 1) as usize) == 0) by (bit_vector);
        assert(off & !((4096 - 1) as usize) == off - off % 4096) by (bit_vector);
    }
    let file_offset = align_down_usize(off, PAGE_SIZE);
    SegmentLayout {
        vmap_start: start,
        file_len: load_ceil - start,
        file_offset,
        real_file_length: load_end - start,
        vmem_len: vmem_ceil - start,
        permission: segment_permission(ph),
    }
}

/// The mapping of a loadable segment at `base`.
pub open spec fn layout_spec(ph: ProgramHeader32, base: usize) -> SegmentLayout {
    let va = base + ph.virtual_addr;
    let start = page_floor(va);
    SegmentLayout {
        vmap_start: start as usize,
        vmem_len: (page_ceil(va + ph.mem_size) - start) as usize,
        file_len: (page_ceil(va + ph.file_size) - start) as usize,
        real_file_length: (va + ph.file_size - start) as usize,
        file_offset: (ph.offset - (ph.offset as int) % (PAGE_SIZE as int)) as usize,
        permission: segment_permission_spec(ph.flags),
    }
}

pub open spec fn segment_permission_spec(flags: u32) -> Permission {
    Permission { read: flags & 4 == 4, write: flags & 2 == 2, execute: flags & 1 == 1 }
}

/// Whether a layout maps part of the file, and whether it needs an
/// anonymous tail (memory size beyond the file's pages).
pub fn segment_mappings(layout: &SegmentLayout) -> (r: (bool, bool))
    ensures
        r == (layout.file_len != 0, layout.vmem_len > layout.file_len),
{
    (layout.file_len != 0, layout.vmem_len > layout.file_len)
}

/// Where the segments of a program are loaded: shared objects at
/// `DYN_BASE_ADDR`, others at their own addresses.
pub fn load_base(header: &Elf32Header) -> (r: usize)
    ensures
        r == (if header.type_ == 3 {
            DYN_BASE_ADDR
        } else {
            0
        }),
{
    if is_shared_object(header) {
        DYN_BASE_ADDR
    } else {
        0
    }
}

/// Where execution starts: at the dynamic linker's entry when there is one,
/// at `base` plus the entry of a shared object, or at the entry itself.
pub fn entry_ip(header: &Elf32Header, elf_base: usize, ldso_entry: Option<usize>) -> (r: usize)
    requires
        elf_base + header.entry_point <= usize::MAX,
    ensures
        r == (match ldso_entry {
            Some(e) => e,
            None => if header.type_ == 3 {
                (elf_base + header.entry_point) as usize
            } else {
                header.entry_point as usize
            },
        }),
{
    match ldso_entry {
        Some(e) => e,
        None => {
            if is_shared_object(header) {
                elf_base + header.entry_point as usize
            } else {
                header.entry_point as usize
            }
        },
    }
}

/// Location in the file of the path of the dynamic linker: the first
/// `PT_INTERP` segment, its bytes without the final NUL.  `ENOEXEC` for a
/// header of undefined type before it.
pub fn interp_location(phs: &Vec<ProgramHeader32>) -> (r: KResult<Option<(usize, usize)>>)
    requires
        forall|j: int| 0 <= j < phs@.len() && (#[trigger] phs@[j]).type_ == PT_INTERP ==> phs@[j].file_size >= 1,
    ensures
        match r {
            Ok(Some((off, len))) => exists|i: int|
                0 <= i < phs@.len() && phs@[i].type_ == PT_INTERP && off == phs@[i].offset && len
                    == phs@[i].file_size - 1 && forall|j: int|
                    0 <= j < i ==> ph_type_known(#[trigger] phs@[j].type_) && phs@[j].type_
                        != PT_INTERP,
            Ok(None) => forall|j: int|
                0 <= j < phs@.len() ==> ph_type_known(#[trigger] phs@[j].type_) && phs@[j].type_
                    != PT_INTERP,
            Err(e) => e == ENOEXEC && exists|i: int|
                0 <= i < phs@.len() && !ph_type_known(phs@[i].type_) && forall|j: int|
                    0 <= j < i ==> ph_type_known(#[trigger] phs@[j].type_) && phs@[j].type_
                        != PT_INTERP,
        },
{
    let mut i: usize = 0;
    while i < phs.len()
        invariant
            i <= phs@.len(),
            forall|j: int| 0 <= j < phs@.len() && (#[trigger] phs@[j]).type_ == PT_INTERP ==> phs@[j].file_size >= 1,
            forall|j: int|
                0 <= j < i ==> ph_type_known(#[trigger] phs@[j].type_) && phs@[j].type_ != PT_INTERP,
        decreases phs@.len() - i,
    {
        let ph = phs[i];
        assert(phs@[i as int] == ph);
        match segment_kind(ph.type_) {
            Err(e) => return Err(e),
            Ok(SegmentKind::Interp) => {
                return Ok(Some((ph.offset as usize, (ph.file_size - 1) as usize)));
            },
            Ok(_) => {},
        }
        i = i + 1;
    }
    Ok(None)
}

pub const AT_NULL: u32 = 0;
pub const AT_PHDR: u32 = 3;
pub const AT_PHENT: u32 = 4;
pub const AT_PHNUM: u32 = 5;
pub const AT_PAGESZ: u32 = 6;
pub const AT_BASE: u32 = 7;
pub const AT_ENTRY: u32 = 9;

/// The auxiliary vector of a program, in increasing key order: where its
/// program headers are, their size and number, the page size, the base of
/// the dynamic linker when there is one, and the entry point.
pub open spec fn aux_vec_spec(phdr: u32, phent: u16, phnum: u16, entry: u32, ldso_base: Option<u32>) -> Seq<
    (u32, u32),
> {
    let head = seq![
        (AT_PHDR, phdr),
        (AT_PHENT, phent as u32),
        (AT_PHNUM, phnum as u32),
        (AT_PAGESZ, PAGE_SIZE as u32),
    ];
    match ldso_base {
        Some(b) => head + seq![(AT_BASE, b), (AT_ENTRY, entry)],
        None => head + seq![(AT_ENTRY, entry)],
    }
}

/// The auxiliary vector for a program loaded at `elf_base` whose program
/// headers sit at `ph_addr` in its image: a shared object's addresses are
/// moved by its base.
pub fn init_aux_vec(header: &Elf32Header, ph_addr: u32, elf_base: usize, ldso_base: Option<usize>) -> (r:
    Vec<(u32, u32)>)
    requires
        header.type_ == 3 ==> (elf_base as u32) + ph_addr <= u32::MAX && (elf_base as u32)
            + header.entry_point <= u32::MAX,
    ensures
        r@ == aux_vec_spec(
            if header.type_ == 3 {
                ((elf_base as u32) + ph_addr) as u32
            } else {
                ph_addr
            },
            header.ph_entry_size,
            header.ph_count,
            if header.type_ == 3 {
                ((elf_base as u32) + header.entry_point) as u32
            } else {
                header.entry_point
            },
            match ldso_base {
                Some(b) => Some(b as u32),
                None => None,
            },
        ),
{
    let shared = is_shared_object(header);
    let base32 = #[verifier::truncate] (elf_base as u32);
    let phdr = if shared {
        base32 + ph_addr
    } else {
        ph_addr
    };
    let entry = if shared {
        base32 + header.entry_point
    } else {
        header.entry_point
    };
    let mut v: Vec<(u32, u32)> = Vec::new();
    v.push((AT_PHDR, phdr));
    v.push((AT_PHENT, header.ph_entry_size as u32));
    v.push((AT_PHNUM, header.ph_count as u32));
    v.push((AT_PAGESZ, PAGE_SIZE as u32));
    match ldso_base {
        Some(b) => {
            v.push((AT_BASE, #[verifier::truncate] (b as u32)));
        },
        None => {},
    }
    v.push((AT_ENTRY, entry));
    assert(v@ =~= aux_vec_spec(
        phdr,
        header.ph_entry_size,
        header.ph_count,
        entry,
        match ldso_base {
            Some(b) => Some(b as u32),
            None => None,
        },
    ));
    v
}

/// The little-endian bytes of a 32-bit word.
pub open spec fn word_bytes(x: u32) -> Seq<u8> {
    seq![x as u8, (x >> 8u32) as u8, (x >> 16u32) as u8, (x >> 24u32) as u8]
}

fn push_word(out: &mut Vec<u8>, x: u32)
    ensures
        final(out)@ == old(out)@ + word_bytes(x),
{
    out.push(#[verifier::truncate] (x as u8));
    out.push(#[verifier::truncate] ((x >> 8) as u8));
    out.push(#[verifier::truncate] ((x >> 16) as u8));
    out.push(#[verifier::truncate] ((x >> 24) as u8));
    assert(final(out)@ =~= old(out)@ + word_bytes(x));
}

/// The strings one after the other, each with its NUL.
pub open spec fn strings_bytes(s: Seq<Vec<u8>>) -> Seq<u8>
    decreases s.len(),
{
    if s.len() == 0 {
        Seq::<u8>::empty()
    } else {
        strings_bytes(s.drop_last()) + s.last()@ + seq![0u8]
    }
}

/// The addresses of the strings when their block starts at `base`.
pub open spec fn string_ptr_bytes(s: Seq<Vec<u8>>, base: int) -> Seq<u8>
    decreases s.len(),
{
    if s.len() == 0 {
        Seq::<u8>::empty()
    } else {
        string_ptr_bytes(s.drop_last(), base) + word_bytes(
            (base + strings_bytes(s.drop_last()).len()) as u32,
        )
    }
}

/// The auxiliary vector as words: each key, then its value.
pub open spec fn aux_bytes(aux: Seq<(u32, u32)>) -> Seq<u8>
    decreases aux.len(),
{
    if aux.len() == 0 {
        Seq::<u8>::empty()
    } else {
        aux_bytes(aux.drop_last()) + word_bytes(aux.last().0) + word_bytes(aux.last().1)
    }
}

/// Size of the pointer area below the strings: auxiliary vector and its
/// terminator, environment and argument pointers and their terminators, and
/// the argument count.
pub open spec fn pointer_area_size(argc: int, envc: int, auxc: int) -> int {
    (auxc + 1) * 8 + (envc + 1) * 4 + (argc + 1) * 4 + 4
}

/// The initial stack of a program, from its lowest byte up to
/// `STACK_BASE_ADDR`, for strings starting at `strings_start` and a stack
/// pointer at `sp`.
pub open spec fn initial_stack_image(
    args: Seq<Vec<u8>>,
    envs: Seq<Vec<u8>>,
    aux: Seq<(u32, u32)>,
    strings_start: int,
    sp: int,
) -> Seq<u8> {
    let all = pointer_area_size(args.len() as int, envs.len() as int, aux.len() as int);
    word_bytes(args.len() as u32) + string_ptr_bytes(args, strings_start) + word_bytes(0)
        + string_ptr_bytes(envs, strings_start + strings_bytes(args).len()) + word_bytes(0)
        + aux_bytes(aux) + word_bytes(AT_NULL) + word_bytes(0) + Seq::new(
        (strings_start - all - sp) as nat,
        |i: int| 0u8,
    ) + strings_bytes(args) + strings_bytes(envs)
}

proof fn lemma_strings_step(s: Seq<Vec<u8>>, i: int)
    requires
        0 <= i < s.len(),
    ensures
        strings_bytes(s.take(i + 1)) == strings_bytes(s.take(i)) + s[i]@ + seq![0u8],
{
    assert(s.take(i + 1).drop_last() =~= s.take(i));
}

proof fn lemma_ptrs_step(s: Seq<Vec<u8>>, base: int, i: int)
    requires
        0 <= i < s.len(),
    ensures
        string_ptr_bytes(s.take(i + 1), base) == string_ptr_bytes(s.take(i), base) + word_bytes(
            (base + strings_bytes(s.take(i)).len()) as u32,
        ),
{
    assert(s.take(i + 1).drop_last() =~= s.take(i));
}

proof fn lemma_aux_step(a: Seq<(u32, u32)>, i: int)
    requires
        0 <= i < a.len(),
    ensures
        aux_bytes(a.take(i + 1)) == aux_bytes(a.take(i)) + word_bytes(a[i].0) + word_bytes(a[i].1),
{
    assert(a.take(i + 1).drop_last() =~= a.take(i));
}

/// Total length of the strings with their NULs, as long as it stays below `limit`.
fn strings_len(s: &Vec<Vec<u8>>, limit: usize) -> (r: Option<usize>)
    ensures
        match r {
            Some(n) => n == strings_bytes(s@).len() && n <= limit,
            None => strings_bytes(s@).len() > limit,
        },
{
    let mut total: usize = 0;
    let mut i: usize = 0;
    while i < s.len()
        invariant
            i <= s@.len(),
            total == strings_bytes(s@.take(i as int)).len(),
            total <= limit,
        decreases s@.len() - i,
    {
        proof {
            lemma_strings_step(s@, i as int);
        }
        let l = s[i].len();
        if l >= limit - total {
            proof {
                lemma_strings_prefix_len(s@, i as int + 1);
            }
            return None;
        }
        total = total + l + 1;
        i = i + 1;
    }
    assert(s@.take(s@.len() as int) =~= s@);
    Some(total)
}

proof fn lemma_strings_prefix_len(s: Seq<Vec<u8>>, i: int)
    requires
        0 <= i <= s.len(),
    ensures
        strings_bytes(s.take(i)).len() <= strings_bytes(s).len(),
    decreases s.len() - i,
{
    if i < s.len() {
        lemma_strings_prefix_len(s, i + 1);
        lemma_strings_step(s, i);
    } else {
        assert(s.take(i) =~= s);
    }
}

fn push_strings(out: &mut Vec<u8>, s: &Vec<Vec<u8>>)
    ensures
        final(out)@ == old(out)@ + strings_bytes(s@),
{
    let mut i: usize = 0;
    let ghost base = out@;
    assert(s@.take(0) =~= Seq::<Vec<u8>>::empty());
    while i < s.len()
        invariant
            i <= s@.len(),
            out@ == base + strings_bytes(s@.take(i as int)),
        decreases s@.len() - i,
    {
        proof {
            lemma_strings_step(s@, i as int);
        }
        crate::mount::append_bytes(out, s[i].as_slice());
        out.push(0u8);
        i = i + 1;
    }
    assert(s@.take(s@.len() as int) =~= s@);
}

fn push_string_ptrs(out: &mut Vec<u8>, s: &Vec<Vec<u8>>, base: usize)
    requires
        base + strings_bytes(s@).len() <= u32::MAX,
    ensures
        final(out)@ == old(out)@ + string_ptr_bytes(s@, base as int),
{
    let mut i: usize = 0;
    let mut off: usize = 0;
    let ghost start = out@;
    assert(s@.take(0) =~= Seq::<Vec<u8>>::empty());
    while i < s.len()
        invariant
            i <= s@.len(),
            base + strings_bytes(s@).len() <= u32::MAX,
            off == strings_bytes(s@.take(i as int)).len(),
            out@ == start + string_ptr_bytes(s@.take(i as int), base as int),
        decreases s@.len() - i,
    {
        proof {
            lemma_ptrs_step(s@, base as int, i as int);
            lemma_strings_step(s@, i as int);
            lemma_strings_prefix_len(s@, i as int + 1);
        }
        push_word(out, (base + off) as u32);
        off = off + s[i].len() + 1;
        i = i + 1;
    }
    assert(s@.take(s@.len() as int) =~= s@);
}

fn push_aux(out: &mut Vec<u8>, aux: &Vec<(u32, u32)>)
    ensures
        final(out)@ == old(out)@ + aux_bytes(aux@),
{
    let mut i: usize = 0;
    let ghost start = out@;
    assert(aux@.take(0) =~= Seq::<(u32, u32)>::empty());
    while i < aux.len()
        invariant
            i <= aux@.len(),
            out@ == start + aux_bytes(aux@.take(i as int)),
        decreases aux@.len() - i,
    {
        proof {
            lemma_aux_step(aux@, i as int);
        }
        let (k, v) = aux[i];
        push_word(out, k);
        push_word(out, v);
        i = i + 1;
    }
    assert(aux@.take(aux@.len() as int) =~= aux@);
}

/// The initial user stack: environment strings at the top, argument
/// strings below them, then (after aligning) the auxiliary vector, the
/// environment and argument pointers and the argument count.  Gives the
/// stack pointer, which is 16-byte aligned, and the bytes from it up to
/// `STACK_BASE_ADDR`.
pub fn build_initial_stack(args: &Vec<Vec<u8>>, envs: &Vec<Vec<u8>>, aux: &Vec<(u32, u32)>) -> (r: (
    usize,
    Vec<u8>,
))
    requires
        strings_bytes(args@).len() + strings_bytes(envs@).len() + pointer_area_size(
            args@.len() as int,
            envs@.len() as int,
            aux@.len() as int,
        ) + 16 <= INIT_STACK_SIZE,
    ensures
        ({
            let strings_start = STACK_BASE_ADDR - strings_bytes(envs@).len() - strings_bytes(
                args@,
            ).len();
            let all = pointer_area_size(args@.len() as int, envs@.len() as int, aux@.len() as int);
            &&& r.0 == (strings_start - all) - (strings_start - all) % 16
            &&& r.0 % 16 == 0
            &&& r.0 >= STACK_BASE_ADDR - INIT_STACK_SIZE
            &&& r.0 + r.1@.len() == STACK_BASE_ADDR
            &&& r.1@ == initial_stack_image(args@, envs@, aux@, strings_start, r.0 as int)
        }),
{
    let env_len = match strings_len(envs, INIT_STACK_SIZE) {
        Some(n) => n,
        None => 0,
    };
    let arg_len = match strings_len(args, INIT_STACK_SIZE) {
        Some(n) => n,
        None => 0,
    };
    let strings_start = STACK_BASE_ADDR - env_len - arg_len;
    let all = (aux.len() + 1) * 8 + (envs.len() + 1) * 4 + (args.len() + 1) * 4 + 4;
    let below = strings_start - all;
    proof {
        assert(16usize & ((16 - 1) as usize) == 0) by (bit_vector);
        assert(below & !((16 - 1) as usize) == below - below % 16) by (bit_vector);
    }
    let sp = align_down_usize(below, 16);
    let mut out: Vec<u8> = Vec::new();
    push_word(&mut out, args.len() as u32);
    push_string_ptrs(&mut out, args, strings_start);
    push_word(&mut out, 0);
    push_string_ptrs(&mut out, envs, strings_start + arg_len);
    push_word(&mut out, 0);
    push_aux(&mut out, aux);
    push_word(&mut out, AT_NULL);
    push_word(&mut out, 0);
    let gap = below - sp;
    let mut g: usize = 0;
    let ghost before_gap = out@;
    while g < gap
        invariant
            g <= gap,
            out@ == before_gap + Seq::new(g as nat, |i: int| 0u8),
        decreases gap - g,
    {
        out.push(0u8);
        assert(before_gap + Seq::new((g + 1) as nat, |i: int| 0u8) =~= before_gap + Seq::new(
            g as nat,
            |i: int| 0u8,
        ).push(0u8));
        g = g + 1;
    }
    push_strings(&mut out, args);
    push_strings(&mut out, envs);
    proof {
        lemma_ptr_area_len(args@, envs@, aux@, strings_start as int);
        assert(out@ =~= initial_stack_image(args@, envs@, aux@, strings_start as int, sp as int));
    }
    (sp, out)
}

proof fn lemma_ptr_bytes_len(s: Seq<Vec<u8>>, base: int)
    ensures
        string_ptr_bytes(s, base).len() == 4 * s.len(),
    decreases s.len(),
{
    if s.len() > 0 {
        lemma_ptr_bytes_len(s.drop_last(), base);
    }
}

proof fn lemma_aux_bytes_len(a: Seq<(u32, u32)>)
    ensures
        aux_bytes(a).len() == 8 * a.len(),
    decreases a.len(),
{
    if a.len() > 0 {
        lemma_aux_bytes_len(a.drop_last());
    }
}

proof fn lemma_ptr_area_len(args: Seq<Vec<u8>>, envs: Seq<Vec<u8>>, aux: Seq<(u32, u32)>, base: int)
    ensures
        4 + string_ptr_bytes(args, base).len() + 4 + string_ptr_bytes(
            envs,
            base + strings_bytes(args).len(),
        ).len() + 4 + aux_bytes(aux).len() + 8 == pointer_area_size(
            args.len() as int,
            envs.len() as int,
            aux.len() as int,
        ),
{
    lemma_ptr_bytes_len(args, base);
    lemma_ptr_bytes_len(envs, base + strings_bytes(args).len());
    lemma_aux_bytes_len(aux);
}

/// A loadable segment fits in the address space when loaded at `base`.
pub open spec fn segment_fits(ph: ProgramHeader32, base: usize) -> bool {
    &&& base + ph.virtual_addr + ph.mem_size + PAGE_SIZE <= usize::MAX
    &&& base + ph.virtual_addr + ph.file_size + PAGE_SIZE <= usize::MAX
}

/// The mappings of the loadable segments, in header order.
pub open spec fn load_layouts(phs: Seq<ProgramHeader32>, base: usize) -> Seq<SegmentLayout>
    decreases phs.len(),
{
    if phs.len() == 0 {
        Seq::<SegmentLayout>::empty()
    } else if phs.last().type_ == PT_LOAD {
        load_layouts(phs.drop_last(), base).push(layout_spec(phs.last(), base))
    } else {
        load_layouts(phs.drop_last(), base)
    }
}

/// The highest end of the loadable segments, zero when there are none.
pub open spec fn segments_end(layouts: Seq<SegmentLayout>) -> int
    decreases layouts.len(),
{
    if layouts.len() == 0 {
        0
    } else {
        let e = layouts.last().vmap_start + layouts.last().vmem_len;
        let rest = segments_end(layouts.drop_last());
        if e > rest {
            e
        } else {
            rest
        }
    }
}

/// The mappings of the loadable segments of a program loaded at `base` and
/// the end of the highest one; `ENOEXEC` when a header has an undefined type.
pub fn load_segments(phs: &Vec<ProgramHeader32>, base: usize) -> (r: KResult<(usize, Vec<SegmentLayout>)>)
    requires
        forall|j: int| 0 <= j < phs@.len() && (#[trigger] phs@[j]).type_ == PT_LOAD ==> segment_fits(phs@[j], base),
    ensures
        (exists|j: int| 0 <= j < phs@.len() && !ph_type_known(#[trigger] phs@[j].type_)) ==> r
            == Err::<(usize, Vec<SegmentLayout>), u32>(ENOEXEC),
        (forall|j: int| 0 <= j < phs@.len() ==> ph_type_known(#[trigger] phs@[j].type_)) ==> r is Ok
            && r->Ok_0.1@ == load_layouts(phs@, base) && r->Ok_0.0 == segments_end(load_layouts(phs@, base)),
{
    let mut layouts: Vec<SegmentLayout> = Vec::new();
    let mut end: usize = 0;
    let mut i: usize = 0;
    assert(phs@.take(0) =~= Seq::<ProgramHeader32>::empty());
    while i < phs.len()
        invariant
            i <= phs@.len(),
            forall|j: int| 0 <= j < phs@.len() && (#[trigger] phs@[j]).type_ == PT_LOAD ==> segment_fits(phs@[j], base),
            forall|j: int| 0 <= j < i ==> ph_type_known(#[trigger] phs@[j].type_),
            layouts@ == load_layouts(phs@.take(i as int), base),
            end == segments_end(layouts@),
        decreases phs@.len() - i,
    {
        let ph = phs[i];
        assert(phs@[i as int] == ph);
        assert(phs@.take(i + 1).drop_last() =~= phs@.take(i as int));
        assert(phs@.take(i + 1).last() == ph);
        match segment_kind(ph.type_) {
            Err(e) => {
                return Err(e);
            },
            Ok(SegmentKind::Load) => {
                let l = segment_layout(&ph, base);
                let e = l.vmap_start + l.vmem_len;
                layouts.push(l);
                assert(layouts@.drop_last() =~= load_layouts(phs@.take(i as int), base));
                if e > end {
                    end = e;
                }
            },
            Ok(_) => {},
        }
        i = i + 1;
    }
    assert(phs@.take(phs@.len() as int) =~= phs@);
    Ok((end, layouts))
}

} // verus!
