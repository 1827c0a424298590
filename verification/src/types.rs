//! File modes, permissions, device numbers and inode numbers.

use core::cmp::Ordering;
use vstd::prelude::*;
use vstd::std_specs::cmp::PartialOrdSpecImpl;

verus! {

pub const S_IFMT: u32 = 0o170000;
pub const S_IFSOCK: u32 = 0o140000;
pub const S_IFLNK: u32 = 0o120000;
pub const S_IFREG: u32 = 0o100000;
pub const S_IFBLK: u32 = 0o060000;
pub const S_IFDIR: u32 = 0o040000;
pub const S_IFCHR: u32 = 0o020000;
pub const S_IFIFO: u32 = 0o010000;

/// A file mode: format bits and permission bits.
#[derive(Debug, Clone, Copy, PartialEq, Eq, Structural)]
pub struct Mode(u32);

/// The kind of file that a mode describes.
#[derive(Debug, Clone, Copy, PartialEq, Eq, Structural)]
pub enum Format {
    REG,
    DIR,
    LNK,
    BLK,
    CHR,
}

/// Permission bits (the low twelve bits of a mode).
#[derive(Debug, Clone, Copy, PartialEq, Eq, Structural)]
pub struct Permission(u32);

/// The format bits that stand for each format.
pub open spec fn format_raw(f: Format) -> u32 {
    match f {
        Format::REG => S_IFREG,
        Format::DIR => S_IFDIR,
        Format::LNK => S_IFLNK,
        Format::BLK => S_IFBLK,
        Format::CHR => S_IFCHR,
    }
}

/// The format bits name one of the five supported formats.
pub open spec fn is_known_format(bits: u32) -> bool {
    let f = bits & S_IFMT;
    f == S_IFREG || f == S_IFDIR || f == S_IFLNK || f == S_IFBLK || f == S_IFCHR
}

impl Mode {
    pub closed spec fn value(self) -> u32 {
        self.0
    }

    pub fn new(bits: u32) -> (r: Self)
        ensures
            r.value() == bits,
    {
        Mode(bits)
    }

    pub fn is_blk(&self) -> (r: bool)
        ensures
            r == (self.value() & S_IFMT == S_IFBLK),
    {
        (self.0 & S_IFMT) == S_IFBLK
    }

    pub fn is_chr(&self) -> (r: bool)
        ensures
            r == (self.value() & S_IFMT == S_IFCHR),
    {
        (self.0 & S_IFMT) == S_IFCHR
    }

    pub fn bits(&self) -> (r: u32)
        ensures
            r == self.value(),
    {
        self.0
    }

    pub fn format_bits(&self) -> (r: u32)
        ensures
            r == self.value() & S_IFMT,
    {
        self.0 & S_IFMT
    }

    pub fn non_format_bits(&self) -> (r: u32)
        ensures
            r == self.value() & !S_IFMT,
    {
        self.0 & !S_IFMT
    }

    /// The format of the mode; the format bits must name a supported format.
    pub fn format(&self) -> (r: Format)
        requires
            is_known_format(self.value()),
        ensures
            format_raw(r) == self.value() & S_IFMT,
    {
        let f = self.0 & S_IFMT;
        if f == S_IFREG {
            Format::REG
        } else if f == S_IFDIR {
            Format::DIR
        } else if f == S_IFLNK {
            Format::LNK
        } else if f == S_IFBLK {
            Format::BLK
        } else {
            Format::CHR
        }
    }

    /// The permission part of the mode.
    pub fn perm(&self) -> (r: Permission)
        ensures
            r.value() == (self.value() & !S_IFMT) & 0o7777,
    {
        Permission::new(self.non_format_bits())
    }

    /// The mode without its format bits.
    pub fn non_format(&self) -> (r: Self)
        ensures
            r.value() == self.value() & !S_IFMT,
    {
        Self::new(self.non_format_bits())
    }

    /// Keep the format bits and replace everything else by `perm`.
    pub fn set_perm(&mut self, perm: Permission)
        ensures
            final(self).value() == (old(self).value() & S_IFMT) | perm.value(),
    {
        self.0 = self.format_bits() | perm.bits();
    }
}

impl Format {
    pub fn as_raw(&self) -> (r: u32)
        ensures
            r == format_raw(*self),
    {
        match self {
            Format::REG => S_IFREG,
            Format::DIR => S_IFDIR,
            Format::LNK => S_IFLNK,
            Format::BLK => S_IFBLK,
            Format::CHR => S_IFCHR,
        }
    }
}

impl Permission {
    pub closed spec fn value(self) -> u32 {
        self.0
    }

    /// Permission bits of `perm_bits`: everything above the low twelve
    /// bits is dropped.
    pub fn new(perm_bits: u32) -> (r: Self)
        ensures
            r.value() == perm_bits & 0o7777,
    {
        assert((perm_bits & 0o7777) <= 0o7777) by (bit_vector);
        Permission(perm_bits & 0o7777)
    }

    pub fn bits(&self) -> (r: u32)
        ensures
            r == self.value(),
            r <= 0o7777,
    {
        proof {
            use_type_invariant(self);
        }
        self.0
    }

    /// The bits present in both.
    pub fn mask_with(&self, mask: Self) -> (r: Self)
        ensures
            r.value() == self.value() & mask.value(),
    {
        proof {
            use_type_invariant(self);
            let a = self.0;
            let b = mask.0;
            assert((a & b) <= 0o7777) by (bit_vector)
                requires
                    a <= 0o7777,
            ;
        }
        Permission(self.0 & mask.0)
    }

    #[verifier::type_invariant]
    spec fn in_range(self) -> bool {
        self.0 <= 0o7777
    }
}

/// Setting the permission of a mode keeps its format and makes the new
/// permission the one that `perm` reads back.
pub proof fn lemma_set_perm_then_perm(mode_bits: u32, perm_bits: u32)
    requires
        perm_bits <= 0o7777,
    ensures
        ({
            let m = (mode_bits & S_IFMT) | perm_bits;
            &&& m & S_IFMT == mode_bits & S_IFMT
            &&& (m & !S_IFMT) & 0o7777 == perm_bits
        }),
{
    assert(((mode_bits & 0o170000u32) | perm_bits) & 0o170000u32 == mode_bits & 0o170000u32)
        by (bit_vector)
        requires
            perm_bits <= 0o7777,
    ;
    assert(((((mode_bits & 0o170000u32) | perm_bits) & !0o170000u32) & 0o7777u32) == perm_bits)
        by (bit_vector)
        requires
            perm_bits <= 0o7777,
    ;
}

/// The format of a mode made of a format's bits is that format.
pub proof fn lemma_format_round_trip(f: Format)
    ensures
        is_known_format(format_raw(f)),
        format_raw(f) & S_IFMT == format_raw(f),
{
    assert(0o100000u32 & 0o170000u32 == 0o100000u32) by (bit_vector);
    assert(0o040000u32 & 0o170000u32 == 0o040000u32) by (bit_vector);
    assert(0o120000u32 & 0o170000u32 == 0o120000u32) by (bit_vector);
    assert(0o060000u32 & 0o170000u32 == 0o060000u32) by (bit_vector);
    assert(0o020000u32 & 0o170000u32 == 0o020000u32) by (bit_vector);
}

/// A device number: major and minor.
#[derive(Debug, Clone, Copy, PartialEq, Eq, Structural, PartialOrd, Ord, Hash)]
pub struct DeviceId {
    pub major: u16,
    pub minor: u16,
}

/// The 32-bit encoding of a device number: major in the high half.
pub open spec fn device_raw(major: u16, minor: u16) -> u32 {
    ((major as u32) << 16u32) | (minor as u32)
}

impl DeviceId {
    pub fn new(major: u16, minor: u16) -> (r: Self)
        ensures
            r.major == major,
            r.minor == minor,
    {
        DeviceId { major, minor }
    }

    pub fn from_raw(raw: u32) -> (r: Self)
        ensures
            r.major == (raw >> 16u32) as u16,
            r.minor == (raw & 0xFFFF) as u16,
    {
        DeviceId { major: (raw >> 16) as u16, minor: (raw & 0xFFFF) as u16 }
    }

    pub fn to_raw(self) -> (r: u32)
        ensures
            r == device_raw(self.major, self.minor),
    {
        ((self.major as u32) << 16) | (self.minor as u32)
    }
}

/// Encoding a device number and decoding it gives it back, and every
/// 32-bit value is the encoding of the device number it decodes to.
pub proof fn lemma_device_round_trip(major: u16, minor: u16, raw: u32)
    ensures
        (device_raw(major, minor) >> 16u32) as u16 == major,
        (device_raw(major, minor) & 0xFFFF) as u16 == minor,
        device_raw((raw >> 16u32) as u16, (raw & 0xFFFF) as u16) == raw,
{
    let a = major as u32;
    let b = minor as u32;
    assert((((a << 16u32) | b) >> 16u32) == a) by (bit_vector)
        requires
            a <= 0xffff,
            b <= 0xffff,
    ;
    assert((((a << 16u32) | b) & 0xFFFF) == b) by (bit_vector)
        requires
            a <= 0xffff,
            b <= 0xffff,
    ;
    let hi = raw >> 16u32;
    let lo = raw & 0xFFFF;
    assert(hi <= 0xffff && lo <= 0xffff) by (bit_vector)
        requires
            hi == raw >> 16u32,
            lo == raw & 0xFFFF,
    ;
    assert(((hi << 16u32) | lo) == raw) by (bit_vector)
        requires
            hi == raw >> 16u32,
            lo == raw & 0xFFFF,
    ;
}

/// An inode number; inode numbers are ordered as the numbers are.
#[derive(Debug, Clone, Copy, PartialEq, Eq, Structural, Ord, Hash)]
pub struct Ino(u64);

impl PartialOrd for Ino {
    fn partial_cmp(&self, other: &Ino) -> (r: Option<Ordering>) {
        if self.0 < other.0 {
            Some(Ordering::Less)
        } else if self.0 == other.0 {
            Some(Ordering::Equal)
        } else {
            Some(Ordering::Greater)
        }
    }
}

impl PartialOrdSpecImpl for Ino {
    open spec fn obeys_partial_cmp_spec() -> bool {
        true
    }

    open spec fn partial_cmp_spec(&self, other: &Ino) -> Option<Ordering> {
        if self.value() < other.value() {
            Some(Ordering::Less)
        } else if self.value() == other.value() {
            Some(Ordering::Equal)
        } else {
            Some(Ordering::Greater)
        }
    }
}

/// Inode numbers compare as the numbers they hold: less, equal or greater
/// exactly when the numbers are.
pub proof fn law_ino_order(x: Ino, y: Ino)
    ensures
        (vstd::std_specs::cmp::PartialOrdSpec::partial_cmp_spec(&x, &y) == Some(Ordering::Less)) == (
        x.value() < y.value()),
        (vstd::std_specs::cmp::PartialOrdSpec::partial_cmp_spec(&x, &y) == Some(Ordering::Equal)) == (
        x.value() == y.value()),
        (vstd::std_specs::cmp::PartialOrdSpec::partial_cmp_spec(&x, &y) == Some(Ordering::Greater)) == (
        x.value() > y.value()),
{
}

impl Ino {
    pub closed spec fn value(self) -> u64 {
        self.0
    }

    pub fn new(ino: u64) -> (r: Self)
        ensures
            r.value() == ino,
    {
        Ino(ino)
    }

    pub fn as_raw(self) -> (r: u64)
        ensures
            r == self.value(),
    {
        self.0
    }
}

} // verus!
