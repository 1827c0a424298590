//! Directory records as `getdents` and `getdents64` hand them to user
//! space: packed little-endian headers followed by the name.

use vstd::prelude::*;

verus! {

/// Size of the packed header of a `getdents` record: inode, offset and
/// record length.
pub const DIRENT_HEADER: usize = 10;
/// Size of the packed header of a `getdents64` record: inode, offset,
/// record length and type.
pub const DIRENT64_HEADER: usize = 19;

pub open spec fn le_u16(x: u16) -> Seq<u8> {
    seq![(x % 256) as u8, (x / 256) as u8]
}

pub open spec fn le_u32(x: u32) -> Seq<u8> {
    seq![(x % 256) as u8, ((x / 256) % 256) as u8, ((x / 65536) % 256) as u8, (x / 16777216) as u8]
}

pub open spec fn le_u64(x: u64) -> Seq<u8> {
    le_u32((x % 4294967296) as u32) + le_u32((x / 4294967296) as u32)
}

/// Length of the `getdents` record of a name of `len` bytes: the header,
/// the name, its NUL and the type byte (as the record stores it, in 16
/// bits).
pub open spec fn dirent_reclen(len: nat) -> u16 {
    (DIRENT_HEADER + len + 2) as u16
}

/// Length of the `getdents64` record of a name of `len` bytes: the
/// header, the name and its NUL.
pub open spec fn dirent64_reclen(len: nat) -> u16 {
    (DIRENT64_HEADER + len + 1) as u16
}

/// The `getdents` record: inode (low 32 bits), a zero offset, the record
/// length, the name, its NUL and a zero type.
pub open spec fn dirent_record(ino: u64, name: Seq<u8>) -> Seq<u8> {
    le_u32((ino % 4294967296) as u32) + le_u32(0) + le_u16(dirent_reclen(name.len())) + name + seq![
        0u8,
        0u8,
    ]
}

/// The `getdents64` record: inode, a zero offset, the record length, a
/// zero type, the name and its NUL.
pub open spec fn dirent64_record(ino: u64, name: Seq<u8>) -> Seq<u8> {
    le_u64(ino) + le_u64(0) + le_u16(dirent64_reclen(name.len())) + seq![0u8] + name + seq![0u8]
}

fn push_u16(out: &mut Vec<u8>, x: u16)
    ensures
        final(out)@ == old(out)@ + le_u16(x),
{
    out.push((x % 256) as u8);
    out.push((x / 256) as u8);
    assert(final(out)@ =~= old(out)@ + le_u16(x));
}

fn push_u32(out: &mut Vec<u8>, x: u32)
    ensures
        final(out)@ == old(out)@ + le_u32(x),
{
    out.push((x % 256) as u8);
    out.push(((x / 256) % 256) as u8);
    out.push(((x / 65536) % 256) as u8);
    out.push((x / 16777216) as u8);
    assert(final(out)@ =~= old(out)@ + le_u32(x));
}

fn push_u64(out: &mut Vec<u8>, x: u64)
    ensures
        final(out)@ == old(out)@ + le_u64(x),
{
    push_u32(out, (x % 4294967296) as u32);
    push_u32(out, (x / 4294967296) as u32);
    assert(final(out)@ =~= old(out)@ + le_u64(x));
}

fn push_bytes(out: &mut Vec<u8>, bytes: &[u8])
    ensures
        final(out)@ == old(out)@ + bytes@,
{
    let mut i: usize = 0;
    while i < bytes.len()
        invariant
            0 <= i <= bytes@.len(),
            out@ == old(out)@ + bytes@.subrange(0, i as int),
        decreases bytes.len() - i,
    {
        out.push(bytes[i]);
        i += 1;
        assert(out@ =~= old(out)@ + bytes@.subrange(0, i as int));
    }
    assert(bytes@.subrange(0, bytes@.len() as int) =~= bytes@);
}

/// Append the `getdents` record of `name` to `out` when it fits in what
/// is left of `capacity`; false, leaving `out` as it was, when it does
/// not, which ends the listing.
pub fn fill_dirent(out: &mut Vec<u8>, capacity: usize, name: &[u8], ino: u64) -> (r: bool)
    requires
        old(out)@.len() <= capacity,
    ensures
        r == (capacity - old(out)@.len() >= DIRENT_HEADER + name@.len() + 2),
        r ==> final(out)@ == old(out)@ + dirent_record(ino, name@),
        !r ==> final(out)@ == old(out)@,
{
    let available = capacity - out.len();
    if available < DIRENT_HEADER || available - DIRENT_HEADER < name.len() || available
        - DIRENT_HEADER - name.len() < 2 {
        return false;
    }
    let reclen = (DIRENT_HEADER + name.len() + 2) as u16;
    push_u32(out, (ino % 4294967296) as u32);
    push_u32(out, 0);
    push_u16(out, reclen);
    push_bytes(out, name);
    out.push(0);
    out.push(0);
    assert(final(out)@ =~= old(out)@ + dirent_record(ino, name@));
    true
}

/// Append the `getdents64` record of `name` to `out` when it fits in what
/// is left of `capacity`; false, leaving `out` as it was, when it does
/// not, which ends the listing.
pub fn fill_dirent64(out: &mut Vec<u8>, capacity: usize, name: &[u8], ino: u64) -> (r: bool)
    requires
        old(out)@.len() <= capacity,
    ensures
        r == (capacity - old(out)@.len() >= DIRENT64_HEADER + name@.len() + 1),
        r ==> final(out)@ == old(out)@ + dirent64_record(ino, name@),
        !r ==> final(out)@ == old(out)@,
{
    let available = capacity - out.len();
    if available < DIRENT64_HEADER || available - DIRENT64_HEADER < name.len() || available
        - DIRENT64_HEADER - name.len() < 1 {
        return false;
    }
    let reclen = (DIRENT64_HEADER + name.len() + 1) as u16;
    push_u64(out, ino);
    push_u64(out, 0);
    push_u16(out, reclen);
    out.push(0);
    push_bytes(out, name);
    out.push(0);
    assert(final(out)@ =~= old(out)@ + dirent64_record(ino, name@));
    true
}

} // verus!
