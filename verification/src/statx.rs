//! What `statx` reports of an inode, field by field as the caller's mask
//! asks for them.

use vstd::prelude::*;

use crate::errno::KResult;
use crate::timer::Instant;
use crate::types::{format_raw, DeviceId, Format, Ino, Permission};

verus! {

pub const STATX_TYPE: u32 = 0x1;
pub const STATX_MODE: u32 = 0x2;
pub const STATX_NLINK: u32 = 0x4;
pub const STATX_UID: u32 = 0x8;
pub const STATX_GID: u32 = 0x10;
pub const STATX_ATIME: u32 = 0x20;
pub const STATX_MTIME: u32 = 0x40;
pub const STATX_CTIME: u32 = 0x80;
pub const STATX_INO: u32 = 0x100;
pub const STATX_SIZE: u32 = 0x200;
pub const STATX_BLOCKS: u32 = 0x400;

/// The attributes of an inode that change over its life.
#[derive(Debug, Clone, Copy)]
pub struct InodeInfo {
    pub size: u64,
    pub nlink: u64,
    pub uid: u32,
    pub gid: u32,
    pub perm: Permission,
    pub atime: Instant,
    pub ctime: Instant,
    pub mtime: Instant,
}

/// What a mounted filesystem tells of itself.
#[derive(Debug, Clone, Copy)]
pub struct SuperBlockInfo {
    pub io_blksize: u32,
    pub device_id: DeviceId,
    pub read_only: bool,
}

/// The `statx` record handed to user space.
#[derive(Debug, Clone, Copy)]
pub struct StatX {
    pub stx_mask: u32,
    pub stx_blksize: u32,
    pub stx_attributes: u64,
    pub stx_nlink: u32,
    pub stx_uid: u32,
    pub stx_gid: u32,
    pub stx_mode: u16,
    pub stx_ino: u64,
    pub stx_size: u64,
    pub stx_blocks: u64,
    pub stx_attributes_mask: u64,
    pub stx_atime: Instant,
    pub stx_btime: Instant,
    pub stx_ctime: Instant,
    pub stx_mtime: Instant,
    pub stx_rdev_major: u32,
    pub stx_rdev_minor: u32,
    pub stx_dev_major: u32,
    pub stx_dev_minor: u32,
}

/// Number of 512-byte blocks that `size` bytes take, rounded up.
pub open spec fn blocks_of(size: u64) -> u64 {
    (size / 512 + if size % 512 == 0 {
        0int
    } else {
        1int
    }) as u64
}

/// The fields that are filled before the device number of a device file
/// is asked for.
pub open spec fn head_bits(mask: u32) -> u32 {
    mask & (STATX_NLINK | STATX_ATIME | STATX_MTIME | STATX_CTIME | STATX_SIZE | STATX_MODE)
}

/// All the fields that `statx` can fill.
pub open spec fn all_bits(mask: u32) -> u32 {
    mask & (STATX_NLINK | STATX_ATIME | STATX_MTIME | STATX_CTIME | STATX_SIZE | STATX_MODE
        | STATX_TYPE | STATX_INO | STATX_BLOCKS | STATX_UID | STATX_GID)
}

/// The mode reported: permission bits when asked for, format bits when
/// the type is asked for.
pub open spec fn reported_mode(perm: u32, format: Format, mask: u32) -> u16 {
    ((if mask & STATX_MODE != 0 {
        perm
    } else {
        0
    }) | (if mask & STATX_TYPE != 0 {
        format_raw(format)
    } else {
        0
    })) as u16
}

pub open spec fn is_device(format: Format) -> bool {
    format == Format::BLK || format == Format::CHR
}

/// Fill `stat` from an inode: each field that `mask` asks for is set and
/// its bit added to `stx_mask`; the mode is rebuilt from nothing; the
/// filesystem's device number and an empty attribute mask are always set.
/// The type of a block or character device also reports its device
/// number, and fails with the error of `devid` when the inode has none;
/// then only the fields before it have been set.
#[verifier::rlimit(60)]
pub fn inode_statx(
    info: &InodeInfo,
    format: Format,
    ino: Ino,
    devid: KResult<DeviceId>,
    sb: &SuperBlockInfo,
    stat: &mut StatX,
    mask: u32,
) -> (r: KResult<()>)
    ensures
        ({
            let o = *old(stat);
            let f = *final(stat);
            let fails = mask & STATX_TYPE != 0 && is_device(format) && devid is Err;
            &&& fails ==> r == Err::<(), u32>(devid->Err_0)
            &&& !fails ==> r is Ok
            &&& f.stx_nlink == (if mask & STATX_NLINK != 0 {
                info.nlink as u32
            } else {
                o.stx_nlink
            })
            &&& f.stx_atime == (if mask & STATX_ATIME != 0 {
                info.atime
            } else {
                o.stx_atime
            })
            &&& f.stx_mtime == (if mask & STATX_MTIME != 0 {
                info.mtime
            } else {
                o.stx_mtime
            })
            &&& f.stx_ctime == (if mask & STATX_CTIME != 0 {
                info.ctime
            } else {
                o.stx_ctime
            })
            &&& f.stx_size == (if mask & STATX_SIZE != 0 {
                info.size
            } else {
                o.stx_size
            })
            &&& f.stx_mode == reported_mode(info.perm.value(), format, mask)
            &&& f.stx_mask == (if fails {
                o.stx_mask | head_bits(mask)
            } else {
                o.stx_mask | all_bits(mask)
            })
            &&& (!fails && mask & STATX_TYPE != 0 && is_device(format)) ==> f.stx_rdev_major
                == devid->Ok_0.major as u32 && f.stx_rdev_minor == devid->Ok_0.minor as u32
            &&& !(!fails && mask & STATX_TYPE != 0 && is_device(format)) ==> f.stx_rdev_major
                == o.stx_rdev_major && f.stx_rdev_minor == o.stx_rdev_minor
            &&& f.stx_ino == (if !fails && mask & STATX_INO != 0 {
                ino.value()
            } else {
                o.stx_ino
            })
            &&& f.stx_blocks == (if !fails && mask & STATX_BLOCKS != 0 {
                blocks_of(info.size)
            } else {
                o.stx_blocks
            })
            &&& f.stx_blksize == (if !fails && mask & STATX_BLOCKS != 0 {
                sb.io_blksize
            } else {
                o.stx_blksize
            })
            &&& f.stx_uid == (if !fails && mask & STATX_UID != 0 {
                info.uid
            } else {
                o.stx_uid
            })
            &&& f.stx_gid == (if !fails && mask & STATX_GID != 0 {
                info.gid
            } else {
                o.stx_gid
            })
            &&& f.stx_dev_major == (if fails {
                o.stx_dev_major
            } else {
                sb.device_id.major as u32
            })
            &&& f.stx_dev_minor == (if fails {
                o.stx_dev_minor
            } else {
                sb.device_id.minor as u32
            })
            &&& f.stx_attributes_mask == (if fails {
                o.stx_attributes_mask
            } else {
                0
            })
            &&& f.stx_attributes == o.stx_attributes
            &&& f.stx_btime == o.stx_btime
        }),
{
    let ghost m0 = stat.stx_mask;
    let ghost mut acc: u32 = STATX_NLINK;
    if mask & STATX_NLINK != 0 {
        stat.stx_nlink = info.nlink as u32;
        stat.stx_mask = stat.stx_mask | STATX_NLINK;
    }
    proof {
        lemma_mask_first(m0, mask, STATX_NLINK);
    }
    if mask & STATX_ATIME != 0 {
        stat.stx_atime = info.atime;
        stat.stx_mask = stat.stx_mask | STATX_ATIME;
    }
    proof {
        lemma_mask_step(m0, mask, acc, STATX_ATIME);
        acc = acc | STATX_ATIME;
    }
    if mask & STATX_MTIME != 0 {
        stat.stx_mtime = info.mtime;
        stat.stx_mask = stat.stx_mask | STATX_MTIME;
    }
    proof {
        lemma_mask_step(m0, mask, acc, STATX_MTIME);
        acc = acc | STATX_MTIME;
    }
    if mask & STATX_CTIME != 0 {
        stat.stx_ctime = info.ctime;
        stat.stx_mask = stat.stx_mask | STATX_CTIME;
    }
    proof {
        lemma_mask_step(m0, mask, acc, STATX_CTIME);
        acc = acc | STATX_CTIME;
    }
    if mask & STATX_SIZE != 0 {
        stat.stx_size = info.size;
        stat.stx_mask = stat.stx_mask | STATX_SIZE;
    }
    proof {
        lemma_mask_step(m0, mask, acc, STATX_SIZE);
        acc = acc | STATX_SIZE;
    }
    let perm = info.perm.bits();
    let raw = format.as_raw();
    proof {
        lemma_mode_bits(perm, format_raw(format), mask);
    }
    stat.stx_mode = 0;
    if mask & STATX_MODE != 0 {
        stat.stx_mode = stat.stx_mode | (perm as u16);
        stat.stx_mask = stat.stx_mask | STATX_MODE;
    }
    proof {
        lemma_mask_step(m0, mask, acc, STATX_MODE);
        acc = acc | STATX_MODE;
    }
    if mask & STATX_TYPE != 0 {
        stat.stx_mode = stat.stx_mode | (raw as u16);
        match format {
            Format::BLK | Format::CHR => {
                match devid {
                    Ok(d) => {
                        stat.stx_rdev_major = d.major as u32;
                        stat.stx_rdev_minor = d.minor as u32;
                    },
                    Err(e) => return Err(e),
                }
            },
            _ => {},
        }
        stat.stx_mask = stat.stx_mask | STATX_TYPE;
    }
    proof {
        lemma_mask_step(m0, mask, acc, STATX_TYPE);
        acc = acc | STATX_TYPE;
    }
    if mask & STATX_INO != 0 {
        stat.stx_ino = ino.as_raw();
        stat.stx_mask = stat.stx_mask | STATX_INO;
    }
    proof {
        lemma_mask_step(m0, mask, acc, STATX_INO);
        acc = acc | STATX_INO;
    }
    if mask & STATX_BLOCKS != 0 {
        stat.stx_blocks = info.size / 512 + if info.size % 512 == 0 {
            0
        } else {
            1
        };
        stat.stx_blksize = sb.io_blksize;
        stat.stx_mask = stat.stx_mask | STATX_BLOCKS;
    }
    proof {
        lemma_mask_step(m0, mask, acc, STATX_BLOCKS);
        acc = acc | STATX_BLOCKS;
    }
    if mask & STATX_UID != 0 {
        stat.stx_uid = info.uid;
        stat.stx_mask = stat.stx_mask | STATX_UID;
    }
    proof {
        lemma_mask_step(m0, mask, acc, STATX_UID);
        acc = acc | STATX_UID;
    }
    if mask & STATX_GID != 0 {
        stat.stx_gid = info.gid;
        stat.stx_mask = stat.stx_mask | STATX_GID;
    }
    proof {
        lemma_mask_step(m0, mask, acc, STATX_GID);
        acc = acc | STATX_GID;
    }
    stat.stx_dev_major = sb.device_id.major as u32;
    stat.stx_dev_minor = sb.device_id.minor as u32;
    stat.stx_attributes_mask = 0;
    Ok(())
}

/// The first bit asked for starts the set of reported fields.
proof fn lemma_mask_first(m0: u32, mask: u32, bit: u32)
    requires
        bit == 4,
    ensures
        mask & bit != 0 ==> m0 | bit == m0 | (mask & bit),
        mask & bit == 0 ==> m0 == m0 | (mask & bit),
{
    assert(mask & bit != 0 ==> m0 | bit == m0 | (mask & bit)) by (bit_vector)
        requires
            bit == 4,
    ;
    assert(mask & bit == 0 ==> m0 == m0 | (mask & bit)) by (bit_vector);
}

/// Adding a single bit to the mask when `mask` has it keeps the mask
/// equal to the starting one with the asked bits of `acc` and `bit` set.
proof fn lemma_mask_step(m0: u32, mask: u32, acc: u32, bit: u32)
    requires
        bit == 1 || bit == 2 || bit == 4 || bit == 8 || bit == 0x10 || bit == 0x20 || bit == 0x40
            || bit == 0x80 || bit == 0x100 || bit == 0x200 || bit == 0x400,
    ensures
        mask & bit != 0 ==> (m0 | (mask & acc)) | bit == m0 | (mask & (acc | bit)),
        mask & bit == 0 ==> m0 | (mask & acc) == m0 | (mask & (acc | bit)),
{
    assert(mask & bit != 0 ==> (m0 | (mask & acc)) | bit == m0 | (mask & (acc | bit))) by (bit_vector)
        requires
            bit == 1 || bit == 2 || bit == 4 || bit == 8 || bit == 0x10 || bit == 0x20 || bit == 0x40
                || bit == 0x80 || bit == 0x100 || bit == 0x200 || bit == 0x400,
    ;
    assert(mask & bit == 0 ==> m0 | (mask & acc) == m0 | (mask & (acc | bit))) by (bit_vector);
}

/// The mode bits fit in 16 bits and can be or-ed in either width.
proof fn lemma_mode_bits(perm: u32, raw: u32, mask: u32)
    requires
        perm <= 0o7777,
        raw <= 0o170000,
    ensures
        (0u16 | (perm as u16)) == perm as u16,
        ((perm as u16) | 0u16) == perm as u16,
        (0u16 | 0u16) == 0u16,
        ((if mask & STATX_MODE != 0 { perm } else { 0 }) | (if mask & STATX_TYPE != 0 { raw } else { 0 })) as u16
            == ((if mask & STATX_MODE != 0 { perm as u16 } else { 0u16 }) | (if mask & STATX_TYPE != 0 { raw as u16 } else { 0u16 })),
{
    assert((0u16 | (perm as u16)) == perm as u16) by (bit_vector);
    assert(((perm as u16) | 0u16) == perm as u16) by (bit_vector);
    assert((0u16 | 0u16) == 0u16) by (bit_vector);
    assert(((perm | raw) as u16) == ((perm as u16) | (raw as u16))) by (bit_vector);
    assert(((perm | 0u32) as u16) == ((perm as u16) | 0u16)) by (bit_vector);
    assert(((0u32 | raw) as u16) == (0u16 | (raw as u16))) by (bit_vector);
    assert(((0u32 | 0u32) as u16) == (0u16 | 0u16)) by (bit_vector);
}

} // verus!
