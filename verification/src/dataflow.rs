//! Checked ranges of user memory and the bookkeeping of buffers that are
//! filled in user space.

use vstd::prelude::*;

use crate::errno::{KResult, EFAULT, EINVAL};

verus! {

/// Highest address of user space.
pub const USER_MAX_ADDR: u64 = 0x7ff_fff_fff_fff;

/// Longest string read from user space, its NUL included.
pub const USER_STRING_MAX_LEN: usize = 4096;

/// A range of user memory is valid: not at address zero and ending no
/// higher than the top of user space.
pub open spec fn user_range_ok(ptr: usize, len: usize) -> bool {
    ptr != 0 && ptr + len <= usize::MAX && ptr + len <= USER_MAX_ADDR
}

/// A range of user memory that was checked to lie in user space.
#[derive(Debug, Clone, Copy, PartialEq, Eq, Structural)]
pub struct CheckedUserPointer {
    ptr: usize,
    len: usize,
}

impl CheckedUserPointer {
    pub closed spec fn addr(&self) -> usize {
        self.ptr
    }

    pub closed spec fn length(&self) -> usize {
        self.len
    }

    /// Check the range `[ptr, ptr + len)`; `EFAULT` when it is not in user space.
    pub fn new(ptr: usize, len: usize) -> (r: KResult<Self>)
        ensures
            match r {
                Ok(p) => user_range_ok(ptr, len) && p.addr() == ptr && p.length() == len,
                Err(e) => !user_range_ok(ptr, len) && e == EFAULT,
            },
    {
        if ptr == 0 {
            return Err(EFAULT);
        }
        if ptr > usize::MAX - len {
            return Err(EFAULT);
        }
        if len as u64 > USER_MAX_ADDR {
            return Err(EFAULT);
        }
        if ptr as u64 > USER_MAX_ADDR - len as u64 {
            return Err(EFAULT);
        }
        Ok(CheckedUserPointer { ptr, len })
    }

    /// Drop the first `offset` bytes of the range.
    pub fn forward(&mut self, offset: usize)
        requires
            offset <= old(self).length(),
            old(self).addr() + old(self).length() <= usize::MAX,
        ensures
            final(self).addr() == old(self).addr() + offset,
            final(self).length() == old(self).length() - offset,
    {
        self.ptr = self.ptr + offset;
        self.len = self.len - offset;
    }

    pub fn get_const(&self) -> (r: usize)
        ensures
            r == self.addr(),
    {
        self.ptr
    }

    /// A copy of `total` bytes must fit in the range (`EINVAL` otherwise).
    pub fn check_copy(&self, total: usize) -> (r: KResult<()>)
        ensures
            r == (if total > self.length() {
                Err::<(), u32>(EINVAL)
            } else {
                Ok::<(), u32>(())
            }),
    {
        if total > self.len {
            Err(EINVAL)
        } else {
            Ok(())
        }
    }
}

/// A typed pointer into user space.
pub struct UserPointer {
    pointer: CheckedUserPointer,
}

impl UserPointer {
    pub closed spec fn range(&self) -> CheckedUserPointer {
        self.pointer
    }

    /// A pointer to an object of `size` bytes at `ptr`; `EFAULT` when it is
    /// not in user space.
    pub fn new(ptr: usize, size: usize) -> (r: KResult<Self>)
        ensures
            match r {
                Ok(p) => user_range_ok(ptr, size) && p.range().addr() == ptr && p.range().length()
                    == size,
                Err(e) => !user_range_ok(ptr, size) && e == EFAULT,
            },
    {
        let pointer = CheckedUserPointer::new(ptr, size)?;
        Ok(UserPointer { pointer })
    }

    pub fn new_vaddr(vaddr: usize, size: usize) -> (r: KResult<Self>)
        ensures
            match r {
                Ok(p) => user_range_ok(vaddr, size) && p.range().addr() == vaddr
                    && p.range().length() == size,
                Err(e) => !user_range_ok(vaddr, size) && e == EFAULT,
            },
    {
        Self::new(vaddr, size)
    }

    /// The pointer `offset` objects further on.
    pub fn offset(&self, offset: isize) -> (r: KResult<Self>)
        requires
            isize::MIN <= self.range().addr() + offset * self.range().length() <= isize::MAX,
            self.range().addr() <= isize::MAX,
            self.range().length() <= isize::MAX,
            isize::MIN <= offset * self.range().length() <= isize::MAX,
        ensures
            ({
                let target = self.range().addr() + offset * self.range().length();
                match r {
                    Ok(p) => target >= 0 && user_range_ok(target as usize, self.range().length())
                        && p.range().addr() == target as usize && p.range().length()
                        == self.range().length(),
                    Err(e) => e == EFAULT && !(target >= 0 && user_range_ok(
                        target as usize,
                        self.range().length(),
                    )),
                }
            }),
    {
        let size = self.pointer.len;
        let base = self.pointer.ptr as isize;
        let step = offset * (size as isize);
        let target = base + step;
        if target < 0 {
            return Err(EFAULT);
        }
        Self::new_vaddr(target as usize, size)
    }
}

/// How much of a fill went into a buffer.
#[derive(Debug, Clone, Copy, PartialEq, Eq, Structural)]
pub enum FillResult {
    /// Everything, this many bytes.
    Done(usize),
    /// Only this many bytes: the buffer is now full.
    Partial(usize),
    /// Nothing: the buffer was full.
    Full,
}

/// A buffer in user space that is filled from the front.
pub struct UserBuffer {
    ptr: CheckedUserPointer,
    size: usize,
    cur: usize,
}

impl UserBuffer {
    pub closed spec fn total_spec(&self) -> usize {
        self.size
    }

    pub closed spec fn wrote_spec(&self) -> usize {
        self.cur
    }

    /// Address where the next byte goes.
    pub closed spec fn next_addr(&self) -> usize {
        self.ptr.addr()
    }

    pub closed spec fn wf(&self) -> bool {
        &&& self.cur <= self.size
        &&& self.ptr.length() == self.size - self.cur
        &&& self.ptr.addr() + self.ptr.length() <= USER_MAX_ADDR
        &&& self.ptr.addr() + self.ptr.length() <= usize::MAX
    }

    /// A buffer of `size` bytes at `ptr`; `EFAULT` when it is not in user space.
    pub fn new(ptr: usize, size: usize) -> (r: KResult<Self>)
        ensures
            match r {
                Ok(b) => user_range_ok(ptr, size) && b.wf() && b.total_spec() == size
                    && b.wrote_spec() == 0 && b.next_addr() == ptr,
                Err(e) => !user_range_ok(ptr, size) && e == EFAULT,
            },
    {
        let p = CheckedUserPointer::new(ptr, size)?;
        Ok(UserBuffer { ptr: p, size, cur: 0 })
    }

    pub fn remaining(&self) -> (r: usize)
        requires
            self.wf(),
        ensures
            r == self.total_spec() - self.wrote_spec(),
    {
        self.size - self.cur
    }

    pub fn total(&self) -> (r: usize)
        ensures
            r == self.total_spec(),
    {
        self.size
    }

    pub fn wrote(&self) -> (r: usize)
        ensures
            r == self.wrote_spec(),
    {
        self.cur
    }

    /// How many of `len` bytes a fill copies, and where they go.
    pub fn fill_target(&self, len: usize) -> (r: (usize, usize))
        requires
            self.wf(),
        ensures
            r.0 == (if len < self.total_spec() - self.wrote_spec() {
                len
            } else {
                (self.total_spec() - self.wrote_spec()) as usize
            }),
            r.1 == self.next_addr(),
    {
        let rem = self.size - self.cur;
        let n = if len < rem {
            len
        } else {
            rem
        };
        (n, self.ptr.get_const())
    }

    /// Record that `to_write` bytes of a fill of `len` bytes were copied.
    pub fn fill_done(&mut self, len: usize, to_write: usize) -> (r: FillResult)
        requires
            old(self).wf(),
            to_write == (if len < old(self).total_spec() - old(self).wrote_spec() {
                len
            } else {
                (old(self).total_spec() - old(self).wrote_spec()) as usize
            }),
        ensures
            final(self).wf(),
            final(self).total_spec() == old(self).total_spec(),
            final(self).wrote_spec() == old(self).wrote_spec() + to_write,
            final(self).next_addr() == old(self).next_addr() + to_write,
            r == (if to_write == 0 {
                FillResult::Full
            } else if to_write == len {
                FillResult::Done(to_write)
            } else {
                FillResult::Partial(to_write)
            }),
    {
        if to_write == 0 {
            return FillResult::Full;
        }
        self.ptr.forward(to_write);
        self.cur = self.cur + to_write;
        if to_write == len {
            FillResult::Done(to_write)
        } else {
            FillResult::Partial(to_write)
        }
    }
}

/// A NUL-terminated string in user space, at most `USER_STRING_MAX_LEN`
/// bytes long with its NUL.
pub struct UserString {
    ptr: CheckedUserPointer,
    len: usize,
}

impl UserString {
    pub closed spec fn addr(&self) -> usize {
        self.ptr.addr()
    }

    /// Length of the string, its NUL not counted.
    pub closed spec fn length(&self) -> usize {
        self.len
    }

    /// The string at `ptr`, given what the bounded scan for its NUL left
    /// of its count: the `USER_STRING_MAX_LEN` bytes at `ptr` must lie in
    /// user space (`EFAULT`), and zero left means no NUL among them
    /// (`EFAULT`); otherwise the string is as long as the bytes scanned
    /// before the NUL.
    pub fn new(ptr: usize, left: usize) -> (r: KResult<UserString>)
        requires
            left <= USER_STRING_MAX_LEN,
        ensures
            match r {
                Ok(s) => user_range_ok(ptr, USER_STRING_MAX_LEN) && left != 0 && s.addr() == ptr
                    && s.length() == USER_STRING_MAX_LEN - left,
                Err(e) => e == EFAULT && (!user_range_ok(ptr, USER_STRING_MAX_LEN) || left == 0),
            },
    {
        let checked = CheckedUserPointer::new(ptr, USER_STRING_MAX_LEN)?;
        if left == 0 {
            Err(EFAULT)
        } else {
            Ok(UserString { ptr: checked, len: USER_STRING_MAX_LEN - left })
        }
    }

    pub fn len(&self) -> (r: usize)
        ensures
            r == self.length(),
    {
        self.len
    }

    /// Where the string starts; its bytes with the NUL are `len() + 1`
    /// from there.
    pub fn get_const(&self) -> (r: usize)
        ensures
            r == self.addr(),
    {
        self.ptr.get_const()
    }
}

/// The outcome of a copy to or from user memory: `EFAULT` when the copy
/// stopped on a fault with bytes left to copy.
pub fn copy_result(error_bytes: usize) -> (r: KResult<()>)
    ensures
        r == (if error_bytes != 0 {
            Err::<(), u32>(EFAULT)
        } else {
            Ok::<(), u32>(())
        }),
{
    if error_bytes != 0 {
        Err(EFAULT)
    } else {
        Ok(())
    }
}

} // verus!
