//! Open files: status flags, cursors of inode files, pipes, directory
//! records and the checks made when a file is opened.

use std::collections::VecDeque;
use vstd::prelude::*;

use crate::errno::{
    KResult, EBADF, EEXIST, EINTR, EINVAL, EISDIR, ENOENT, ENOTDIR, ENOTTY, EOVERFLOW, EPIPE, ESPIPE,
};
use crate::types::Format;

verus! {

pub const O_ACCMODE: u32 = 3;
pub const O_RDONLY: u32 = 0;
pub const O_WRONLY: u32 = 1;
pub const O_RDWR: u32 = 2;
pub const O_CREAT: u32 = 0o100;
pub const O_EXCL: u32 = 0o200;
pub const O_NOCTTY: u32 = 0o400;
pub const O_TRUNC: u32 = 0o1000;
pub const O_APPEND: u32 = 0o2000;
pub const O_NONBLOCK: u32 = 0o4000;
pub const O_DIRECTORY: u32 = 0o200000;

pub const TCGETS: u32 = 0x5401;
pub const TCSETS: u32 = 0x5402;
pub const TIOCGPGRP: u32 = 0x540F;
pub const TIOCSPGRP: u32 = 0x5410;
pub const TIOCGWINSZ: u32 = 0x5413;

/// Capacity of a pipe in bytes.
pub const PIPE_SIZE: usize = 4096;

/// The access mode allows reading.
pub open spec fn flags_read(flags: u32) -> bool {
    flags & O_ACCMODE != O_WRONLY
}

/// The access mode allows writing.
pub open spec fn flags_write(flags: u32) -> bool {
    flags & O_ACCMODE == O_WRONLY || flags & O_ACCMODE == O_RDWR
}

pub open spec fn flags_append(flags: u32) -> bool {
    flags & O_APPEND != 0
}

/// Read, write and append permissions of open flags.
pub fn as_rwa(flags: u32) -> (r: (bool, bool, bool))
    ensures
        r == (flags_read(flags), flags_write(flags), flags_append(flags)),
{
    let mode = flags & O_ACCMODE;
    (mode != O_WRONLY, mode == O_WRONLY || mode == O_RDWR, flags & O_APPEND != 0)
}

/// Where a seek lands: at the offset given (`SEEK_SET`), or at the cursor
/// (`SEEK_CUR`) or the size (`SEEK_END`) moved by the signed offset, back
/// or forth, whenever that position is a `usize`; a position below zero
/// or past `usize::MAX` is `EOVERFLOW`.
pub proof fn law_seek_positions(cursor: usize, size: usize, n: usize, off: isize)
    ensures
        seek_target(cursor, size, SeekOption::Absolute(n)) == Ok::<usize, u32>(n),
        0 <= size + off <= usize::MAX ==> seek_target(cursor, size, SeekOption::End(off)) == Ok::<
            usize,
            u32,
        >((size + off) as usize),
        !(0 <= size + off <= usize::MAX) ==> seek_target(cursor, size, SeekOption::End(off))
            == Err::<usize, u32>(EOVERFLOW),
        0 <= cursor + off <= usize::MAX ==> seek_target(cursor, size, SeekOption::Current(off))
            == Ok::<usize, u32>((cursor + off) as usize),
        !(0 <= cursor + off <= usize::MAX) ==> seek_target(cursor, size, SeekOption::Current(off))
            == Err::<usize, u32>(EOVERFLOW),
{
}

/// Poll events.
#[derive(Debug, Clone, Copy, PartialEq, Eq, Structural)]
pub struct PollEvent(pub u16);

pub const POLL_READABLE: u16 = 0x0001;
pub const POLL_WRITABLE: u16 = 0x0002;

impl PollEvent {
    pub fn contains(&self, other: PollEvent) -> (r: bool)
        ensures
            r == (self.0 & other.0 == other.0),
    {
        self.0 & other.0 == other.0
    }
}

/// Where a seek goes.
#[derive(Debug, Clone, Copy, PartialEq, Eq, Structural)]
pub enum SeekOption {
    Absolute(usize),
    Current(isize),
    End(isize),
}

/// `base + off` when it is a `usize`.
pub open spec fn add_signed(base: usize, off: isize) -> Option<usize> {
    let v = base + off;
    if 0 <= v <= usize::MAX {
        Some(v as usize)
    } else {
        None
    }
}

/// `base + off` when it is a `usize`.
pub fn checked_add_signed(base: usize, off: isize) -> (r: Option<usize>)
    ensures
        r == add_signed(base, off),
{
    if off >= 0 {
        let o = off as usize;
        if base > usize::MAX - o {
            None
        } else {
            Some(base + o)
        }
    } else {
        let neg = (-(off + 1)) as usize + 1;
        if neg > base {
            None
        } else {
            Some(base - neg)
        }
    }
}

/// The new cursor of a seek from `cursor` in a file of `size` bytes;
/// `EOVERFLOW` when it falls outside `usize`.
pub open spec fn seek_target(cursor: usize, size: usize, option: SeekOption) -> KResult<usize> {
    match option {
        SeekOption::Absolute(n) => Ok(n),
        SeekOption::Current(off) => match add_signed(cursor, off) {
            Some(v) => Ok(v),
            None => Err(EOVERFLOW),
        },
        SeekOption::End(off) => match add_signed(size, off) {
            Some(v) => Ok(v),
            None => Err(EOVERFLOW),
        },
    }
}

/// Where a write goes.
#[derive(Debug, Clone, Copy, PartialEq, Eq, Structural)]
pub enum WriteOffset {
    /// At this position.
    Position(usize),
    /// At the end of the file.
    End,
}

/// A file opened on an inode.
pub struct InodeFile {
    pub r: bool,
    pub w: bool,
    pub a: bool,
    pub format: Format,
    cursor: usize,
}

impl InodeFile {
    pub closed spec fn cursor(&self) -> usize {
        self.cursor
    }

    pub closed spec fn readable(&self) -> bool {
        self.r
    }

    pub closed spec fn writable(&self) -> bool {
        self.w
    }

    pub closed spec fn appends(&self) -> bool {
        self.a
    }

    pub closed spec fn format_of(&self) -> Format {
        self.format
    }

    pub fn new(flags: u32, format: Format) -> (res: Self)
        ensures
            res.readable() == flags_read(flags),
            res.writable() == flags_write(flags),
            res.appends() == flags_append(flags),
            res.format_of() == format,
            res.cursor() == 0,
    {
        let (r, w, a) = as_rwa(flags);
        InodeFile { r, w, a, format, cursor: 0 }
    }

    /// Only regular files and block devices can be the source of `sendfile`.
    pub fn sendfile_check(&self) -> (res: KResult<()>)
        ensures
            res == (if self.format_of() == Format::REG || self.format_of() == Format::BLK {
                Ok::<(), u32>(())
            } else {
                Err::<(), u32>(EBADF)
            }),
    {
        match self.format {
            Format::REG | Format::BLK => Ok(()),
            _ => Err(EBADF),
        }
    }

    /// Move the cursor; `size` is the size of the file for seeks from the end.
    pub fn seek(&mut self, option: SeekOption, size: usize) -> (res: KResult<usize>)
        ensures
            res == seek_target(old(self).cursor(), size, option),
            match option {
                SeekOption::End(off) => 0 <= size + off <= usize::MAX ==> res == Ok::<usize, u32>(
                    (size + off) as usize,
                ),
                SeekOption::Current(off) => 0 <= old(self).cursor() + off <= usize::MAX ==> res
                    == Ok::<usize, u32>((old(self).cursor() + off) as usize),
                SeekOption::Absolute(n) => res == Ok::<usize, u32>(n),
            },
            match res {
                Ok(c) => final(self).cursor() == c,
                Err(_) => final(self).cursor() == old(self).cursor(),
            },
            final(self).readable() == old(self).readable() && final(self).writable() == old(self).writable() && final(self).appends() == old(self).appends() && final(self).format_of() == old(self).format_of(),
    {
        let new_cursor = match option {
            SeekOption::Current(off) => match checked_add_signed(self.cursor, off) {
                Some(v) => v,
                None => return Err(EOVERFLOW),
            },
            SeekOption::Absolute(n) => n,
            SeekOption::End(off) => match checked_add_signed(size, off) {
                Some(v) => v,
                None => return Err(EOVERFLOW),
            },
        };
        self.cursor = new_cursor;
        Ok(new_cursor)
    }

    /// The position a read starts at; `EBADF` when not opened for reading.
    pub fn read_position(&self, offset: Option<usize>) -> (res: KResult<usize>)
        ensures
            res == (if !self.readable() {
                Err::<usize, u32>(EBADF)
            } else {
                match offset {
                    Some(o) => Ok::<usize, u32>(o),
                    None => Ok::<usize, u32>(self.cursor()),
                }
            }),
    {
        if !self.r {
            return Err(EBADF);
        }
        match offset {
            Some(o) => Ok(o),
            None => Ok(self.cursor),
        }
    }

    /// A read of `nread` bytes finished: a read at the cursor moves it.
    pub fn read_done(&mut self, offset: Option<usize>, nread: usize)
        requires
            offset is None ==> old(self).cursor() + nread <= usize::MAX,
        ensures
            final(self).cursor() == (if offset is None {
                (old(self).cursor() + nread) as usize
            } else {
                old(self).cursor()
            }),
            final(self).readable() == old(self).readable() && final(self).writable() == old(self).writable() && final(self).appends() == old(self).appends() && final(self).format_of() == old(self).format_of(),
    {
        if offset.is_none() {
            self.cursor = self.cursor + nread;
        }
    }

    /// Where a write goes; `EBADF` when not opened for writing.  An append
    /// file writes at the end whatever the offset.
    pub fn write_offset(&self, offset: Option<usize>) -> (res: KResult<WriteOffset>)
        ensures
            res == (if !self.writable() {
                Err::<WriteOffset, u32>(EBADF)
            } else if self.appends() {
                Ok::<WriteOffset, u32>(WriteOffset::End)
            } else {
                match offset {
                    Some(o) => Ok::<WriteOffset, u32>(WriteOffset::Position(o)),
                    None => Ok::<WriteOffset, u32>(WriteOffset::Position(self.cursor())),
                }
            }),
    {
        if !self.w {
            return Err(EBADF);
        }
        if self.a {
            return Ok(WriteOffset::End);
        }
        match offset {
            Some(o) => Ok(WriteOffset::Position(o)),
            None => Ok(WriteOffset::Position(self.cursor)),
        }
    }

    /// A write of `nwrote` bytes finished; an append leaves the cursor at
    /// `end`, the new end of the file, and a write at the cursor moves it.
    pub fn write_done(&mut self, offset: Option<usize>, nwrote: usize, end: usize)
        requires
            !old(self).appends() && offset is None ==> old(self).cursor() + nwrote <= usize::MAX,
        ensures
            final(self).cursor() == (if old(self).appends() {
                end
            } else if offset is None {
                (old(self).cursor() + nwrote) as usize
            } else {
                old(self).cursor()
            }),
            final(self).readable() == old(self).readable() && final(self).writable() == old(self).writable() && final(self).appends() == old(self).appends() && final(self).format_of() == old(self).format_of(),
    {
        if self.a {
            self.cursor = end;
        } else if offset.is_none() {
            self.cursor = self.cursor + nwrote;
        }
    }

    /// Directory records were read: the cursor counts entries.
    pub fn readdir_done(&mut self, nread: usize)
        requires
            old(self).cursor() + nread <= usize::MAX,
        ensures
            final(self).cursor() == old(self).cursor() + nread,
            final(self).readable() == old(self).readable() && final(self).writable() == old(self).writable() && final(self).appends() == old(self).appends() && final(self).format_of() == old(self).format_of(),
    {
        self.cursor = self.cursor + nread;
    }
}

/// What an open file is.
pub enum FileType {
    Inode(InodeFile),
    PipeRead,
    PipeWrite,
    Terminal,
    CharDev,
    Socket,
}

/// An open file description: status flags and what it is.
pub struct File {
    flags: u32,
    file_type: FileType,
}

/// The status flags that `F_SETFL` keeps: not the access mode, nor the
/// creation flags.
pub open spec fn settable_flags(flags: u32) -> u32 {
    flags & !(O_WRONLY | O_RDWR | O_CREAT | O_TRUNC | O_EXCL)
}

impl File {
    pub closed spec fn status(&self) -> u32 {
        self.flags
    }

    pub closed spec fn kind(&self) -> FileType {
        self.file_type
    }

    pub fn new(flags: u32, file_type: FileType) -> (r: Self)
        ensures
            r.status() == flags,
            r.kind() == file_type,
    {
        File { flags, file_type }
    }

    pub fn get_flags(&self) -> (r: u32)
        ensures
            r == self.status(),
    {
        self.flags
    }

    /// `F_SETFL`: the access mode and creation flags are dropped.
    pub fn set_flags(&mut self, flags: u32)
        ensures
            final(self).status() == settable_flags(flags),
            final(self).kind() == old(self).kind(),
    {
        self.flags = flags & !(O_WRONLY | O_RDWR | O_CREAT | O_TRUNC | O_EXCL);
    }

    /// Seek; only inode files have a cursor (`ESPIPE` otherwise).
    pub fn seek(&mut self, option: SeekOption, size: usize) -> (r: KResult<usize>)
        ensures
            match old(self).kind() {
                FileType::Inode(f) => r == seek_target(f.cursor(), size, option),
                _ => r == Err::<usize, u32>(ESPIPE),
            },
            final(self).status() == old(self).status(),
    {
        match &mut self.file_type {
            FileType::Inode(f) => f.seek(option, size),
            _ => Err(ESPIPE),
        }
    }

    /// Directory listing needs an inode file (`ENOTDIR` otherwise).
    pub fn getdents_check(&self) -> (r: KResult<()>)
        ensures
            r == (if self.kind() is Inode {
                Ok::<(), u32>(())
            } else {
                Err::<(), u32>(ENOTDIR)
            }),
    {
        match &self.file_type {
            FileType::Inode(_) => Ok(()),
            _ => Err(ENOTDIR),
        }
    }

    /// `statx` needs an inode file (`EBADF` otherwise).
    pub fn statx_check(&self) -> (r: KResult<()>)
        ensures
            r == (if self.kind() is Inode {
                Ok::<(), u32>(())
            } else {
                Err::<(), u32>(EBADF)
            }),
    {
        match &self.file_type {
            FileType::Inode(_) => Ok(()),
            _ => Err(EBADF),
        }
    }

    /// `ioctl` needs a terminal (`ENOTTY` otherwise).
    pub fn ioctl_check(&self) -> (r: KResult<()>)
        ensures
            r == (if self.kind() is Terminal {
                Ok::<(), u32>(())
            } else {
                Err::<(), u32>(ENOTTY)
            }),
    {
        match &self.file_type {
            FileType::Terminal => Ok(()),
            _ => Err(ENOTTY),
        }
    }

    /// Reading needs an inode, a pipe read end, a terminal or a character
    /// device (`EBADF` otherwise).
    pub fn read_check(&self) -> (r: KResult<()>)
        ensures
            r == (if self.kind() is Inode || self.kind() is PipeRead || self.kind() is Terminal
                || self.kind() is CharDev {
                Ok::<(), u32>(())
            } else {
                Err::<(), u32>(EBADF)
            }),
    {
        match &self.file_type {
            FileType::Inode(_) | FileType::PipeRead | FileType::Terminal | FileType::CharDev => Ok(()),
            _ => Err(EBADF),
        }
    }

    /// Writing needs an inode, a pipe write end, a terminal or a character
    /// device (`EBADF` otherwise).
    pub fn write_check(&self) -> (r: KResult<()>)
        ensures
            r == (if self.kind() is Inode || self.kind() is PipeWrite || self.kind()
                is Terminal || self.kind() is CharDev {
                Ok::<(), u32>(())
            } else {
                Err::<(), u32>(EBADF)
            }),
    {
        match &self.file_type {
            FileType::Inode(_) | FileType::PipeWrite | FileType::Terminal | FileType::CharDev => Ok(()),
            _ => Err(EBADF),
        }
    }
}

/// A write to a terminal goes out in chunks of at most this many bytes.
pub const TERMINAL_WRITE_CHUNK: usize = 128;

/// The size of the next chunk of a terminal write with `left` bytes still
/// to go: all of them when they fit in a chunk, else a full chunk.
pub fn terminal_write_chunk(left: usize) -> (r: usize)
    ensures
        r == (if left <= TERMINAL_WRITE_CHUNK {
            left
        } else {
            TERMINAL_WRITE_CHUNK
        }),
{
    if left <= TERMINAL_WRITE_CHUNK {
        left
    } else {
        TERMINAL_WRITE_CHUNK
    }
}

/// A terminal request of `ioctl`.
#[derive(Debug, Clone, Copy, PartialEq, Eq, Structural)]
pub enum TerminalRequest {
    GetTermios,
    SetTermios,
    GetProcessGroup,
    SetProcessGroup,
    GetWindowSize,
}

/// The terminal request of an `ioctl` code; `EINVAL` for others.
pub fn terminal_request(request: usize) -> (r: KResult<TerminalRequest>)
    ensures
        r == (if request as u32 == TCGETS {
            Ok::<TerminalRequest, u32>(TerminalRequest::GetTermios)
        } else if request as u32 == TCSETS {
            Ok::<TerminalRequest, u32>(TerminalRequest::SetTermios)
        } else if request as u32 == TIOCGPGRP {
            Ok::<TerminalRequest, u32>(TerminalRequest::GetProcessGroup)
        } else if request as u32 == TIOCSPGRP {
            Ok::<TerminalRequest, u32>(TerminalRequest::SetProcessGroup)
        } else if request as u32 == TIOCGWINSZ {
            Ok::<TerminalRequest, u32>(TerminalRequest::GetWindowSize)
        } else {
            Err::<TerminalRequest, u32>(EINVAL)
        }),
{
    let code = #[verifier::truncate] (request as u32);
    if code == TCGETS {
        Ok(TerminalRequest::GetTermios)
    } else if code == TCSETS {
        Ok(TerminalRequest::SetTermios)
    } else if code == TIOCGPGRP {
        Ok(TerminalRequest::GetProcessGroup)
    } else if code == TIOCSPGRP {
        Ok(TerminalRequest::SetProcessGroup)
    } else if code == TIOCGWINSZ {
        Ok(TerminalRequest::GetWindowSize)
    } else {
        Err(EINVAL)
    }
}

/// What opening a file at a dentry does first.
#[derive(Debug, Clone, Copy, PartialEq, Eq, Structural)]
pub enum OpenCheck {
    /// The file exists and may be opened.
    Existing,
    /// The file does not exist and must be created.
    Create,
}

/// `O_CREAT | O_EXCL` on an existing file is `EEXIST`; a missing file
/// without `O_CREAT` is `ENOENT`.
pub fn open_check(exists: bool, flags: u32) -> (r: KResult<OpenCheck>)
    ensures
        r == (if exists {
            if flags & (O_CREAT | O_EXCL) == (O_CREAT | O_EXCL) {
                Err::<OpenCheck, u32>(EEXIST)
            } else {
                Ok::<OpenCheck, u32>(OpenCheck::Existing)
            }
        } else if flags & O_CREAT == 0 {
            Err::<OpenCheck, u32>(ENOENT)
        } else {
            Ok::<OpenCheck, u32>(OpenCheck::Create)
        }),
{
    if exists {
        if flags & (O_CREAT | O_EXCL) == (O_CREAT | O_EXCL) {
            Err(EEXIST)
        } else {
            Ok(OpenCheck::Existing)
        }
    } else if flags & O_CREAT == 0 {
        Err(ENOENT)
    } else {
        Ok(OpenCheck::Create)
    }
}

/// What opening a file of a given format needs.
#[derive(Debug, Clone, Copy, PartialEq, Eq, Structural)]
pub struct OpenPlan {
    /// Truncate the file to zero length first.
    pub truncate: bool,
    /// Open the character device instead of an inode file.
    pub char_device: bool,
}

/// `O_DIRECTORY` on a non-directory is `ENOTDIR`; writing a directory is
/// `EISDIR`; `O_TRUNC` truncates a regular file opened for writing.
pub fn open_plan(flags: u32, format: Format) -> (r: KResult<OpenPlan>)
    ensures
        r == (if flags & O_DIRECTORY != 0 && format != Format::DIR {
            Err::<OpenPlan, u32>(ENOTDIR)
        } else if flags & O_DIRECTORY == 0 && format == Format::DIR && flags_write(flags) {
            Err::<OpenPlan, u32>(EISDIR)
        } else {
            Ok::<OpenPlan, u32>(
                OpenPlan {
                    truncate: flags & O_TRUNC != 0 && flags_write(flags) && format == Format::REG,
                    char_device: format == Format::CHR,
                },
            )
        }),
{
    let (_, write, _) = as_rwa(flags);
    if flags & O_DIRECTORY != 0 {
        if format != Format::DIR {
            return Err(ENOTDIR);
        }
    } else {
        if format == Format::DIR && write {
            return Err(EISDIR);
        }
    }
    Ok(
        OpenPlan {
            truncate: flags & O_TRUNC != 0 && write && format == Format::REG,
            char_device: format == Format::CHR,
        },
    )
}

/// Status flags of the two ends of a new pipe: the read end drops the
/// access mode, the write end is write-only.
pub fn pipe_flags(flags: u32) -> (r: (u32, u32))
    ensures
        r.0 == flags & !(O_WRONLY | O_RDWR),
        r.1 == (flags & !(O_WRONLY | O_RDWR)) | O_WRONLY,
{
    let read_flags = flags & !(O_WRONLY | O_RDWR);
    (read_flags, read_flags | O_WRONLY)
}

/// What a write to a pipe found.
#[derive(Debug, Clone, Copy, PartialEq, Eq, Structural)]
pub enum PipeWrite {
    /// All bytes were queued.
    Written(usize),
    /// The reader is gone: `EPIPE`, and `SIGPIPE` for the writer.
    Broken,
    /// Not enough room: wait for the reader.
    Wait,
}

/// The shared state of a pipe.
pub struct PipeInner {
    buffer: VecDeque<u8>,
    read_closed: bool,
    write_closed: bool,
}

impl PipeInner {
    pub closed spec fn data(&self) -> Seq<u8> {
        self.buffer@
    }

    pub closed spec fn is_read_closed(&self) -> bool {
        self.read_closed
    }

    pub closed spec fn is_write_closed(&self) -> bool {
        self.write_closed
    }

    pub closed spec fn wf(&self) -> bool {
        self.buffer@.len() <= PIPE_SIZE
    }

    pub fn new() -> (r: Self)
        ensures
            r.wf(),
            r.data() == Seq::<u8>::empty(),
            !r.is_read_closed(),
            !r.is_write_closed(),
    {
        PipeInner { buffer: VecDeque::new(), read_closed: false, write_closed: false }
    }

    /// Close the read end; true when it was open (writers must be woken).
    pub fn close_read(&mut self) -> (r: bool)
        ensures
            r == !old(self).is_read_closed(),
            final(self).is_read_closed(),
            final(self).is_write_closed() == old(self).is_write_closed(),
            final(self).data() == old(self).data(),
            final(self).wf() == old(self).wf(),
    {
        if self.read_closed {
            return false;
        }
        self.read_closed = true;
        true
    }

    /// Close the write end; true when it was open (readers must be woken).
    pub fn close_write(&mut self) -> (r: bool)
        ensures
            r == !old(self).is_write_closed(),
            final(self).is_write_closed(),
            final(self).is_read_closed() == old(self).is_read_closed(),
            final(self).data() == old(self).data(),
            final(self).wf() == old(self).wf(),
    {
        if self.write_closed {
            return false;
        }
        self.write_closed = true;
        true
    }

    /// Readiness for a reader: nothing while the pipe is empty and a writer
    /// remains (wait); otherwise readable when data is there and writable
    /// (hang-up) when the writer is gone.
    pub fn poll(&self, event: PollEvent) -> (r: Option<PollEvent>)
        requires
            event.0 & POLL_READABLE == POLL_READABLE,
        ensures
            self.data().len() == 0 && !self.is_write_closed() ==> r is None,
            !(self.data().len() == 0 && !self.is_write_closed()) ==> r == Some(
                PollEvent(
                    ((if self.is_write_closed() {
                        POLL_WRITABLE
                    } else {
                        0u16
                    }) | (if self.data().len() > 0 {
                        POLL_READABLE
                    } else {
                        0u16
                    })) as u16,
                ),
            ),
    {
        if self.buffer.len() == 0 && !self.write_closed {
            return None;
        }
        let w: u16 = if self.write_closed {
            POLL_WRITABLE
        } else {
            0
        };
        let rd: u16 = if self.buffer.len() > 0 {
            POLL_READABLE
        } else {
            0
        };
        Some(PollEvent(w | rd))
    }

    /// A read into a buffer with room for `room` bytes: wait while the pipe
    /// is empty and a writer remains; otherwise take as many bytes as fit,
    /// oldest first (none at end of file).
    pub fn try_read(&mut self, room: usize) -> (r: Option<Vec<u8>>)
        requires
            old(self).wf(),
        ensures
            final(self).wf(),
            final(self).is_read_closed() == old(self).is_read_closed(),
            final(self).is_write_closed() == old(self).is_write_closed(),
            old(self).data().len() == 0 && !old(self).is_write_closed() ==> r is None && final(self).data() == old(self).data(),
            !(old(self).data().len() == 0 && !old(self).is_write_closed()) ==> ({
                let n = if room < old(self).data().len() {
                    room as int
                } else {
                    old(self).data().len() as int
                };
                &&& r is Some
                &&& r->Some_0@ == old(self).data().take(n)
                &&& final(self).data() == old(self).data().skip(n)
            }),
    {
        if self.buffer.len() == 0 && !self.write_closed {
            return None;
        }
        let n = if room < self.buffer.len() {
            room
        } else {
            self.buffer.len()
        };
        let ghost before = self.buffer@;
        let mut out: Vec<u8> = Vec::new();
        let mut i: usize = 0;
        while i < n
            invariant
                i <= n <= before.len(),
                out@ == before.take(i as int),
                self.buffer@ == before.skip(i as int),
                self.read_closed == old(self).read_closed,
                self.write_closed == old(self).write_closed,
            decreases n - i,
        {
            let b = self.buffer.pop_front();
            proof {
                assert(before.skip(i as int)[0] == before[i as int]);
                assert(before.skip(i as int).drop_first() =~= before.skip(i + 1));
                assert(before.take(i + 1) =~= before.take(i as int).push(before[i as int]));
            }
            match b {
                Some(b) => out.push(b),
                None => {},
            }
            i = i + 1;
        }
        Some(out)
    }

    /// An atomic write of `data`: refused when the reader is gone, deferred
    /// while it does not fit, otherwise queued whole.
    pub fn try_write(&mut self, data: &[u8]) -> (r: PipeWrite)
        requires
            old(self).wf(),
        ensures
            final(self).wf(),
            final(self).is_read_closed() == old(self).is_read_closed(),
            final(self).is_write_closed() == old(self).is_write_closed(),
            old(self).is_read_closed() ==> r == PipeWrite::Broken && final(self).data() == old(self).data(),
            !old(self).is_read_closed() && old(self).data().len() + data@.len() > PIPE_SIZE ==> r
                == PipeWrite::Wait && final(self).data() == old(self).data(),
            !old(self).is_read_closed() && old(self).data().len() + data@.len() <= PIPE_SIZE ==> r
                == PipeWrite::Written(data@.len() as usize) && final(self).data() == old(self).data()
                + data@,
    {
        if self.read_closed {
            return PipeWrite::Broken;
        }
        if data.len() > PIPE_SIZE - self.buffer.len() {
            return PipeWrite::Wait;
        }
        let ghost before = self.buffer@;
        let mut i: usize = 0;
        while i < data.len()
            invariant
                i <= data@.len(),
                before.len() + data@.len() <= PIPE_SIZE,
                self.buffer@ == before + data@.take(i as int),
                self.read_closed == old(self).read_closed,
                self.write_closed == old(self).write_closed,
            decreases data@.len() - i,
        {
            self.buffer.push_back(data[i]);
            assert(data@.take(i + 1) =~= data@.take(i as int).push(data@[i as int]));
            i = i + 1;
        }
        assert(data@.take(data@.len() as int) =~= data@);
        PipeWrite::Written(data.len())
    }
}

/// What a pipe write that could not go on returns: `EPIPE` when the reader
/// is gone, `EINTR` when a signal interrupted the wait.
pub fn pipe_write_error(broken: bool) -> (r: u32)
    ensures
        r == (if broken {
            EPIPE
        } else {
            EINTR
        }),
{
    if broken {
        EPIPE
    } else {
        EINTR
    }
}

/// Bytes come out of a pipe in the order they went in: after a write of
/// `x` that fits into a pipe holding `d`, a read with room for everything
/// gives `d` followed by `x` and empties the pipe.
pub proof fn law_pipe_fifo(d: Seq<u8>, x: Seq<u8>, room: usize)
    requires
        d.len() + x.len() <= PIPE_SIZE,
        room >= d.len() + x.len(),
    ensures
        ({
            let after = d + x;
            let n = if room < after.len() {
                room as int
            } else {
                after.len() as int
            };
            &&& after.take(n) == d + x
            &&& after.skip(n) == Seq::<u8>::empty()
        }),
{
    let after = d + x;
    assert(after.take(after.len() as int) =~= d + x);
    assert(after.skip(after.len() as int) =~= Seq::<u8>::empty());
}

} // verus!
