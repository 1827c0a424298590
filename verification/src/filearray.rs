//! Per-process file descriptor table.
//!
//! A descriptor always gets the lowest number that is free at or above the
//! requested one, and the table keeps the lowest free number at hand.

use std::collections::BTreeMap;
use vstd::prelude::*;
use vstd::std_specs::iter::IteratorSpec;

use crate::errno::{KResult, EBADF};

verus! {

broadcast use {vstd::std_specs::btree::group_btree_axioms, vstd::laws_cmp::group_laws_cmp};

/// Close-on-exec flag of a descriptor (`FD_CLOEXEC`).
pub const FD_CLOEXEC: u32 = 1;
/// Open flag that asks for a close-on-exec descriptor (`O_CLOEXEC`).
pub const O_CLOEXEC: u32 = 0o2000000;

pub const F_DUPFD: u32 = 0;
pub const F_GETFD: u32 = 1;
pub const F_SETFD: u32 = 2;
pub const F_GETFL: u32 = 3;
pub const F_SETFL: u32 = 4;
pub const F_DUPFD_CLOEXEC: u32 = 1030;

/// A file descriptor number.
#[derive(Debug, Clone, Copy, PartialEq, Eq, Structural, PartialOrd, Ord)]
pub struct FD(pub u32);

/// Identifies an open file description; several descriptors may share one.
#[derive(Debug, Clone, Copy, PartialEq, Eq, Structural)]
pub struct FileId(pub u64);

/// One slot of the table: descriptor flags and the open file it refers to.
#[derive(Debug, Clone, Copy, PartialEq, Eq, Structural)]
pub struct OpenFile {
    pub flags: u32,
    pub file: FileId,
}

/// What `fcntl` leaves to the open file description itself.
#[derive(Debug, Clone, Copy, PartialEq, Eq, Structural)]
pub enum FcntlReply {
    /// The value the system call returns.
    Value(usize),
    /// `F_GETFL`: return the status flags of this file.
    GetFileFlags(FileId),
    /// `F_SETFL`: set the status flags of this file to these bits.
    SetFileFlags(FileId, u32),
}

pub open spec fn fd_cloexec_spec(flags: u32) -> bool {
    flags & FD_CLOEXEC != 0
}

/// Descriptor flags that the open flags `flags` ask for.
pub open spec fn fd_flags_of_open_flags(flags: u32) -> u32 {
    if flags & O_CLOEXEC != 0 { FD_CLOEXEC } else { 0 }
}

/// `f` is the lowest descriptor number at or above `from` that `dom` lacks.
pub open spec fn fd_is_first_free(dom: Set<u32>, from: u32, f: u32) -> bool {
    &&& from <= f
    &&& !dom.contains(f)
    &&& forall|g: u32| from <= g < f ==> #[trigger] dom.contains(g)
}

/// Some number at or above `from` is free.
pub open spec fn has_free_from(dom: Set<u32>, from: u32) -> bool {
    exists|f: u32| from <= f && !dom.contains(f)
}

/// Two numbers are free and the greater one is at or above `from`; this is
/// what allocating at `from` needs so that the next lowest free number can
/// be found again in the `u32` range.
pub open spec fn fds_available_from(dom: Set<u32>, from: u32) -> bool {
    exists|f: u32, g: u32| g < f && from <= f && !dom.contains(f) && !dom.contains(g)
}

/// Three numbers are free.
pub open spec fn three_fds_free(dom: Set<u32>) -> bool {
    exists|a: u32, b: u32, c: u32|
        a < b < c && !dom.contains(a) && !dom.contains(b) && !dom.contains(c)
}

/// Four numbers are free.
pub open spec fn four_fds_free(dom: Set<u32>) -> bool {
    exists|a: u32, b: u32, c: u32, d: u32|
        a < b < c < d && !dom.contains(a) && !dom.contains(b) && !dom.contains(c)
            && !dom.contains(d)
}

/// The lowest free descriptor number at or above a point is unique.
pub proof fn lemma_first_free_unique(dom: Set<u32>, from: u32, a: u32, b: u32)
    requires
        fd_is_first_free(dom, from, a),
        fd_is_first_free(dom, from, b),
    ensures
        a == b,
{
    if a < b {
        assert(dom.contains(a));
    } else if b < a {
        assert(dom.contains(b));
    }
}

/// Taking the lowest free number out of a set with `n + 1` free numbers
/// leaves `n` free numbers, of which the lowest two still qualify.
proof fn lemma_one_more_taken(dom: Set<u32>, taken: u32, n: nat)
    requires
        fd_is_first_free(dom, 0, taken),
        n == 2 ==> three_fds_free(dom),
        n == 3 ==> four_fds_free(dom),
        n == 2 || n == 3,
    ensures
        n == 2 ==> fds_available_from(dom.insert(taken), 0),
        n == 3 ==> three_fds_free(dom.insert(taken)),
{
    let d1 = dom.insert(taken);
    if n == 2 {
        let (a, b, c) = choose|a: u32, b: u32, c: u32|
            a < b < c && !dom.contains(a) && !dom.contains(b) && !dom.contains(c);
        assert(taken <= a) by {
            if a < taken {
                assert(dom.contains(a));
            }
        }
        assert(!d1.contains(c) && !d1.contains(b) && b < c);
    } else {
        let (a, b, c, d) = choose|a: u32, b: u32, c: u32, d: u32|
            a < b < c < d && !dom.contains(a) && !dom.contains(b) && !dom.contains(c)
                && !dom.contains(d);
        assert(taken <= a) by {
            if a < taken {
                assert(dom.contains(a));
            }
        }
        assert(b < c < d && !d1.contains(b) && !d1.contains(c) && !d1.contains(d));
    }
}

impl OpenFile {
    pub fn close_on_exec(&self) -> (r: bool)
        ensures
            r == fd_cloexec_spec(self.flags),
    {
        self.flags & FD_CLOEXEC != 0
    }
}

/// Descriptor flags that the open flags ask for.
pub fn fd_flags_from_open_flags(flags: u32) -> (r: u32)
    ensures
        r == fd_flags_of_open_flags(flags),
{
    if flags & O_CLOEXEC != 0 {
        FD_CLOEXEC
    } else {
        0
    }
}

impl From<u32> for FD {
    fn from(fd: u32) -> (r: FD) {
        FD(fd)
    }
}

impl vstd::std_specs::convert::FromSpecImpl<u32> for FD {
    open spec fn obeys_from_spec() -> bool {
        true
    }

    open spec fn from_spec(v: u32) -> FD {
        FD(v)
    }
}

/// The descriptor table of a process.
pub struct FileArray {
    files: BTreeMap<u32, OpenFile>,
    fd_min_avail: u32,
}

impl View for FileArray {
    type V = Map<u32, OpenFile>;

    closed spec fn view(&self) -> Map<u32, OpenFile> {
        self.files@
    }
}

impl FileArray {
    /// The table is consistent: the cached number is the lowest free one.
    pub closed spec fn wf(&self) -> bool {
        fd_is_first_free(self.files@.dom(), 0, self.fd_min_avail)
    }

    /// The lowest free descriptor number.
    pub closed spec fn min_avail(&self) -> u32 {
        self.fd_min_avail
    }

    /// In a consistent table the cached number is the lowest free one.
    pub proof fn lemma_min_avail(&self)
        requires
            self.wf(),
        ensures
            fd_is_first_free(self@.dom(), 0, self.min_avail()),
    {
    }

    pub fn new() -> (r: Self)
        ensures
            r.wf(),
            r@ == Map::<u32, OpenFile>::empty(),
    {
        FileArray { files: BTreeMap::new(), fd_min_avail: 0 }
    }

    /// A copy of the table, as `fork` makes it.
    pub fn new_cloned(other: &Self) -> (r: Self)
        requires
            other.wf(),
        ensures
            r.wf(),
            r@ == other@,
    {
        FileArray { files: other.files.clone(), fd_min_avail: other.fd_min_avail }
    }

    /// The open file that `fd` refers to.
    pub fn get(&self, fd: FD) -> (r: Option<FileId>)
        ensures
            r == (if self@.contains_key(fd.0) {
                Some(self@[fd.0].file)
            } else {
                None
            }),
    {
        match self.files.get(&fd.0) {
            Some(of) => Some(of.file),
            None => None,
        }
    }

    /// Lowest free number at or above `from`.
    fn find_available(&self, from: u32) -> (r: u32)
        requires
            has_free_from(self.files@.dom(), from),
        ensures
            fd_is_first_free(self.files@.dom(), from, r),
    {
        let ghost w = choose|f: u32| from <= f && !self.files@.dom().contains(f);
        let mut cur = from;
        while self.files.contains_key(&cur)
            invariant
                from <= cur <= w,
                !self.files@.dom().contains(w),
                forall|g: u32| from <= g < cur ==> #[trigger] self.files@.dom().contains(g),
            decreases w - cur,
        {
            cur = cur + 1;
        }
        cur
    }

    /// Allocate the lowest free number at or above `from` and install `of` there.
    fn allocate_insert(&mut self, from: u32, of: OpenFile) -> (r: u32)
        requires
            old(self).wf(),
            fds_available_from(old(self)@.dom(), from),
        ensures
            final(self).wf(),
            fd_is_first_free(old(self)@.dom(), from, r),
            final(self)@ == old(self)@.insert(r, of),
    {
        let ghost dom = self.files@.dom();
        let ghost (wf, wg) = choose|f: u32, g: u32|
            g < f && from <= f && !dom.contains(f) && !dom.contains(g);
        let start = if from > self.fd_min_avail {
            from
        } else {
            self.fd_min_avail
        };
        if start == self.fd_min_avail {
            let allocated = self.fd_min_avail;
            assert(allocated <= wg) by {
                if wg < allocated {
                    assert(dom.contains(wg));
                }
            }
            let next = self.find_available(allocated + 1);
            self.fd_min_avail = next;
            self.files.insert(allocated, of);
            assert forall|g: u32| 0 <= g < next implies #[trigger] self.files@.dom().contains(g) by {
                if g != allocated {
                    assert(dom.contains(g));
                }
            }
            allocated
        } else {
            let r = self.find_available(start);
            self.files.insert(r, of);
            r
        }
    }

    /// Close every descriptor.
    pub fn close_all(&mut self)
        ensures
            final(self).wf(),
            final(self)@ == Map::<u32, OpenFile>::empty(),
    {
        self.files = BTreeMap::new();
        self.fd_min_avail = 0;
    }

    /// Close `fd`; `EBADF` when it is not open.
    pub fn close(&mut self, fd: FD) -> (r: KResult<()>)
        requires
            old(self).wf(),
        ensures
            final(self).wf(),
            match r {
                Ok(()) => old(self)@.contains_key(fd.0) && final(self)@ == old(self)@.remove(fd.0),
                Err(e) => e == EBADF && !old(self)@.contains_key(fd.0) && final(self)@ == old(self)@,
            },
    {
        match self.files.remove(&fd.0) {
            None => Err(EBADF),
            Some(_) => {
                if fd.0 < self.fd_min_avail {
                    self.fd_min_avail = fd.0;
                }
                Ok(())
            },
        }
    }

    /// Close every descriptor that has the close-on-exec flag, as `execve` does.
    pub fn on_exec(&mut self)
        requires
            old(self).wf(),
        ensures
            final(self).wf(),
            forall|fd: u32| #[trigger]
                final(self)@.contains_key(fd) <==> old(self)@.contains_key(fd)
                    && !fd_cloexec_spec(old(self)@[fd].flags),
            forall|fd: u32| #[trigger]
                final(self)@.contains_key(fd) ==> final(self)@[fd] == old(self)@[fd],
    {
        let ghost old_map = self.files@;
        let mut kept: BTreeMap<u32, OpenFile> = BTreeMap::new();
        let entries = self.files.iter();
        let ghost all_entries = entries.remaining();
        let ghost mut n: int = 0;
        for kv in it: entries
            invariant
                old_map == self.files@,
                it.seq() == all_entries,
                all_entries == vstd::std_specs::btree::spec_btree_map_iter(&self.files).remaining(),
                n == it.index(),
                n <= all_entries.len(),
                forall|k: u32| #[trigger]
                    kept@.contains_key(k) ==> old_map.contains_key(k) && kept@[k] == old_map[k]
                        && !fd_cloexec_spec(old_map[k].flags),
                forall|i: int|
                    0 <= i < n ==> (!fd_cloexec_spec((*all_entries[i].1).flags)
                        ==> kept@.contains_key(*(#[trigger] all_entries[i]).0)),
        {
            let (k, v) = kv;
            assert(all_entries[n] == (k, v));
            assert(old_map.contains_key(*all_entries[n].0));
            if !v.close_on_exec() {
                kept.insert(*k, *v);
            }
            proof {
                n = n + 1;
            }
        }
        assert(n == all_entries.len());
        assert forall|k: u32| #[trigger]
            old_map.contains_key(k) && !fd_cloexec_spec(old_map[k].flags) implies kept@.contains_key(
            k,
        ) by {
            assert(all_entries.contains((&k, &old_map[k])));
            let i = choose|i: int| 0 <= i < all_entries.len() && all_entries[i] == (&k, &old_map[k]);
            assert(all_entries[i] == (&k, &old_map[k]));
        }
        self.files = kept;
        assert(!self.files@.dom().contains(self.fd_min_avail));
        let m = self.find_available(0);
        self.fd_min_avail = m;
    }

    /// A new descriptor for the file of `old_fd`, with the same flags, at the
    /// lowest free number; `EBADF` when `old_fd` is not open.
    pub fn dup(&mut self, old_fd: FD) -> (r: KResult<FD>)
        requires
            old(self).wf(),
            fds_available_from(old(self)@.dom(), 0),
        ensures
            final(self).wf(),
            match r {
                Ok(fd) => old(self)@.contains_key(old_fd.0) && fd_is_first_free(
                    old(self)@.dom(),
                    0,
                    fd.0,
                ) && final(self)@ == old(self)@.insert(fd.0, old(self)@[old_fd.0]),
                Err(e) => e == EBADF && !old(self)@.contains_key(old_fd.0) && final(self)@ == old(self)@,
            },
    {
        let of = match self.files.get(&old_fd.0) {
            Some(of) => *of,
            None => return Err(EBADF),
        };
        let fd = self.allocate_insert(0, of);
        Ok(FD(fd))
    }

    /// Make `new_fd` refer to the file of `old_fd` with the descriptor flags
    /// that `flags` ask for, replacing what `new_fd` held; `EBADF` when
    /// `old_fd` is not open.
    pub fn dup_to(&mut self, old_fd: FD, new_fd: FD, flags: u32) -> (r: KResult<FD>)
        requires
            old(self).wf(),
            old(self)@.contains_key(new_fd.0) || fds_available_from(old(self)@.dom(), new_fd.0),
        ensures
            final(self).wf(),
            match r {
                Ok(fd) => old(self)@.contains_key(old_fd.0) && fd == new_fd && final(self)@ == old(self)@.insert(
                    new_fd.0,
                    OpenFile {
                        flags: fd_flags_of_open_flags(flags),
                        file: old(self)@[old_fd.0].file,
                    },
                ),
                Err(e) => e == EBADF && !old(self)@.contains_key(old_fd.0) && final(self)@ == old(self)@,
            },
    {
        let fdflags = fd_flags_from_open_flags(flags);
        let file = match self.files.get(&old_fd.0) {
            Some(of) => of.file,
            None => return Err(EBADF),
        };
        let of = OpenFile { flags: fdflags, file };
        if self.files.contains_key(&new_fd.0) {
            self.files.insert(new_fd.0, of);
            return Ok(new_fd);
        }
        let fd = self.allocate_insert(new_fd.0, of);
        Ok(FD(fd))
    }

    /// Install `file` at the lowest free number with the flags `fdflags`.
    fn install(&mut self, fdflags: u32, file: FileId) -> (r: FD)
        requires
            old(self).wf(),
            fds_available_from(old(self)@.dom(), 0),
        ensures
            final(self).wf(),
            fd_is_first_free(old(self)@.dom(), 0, r.0),
            final(self)@ == old(self)@.insert(r.0, OpenFile { flags: fdflags, file }),
    {
        FD(self.allocate_insert(0, OpenFile { flags: fdflags, file }))
    }

    /// Install the two ends of a new pipe: the read end first, then the write end.
    pub fn pipe(&mut self, flags: u32, read_end: FileId, write_end: FileId) -> (r: KResult<
        (FD, FD),
    >)
        requires
            old(self).wf(),
            three_fds_free(old(self)@.dom()),
        ensures
            final(self).wf(),
            r is Ok,
            ({
                let (rfd, wfd) = r->Ok_0;
                let fl = fd_flags_of_open_flags(flags);
                &&& fd_is_first_free(old(self)@.dom(), 0, rfd.0)
                &&& fd_is_first_free(old(self)@.dom().insert(rfd.0), 0, wfd.0)
                &&& final(self)@ == old(self)@.insert(
                    rfd.0,
                    OpenFile { flags: fl, file: read_end },
                ).insert(wfd.0, OpenFile { flags: fl, file: write_end })
            }),
    {
        let fdflags = fd_flags_from_open_flags(flags);
        proof {
            self.lemma_three_free_gives_two();
        }
        let rfd = self.install(fdflags, read_end);
        proof {
            lemma_one_more_taken(old(self)@.dom(), rfd.0, 2);
        }
        let wfd = self.install(fdflags, write_end);
        Ok((rfd, wfd))
    }

    /// Install a socket file at the lowest free number.
    pub fn socket(&mut self, file: FileId) -> (r: KResult<FD>)
        requires
            old(self).wf(),
            fds_available_from(old(self)@.dom(), 0),
        ensures
            final(self).wf(),
            r is Ok,
            fd_is_first_free(old(self)@.dom(), 0, r->Ok_0.0),
            final(self)@ == old(self)@.insert(r->Ok_0.0, OpenFile { flags: 0, file }),
    {
        Ok(self.install(0, file))
    }

    /// Install an opened file at the lowest free number, with the descriptor
    /// flags that its open flags ask for.
    pub fn open(&mut self, flags: u32, file: FileId) -> (r: KResult<FD>)
        requires
            old(self).wf(),
            fds_available_from(old(self)@.dom(), 0),
        ensures
            final(self).wf(),
            r is Ok,
            fd_is_first_free(old(self)@.dom(), 0, r->Ok_0.0),
            final(self)@ == old(self)@.insert(
                r->Ok_0.0,
                OpenFile { flags: fd_flags_of_open_flags(flags), file },
            ),
    {
        let fdflags = fd_flags_from_open_flags(flags);
        Ok(self.install(fdflags, file))
    }

    /// Install the console as standard input, output and error, each with
    /// the close-on-exec flag.
    pub fn open_console(&mut self, stdin: FileId, stdout: FileId, stderr: FileId) -> (r: (
        FD,
        FD,
        FD,
    ))
        requires
            old(self).wf(),
            four_fds_free(old(self)@.dom()),
        ensures
            final(self).wf(),
            fd_is_first_free(old(self)@.dom(), 0, r.0.0),
            fd_is_first_free(old(self)@.dom().insert(r.0.0), 0, r.1.0),
            fd_is_first_free(old(self)@.dom().insert(r.0.0).insert(r.1.0), 0, r.2.0),
            final(self)@ == old(self)@.insert(r.0.0, OpenFile { flags: FD_CLOEXEC, file: stdin }).insert(
                r.1.0,
                OpenFile { flags: FD_CLOEXEC, file: stdout },
            ).insert(r.2.0, OpenFile { flags: FD_CLOEXEC, file: stderr }),
    {
        proof {
            self.lemma_four_free_gives_three();
            self.lemma_three_free_gives_two();
        }
        let a = self.install(FD_CLOEXEC, stdin);
        proof {
            lemma_one_more_taken(old(self)@.dom(), a.0, 3);
            let d1 = old(self)@.dom().insert(a.0);
            let (x, y, z) = choose|x: u32, y: u32, z: u32|
                x < y < z && !d1.contains(x) && !d1.contains(y) && !d1.contains(z);
            assert(fds_available_from(d1, 0)) by {
                assert(!d1.contains(y) && !d1.contains(x) && x < y);
            }
        }
        let b = self.install(FD_CLOEXEC, stdout);
        proof {
            lemma_one_more_taken(old(self)@.dom().insert(a.0), b.0, 2);
        }
        let c = self.install(FD_CLOEXEC, stderr);
        (a, b, c)
    }

    proof fn lemma_three_free_gives_two(&self)
        requires
            three_fds_free(self@.dom()) || four_fds_free(self@.dom()),
        ensures
            fds_available_from(self@.dom(), 0),
    {
        let dom = self@.dom();
        if three_fds_free(dom) {
            let (a, b, c) = choose|a: u32, b: u32, c: u32|
                a < b < c && !dom.contains(a) && !dom.contains(b) && !dom.contains(c);
            assert(!dom.contains(b) && !dom.contains(a) && a < b);
        } else {
            let (a, b, c, d) = choose|a: u32, b: u32, c: u32, d: u32|
                a < b < c < d && !dom.contains(a) && !dom.contains(b) && !dom.contains(c)
                    && !dom.contains(d);
            assert(!dom.contains(b) && !dom.contains(a) && a < b);
        }
    }

    proof fn lemma_four_free_gives_three(&self)
        requires
            four_fds_free(self@.dom()),
        ensures
            three_fds_free(self@.dom()),
    {
        let dom = self@.dom();
        let (a, b, c, d) = choose|a: u32, b: u32, c: u32, d: u32|
            a < b < c < d && !dom.contains(a) && !dom.contains(b) && !dom.contains(c)
                && !dom.contains(d);
        assert(a < b < c && !dom.contains(a) && !dom.contains(b) && !dom.contains(c));
    }

    /// Descriptor control: `EBADF` for a descriptor that is not open,
    /// whatever the command; otherwise duplicate at or above `arg`, read or
    /// set the descriptor flags, or hand the status flags to the open file.
    pub fn fcntl(&mut self, fd: FD, cmd: u32, arg: usize) -> (r: KResult<FcntlReply>)
        requires
            old(self).wf(),
            old(self)@.contains_key(fd.0) ==> (cmd == F_DUPFD || cmd == F_DUPFD_CLOEXEC || cmd
                == F_GETFD || cmd == F_SETFD || cmd == F_GETFL || cmd == F_SETFL),
            old(self)@.contains_key(fd.0) && (cmd == F_DUPFD || cmd == F_DUPFD_CLOEXEC) ==> fds_available_from(
                old(self)@.dom(),
                arg as u32,
            ),
        ensures
            final(self).wf(),
            !old(self)@.contains_key(fd.0) ==> r == Err::<FcntlReply, u32>(EBADF) && final(self)@
                == old(self)@,
            old(self)@.contains_key(fd.0) ==> {
                let of = old(self)@[fd.0];
                if cmd == F_DUPFD || cmd == F_DUPFD_CLOEXEC {
                    let cloexec = cmd == F_DUPFD_CLOEXEC || fd_cloexec_spec(of.flags);
                    let nf = if cloexec { FD_CLOEXEC } else { 0u32 };
                    match r {
                        Ok(FcntlReply::Value(v)) => v <= u32::MAX && fd_is_first_free(
                            old(self)@.dom(),
                            arg as u32,
                            v as u32,
                        ) && final(self)@ == old(self)@.insert(
                            v as u32,
                            OpenFile { flags: nf, file: of.file },
                        ),
                        _ => false,
                    }
                } else if cmd == F_GETFD {
                    r == Ok::<FcntlReply, u32>(FcntlReply::Value(of.flags as usize)) && final(self)@ == old(self)@
                } else if cmd == F_SETFD {
                    r == Ok::<FcntlReply, u32>(FcntlReply::Value(0)) && final(self)@ == old(self)@.insert(fd.0, OpenFile { flags: (arg as u32) & FD_CLOEXEC, file: of.file })
                } else if cmd == F_GETFL {
                    r == Ok::<FcntlReply, u32>(FcntlReply::GetFileFlags(of.file)) && final(self)@
                        == old(self)@
                } else {
                    r == Ok::<FcntlReply, u32>(FcntlReply::SetFileFlags(of.file, arg as u32))
                        && final(self)@ == old(self)@
                }
            },
    {
        let of = match self.files.get(&fd.0) {
            Some(of) => *of,
            None => return Err(EBADF),
        };
        if cmd == F_DUPFD || cmd == F_DUPFD_CLOEXEC {
            let cloexec = cmd == F_DUPFD_CLOEXEC || of.close_on_exec();
            let flags = if cloexec {
                FD_CLOEXEC
            } else {
                0
            };
            let from = #[verifier::truncate] (arg as u32);
            let n = self.allocate_insert(from, OpenFile { flags, file: of.file });
            Ok(FcntlReply::Value(n as usize))
        } else if cmd == F_GETFD {
            Ok(FcntlReply::Value(of.flags as usize))
        } else if cmd == F_SETFD {
            self.files.insert(fd.0, OpenFile { flags: (arg as u32) & FD_CLOEXEC, file: of.file });
            Ok(FcntlReply::Value(0))
        } else if cmd == F_GETFL {
            Ok(FcntlReply::GetFileFlags(of.file))
        } else {
            Ok(FcntlReply::SetFileFlags(of.file, arg as u32))
        }
    }
}

/// Closing a descriptor below which every number is in use, and then
/// opening a file, gives the closed number back: it is the lowest free one.
pub proof fn law_reopen_gets_closed_fd(files: Map<u32, OpenFile>, fd: u32, r: u32)
    requires
        files.contains_key(fd),
        forall|g: u32| g < fd ==> #[trigger] files.contains_key(g),
        fd_is_first_free(files.remove(fd).dom(), 0, r),
    ensures
        r == fd,
{
    assert(fd_is_first_free(files.remove(fd).dom(), 0, fd)) by {
        assert forall|g: u32| 0 <= g < fd implies #[trigger] files.remove(fd).dom().contains(g) by {
            assert(files.contains_key(g));
        }
    }
    lemma_first_free_unique(files.remove(fd).dom(), 0, r, fd);
}

} // verus!
