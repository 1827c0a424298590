//! The decisions of `sendfile`: the transfer goes through a buffer of one
//! chunk, read from the source and then written to the destination, until
//! `count` bytes are through, the source ends, the destination takes less
//! than a chunk, or a signal arrives.

use vstd::prelude::*;

use crate::errno::{KResult, EINTR};

verus! {

/// What the caller does next.
#[derive(Debug, Clone, Copy, PartialEq, Eq)]
pub enum SendfileStep {
    /// Read up to `len` bytes of the source into the buffer.
    Read { len: usize },
    /// Write the `len` bytes that were read to the destination.
    Write { len: usize },
    /// The transfer is over with this result.
    Done(KResult<usize>),
}

/// The progress of one `sendfile`.
pub struct Sendfile {
    count: usize,
    chunk: usize,
    cur: usize,
    nsent: usize,
    asked: usize,
}

impl Sendfile {
    /// Bytes asked for.
    pub closed spec fn count(&self) -> usize {
        self.count
    }

    /// Size of the buffer.
    pub closed spec fn chunk(&self) -> usize {
        self.chunk
    }

    /// Start of the chunk under way: all bytes before it went through.
    pub closed spec fn cur(&self) -> usize {
        self.cur
    }

    /// Bytes written so far.
    pub closed spec fn nsent(&self) -> usize {
        self.nsent
    }

    /// Length of the chunk under way.
    pub closed spec fn asked(&self) -> usize {
        self.asked
    }

    pub open spec fn wf(&self) -> bool {
        &&& 0 < self.chunk()
        &&& self.cur() <= self.count()
        &&& self.nsent() <= self.cur() + self.asked()
        &&& self.asked() <= self.chunk()
        &&& self.cur() + self.asked() <= self.count()
    }

    /// A transfer of `count` bytes through a buffer of `chunk` bytes.
    pub fn new(count: usize, chunk: usize) -> (r: Sendfile)
        requires
            chunk > 0,
        ensures
            r.wf(),
            r.count() == count,
            r.chunk() == chunk,
            r.cur() == 0,
            r.nsent() == 0,
            r.asked() == 0,
    {
        Sendfile { count, chunk, cur: 0, nsent: 0, asked: 0 }
    }

    /// Start the next chunk: done when all bytes went through; interrupted
    /// by a pending signal (`EINTR` when nothing went through yet, else
    /// the bytes before this chunk); otherwise read the next chunk, which
    /// is a full buffer or the rest.
    pub fn next(&mut self, signal_pending: bool) -> (r: SendfileStep)
        requires
            old(self).wf(),
        ensures
            final(self).wf(),
            final(self).count() == old(self).count(),
            final(self).chunk() == old(self).chunk(),
            final(self).cur() == old(self).cur(),
            final(self).nsent() == old(self).nsent(),
            old(self).cur() == old(self).count() ==> r == SendfileStep::Done(
                Ok::<usize, u32>(old(self).nsent()),
            ) && final(self).asked() == old(self).asked(),
            old(self).cur() < old(self).count() && signal_pending ==> r == SendfileStep::Done(
                if old(self).cur() == 0 {
                    Err::<usize, u32>(EINTR)
                } else {
                    Ok::<usize, u32>(old(self).cur())
                },
            ) && final(self).asked() == old(self).asked(),
            old(self).cur() < old(self).count() && !signal_pending ==> {
                let len = if old(self).count() - old(self).cur() < old(self).chunk() {
                    (old(self).count() - old(self).cur()) as usize
                } else {
                    old(self).chunk()
                };
                r == SendfileStep::Read { len } && final(self).asked() == len && len > 0
            },
    {
        if self.cur == self.count {
            return SendfileStep::Done(Ok(self.nsent));
        }
        if signal_pending {
            return SendfileStep::Done(
                if self.cur == 0 {
                    Err(EINTR)
                } else {
                    Ok(self.cur)
                },
            );
        }
        let rest = self.count - self.cur;
        let len = if rest < self.chunk {
            rest
        } else {
            self.chunk
        };
        self.asked = len;
        SendfileStep::Read { len }
    }

    /// The source gave `nread` bytes of the chunk: an empty read ends the
    /// transfer with the bytes sent so far; otherwise write them.
    pub fn after_read(&self, nread: usize) -> (r: SendfileStep)
        requires
            self.wf(),
        ensures
            r == (if nread == 0 {
                SendfileStep::Done(Ok::<usize, u32>(self.nsent()))
            } else {
                SendfileStep::Write { len: nread }
            }),
    {
        if nread == 0 {
            SendfileStep::Done(Ok(self.nsent))
        } else {
            SendfileStep::Write { len: nread }
        }
    }

    /// The destination took `nwrote` bytes: they count as sent; a chunk
    /// that did not go through whole ends the transfer (`Some` result),
    /// otherwise the next chunk starts after it.
    pub fn after_write(&mut self, nwrote: usize) -> (r: Option<KResult<usize>>)
        requires
            old(self).wf(),
            old(self).asked() > 0,
            old(self).nsent() == old(self).cur(),
            nwrote <= old(self).asked(),
        ensures
            final(self).wf(),
            final(self).count() == old(self).count(),
            final(self).chunk() == old(self).chunk(),
            final(self).nsent() == old(self).nsent() + nwrote,
            nwrote != old(self).asked() ==> r == Some(
                Ok::<usize, u32>((old(self).nsent() + nwrote) as usize),
            ) && final(self).cur() == old(self).cur() && final(self).asked() == old(self).asked(),
            nwrote == old(self).asked() ==> r is None && final(self).cur() == old(self).cur()
                + old(self).asked() && final(self).asked() == 0,
    {
        self.nsent = self.nsent + nwrote;
        if nwrote != self.asked {
            return Some(Ok(self.nsent));
        }
        self.cur = self.cur + self.asked;
        self.asked = 0;
        None
    }
}

} // verus!
