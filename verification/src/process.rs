//! Process wait queues, wait statuses and the rules of sessions and
//! process groups.

use std::collections::VecDeque;
use vstd::prelude::*;

use crate::errno::{KResult, ECHILD, EINTR, EPERM, ESRCH};
use crate::signal::{
    is_coredump_signal, raise_effect, RaiseResult, Signal, SignalList, SIGCONT, SIGHUP,
};

verus! {

/// How a child changed state.
#[derive(Debug, Clone, Copy, PartialEq, Eq, Structural)]
pub enum WaitType {
    Exited(u32),
    Signaled(Signal),
    Stopped(Signal),
    Continued,
}

/// A state change of the child `pid`, waiting to be collected.
#[derive(Debug, Clone, Copy, PartialEq, Eq, Structural)]
pub struct WaitObject {
    pub pid: u32,
    pub code: WaitType,
}

/// The `wstatus` word that `wait4` reports for a state change.
pub open spec fn wstatus_of(t: WaitType) -> u32 {
    match t {
        WaitType::Exited(status) => ((status & 0xff) << 8u32) as u32,
        WaitType::Signaled(signal) => if is_coredump_signal(signal.num()) {
            signal.num() | 0x80
        } else {
            signal.num()
        },
        WaitType::Stopped(signal) => 0x7f | ((signal.num() << 8u32) as u32),
        WaitType::Continued => 0xffff,
    }
}

/// The state change is a stop or a continue, which does not end the child.
pub open spec fn is_stop_or_continue(w: WaitObject) -> bool {
    w.code is Stopped || w.code is Continued
}

/// A waiter that asks for stops and continues (or not) accepts this entry.
pub open spec fn wanted(w: WaitObject, want_stop: bool, want_continue: bool) -> bool {
    if w.code is Stopped {
        want_stop
    } else if w.code is Continued {
        want_continue
    } else {
        true
    }
}

/// The wait status of a child killed by a signal is the signal's number,
/// with the core-dump bit 0x80 set exactly for the signals whose default
/// action dumps core: `SIGQUIT`, `SIGILL`, `SIGTRAP`, `SIGABRT`, `SIGBUS`,
/// `SIGFPE`, `SIGSEGV`, `SIGXCPU`, `SIGXFSZ` and `SIGSYS` (3, 4, 5, 6, 7,
/// 8, 11, 24, 25, 31).
pub proof fn law_killed_child_status(s: Signal)
    ensures
        wstatus_of(WaitType::Signaled(s)) == (if s.num() == 3 || s.num() == 4 || s.num() == 5
            || s.num() == 6 || s.num() == 7 || s.num() == 8 || s.num() == 11 || s.num() == 24
            || s.num() == 25 || s.num() == 31 {
            s.num() | 0x80u32
        } else {
            s.num()
        }),
{
}

impl WaitType {
    pub fn to_wstatus(self) -> (r: u32)
        ensures
            r == wstatus_of(self),
    {
        match self {
            WaitType::Exited(status) => (status & 0xff) << 8,
            WaitType::Signaled(signal) => {
                if signal.is_coredump() {
                    signal.to_signum() | 0x80
                } else {
                    signal.to_signum()
                }
            },
            WaitType::Stopped(signal) => {
                let n = signal.to_signum();
                0x7f | (n << 8)
            },
            WaitType::Continued => 0xffff,
        }
    }
}

impl WaitObject {
    /// The signal that stopped the child, when this is a stop.
    pub fn stopped(&self) -> (r: Option<Signal>)
        ensures
            r == (match self.code {
                WaitType::Stopped(s) => Some(s),
                _ => None,
            }),
    {
        match self.code {
            WaitType::Stopped(signal) => Some(signal),
            _ => None,
        }
    }

    pub fn is_continue(&self) -> (r: bool)
        ensures
            r == (self.code is Continued),
    {
        match self.code {
            WaitType::Continued => true,
            _ => false,
        }
    }
}

/// The state changes of a process's children, oldest first.
pub struct WaitList {
    wait_procs: VecDeque<WaitObject>,
}

impl View for WaitList {
    type V = Seq<WaitObject>;

    closed spec fn view(&self) -> Seq<WaitObject> {
        self.wait_procs@
    }
}

/// Index of the first entry that a waiter accepts, or the length when none is.
pub open spec fn first_wanted(s: Seq<WaitObject>, want_stop: bool, want_continue: bool, i: int) -> bool {
    &&& 0 <= i <= s.len()
    &&& i < s.len() ==> wanted(s[i], want_stop, want_continue)
    &&& forall|j: int| 0 <= j < i ==> !wanted(#[trigger] s[j], want_stop, want_continue)
}

impl WaitList {
    pub fn new() -> (r: Self)
        ensures
            r@ == Seq::<WaitObject>::empty(),
    {
        WaitList { wait_procs: VecDeque::new() }
    }

    /// Queue a state change at the back.
    pub fn notify(&mut self, wait: WaitObject)
        ensures
            final(self)@ == old(self)@.push(wait),
    {
        self.wait_procs.push_back(wait);
    }

    /// Take out the oldest entry that the waiter accepts: stops only when
    /// `want_stop`, continues only when `want_continue`, every exit.
    pub fn get(&mut self, want_stop: bool, want_continue: bool) -> (r: Option<WaitObject>)
        ensures
            exists|i: int|
                #![trigger first_wanted(old(self)@, want_stop, want_continue, i)]
                first_wanted(old(self)@, want_stop, want_continue, i) && (if i < old(self)@.len() {
                    r == Some(old(self)@[i]) && final(self)@ == old(self)@.remove(i)
                } else {
                    r is None && final(self)@ == old(self)@
                }),
    {
        let mut i: usize = 0;
        while i < self.wait_procs.len()
            invariant
                i <= self.wait_procs@.len(),
                self.wait_procs@ == old(self)@,
                forall|j: int| 0 <= j < i ==> !wanted(#[trigger] self.wait_procs@[j], want_stop, want_continue),
            decreases self.wait_procs@.len() - i,
        {
            let item = self.wait_procs[i];
            let accept = if item.stopped().is_some() {
                want_stop
            } else if item.is_continue() {
                want_continue
            } else {
                true
            };
            if accept {
                let r = self.wait_procs.remove(i);
                assert(first_wanted(old(self)@, want_stop, want_continue, i as int));
                return r;
            }
            i = i + 1;
        }
        assert(first_wanted(old(self)@, want_stop, want_continue, i as int));
        None
    }

    /// Empty the list and hand back the exits, in order; stops and
    /// continues are not passed on to the new parent.
    pub fn drain_exited(&mut self) -> (r: Vec<WaitObject>)
        ensures
            final(self)@ == Seq::<WaitObject>::empty(),
            r@ == old(self)@.filter(|w: WaitObject| !is_stop_or_continue(w)),
    {
        let mut out: Vec<WaitObject> = Vec::new();
        let ghost all = self.wait_procs@;
        let mut i: usize = 0;
        while i < self.wait_procs.len()
            invariant
                i <= all.len(),
                self.wait_procs@ == all,
                out@ == all.take(i as int).filter(|w: WaitObject| !is_stop_or_continue(w)),
            decreases all.len() - i,
        {
            let item = self.wait_procs[i];
            proof {
                reveal(Seq::filter);
                assert(all.take(i + 1).drop_last() =~= all.take(i as int));
                assert(all.take(i + 1).last() == all[i as int]);
            }
            if item.stopped().is_none() && !item.is_continue() {
                out.push(item);
            }
            i = i + 1;
        }
        assert(all.take(all.len() as int) =~= all);
        self.wait_procs.clear();
        out
    }
}

/// A batch of state changes queued on one waiting process; the waiter is
/// woken and sent `SIGCHLD` once when the batch is finished.
pub struct NotifyBatch {
    pending: Vec<WaitObject>,
}

impl NotifyBatch {
    pub closed spec fn queued(&self) -> Seq<WaitObject> {
        self.pending@
    }

    pub fn new() -> (r: Self)
        ensures
            r.queued() == Seq::<WaitObject>::empty(),
    {
        NotifyBatch { pending: Vec::new() }
    }

    pub fn notify(&mut self, wait: WaitObject)
        ensures
            final(self).queued() == old(self).queued().push(wait),
    {
        self.pending.push(wait);
    }

    /// Append the batch to `list`; true when something was queued, so the
    /// waiter must be woken and sent `SIGCHLD`.
    pub fn finish(self, list: &mut WaitList) -> (r: bool)
        ensures
            final(list)@ == old(list)@ + self.queued(),
            r == (self.queued().len() > 0),
    {
        let mut i: usize = 0;
        let ghost base = list@;
        while i < self.pending.len()
            invariant
                i <= self.pending@.len(),
                list@ == base + self.pending@.take(i as int),
            decreases self.pending@.len() - i,
        {
            list.notify(self.pending[i]);
            assert(self.pending@.take(i + 1) == self.pending@.take(i as int).push(self.pending@[i as int]));
            i = i + 1;
        }
        assert(self.pending@.take(self.pending@.len() as int) =~= self.pending@);
        self.pending.len() > 0
    }
}

/// The next thing `wait4` does.
#[derive(Debug, Clone, Copy, PartialEq, Eq, Structural)]
pub enum WaitStep {
    /// Report this change; reap the child when it is an exit.
    Report { object: WaitObject, reap: bool },
    /// Nothing to report and no child: `ECHILD`.
    NoChild,
    /// Nothing to report and the caller does not block.
    WouldBlock,
    /// Sleep until a child changes state.
    Sleep,
}

/// The decision of one round of `wait4`, given the entry that the wait list
/// gave (if any), whether the process has children, and `WNOHANG`.
pub fn wait_step(found: Option<WaitObject>, has_children: bool, no_block: bool) -> (r: WaitStep)
    ensures
        r == (match found {
            Some(object) => WaitStep::Report { object, reap: !is_stop_or_continue(object) },
            None => if !has_children {
                WaitStep::NoChild
            } else if no_block {
                WaitStep::WouldBlock
            } else {
                WaitStep::Sleep
            },
        }),
{
    match found {
        Some(object) => {
            let reap = object.stopped().is_none() && !object.is_continue();
            WaitStep::Report { object, reap }
        },
        None => {
            if !has_children {
                WaitStep::NoChild
            } else if no_block {
                WaitStep::WouldBlock
            } else {
                WaitStep::Sleep
            }
        },
    }
}

/// A waiter that slept until a child changed state goes on looking, unless
/// a signal arrived meanwhile: then the wait ends with `EINTR`.
pub fn after_sleep(signal_pending: bool) -> (r: KResult<()>)
    ensures
        r == (if signal_pending {
            Err::<(), u32>(EINTR)
        } else {
            Ok::<(), u32>(())
        }),
{
    if signal_pending {
        Err(EINTR)
    } else {
        Ok(())
    }
}

/// What `wait4` returns for a step that ends it: `ECHILD` without
/// children, nothing for a non-blocking wait.
pub fn wait_result(step: WaitStep) -> (r: KResult<Option<WaitObject>>)
    requires
        !(step is Sleep),
    ensures
        r == (match step {
            WaitStep::Report { object, .. } => Ok::<Option<WaitObject>, u32>(Some(object)),
            WaitStep::NoChild => Err::<Option<WaitObject>, u32>(ECHILD),
            _ => Ok::<Option<WaitObject>, u32>(None),
        }),
{
    match step {
        WaitStep::Report { object, .. } => Ok(Some(object)),
        WaitStep::NoChild => Err(ECHILD),
        _ => Ok(None),
    }
}

/// How `setpgid` changes the group of a process.
#[derive(Debug, Clone, Copy, PartialEq, Eq, Structural)]
pub enum SetPgidPlan {
    /// The process is already in the group.
    Unchanged,
    /// Move the process into the existing group.
    JoinExisting,
    /// Create the group, led by the process.
    CreateGroup,
}

/// The outcome of moving process `pid` (in session `sid`, group
/// `cur_pgid`) to group `pgid`, `target_session` being the session of
/// group `pgid` when it exists.
pub open spec fn setpgid_plan_spec(pid: u32, sid: u32, cur_pgid: u32, pgid: u32, target_session: Option<
    u32,
>) -> KResult<SetPgidPlan> {
    (if sid == pid {
            Err::<SetPgidPlan, u32>(EPERM)
        } else {
            match target_session {
                Some(tsid) => if tsid != sid {
                    Err::<SetPgidPlan, u32>(EPERM)
                } else if pgid == cur_pgid {
                    Ok::<SetPgidPlan, u32>(SetPgidPlan::Unchanged)
                } else {
                    Ok::<SetPgidPlan, u32>(SetPgidPlan::JoinExisting)
                },
                None => if pgid != pid {
                    Err::<SetPgidPlan, u32>(EPERM)
                } else {
                    Ok::<SetPgidPlan, u32>(SetPgidPlan::CreateGroup)
                },
            }
        })
}

/// The rules of moving process `pid` (in session `sid`, group `cur_pgid`)
/// to group `pgid`: a session leader cannot move; an existing group must be
/// in the same session; a new group can only be one led by the process.
/// `target_session` is the session of the group `pgid` when it exists.
pub fn setpgid_plan(pid: u32, sid: u32, cur_pgid: u32, pgid: u32, target_session: Option<u32>) -> (r:
    KResult<SetPgidPlan>)
    ensures
        r == setpgid_plan_spec(pid, sid, cur_pgid, pgid, target_session),
{
    if sid == pid {
        return Err(EPERM);
    }
    match target_session {
        Some(tsid) => {
            if tsid != sid {
                Err(EPERM)
            } else if pgid == cur_pgid {
                Ok(SetPgidPlan::Unchanged)
            } else {
                Ok(SetPgidPlan::JoinExisting)
            }
        },
        None => {
            if pgid != pid {
                Err(EPERM)
            } else {
                Ok(SetPgidPlan::CreateGroup)
            }
        },
    }
}

/// The outcome of the permission checks of `setpgid(pid, ...)` issued by
/// `caller`.
pub open spec fn setpgid_target_spec(caller: u32, caller_sid: u32, pid: u32, child_session: Option<
    u32,
>) -> KResult<()> {
    (if pid == caller {
            Ok::<(), u32>(())
        } else {
            match child_session {
                None => Err::<(), u32>(ESRCH),
                Some(csid) => if csid != caller_sid {
                    Err::<(), u32>(EPERM)
                } else {
                    Ok::<(), u32>(())
                },
            }
        })
}

/// The permission checks of `setpgid(pid, ...)` issued by process
/// `caller`: the target is the caller or one of its children (`ESRCH`
/// otherwise) in the caller's session (`EPERM` otherwise).
/// `child_session` is the session of the child `pid` when it is a child.
pub fn setpgid_target_check(caller: u32, caller_sid: u32, pid: u32, child_session: Option<u32>) -> (r:
    KResult<()>)
    ensures
        r == setpgid_target_spec(caller, caller_sid, pid, child_session),
{
    if pid == caller {
        return Ok(());
    }
    match child_session {
        None => Err(ESRCH),
        Some(csid) => {
            if csid != caller_sid {
                Err(EPERM)
            } else {
                Ok(())
            }
        },
    }
}

/// `setsid` is refused with `EPERM` when a session with the caller's id
/// already exists.
pub fn setsid_check(session_exists: bool) -> (r: KResult<()>)
    ensures
        r == (if session_exists {
            Err::<(), u32>(EPERM)
        } else {
            Ok::<(), u32>(())
        }),
{
    if session_exists {
        Err(EPERM)
    } else {
        Ok(())
    }
}

/// The first thread whose mask does not block the signal is the one that
/// takes it.
pub open spec fn first_unblocked<W>(threads: Seq<SignalList<W>>, n: u32, i: int) -> bool {
    &&& 0 <= i <= threads.len()
    &&& i < threads.len() ==> !threads[i].blocked().has(n)
    &&& forall|j: int| 0 <= j < i ==> (#[trigger] threads[j]).blocked().has(n)
}

/// The signal states `post` of the threads of a process after `signal`
/// was sent to it (their states were `pre`, the waker `w` came back): the
/// first thread that does not block it takes it as `raise_effect` says,
/// the others are as they were; when every thread blocks it, nothing
/// changes.
pub open spec fn process_raised<W>(pre: Seq<SignalList<W>>, post: Seq<SignalList<W>>, signal: Signal, w: Option<W>) -> bool {
    &&& post.len() == pre.len()
    &&& exists|i: int|
        #![trigger first_unblocked(pre, signal.num(), i)]
        first_unblocked(pre, signal.num(), i) && (if i < pre.len() {
            raise_effect(pre[i], post[i], signal, w) && forall|j: int|
                0 <= j < pre.len() && j != i ==> #[trigger] post[j] == pre[j]
        } else {
            w is None && post == pre
        })
}

/// Send `signal` to a process: offer it to its threads in order until one
/// does not block it.  Gives the index of that thread and the waker its
/// arrival calls for.
pub fn process_raise<W>(threads: &mut Vec<SignalList<W>>, signal: Signal) -> (r: (Option<usize>, Option<W>))
    requires
        forall|j: int| 0 <= j < old(threads)@.len() ==> (#[trigger] old(threads)@[j]).wf(),
    ensures
        process_raised(old(threads)@, final(threads)@, signal, r.1),
        exists|i: int|
            #![trigger first_unblocked(old(threads)@, signal.num(), i)]
            first_unblocked(old(threads)@, signal.num(), i) && (if i < old(threads)@.len() {
                r.0 == Some(i as usize)
            } else {
                r.0 is None
            }),
        forall|j: int| 0 <= j < final(threads)@.len() ==> (#[trigger] final(threads)@[j]).wf(),
{
    let mut i: usize = 0;
    while i < threads.len()
        invariant
            i <= threads@.len(),
            threads@ == old(threads)@,
            forall|j: int| 0 <= j < i ==> (#[trigger] threads@[j]).blocked().has(signal.num()),
            forall|j: int| 0 <= j < threads@.len() ==> (#[trigger] threads@[j]).wf(),
        decreases threads@.len() - i,
    {
        let blocked = threads[i].get_mask().includes(signal);
        if !blocked {
            let mut list = threads.remove(i);
            let (res, waker) = list.raise(signal);
            threads.insert(i, list);
            assert(first_unblocked(old(threads)@, signal.num(), i as int));
            assert forall|j: int| 0 <= j < old(threads)@.len() && j != i implies #[trigger] threads@[j] == old(threads)@[j] by {
            }
            assert(threads@[i as int] == list);
            return (Some(i), waker);
        }
        i = i + 1;
    }
    assert(first_unblocked(old(threads)@, signal.num(), i as int));
    assert(threads@ == old(threads)@);
    (None, None)
}

/// The `Some` values of `ws`, in order.
pub open spec fn somes<W>(ws: Seq<Option<W>>) -> Seq<W>
    decreases ws.len(),
{
    if ws.len() == 0 {
        Seq::<W>::empty()
    } else {
        let rest = somes(ws.drop_last());
        match ws.last() {
            Some(w) => rest.push(w),
            None => rest,
        }
    }
}

/// The processes of a group went from `pre` to `post` by `signal` being
/// sent to each of them, as `process_raise` does, and `wakers` are the
/// wakers that came back, in the order of the processes.
pub open spec fn group_raised<W>(
    pre: Seq<Vec<SignalList<W>>>,
    post: Seq<Vec<SignalList<W>>>,
    signal: Signal,
    wakers: Seq<W>,
) -> bool {
    exists|ws: Seq<Option<W>>|
        {
            &&& ws.len() == pre.len()
            &&& post.len() == pre.len()
            &&& wakers == somes(ws)
            &&& forall|j: int|
                0 <= j < pre.len() ==> process_raised(pre[j]@, post[j]@, signal, #[trigger] ws[j])
        }
}

/// Send `signal` to every process of a group, each given by the signal
/// states of its threads: each process takes it as `process_raise` does.
/// The wakers that the arrivals call for come back, in the order of the
/// processes.
pub fn group_raise<W>(procs: &mut Vec<Vec<SignalList<W>>>, signal: Signal) -> (r: Vec<W>)
    requires
        forall|j: int, k: int|
            0 <= j < old(procs)@.len() && 0 <= k < old(procs)@[j]@.len() ==> (#[trigger] old(procs)@[j]@[k]).wf(),
    ensures
        group_raised(old(procs)@, final(procs)@, signal, r@),
        forall|j: int, k: int|
            0 <= j < final(procs)@.len() && 0 <= k < final(procs)@[j]@.len() ==> (#[trigger] final(procs)@[j]@[k]).wf(),
{
    let mut wakers: Vec<W> = Vec::new();
    let ghost mut ws: Seq<Option<W>> = Seq::empty();
    let mut j: usize = 0;
    while j < procs.len()
        invariant
            j <= procs@.len(),
            procs@.len() == old(procs)@.len(),
            ws.len() == j,
            wakers@ == somes(ws),
            forall|m: int| 0 <= m < j ==> process_raised(old(procs)@[m]@, procs@[m]@, signal, #[trigger] ws[m]),
            forall|m: int| j <= m < procs@.len() ==> #[trigger] procs@[m] == old(procs)@[m],
            forall|m: int, k: int|
                0 <= m < procs@.len() && 0 <= k < procs@[m]@.len() ==> (#[trigger] procs@[m]@[k]).wf(),
        decreases procs@.len() - j,
    {
        let ghost before = procs@;
        let mut threads = procs.remove(j);
        assert(threads == old(procs)@[j as int]);
        let (_, waker) = process_raise(&mut threads, signal);
        procs.insert(j, threads);
        let ghost ws0 = ws;
        proof {
            assert(procs@[j as int] == threads);
            ws = ws.push(waker);
            assert(ws.drop_last() =~= ws0);
            assert forall|m: int| 0 <= m < j + 1 implies process_raised(old(procs)@[m]@, procs@[m]@, signal, #[trigger] ws[m]) by {
                if m < j {
                    assert(procs@[m] == before[m]);
                    assert(ws[m] == ws0[m]);
                }
            }
            assert forall|m: int| j + 1 <= m < procs@.len() implies #[trigger] procs@[m] == old(procs)@[m] by {
                assert(procs@[m] == before[m]);
            }
            assert forall|m: int, k: int|
                0 <= m < procs@.len() && 0 <= k < procs@[m]@.len() implies (#[trigger] procs@[m]@[k]).wf() by {
                if m != j {
                    assert(procs@[m] == before[m]);
                }
            }
        }
        match waker {
            Some(w) => wakers.push(w),
            None => {},
        }
        j = j + 1;
    }
    proof {
        assert(group_raised(old(procs)@, procs@, signal, wakers@)) by {
            assert(ws.len() == old(procs)@.len());
        }
    }
    wakers
}

/// The processes of a group went from `pre` to `post` by `SIGHUP` and
/// then `SIGCONT` being sent to each, and `wakers` are the wakers of the
/// `SIGHUP` arrivals followed by those of the `SIGCONT` ones.
pub open spec fn group_hung_up<W>(
    pre: Seq<Vec<SignalList<W>>>,
    post: Seq<Vec<SignalList<W>>>,
    wakers: Seq<W>,
) -> bool {
    exists|mid: Seq<Vec<SignalList<W>>>, w1: Seq<W>, w2: Seq<W>|
        {
            &&& group_raised(pre, mid, Signal::spec_new(SIGHUP), w1)
            &&& group_raised(mid, post, Signal::spec_new(SIGCONT), w2)
            &&& wakers == w1 + w2
        }
}

/// A group whose session lost its controlling terminal is sent `SIGHUP`
/// and then `SIGCONT`: every process of it takes the one and then the
/// other, as `process_raise` does.  The wakers to run come back: those of
/// the `SIGHUP` arrivals, then those of the `SIGCONT` ones.
pub fn hangup_group<W>(procs: &mut Vec<Vec<SignalList<W>>>) -> (r: Vec<W>)
    requires
        forall|j: int, k: int|
            0 <= j < old(procs)@.len() && 0 <= k < old(procs)@[j]@.len() ==> (#[trigger] old(procs)@[j]@[k]).wf(),
    ensures
        group_hung_up(old(procs)@, final(procs)@, r@),
        forall|j: int, k: int|
            0 <= j < final(procs)@.len() && 0 <= k < final(procs)@[j]@.len() ==> (#[trigger] final(procs)@[j]@[k]).wf(),
{
    let hup = match Signal::try_from(SIGHUP) {
        Ok(s) => s,
        Err(_) => return Vec::new(),
    };
    let mut r = group_raise(procs, hup);
    let ghost middle = procs@;
    let ghost w1 = r@;
    let cont = match Signal::try_from(SIGCONT) {
        Ok(s) => s,
        Err(_) => return Vec::new(),
    };
    let mut more = group_raise(procs, cont);
    let ghost w2 = more@;
    r.append(&mut more);
    proof {
        assert(group_raised(old(procs)@, middle, Signal::spec_new(SIGHUP), w1));
        assert(group_raised(middle, procs@, Signal::spec_new(SIGCONT), w2));
        assert(r@ == w1 + w2);
    }
    r
}

} // verus!
