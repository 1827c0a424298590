//! Task states, task outputs, the ready queue, the decisions of the idle
//! task, kernel stacks and the user TLS descriptor.

use std::collections::VecDeque;
use vstd::prelude::*;

use crate::errno::KResult;

verus! {

/// Identifier of a task.
#[derive(Debug, Clone, Copy, PartialEq, Eq, Structural, PartialOrd, Ord)]
pub struct TaskId(pub u32);

pub const TASK_RUNNING: u32 = 0;
pub const TASK_ISLEEP: u32 = 1;
pub const TASK_USLEEP: u32 = 2;

/// The run state of a task: running, interruptible or uninterruptible sleep.
#[derive(Debug)]
pub struct TaskState(u32);

impl TaskState {
    pub const RUNNING: u32 = 0;
    pub const ISLEEP: u32 = 1;
    pub const USLEEP: u32 = 2;

    pub closed spec fn value(&self) -> u32 {
        self.0
    }

    pub fn new(state: u32) -> (r: Self)
        ensures
            r.value() == state,
    {
        TaskState(state)
    }

    /// Set the state; gives the previous one.
    pub fn swap(&mut self, state: u32) -> (r: u32)
        ensures
            r == old(self).value(),
            final(self).value() == state,
    {
        let prev = self.0;
        self.0 = state;
        prev
    }

    /// Set the state to `new` if it is `current`; gives the previous one.
    pub fn cmpxchg(&mut self, current: u32, new: u32) -> (r: u32)
        ensures
            r == old(self).value(),
            final(self).value() == (if old(self).value() == current {
                new
            } else {
                old(self).value()
            }),
    {
        let prev = self.0;
        if prev == current {
            self.0 = new;
        }
        prev
    }

    pub fn is_runnable(&self) -> (r: bool)
        ensures
            r == (self.value() == TASK_RUNNING),
    {
        self.0 == TASK_RUNNING
    }

    /// A running task goes to uninterruptible sleep.
    pub fn set_usleep(&mut self)
        requires
            old(self).value() == TASK_RUNNING,
        ensures
            final(self).value() == TASK_USLEEP,
    {
        self.swap(TASK_USLEEP);
    }

    /// A running task goes to interruptible sleep.
    pub fn set_isleep(&mut self)
        requires
            old(self).value() == TASK_RUNNING,
        ensures
            final(self).value() == TASK_ISLEEP,
    {
        self.swap(TASK_ISLEEP);
    }

    /// A plain wake up: only an interruptible sleep ends, and then the task
    /// must be put on a run queue (true).
    pub fn wake(&mut self) -> (r: bool)
        requires
            old(self).value() <= TASK_USLEEP,
        ensures
            r == (old(self).value() == TASK_ISLEEP),
            final(self).value() == (if r {
                TASK_RUNNING
            } else {
                old(self).value()
            }),
    {
        let prev = self.cmpxchg(TASK_ISLEEP, TASK_RUNNING);
        prev == TASK_ISLEEP
    }

    /// The wake up reserved for an uninterruptible sleep: the task runs
    /// again and must be put on a run queue.
    pub fn wake_unique(&mut self)
        requires
            old(self).value() == TASK_USLEEP,
        ensures
            final(self).value() == TASK_RUNNING,
    {
        self.swap(TASK_RUNNING);
    }
}

/// What a task has produced for whoever joins it.
pub enum TaskOutputState<O, W> {
    /// Still running; the waker of the joiner, once registered.
    Waiting(Option<W>),
    /// Finished with this output.
    Finished(O),
    /// The output was handed out.
    TakenOut,
}

/// The output slot of a task.
pub struct TaskOutput<O, W> {
    inner: TaskOutputState<O, W>,
}

impl<O, W> TaskOutput<O, W> {
    pub closed spec fn state(&self) -> TaskOutputState<O, W> {
        self.inner
    }

    pub fn new() -> (r: Self)
        ensures
            r.state() == TaskOutputState::<O, W>::Waiting(None),
    {
        TaskOutput { inner: TaskOutputState::Waiting(None) }
    }

    /// The output once the task finished (it is then taken out); nothing
    /// while it runs.
    pub fn try_resolve(&mut self) -> (r: Option<O>)
        requires
            !(old(self).state() is TakenOut),
        ensures
            old(self).state() is Waiting ==> r is None && final(self).state() == old(self).state(),
            old(self).state() is Finished ==> r == Some(old(self).state()->Finished_0) && final(self).state() is TakenOut,
    {
        match &self.inner {
            TaskOutputState::Waiting(_) => return None,
            _ => {},
        }
        let mut prev = TaskOutputState::TakenOut;
        std::mem::swap(&mut prev, &mut self.inner);
        match prev {
            TaskOutputState::Finished(output) => Some(output),
            _ => None,
        }
    }

    /// Register the waker of the joiner while the task runs.
    pub fn register_waiter(&mut self, waker: W)
        requires
            old(self).state() is Waiting,
        ensures
            final(self).state() == TaskOutputState::<O, W>::Waiting(Some(waker)),
    {
        self.inner = TaskOutputState::Waiting(Some(waker));
    }

    /// The task finished with `output`; gives the joiner's waker to wake.
    pub fn commit_output(&mut self, output: O) -> (r: Option<W>)
        requires
            old(self).state() is Waiting,
        ensures
            r == old(self).state()->Waiting_0,
            final(self).state() == TaskOutputState::<O, W>::Finished(output),
    {
        let mut prev = TaskOutputState::Finished(output);
        std::mem::swap(&mut prev, &mut self.inner);
        match prev {
            TaskOutputState::Waiting(w) => w,
            _ => None,
        }
    }
}

/// What one run of a task gives: still running, or finished with its
/// output.
#[derive(Debug, Clone, Copy, PartialEq, Eq)]
pub enum RunState<Output> {
    Running,
    Finished(Output),
}

/// The joining side of a task's output.
pub struct JoinHandle<O, W> {
    output: TaskOutput<O, W>,
}

impl<O, W> JoinHandle<O, W> {
    pub closed spec fn state(&self) -> TaskOutputState<O, W> {
        self.output.state()
    }

    pub fn new(output: TaskOutput<O, W>) -> (r: Self)
        ensures
            r.state() == output.state(),
    {
        JoinHandle { output }
    }

    /// The task finished with `output`; gives the joiner's waker to wake.
    pub fn commit_output(&mut self, output: O) -> (r: Option<W>)
        requires
            old(self).state() is Waiting,
        ensures
            r == old(self).state()->Waiting_0,
            final(self).state() == TaskOutputState::<O, W>::Finished(output),
    {
        self.output.commit_output(output)
    }

    /// One round of joining: the output once the task finished; otherwise
    /// the joiner's waker is registered, the first time only, and the
    /// joiner tries again when woken.
    pub fn join_step(&mut self, waker: &mut Option<W>) -> (r: RunState<O>)
        requires
            !(old(self).state() is TakenOut),
        ensures
            old(self).state() is Finished ==> r == RunState::Finished(old(self).state()->Finished_0)
                && final(self).state() is TakenOut && *final(waker) == *old(waker),
            old(self).state() is Waiting ==> r == RunState::<O>::Running && match *old(waker) {
                Some(w) => final(self).state() == TaskOutputState::<O, W>::Waiting(Some(w))
                    && *final(waker) is None,
                None => final(self).state() == old(self).state() && *final(waker) is None,
            },
    {
        match self.output.try_resolve() {
            Some(output) => RunState::Finished(output),
            None => {
                let mut taken = None;
                std::mem::swap(&mut taken, waker);
                if let Some(w) = taken {
                    self.output.register_waiter(w);
                }
                RunState::Running
            },
        }
    }
}

/// A first-in first-out run queue.
pub struct FifoReadyQueue<T> {
    threads: VecDeque<T>,
}

impl<T> FifoReadyQueue<T> {
    pub closed spec fn queued(&self) -> Seq<T> {
        self.threads@
    }

    pub fn new() -> (r: Self)
        ensures
            r.queued() == Seq::<T>::empty(),
    {
        FifoReadyQueue { threads: VecDeque::new() }
    }

    /// Take the task at the front.
    pub fn get(&mut self) -> (r: Option<T>)
        ensures
            old(self).queued().len() == 0 ==> r is None && final(self).queued() == old(self).queued(),
            old(self).queued().len() > 0 ==> r == Some(old(self).queued()[0]) && final(self).queued()
                == old(self).queued().drop_first(),
    {
        self.threads.pop_front()
    }

    /// Put a task at the back.
    pub fn put(&mut self, thread: T)
        ensures
            final(self).queued() == old(self).queued().push(thread),
    {
        self.threads.push_back(thread);
    }
}

/// Mark a task as queued; true when it was not, so that it must be put on
/// a run queue now.
pub fn activate(on_rq: &mut bool) -> (r: bool)
    ensures
        r == !*old(on_rq),
        *final(on_rq),
{
    let was = *on_rq;
    *on_rq = true;
    !was
}

/// What the idle task does next.
#[derive(Debug, Clone, Copy, PartialEq, Eq, Structural)]
pub enum IdleStep {
    /// Nothing queued but the current task can run: run it again.
    RunCurrent,
    /// Nothing to run: halt until an interrupt.
    Halt,
    /// Switch to the task taken from the queue.
    SwitchTo,
}

pub fn idle_step(has_next: bool, current_runnable: bool) -> (r: IdleStep)
    ensures
        r == (if has_next {
            IdleStep::SwitchTo
        } else if current_runnable {
            IdleStep::RunCurrent
        } else {
            IdleStep::Halt
        }),
{
    if has_next {
        IdleStep::SwitchTo
    } else if current_runnable {
        IdleStep::RunCurrent
    } else {
        IdleStep::Halt
    }
}

/// The task switched away from goes back on the queue when it can still
/// run; otherwise it leaves the queue (its flag is cleared).
pub fn requeue_previous<T>(rq: &mut FifoReadyQueue<T>, prev: T, prev_runnable: bool, prev_on_rq: &mut bool)
    ensures
        prev_runnable ==> final(rq).queued() == old(rq).queued().push(prev) && *final(prev_on_rq)
            == *old(prev_on_rq),
        !prev_runnable ==> final(rq).queued() == old(rq).queued() && !*final(prev_on_rq),
{
    if prev_runnable {
        rq.put(prev);
    } else {
        *prev_on_rq = false;
    }
}

/// Kernel stacks are 2^7 pages of 4 KiB.
pub const KERNEL_STACK_ORDER: u32 = 7;
pub const KERNEL_STACK_SIZE: usize = 0x80000;

/// A kernel stack: its memory and the address of its bottom (the highest
/// address, where the stack starts).
pub struct KernelStack {
    base: usize,
    bottom: usize,
}

impl KernelStack {
    pub closed spec fn base_addr(&self) -> usize {
        self.base
    }

    pub closed spec fn bottom(&self) -> usize {
        self.bottom
    }

    /// The stack over the memory that starts at `base`.
    pub fn new(base: usize) -> (r: Self)
        requires
            base + KERNEL_STACK_SIZE <= usize::MAX,
        ensures
            r.base_addr() == base,
            r.bottom() == base + KERNEL_STACK_SIZE,
    {
        KernelStack { base, bottom: base + KERNEL_STACK_SIZE }
    }

    pub fn get_stack_bottom(&self) -> (r: usize)
        ensures
            r == self.bottom(),
    {
        self.bottom
    }

    /// Where an interrupt context of `ctx_size` bytes is placed to start a
    /// task: just below the bottom, aligned down to 16 bytes.
    pub fn init_sp(&self, ctx_size: usize) -> (r: usize)
        requires
            ctx_size <= self.bottom(),
        ensures
            r == (self.bottom() - ctx_size) - (self.bottom() - ctx_size) % 16,
            r % 16 == 0,
    {
        let sp = self.bottom - ctx_size;
        proof {
            assert(sp & !0xfusize == sp - sp % 16) by (bit_vector);
        }
        sp & !0xf
    }
}

/// Flags word of a user segment descriptor (`set_thread_area`).
#[derive(Debug, Clone, Copy, PartialEq, Eq, Structural)]
pub struct UserDescriptorFlags(pub u32);

impl UserDescriptorFlags {
    pub fn is_32bit_segment(&self) -> (r: bool)
        ensures
            r == (self.0 & 1 != 0),
    {
        self.0 & 0b1 != 0
    }

    pub fn contents(&self) -> (r: u32)
        ensures
            r == self.0 & 6,
    {
        self.0 & 0b110
    }

    pub fn is_read_exec_only(&self) -> (r: bool)
        ensures
            r == (self.0 & 8 != 0),
    {
        self.0 & 0b1000 != 0
    }

    pub fn is_limit_in_pages(&self) -> (r: bool)
        ensures
            r == (self.0 & 16 != 0),
    {
        self.0 & 0b10000 != 0
    }

    /// The segment is present unless the not-present bit is set.
    pub fn is_present(&self) -> (r: bool)
        ensures
            r == (self.0 & 32 == 0),
    {
        self.0 & 0b100000 == 0
    }

    pub fn is_usable(&self) -> (r: bool)
        ensures
            r == (self.0 & 64 != 0),
    {
        self.0 & 0b1000000 != 0
    }
}

/// A user segment descriptor.
#[derive(Debug, Clone, Copy, PartialEq, Eq, Structural)]
pub struct UserDescriptor {
    pub entry: u32,
    pub base: u32,
    pub limit: u32,
    pub flags: UserDescriptorFlags,
}

/// What `set_thread_area` does with a descriptor.
#[derive(Debug, Clone, Copy, PartialEq, Eq, Structural)]
pub enum ThreadAreaAction {
    /// An empty not-present descriptor: nothing.
    Nothing,
    /// A not-present descriptor: clear `len` bytes of user memory at `base`.
    Clear { base: u32, len: u64 },
    /// Install a TLS segment.
    Install { base: u32, limit: u32, limit_in_pages: bool },
}

/// A read-exec-only descriptor that is not present asks to clear its area
/// (nothing when its base or limit is zero; a page limit counts 4 KiB
/// pages); any other one is installed as the thread's TLS.
pub fn thread_area_action(desc: &UserDescriptor) -> (r: ThreadAreaAction)
    ensures
        r == (if desc.flags.0 & 8 != 0 && desc.flags.0 & 32 != 0 {
            if desc.limit == 0 || desc.base == 0 {
                ThreadAreaAction::Nothing
            } else {
                ThreadAreaAction::Clear {
                    base: desc.base,
                    len: if desc.flags.0 & 16 != 0 {
                        (desc.limit * 4096) as u64
                    } else {
                        desc.limit as u64
                    },
                }
            }
        } else {
            ThreadAreaAction::Install {
                base: desc.base,
                limit: desc.limit,
                limit_in_pages: desc.flags.0 & 16 != 0,
            }
        }),
{
    if desc.flags.is_read_exec_only() && !desc.flags.is_present() {
        if desc.limit == 0 || desc.base == 0 {
            return ThreadAreaAction::Nothing;
        }
        let len: u64 = if desc.flags.is_limit_in_pages() {
            (desc.limit as u64) * 4096
        } else {
            desc.limit as u64
        };
        return ThreadAreaAction::Clear { base: desc.base, len };
    }
    ThreadAreaAction::Install {
        base: desc.base,
        limit: desc.limit,
        limit_in_pages: desc.flags.is_limit_in_pages(),
    }
}

} // verus!
