use eonix::task::{
    activate, idle_step, requeue_previous, JoinHandle, RunState, thread_area_action, FifoReadyQueue, IdleStep,
    KernelStack, TaskOutput, TaskState, ThreadAreaAction, UserDescriptor, UserDescriptorFlags,
    TASK_ISLEEP, TASK_RUNNING, TASK_USLEEP,
};
use eonix::timer::{should_reschedule, Instant, SleepQueue, Ticks};

#[test]
fn ticks_are_milliseconds() {
    let t = Ticks(2500);
    assert_eq!(t.in_secs(), 2);
    assert_eq!(t.in_msecs(), 2500);
    assert_eq!(t.in_usecs(), 2_500_000);
    assert_eq!(t.in_nsecs(), 2_500_000_000);
    assert_eq!(t.add(Ticks(5)), Ticks(2505));
}

#[test]
fn instants() {
    let i = Instant::from_ticks(Ticks(10));
    assert_eq!(i.ticks(), Ticks(10));
    assert_eq!(i.elapsed(Ticks(13)), 3_000_000);
    assert_eq!(i.add_millis(7).ticks(), Ticks(17));
}

#[test]
fn time_slices_are_ten_ticks() {
    assert_eq!(should_reschedule(100, 105), (false, 100));
    assert_eq!(should_reschedule(100, 110), (true, 110));
}

#[test]
fn sleepers_wake_at_their_tick() {
    let mut q: SleepQueue<u32> = SleepQueue::new();
    assert_eq!(q.now_ticks(), Ticks(0));
    assert!(!q.poll_sleep(2, 7));
    assert!(!q.poll_sleep(2, 8));
    assert!(!q.poll_sleep(3, 9));
    assert!(q.poll_sleep(0, 1));
    assert_eq!(q.tick(), Vec::<u32>::new());
    assert_eq!(q.tick(), vec![7, 8]);
    assert_eq!(q.tick(), vec![9]);
    assert_eq!(q.tick(), Vec::<u32>::new());
    assert_eq!(q.now_ticks(), Ticks(4));
    assert!(q.poll_sleep(4, 2));
}

#[test]
fn plain_wake_ends_only_interruptible_sleep() {
    let mut s = TaskState::new(TASK_RUNNING);
    assert!(s.is_runnable());
    s.set_isleep();
    assert!(!s.is_runnable());
    assert!(s.wake());
    assert!(s.is_runnable());
    assert!(!s.wake());
    s.set_usleep();
    assert!(!s.wake());
    assert_eq!(s.swap(TASK_USLEEP), TASK_USLEEP);
    s.wake_unique();
    assert!(s.is_runnable());
    assert_eq!(s.cmpxchg(TASK_ISLEEP, TASK_USLEEP), TASK_RUNNING);
    assert_eq!(s.swap(TASK_ISLEEP), TASK_RUNNING);
}

#[test]
fn joiner_gets_committed_output_once() {
    let mut out: TaskOutput<u64, u32> = TaskOutput::new();
    assert_eq!(out.try_resolve(), None);
    out.register_waiter(9);
    assert_eq!(out.commit_output(42), Some(9));
    assert_eq!(out.try_resolve(), Some(42));
}

#[test]
fn output_without_waiter() {
    let mut out: TaskOutput<&str, u32> = TaskOutput::new();
    assert_eq!(out.commit_output("done"), None);
    assert_eq!(out.try_resolve(), Some("done"));
}

#[test]
fn ready_queue_is_fifo() {
    let mut rq = FifoReadyQueue::new();
    assert_eq!(rq.get(), None);
    rq.put(1u32);
    rq.put(2);
    rq.put(3);
    assert_eq!(rq.get(), Some(1));
    assert_eq!(rq.get(), Some(2));
    let mut on_rq = true;
    requeue_previous(&mut rq, 4, true, &mut on_rq);
    assert!(on_rq);
    requeue_previous(&mut rq, 5, false, &mut on_rq);
    assert!(!on_rq);
    assert_eq!(rq.get(), Some(3));
    assert_eq!(rq.get(), Some(4));
    assert_eq!(rq.get(), None);
}

#[test]
fn activation_queues_once() {
    let mut on_rq = false;
    assert!(activate(&mut on_rq));
    assert!(!activate(&mut on_rq));
    assert!(on_rq);
}

#[test]
fn idle_decisions() {
    assert_eq!(idle_step(true, true), IdleStep::SwitchTo);
    assert_eq!(idle_step(false, true), IdleStep::RunCurrent);
    assert_eq!(idle_step(false, false), IdleStep::Halt);
}

#[test]
fn kernel_stack_pointers() {
    let ks = KernelStack::new(0x10000);
    assert_eq!(ks.get_stack_bottom(), 0x90000);
    assert_eq!(ks.init_sp(0x100), 0x8ff00);
    assert_eq!(ks.init_sp(0x108), 0x8fef0);
}

fn desc(base: u32, limit: u32, flags: u32) -> UserDescriptor {
    UserDescriptor { entry: 0, base, limit, flags: UserDescriptorFlags(flags) }
}

#[test]
fn thread_area_descriptors() {
    let f = UserDescriptorFlags(0b1010001);
    assert!(f.is_32bit_segment());
    assert!(f.is_limit_in_pages());
    assert!(f.is_usable());
    assert!(f.is_present());
    assert!(!f.is_read_exec_only());
    assert_eq!(f.contents(), 0);
    assert_eq!(
        thread_area_action(&desc(0x1000, 0xfffff, 0b1010001)),
        ThreadAreaAction::Install { base: 0x1000, limit: 0xfffff, limit_in_pages: true }
    );
    assert_eq!(
        thread_area_action(&desc(0x1000, 2, 0b101000)),
        ThreadAreaAction::Clear { base: 0x1000, len: 2 }
    );
    assert_eq!(
        thread_area_action(&desc(0x1000, 2, 0b111000)),
        ThreadAreaAction::Clear { base: 0x1000, len: 8192 }
    );
    assert_eq!(thread_area_action(&desc(0, 2, 0b101000)), ThreadAreaAction::Nothing);
}

#[test]
fn join_registers_waker_once_then_gets_output() {
    let mut handle: JoinHandle<u32, &str> = JoinHandle::new(TaskOutput::new());
    let mut waker = Some("joiner");
    assert_eq!(handle.join_step(&mut waker), RunState::Running);
    assert_eq!(waker, None);
    assert_eq!(handle.join_step(&mut waker), RunState::Running);
    assert_eq!(handle.commit_output(7), Some("joiner"));
    assert_eq!(handle.join_step(&mut waker), RunState::Finished(7));
}

#[test]
fn only_the_first_cpu_ticks() {
    let mut q: SleepQueue<u32> = SleepQueue::new();
    assert!(!q.poll_sleep(1, 5));
    assert_eq!(q.timer_interrupt(1), Vec::<u32>::new());
    assert_eq!(q.now_ticks(), Ticks(0));
    assert_eq!(q.timer_interrupt(0), vec![5]);
    assert_eq!(q.now_ticks(), Ticks(1));
}
