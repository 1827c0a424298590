use eonix::errno::{EFAULT, EINVAL, ENOSYS};
use eonix::signal::{
    signal_frame, sigreturn_layout, HandleStep, RaiseResult, Signal, SignalAction, SignalList,
    SignalMask, SIGCHLD, SIGCONT, SIGKILL, SIGSEGV, SIGSTOP, SIGTSTP, SIGUSR1, SIGUSR2,
};

fn sig(n: u32) -> Signal {
    Signal::try_from(n).unwrap()
}

#[test]
fn signal_numbers_in_range_are_accepted() {
    assert_eq!(Signal::try_from(1).map(|s| s.to_signum()), Ok(1));
    assert_eq!(Signal::try_from(64).map(|s| s.to_signum()), Ok(64));
    assert_eq!(Signal::try_from(0).map(|s| s.to_signum()), Err(EINVAL));
    assert_eq!(Signal::try_from(65).map(|s| s.to_signum()), Err(EINVAL));
}

#[test]
fn kill_and_stop_cannot_be_blocked() {
    assert!(sig(SIGKILL).is_unblockable());
    assert!(sig(SIGSTOP).is_unblockable());
    assert!(!sig(SIGUSR1).is_unblockable());
}

#[test]
fn default_dispositions_of_signals() {
    assert!(sig(SIGSEGV).is_coredump());
    assert!(!sig(SIGUSR1).is_coredump());
    assert!(sig(SIGTSTP).is_stop());
    assert!(!sig(SIGCONT).is_stop());
    assert!(sig(SIGCHLD).is_ignored_by_default());
    assert!(!sig(SIGUSR2).is_ignored_by_default());
}

#[test]
fn mask_then_unmask_restores_mask() {
    let usr1 = sig(SIGUSR1);
    let mut mask = SignalMask::empty();
    mask.mask(SignalMask::from_signal(usr1));
    assert!(mask.includes(usr1));
    assert_eq!(mask.to_bits(), 1u64 << 9);
    mask.unmask(SignalMask::from_signal(usr1));
    assert!(!mask.includes(usr1));
    assert_eq!(mask.to_bits(), 0);
}

#[test]
fn mask_of_one_signal_holds_no_other() {
    let mask = SignalMask::from_signal(sig(SIGUSR2));
    assert!(mask.includes(sig(SIGUSR2)));
    assert!(!mask.includes(sig(SIGUSR1)));
    assert_eq!(SignalMask::from_signal(sig(64)).to_bits(), 1u64 << 63);
}

#[test]
fn raised_signal_is_handled_by_default_termination() {
    let mut list: SignalList<u32> = SignalList::new();
    list.set_signal_waker(Some(5));
    let (res, waker) = list.raise(sig(SIGUSR1));
    assert_eq!(res, RaiseResult::Finished);
    assert_eq!(waker, Some(5));
    assert!(list.has_pending_signal());
    assert!(list.get_mask().includes(sig(SIGUSR1)));
    assert_eq!(list.next_handle_step(), HandleStep::Terminate(sig(SIGUSR1)));
    assert!(!list.has_pending_signal());
    assert!(!list.get_mask().includes(sig(SIGUSR1)));
    assert_eq!(list.next_handle_step(), HandleStep::Done);
}

#[test]
fn blocked_signal_is_masked() {
    let mut list: SignalList<u32> = SignalList::new();
    list.set_mask(SignalMask::from_signal(sig(SIGUSR1)));
    let (res, waker) = list.raise(sig(SIGUSR1));
    assert_eq!(res, RaiseResult::Masked);
    assert_eq!(waker, None);
    assert!(!list.has_pending_signal());
}

#[test]
fn signal_ignored_by_default_is_dropped() {
    let mut list: SignalList<u32> = SignalList::new();
    let (res, _) = list.raise(sig(SIGCHLD));
    assert_eq!(res, RaiseResult::Finished);
    assert!(!list.has_pending_signal());
}

#[test]
fn ignored_signal_is_dropped() {
    let mut list: SignalList<u32> = SignalList::new();
    assert_eq!(list.set_action(sig(SIGUSR1), SignalAction::ignore()), Ok(()));
    let (res, _) = list.raise(sig(SIGUSR1));
    assert_eq!(res, RaiseResult::Finished);
    assert!(!list.has_pending_signal());
    assert_eq!(list.get_action(sig(SIGUSR1)), SignalAction::Ignore);
}

#[test]
fn kill_and_stop_dispositions_cannot_change() {
    let mut list: SignalList<u32> = SignalList::new();
    assert_eq!(list.set_action(sig(SIGKILL), SignalAction::ignore()), Err(EINVAL));
    assert_eq!(list.set_action(sig(SIGSTOP), SignalAction::ignore()), Err(EINVAL));
    assert_eq!(list.get_action(sig(SIGKILL)), SignalAction::Default);
}

#[test]
fn handler_delivery_adds_handler_mask() {
    let mut list: SignalList<u32> = SignalList::new();
    let action = SignalAction::new()
        .handler(0x1000)
        .unwrap()
        .restorer(0x2000)
        .unwrap()
        .mask(1u64 << 11)
        .unwrap();
    assert_eq!(list.set_action(sig(SIGUSR1), action), Ok(()));
    list.raise(sig(SIGUSR1));
    let before = list.get_mask();
    match list.next_handle_step() {
        HandleStep::Deliver { signal, action: a, old_mask } => {
            assert_eq!(signal, sig(SIGUSR1));
            assert_eq!(a, action);
            assert_eq!(old_mask, before);
        }
        other => panic!("unexpected step {:?}", other),
    }
    assert!(list.get_mask().includes(sig(SIGUSR2)));
}

#[test]
fn lowest_pending_signal_is_handled_first() {
    let mut list: SignalList<u32> = SignalList::new();
    list.raise(sig(SIGUSR2));
    list.raise(sig(SIGUSR1));
    assert_eq!(list.next_handle_step(), HandleStep::Terminate(sig(SIGUSR1)));
    assert_eq!(list.next_handle_step(), HandleStep::Terminate(sig(SIGUSR2)));
}

#[test]
fn stop_and_continue_steps() {
    let mut list: SignalList<u32> = SignalList::new();
    list.set_stop_waker(3);
    list.raise(sig(SIGSTOP));
    assert_eq!(list.next_handle_step(), HandleStep::Stop(sig(SIGSTOP)));
    let (_, waker) = list.raise(sig(SIGCONT));
    assert_eq!(waker, Some(3));
    assert_eq!(list.next_handle_step(), HandleStep::Continue(sig(SIGCONT)));
}

#[test]
fn failed_handler_setup_raises_segv_for_bad_stack() {
    let mut list: SignalList<u32> = SignalList::new();
    let (res, _) = list.handler_failed(SignalMask::empty(), EFAULT);
    assert_eq!(res, RaiseResult::Finished);
    assert_eq!(list.next_handle_step(), HandleStep::Terminate(sig(SIGSEGV)));
}

#[test]
fn siginfo_handlers_are_refused() {
    assert_eq!(SignalAction::new().set_siginfo(), Err(EINVAL));
}

#[test]
fn zero_restorer_means_none() {
    let a = SignalAction::new().restorer(0).unwrap();
    assert_eq!(a, SignalAction::new());
}

#[test]
fn signal_frame_layout() {
    let action = SignalAction::new()
        .handler(0x4000)
        .unwrap()
        .restorer(0x5000)
        .unwrap();
    let frame = signal_frame(action, sig(SIGUSR1), 0x10000, 100).unwrap();
    assert_eq!(frame.saved_data_addr, 65296);
    assert_eq!(frame.new_sp, 65276);
    assert_eq!(frame.restorer, 0x5000);
    assert_eq!(frame.signum, SIGUSR1);
    assert_eq!(frame.handler, 0x4000);
    assert_eq!(frame.saved_data_addr % 16, 0);
}

#[test]
fn signal_frame_without_restorer_is_refused() {
    let action = SignalAction::new().handler(0x4000).unwrap();
    assert_eq!(
        signal_frame(action, sig(SIGUSR1), 0x10000, 100).map(|f| f.new_sp),
        Err(ENOSYS)
    );
}

#[test]
fn sigreturn_finds_saved_data_in_order() {
    assert_eq!(sigreturn_layout(0x1000, 512), (0x1000, 0x1008, 0x1208));
}

#[test]
fn cloned_list_keeps_dispositions() {
    let mut list: SignalList<u32> = SignalList::new();
    list.set_action(sig(SIGUSR1), SignalAction::ignore()).unwrap();
    let copy = list.clone();
    assert_eq!(copy.get_action(sig(SIGUSR1)), SignalAction::Ignore);
    assert!(!copy.has_pending_signal());
}

#[test]
fn exec_resets_handlers_but_keeps_ignores() {
    let mut list: SignalList<u32> = SignalList::new();
    list.set_action(sig(SIGUSR1), SignalAction::ignore()).unwrap();
    let h = SignalAction::new().handler(0x10).unwrap();
    list.set_action(sig(SIGUSR2), h).unwrap();
    list.clear_non_ignore();
    assert_eq!(list.get_action(sig(SIGUSR1)), SignalAction::Ignore);
    assert_eq!(list.get_action(sig(SIGUSR2)), SignalAction::Default);
}

#[test]
fn sigreturn_restores_the_saved_mask() {
    let mut list: SignalList<u32> = SignalList::new();
    assert_eq!(list.restore(Some(0b101), true, 42), Ok(42));
    assert_eq!(list.get_mask().to_bits(), 0b101);
    assert_eq!(list.restore(None, true, 42), Err(EFAULT));
    assert_eq!(list.restore(Some(0), false, 42), Err(EFAULT));
    assert_eq!(list.get_mask().to_bits(), 0b101);
}
