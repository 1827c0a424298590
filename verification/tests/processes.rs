use eonix::errno::{ECHILD, EINTR, EPERM, ESRCH};
use eonix::process::{
    after_sleep, group_raise, hangup_group, process_raise, setpgid_plan, setpgid_target_check, setsid_check, wait_result, wait_step, NotifyBatch,
    SetPgidPlan, WaitList, WaitObject, WaitStep, WaitType,
};
use eonix::filearray::{FileArray, FileId};
use eonix::file::O_RDONLY;
use eonix::proclist::{ProcessInfo, ProcessList};
use eonix::signal::{
    HandleStep, Signal, SignalList, SignalMask, SIGCONT, SIGHUP, SIGSEGV, SIGSTOP, SIGUSR1,
};

fn sig(n: u32) -> Signal {
    Signal::try_from(n).unwrap()
}

fn exited(pid: u32, code: u32) -> WaitObject {
    WaitObject { pid, code: WaitType::Exited(code) }
}

#[test]
fn wait_status_words() {
    assert_eq!(WaitType::Exited(3).to_wstatus(), 0x300);
    assert_eq!(WaitType::Exited(0x1ff).to_wstatus(), 0xff00);
    assert_eq!(WaitType::Signaled(sig(SIGUSR1)).to_wstatus(), 10);
    assert_eq!(WaitType::Signaled(sig(SIGSEGV)).to_wstatus(), 11 | 0x80);
    assert_eq!(WaitType::Stopped(sig(SIGSTOP)).to_wstatus(), 0x7f | (19 << 8));
    assert_eq!(WaitType::Continued.to_wstatus(), 0xffff);
}

#[test]
fn wait_list_reports_oldest_wanted_change() {
    let mut list = WaitList::new();
    list.notify(WaitObject { pid: 5, code: WaitType::Stopped(sig(SIGSTOP)) });
    list.notify(exited(6, 0));
    assert_eq!(list.get(false, false), Some(exited(6, 0)));
    assert_eq!(
        list.get(true, false),
        Some(WaitObject { pid: 5, code: WaitType::Stopped(sig(SIGSTOP)) })
    );
    assert_eq!(list.get(true, true), None);
}

#[test]
fn exited_children_move_to_init() {
    let mut list = WaitList::new();
    list.notify(exited(7, 1));
    list.notify(WaitObject { pid: 8, code: WaitType::Continued });
    list.notify(exited(9, 2));
    let drained = list.drain_exited();
    assert_eq!(drained, vec![exited(7, 1), exited(9, 2)]);
    assert_eq!(list.get(true, true), None);
    let mut init = WaitList::new();
    let mut batch = NotifyBatch::new();
    for w in drained {
        batch.notify(w);
    }
    assert!(batch.finish(&mut init));
    assert_eq!(init.get(false, false), Some(exited(7, 1)));
    assert_eq!(init.get(false, false), Some(exited(9, 2)));
    assert!(!NotifyBatch::new().finish(&mut init));
}

#[test]
fn wait_decisions() {
    let w = exited(3, 0);
    assert_eq!(wait_step(Some(w), true, false), WaitStep::Report { object: w, reap: true });
    let s = WaitObject { pid: 3, code: WaitType::Stopped(sig(SIGSTOP)) };
    assert_eq!(wait_step(Some(s), true, false), WaitStep::Report { object: s, reap: false });
    assert_eq!(wait_step(None, false, false), WaitStep::NoChild);
    assert_eq!(wait_step(None, true, true), WaitStep::WouldBlock);
    assert_eq!(wait_step(None, true, false), WaitStep::Sleep);
    assert_eq!(wait_result(WaitStep::NoChild), Err(ECHILD));
    assert_eq!(wait_result(WaitStep::WouldBlock), Ok(None));
    assert_eq!(wait_result(WaitStep::Report { object: w, reap: true }), Ok(Some(w)));
}

#[test]
fn setpgid_rules() {
    assert_eq!(setpgid_plan(5, 5, 5, 7, Some(5)), Err(EPERM));
    assert_eq!(setpgid_plan(6, 5, 5, 7, Some(9)), Err(EPERM));
    assert_eq!(setpgid_plan(6, 5, 7, 7, Some(5)), Ok(SetPgidPlan::Unchanged));
    assert_eq!(setpgid_plan(6, 5, 5, 7, Some(5)), Ok(SetPgidPlan::JoinExisting));
    assert_eq!(setpgid_plan(6, 5, 5, 8, None), Err(EPERM));
    assert_eq!(setpgid_plan(6, 5, 5, 6, None), Ok(SetPgidPlan::CreateGroup));
    assert_eq!(setpgid_target_check(2, 1, 2, None), Ok(()));
    assert_eq!(setpgid_target_check(2, 1, 3, None), Err(ESRCH));
    assert_eq!(setpgid_target_check(2, 1, 3, Some(4)), Err(EPERM));
    assert_eq!(setpgid_target_check(2, 1, 3, Some(1)), Ok(()));
    assert_eq!(setsid_check(true), Err(EPERM));
    assert_eq!(setsid_check(false), Ok(()));
}

fn info(t: &ProcessList, pid: u32) -> ProcessInfo {
    t.try_find_process(pid).unwrap()
}

#[test]
fn fork_inherits_group_and_session() {
    let mut t = ProcessList::new(1);
    assert_eq!(t.init_process(), 1);
    let pid = t.alloc_pid();
    assert_eq!(pid, 2);
    t.new_cloned(1, pid);
    t.add_thread(pid, pid);
    assert_eq!(info(&t, 2), ProcessInfo { pid: 2, parent: Some(1), pgid: 1, sid: 1 });
    assert_eq!(info(&t, 1).parent, None);
    assert!(t.has_children(1));
    assert!(!t.has_children(2));
    assert_eq!(t.try_find_thread(2), Some(2));
    assert_eq!(t.try_find_process(3), None);
}

#[test]
fn setsid_makes_a_new_session_and_group() {
    let mut t = ProcessList::new(1);
    t.new_cloned(1, 2);
    assert_eq!(t.setsid(1), Err(EPERM));
    assert_eq!(t.setsid(2), Ok(2));
    assert_eq!(info(&t, 2), ProcessInfo { pid: 2, parent: Some(1), pgid: 2, sid: 2 });
    assert!(t.try_find_session(2));
    assert_eq!(t.try_find_pgroup(2), Some(2));
    assert_eq!(t.try_find_pgroup(1), Some(1));
    assert_eq!(t.setsid(2), Err(EPERM));
}

#[test]
fn setsid_of_a_group_leader_with_other_members() {
    // 2 leads group 2 of session 1, and 3 is in that group too.
    let mut t = ProcessList::new(1);
    t.new_cloned(1, 2);
    t.setpgid(1, 2, 2).unwrap();
    t.new_cloned(2, 3);
    assert_eq!(info(&t, 3).pgid, 2);
    // No session 2 exists, so 2 starts one: its new group 2 lives in
    // session 2, while the old group 2 stays in session 1 with 3 alone.
    assert_eq!(t.setsid(2), Ok(2));
    assert_eq!(info(&t, 2), ProcessInfo { pid: 2, parent: Some(1), pgid: 2, sid: 2 });
    assert_eq!(info(&t, 3), ProcessInfo { pid: 3, parent: Some(2), pgid: 2, sid: 1 });
    assert_eq!(t.group_members(2, 2), vec![2]);
    assert_eq!(t.group_members(2, 1), vec![3]);
    assert_eq!(t.setsid(2), Err(EPERM));
}

#[test]
fn pids_are_handed_out_from_two_upward() {
    let mut t = ProcessList::new(1);
    let a = t.alloc_pid();
    let b = t.alloc_pid();
    assert_eq!(a, 2);
    assert!(b > a);
}

#[test]
fn session_leader_cannot_change_group() {
    let mut t = ProcessList::new(1);
    t.new_cloned(1, 2);
    t.setsid(2).unwrap();
    assert_eq!(t.do_setpgid(2, 1), Err(EPERM));
    assert_eq!(t.do_setpgid(2, 2), Err(EPERM));
}

#[test]
fn setpgid_moves_between_groups_of_a_session() {
    let mut t = ProcessList::new(1);
    t.new_cloned(1, 2);
    t.new_cloned(1, 3);
    assert_eq!(t.setpgid(1, 2, 2), Ok(()));
    assert_eq!(info(&t, 2).pgid, 2);
    assert_eq!(t.try_find_pgroup(2), Some(1));
    assert_eq!(t.setpgid(1, 3, 2), Ok(()));
    assert_eq!(info(&t, 3).pgid, 2);
    assert_eq!(t.setpgid(1, 3, 9), Err(EPERM));
    assert_eq!(t.setpgid(2, 3, 3), Err(ESRCH));
    assert_eq!(t.setpgid(3, 3, 3), Ok(()));
    assert_eq!(info(&t, 3).pgid, 3);
    assert_eq!(t.setpgid(2, 2, 1), Ok(()));
    assert_eq!(t.try_find_pgroup(2), None);
}

#[test]
fn setpgid_across_sessions_is_refused() {
    let mut t = ProcessList::new(1);
    t.new_cloned(1, 2);
    t.new_cloned(1, 3);
    t.setsid(2).unwrap();
    assert_eq!(t.setpgid(1, 2, 1), Err(EPERM));
    assert_eq!(t.setpgid(1, 3, 2), Err(EPERM));
}

#[test]
fn exit_hands_children_to_init() {
    let mut t = ProcessList::new(1);
    t.new_cloned(1, 2);
    t.add_thread(2, 2);
    t.new_cloned(2, 3);
    t.new_cloned(2, 4);
    t.add_thread(5, 2);
    assert_eq!(t.reap(5, 2).map(|r| r.0), None);
    assert_eq!(t.try_find_thread(5), None);
    let (parent, mut orphans) = t.reap(2, 2).unwrap();
    orphans.sort();
    assert_eq!(parent, 1);
    assert_eq!(orphans, vec![3, 4]);
    assert_eq!(info(&t, 3).parent, Some(1));
    assert_eq!(info(&t, 4).parent, Some(1));
    assert!(!t.has_children(2));
    t.remove_process(2);
    assert_eq!(t.try_find_process(2), None);
    assert_eq!(t.try_find_thread(2), None);
    assert!(t.try_find_session(1));
}

#[test]
fn last_member_takes_its_group_and_session_away() {
    let mut t = ProcessList::new(1);
    t.new_cloned(1, 2);
    t.add_thread(2, 2);
    t.setsid(2).unwrap();
    t.reap(2, 2).unwrap();
    t.remove_process(2);
    assert_eq!(t.try_find_pgroup(2), None);
    assert!(!t.try_find_session(2));
}

#[test]
fn foreground_group_must_belong_to_the_session() {
    let mut t = ProcessList::new(1);
    t.new_cloned(1, 2);
    t.new_cloned(1, 3);
    t.setsid(3).unwrap();
    assert_eq!(t.foreground_pgroup(1), None);
    assert_eq!(t.set_foreground_pgroup(1, Some(3)), Err(EPERM));
    assert_eq!(t.set_foreground_pgroup(1, Some(1)), Ok(()));
    assert_eq!(t.foreground_pgroup(1), Some(1));
    assert_eq!(t.set_foreground_pgroup(1, None), Ok(()));
    assert_eq!(t.foreground_pgroup(1), None);
}

#[test]
fn controlling_terminal_makes_leader_group_foreground() {
    let mut t = ProcessList::new(1);
    t.new_cloned(1, 2);
    t.add_thread(2, 2);
    t.setsid(2).unwrap();
    t.set_control_terminal(2, 77);
    assert_eq!(t.control_terminal(2), Some(77));
    assert_eq!(t.foreground_pgroup(2), Some(2));
    assert_eq!(t.drop_control_terminal(2), Some(2));
    assert_eq!(t.control_terminal(2), None);
    assert_eq!(t.foreground_pgroup(2), None);
    assert_eq!(t.drop_control_terminal(2), None);
}

#[test]
fn group_that_goes_away_stops_being_foreground() {
    let mut t = ProcessList::new(1);
    t.new_cloned(1, 2);
    t.add_thread(2, 2);
    t.setpgid(1, 2, 2).unwrap();
    t.set_foreground_pgroup(1, Some(2)).unwrap();
    let mut members = t.group_members(2, 1);
    members.sort();
    assert_eq!(members, vec![2]);
    t.reap(2, 2).unwrap();
    t.remove_process(2);
    assert_eq!(t.foreground_pgroup(1), None);
    assert_eq!(t.try_find_pgroup(2), None);
    let mut all = t.group_members(1, 1);
    all.sort();
    assert_eq!(all, vec![1]);
}

#[test]
fn a_signal_ends_a_sleeping_wait() {
    assert_eq!(after_sleep(true), Err(EINTR));
    assert_eq!(after_sleep(false), Ok(()));
}

#[test]
fn a_group_that_loses_its_terminal_is_hung_up_then_continued() {
    // Two processes: the first with one thread, the second with two, the
    // first of which blocks SIGHUP.
    let mut a: SignalList<u32> = SignalList::new();
    a.set_signal_waker(Some(10));
    let mut b1: SignalList<u32> = SignalList::new();
    b1.set_mask(SignalMask::from_signal(sig(SIGHUP)));
    let b2: SignalList<u32> = SignalList::new();
    let mut procs = vec![vec![a], vec![b1, b2]];
    let wakers = hangup_group(&mut procs);
    assert_eq!(wakers, vec![10]);
    // Each process got SIGHUP (on its first thread that does not block it)
    // and SIGCONT; SIGHUP comes first when handled.
    assert_eq!(procs[0][0].next_handle_step(), HandleStep::Terminate(sig(SIGHUP)));
    assert_eq!(procs[0][0].next_handle_step(), HandleStep::Continue(sig(SIGCONT)));
    assert_eq!(procs[1][1].next_handle_step(), HandleStep::Terminate(sig(SIGHUP)));
    assert_eq!(procs[1][0].next_handle_step(), HandleStep::Continue(sig(SIGCONT)));
    assert_eq!(procs[1][0].next_handle_step(), HandleStep::Done);
}

#[test]
fn signals_to_processes_and_groups() {
    let mut t1: SignalList<u32> = SignalList::new();
    t1.set_mask(SignalMask::from_signal(sig(SIGUSR1)));
    let t2: SignalList<u32> = SignalList::new();
    let mut threads = vec![t1, t2];
    assert_eq!(process_raise(&mut threads, sig(SIGUSR1)).0, Some(1));
    let mut procs = vec![vec![SignalList::<u32>::new()], threads];
    assert_eq!(group_raise(&mut procs, sig(SIGUSR1)), Vec::<u32>::new());
    assert!(procs[0][0].has_pending_signal());
}

#[test]
fn exit_of_a_main_thread() {
    // 1 is init; 2 leads session 2 with a terminal; 3 and 4 are its
    // children; 2's own wait list holds an exit of 5 and a stop of 6.
    let mut t = ProcessList::new(1);
    t.new_cloned(1, 2);
    t.add_thread(2, 2);
    t.setsid(2).unwrap();
    t.set_control_terminal(2, 77);
    t.new_cloned(2, 3);
    t.new_cloned(2, 4);
    let mut own = WaitList::new();
    own.notify(exited(5, 0));
    own.notify(WaitObject { pid: 6, code: WaitType::Stopped(sig(SIGSTOP)) });
    let mut parent_list = WaitList::new();
    let mut init_list = WaitList::new();
    let mut files = FileArray::new();
    files.open(O_RDONLY, FileId(9)).unwrap();
    // 2's parent is init, so its list gets the passed-on exit and then 2's.
    let mut report =
        t.exit_main_thread(2, WaitType::Exited(3), &mut own, &mut parent_list, &mut init_list, &mut files);
    report.orphans.sort();
    assert_eq!(report.parent, 1);
    assert_eq!(report.orphans, vec![3, 4]);
    assert_eq!(report.hangup, Some(2));
    assert!(report.notify_init);
    assert_eq!(t.control_terminal(2), None);
    assert_eq!(info(&t, 3).parent, Some(1));
    assert_eq!(files.get(eonix::filearray::FD(0)), None);
    assert_eq!(own.get(true, true), None);
    assert_eq!(parent_list.get(true, true), Some(exited(5, 0)));
    assert_eq!(parent_list.get(true, true), Some(exited(2, 3)));
    assert_eq!(init_list.get(true, true), None);
    // The parent's wait then collects 2 and takes it out of the table.
    let step = wait_step(Some(exited(2, 3)), true, false);
    assert_eq!(t.finish_wait(step), Ok(Some(exited(2, 3))));
    assert_eq!(t.try_find_process(2), None);
    // 3 and 4 are still in session 2, which now has no terminal.
    assert!(t.try_find_session(2));
    assert_eq!(t.control_terminal(2), None);
}

#[test]
fn exit_with_a_parent_other_than_init() {
    let mut t = ProcessList::new(1);
    t.new_cloned(1, 2);
    t.new_cloned(2, 3);
    t.add_thread(3, 3);
    let mut own = WaitList::new();
    let mut parent_list = WaitList::new();
    let mut init_list = WaitList::new();
    let mut files = FileArray::new();
    let report =
        t.exit_main_thread(3, WaitType::Exited(0), &mut own, &mut parent_list, &mut init_list, &mut files);
    assert_eq!(report.parent, 2);
    assert_eq!(report.hangup, None);
    assert!(!report.notify_init);
    assert_eq!(parent_list.get(true, true), Some(exited(3, 0)));
    assert_eq!(init_list.get(true, true), None);
    // A wait that reports a stop takes nobody out of the table.
    let stop = WaitObject { pid: 3, code: WaitType::Stopped(sig(SIGSTOP)) };
    assert_eq!(t.finish_wait(wait_step(Some(stop), true, false)), Ok(Some(stop)));
    assert!(t.try_find_process(3).is_some());
    assert_eq!(t.finish_wait(wait_step(None, false, false)), Err(ECHILD));
}

#[test]
fn group_raise_hands_back_every_waker() {
    let mut a: SignalList<u32> = SignalList::new();
    a.set_signal_waker(Some(1));
    let mut b: SignalList<u32> = SignalList::new();
    b.set_signal_waker(Some(2));
    let mut c: SignalList<u32> = SignalList::new();
    c.set_stop_waker(3);
    let mut procs = vec![vec![a], vec![b], vec![c]];
    // SIGHUP wakes the signal wakers, SIGCONT the stop waker.
    assert_eq!(hangup_group(&mut procs), vec![1, 2, 3]);
}
