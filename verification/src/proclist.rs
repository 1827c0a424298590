//! The table of all processes, threads, process groups and sessions.
//!
//! A process group is named by its id and belongs to one session; it is
//! there while some process is in it, and a session is there while some
//! process is in it.  Groups are told apart by id and session together:
//! a process that starts a session of its own gets a group with its own
//! id even while an older group of that id lives on in another session.
//! Every process but init has a parent in the table; when a process
//! exits, its children are handed to init.  A session's foreground group
//! is one of its groups, and only a session with members has a
//! controlling terminal.

use std::collections::BTreeMap;
use vstd::prelude::*;
use vstd::std_specs::iter::IteratorSpec;

use crate::errno::{KResult, EPERM};
use crate::filearray::FileArray;
use crate::process::{
    is_stop_or_continue, WaitList, WaitObject, WaitStep, WaitType, setpgid_plan, setpgid_plan_spec, setpgid_target_check, setpgid_target_spec, setsid_check,
    SetPgidPlan,
};

verus! {

broadcast use {vstd::std_specs::btree::group_btree_axioms, vstd::laws_cmp::group_laws_cmp};

/// Some process maps to `v`.
pub open spec fn has_value(m: Map<u32, u32>, v: u32) -> bool {
    exists|k: u32| #[trigger] m.contains_key(k) && m[k] == v
}

/// The processes whose parent is `pid`.
pub open spec fn children_of(parents: Map<u32, u32>, pid: u32) -> Set<u32> {
    Set::new(|c: u32| parents.contains_key(c) && parents[c] == pid)
}

/// The parents once the children of `pid` have been handed to `init`.
pub open spec fn handed_to_init(parents: Map<u32, u32>, pid: u32, init: u32) -> Map<u32, u32> {
    Map::new(
        |c: u32| parents.contains_key(c),
        |c: u32|
            if parents[c] == pid {
                init
            } else {
                parents[c]
            },
    )
}

/// Process `p` is in group `g` of session `s`.
pub open spec fn in_group(pgids: Map<u32, u32>, sids: Map<u32, u32>, p: u32, g: u32, s: u32) -> bool {
    &&& pgids.contains_key(p)
    &&& pgids[p] == g
    &&& sids.contains_key(p)
    &&& sids[p] == s
}

/// Group `g` of session `s` has a member.
pub open spec fn group_live(pgids: Map<u32, u32>, sids: Map<u32, u32>, g: u32, s: u32) -> bool {
    exists|p: u32| #[trigger] in_group(pgids, sids, p, g, s)
}

/// The foreground groups once the members of session `s` changed: the
/// session keeps its foreground group only while that group has members.
pub open spec fn fg_after(fg: Map<u32, u32>, pgids: Map<u32, u32>, sids: Map<u32, u32>, s: u32) -> Map<
    u32,
    u32,
> {
    if fg.contains_key(s) && !group_live(pgids, sids, fg[s], s) {
        fg.remove(s)
    } else {
        fg
    }
}

/// The controlling terminals once the members of session `s` changed: a
/// session left without members has none.
pub open spec fn terms_after(terms: Map<u32, u32>, sids: Map<u32, u32>, s: u32) -> Map<u32, u32> {
    if has_value(sids, s) {
        terms
    } else {
        terms.remove(s)
    }
}

/// What a lookup tells of a process.
#[derive(Debug, Clone, Copy, PartialEq, Eq, Structural)]
pub struct ProcessInfo {
    pub pid: u32,
    pub parent: Option<u32>,
    pub pgid: u32,
    pub sid: u32,
}

/// What `do_setpgid` does once the lookup of group `pgid` gave `target`
/// (the session of a group with that id): the result of
/// `setpgid_plan_spec`, and on a move the new group of the process; the
/// session's foreground group goes if the group left behind is empty.
pub open spec fn setpgid_outcome_with(
    pre: ProcessList,
    post: ProcessList,
    pid: u32,
    pgid: u32,
    target: Option<u32>,
    r: KResult<()>,
) -> bool {
    let plan = setpgid_plan_spec(pid, pre.sid_map()[pid], pre.pgid_map()[pid], pgid, target);
    let moved = plan == Ok::<SetPgidPlan, u32>(SetPgidPlan::JoinExisting) || plan == Ok::<
        SetPgidPlan,
        u32,
    >(SetPgidPlan::CreateGroup);
    &&& plan is Err ==> r == Err::<(), u32>(plan->Err_0)
    &&& plan is Ok ==> r is Ok
    &&& !moved ==> post.pgid_map() == pre.pgid_map() && post.foreground_map() == pre.foreground_map()
    &&& moved ==> post.pgid_map() == pre.pgid_map().insert(pid, pgid) && post.foreground_map()
        == fg_after(pre.foreground_map(), post.pgid_map(), post.sid_map(), pre.sid_map()[pid])
    &&& post.init_pid() == pre.init_pid()
    &&& post.next_pid() == pre.next_pid()
    &&& post.parent_map() == pre.parent_map()
    &&& post.sid_map() == pre.sid_map()
    &&& post.thread_map() == pre.thread_map()
    &&& post.terminal_map() == pre.terminal_map()
}

/// What `do_setpgid` does: as `setpgid_outcome_with` rules for what a
/// lookup of group `pgid` may give (with two groups of that id, the
/// session of either).
pub open spec fn setpgid_outcome(
    pre: ProcessList,
    post: ProcessList,
    pid: u32,
    pgid: u32,
    r: KResult<()>,
) -> bool {
    exists|target: Option<u32>|
        #[trigger] pre.lookup_gives(pgid, target) && setpgid_outcome_with(
            pre,
            post,
            pid,
            pgid,
            target,
            r,
        )
}

/// A group of a session other than `s` keeps its members when only
/// process `pid`, which was in session `s`, changed.
proof fn lemma_other_group_stays(
    pre_pg: Map<u32, u32>,
    pre_sid: Map<u32, u32>,
    post_pg: Map<u32, u32>,
    post_sid: Map<u32, u32>,
    pid: u32,
    s: u32,
    h: u32,
    k: u32,
)
    requires
        pre_sid.contains_key(pid) ==> pre_sid[pid] == s,
        k != s,
        post_pg.remove(pid) == pre_pg.remove(pid),
        post_sid.remove(pid) == pre_sid.remove(pid),
        group_live(pre_pg, pre_sid, h, k),
    ensures
        group_live(post_pg, post_sid, h, k),
{
    let p = choose|p: u32| #[trigger] in_group(pre_pg, pre_sid, p, h, k);
    assert(p != pid);
    assert(pre_pg.remove(pid).contains_key(p));
    assert(pre_sid.remove(pid).contains_key(p));
    assert(post_pg.remove(pid)[p] == pre_pg[p]);
    assert(post_sid.remove(pid)[p] == pre_sid[p]);
    assert(in_group(post_pg, post_sid, p, h, k));
}

/// A session other than `s` keeps its members when only process `pid`,
/// which was in session `s`, changed.
proof fn lemma_other_session_stays(pre_sid: Map<u32, u32>, post_sid: Map<u32, u32>, pid: u32, s: u32, k: u32)
    requires
        pre_sid.contains_key(pid) ==> pre_sid[pid] == s,
        k != s,
        post_sid.remove(pid) == pre_sid.remove(pid),
        has_value(pre_sid, k),
    ensures
        has_value(post_sid, k),
{
    let p = choose|p: u32| #[trigger] pre_sid.contains_key(p) && pre_sid[p] == k;
    assert(p != pid);
    assert(pre_sid.remove(pid).contains_key(p));
    assert(post_sid.remove(pid)[p] == pre_sid[p]);
    assert(post_sid.contains_key(p) && post_sid[p] == k);
}

/// Queue `items` on `list`, in order.
fn append_all(list: &mut WaitList, items: &Vec<WaitObject>)
    ensures
        final(list)@ == old(list)@ + items@,
{
    let ghost base = list@;
    let mut i: usize = 0;
    while i < items.len()
        invariant
            i <= items@.len(),
            list@ == base + items@.take(i as int),
        decreases items@.len() - i,
    {
        list.notify(items[i]);
        assert(items@.take(i + 1) =~= items@.take(i as int).push(items@[i as int]));
        i = i + 1;
    }
    assert(items@.take(items@.len() as int) =~= items@);
}

/// The step reports an exit, whose child is to be taken out of the table.
pub open spec fn reaps(step: WaitStep) -> bool {
    step matches WaitStep::Report { reap, .. } && reap
}

/// The child of a reported state change.
pub open spec fn reaped_pid(step: WaitStep) -> u32 {
    match step {
        WaitStep::Report { object, .. } => object.pid,
        _ => 0,
    }
}

/// What the exit of a process's main thread leaves for the caller to do.
pub struct ExitReport {
    /// The parent, to be sent its exit signal (it was queued the exit).
    pub parent: u32,
    /// The children handed to init.
    pub orphans: Vec<u32>,
    /// The foreground group of the session that lost its terminal (the
    /// process led that session), to be hung up.
    pub hangup: Option<u32>,
    /// Exits were passed on to init, which is to be woken and sent
    /// `SIGCHLD`.
    pub notify_init: bool,
}

pub struct ProcessList {
    init: u32,
    next_pid: u32,
    parents: BTreeMap<u32, u32>,
    pgids: BTreeMap<u32, u32>,
    sids: BTreeMap<u32, u32>,
    threads: BTreeMap<u32, u32>,
    foreground: BTreeMap<u32, u32>,
    terminals: BTreeMap<u32, u32>,
}

/// Whether some key of `m` maps to `v`.
fn map_has_value(m: &BTreeMap<u32, u32>, v: u32) -> (r: bool)
    ensures
        r == has_value(m@, v),
{
    let entries = m.iter();
    let ghost all = entries.remaining();
    let ghost mut n: int = 0;
    for kv in it: entries
        invariant
            it.seq() == all,
            all == vstd::std_specs::btree::spec_btree_map_iter(m).remaining(),
            n == it.index(),
            n <= all.len(),
            forall|i: int| 0 <= i < n ==> *(#[trigger] all[i]).1 != v,
    {
        let (k, val) = kv;
        assert(all[n] == (k, val));
        if *val == v {
            assert(m@.contains_key(*k) && m@[*k] == v);
            return true;
        }
        proof {
            n = n + 1;
        }
    }
    assert forall|k: u32| #[trigger] m@.contains_key(k) implies m@[k] != v by {
        assert(all.contains((&k, &m@[k])));
        let i = choose|i: int| 0 <= i < all.len() && all[i] == (&k, &m@[k]);
        assert(all[i] == (&k, &m@[k]));
    }
    false
}

/// The keys of `m` that map to `v`, each once.
fn keys_with_value(m: &BTreeMap<u32, u32>, v: u32) -> (r: Vec<u32>)
    ensures
        r@.to_set() == Set::new(|k: u32| m@.contains_key(k) && m@[k] == v),
        r@.no_duplicates(),
{
    let mut out: Vec<u32> = Vec::new();
    let entries = m.iter();
    let ghost all = entries.remaining();
    assert(all.no_duplicates());
    let ghost mut n: int = 0;
    for kv in it: entries
        invariant
            it.seq() == all,
            all == vstd::std_specs::btree::spec_btree_map_iter(m).remaining(),
            all.no_duplicates(),
            n == it.index(),
            n <= all.len(),
            out@.no_duplicates(),
            forall|j: int|
                0 <= j < out@.len() ==> m@.contains_key(#[trigger] out@[j]) && m@[out@[j]] == v,
            forall|j: int|
                0 <= j < out@.len() ==> exists|i: int|
                    0 <= i < n && *all[i].0 == #[trigger] out@[j],
            forall|i: int|
                0 <= i < n && *(#[trigger] all[i]).1 == v ==> out@.contains(*all[i].0),
    {
        let (k, val) = kv;
        assert(all[n] == (k, val));
        assert(m@.contains_key(*k) && m@[*k] == *val);
        let ghost out0 = out@;
        if *val == v {
            proof {
                assert forall|j: int| 0 <= j < out@.len() implies out@[j] != *k by {
                    let i = choose|i: int| 0 <= i < n && *all[i].0 == out@[j];
                    if out@[j] == *k {
                        assert(m@[*all[i].0] == *all[i].1);
                        assert(all[i] == all[n]);
                    }
                }
            }
            out.push(*k);
            proof {
                assert(out@[out@.len() - 1] == *k);
                assert forall|j: int| 0 <= j < out@.len() implies exists|i: int|
                    0 <= i < n + 1 && *all[i].0 == #[trigger] out@[j] by {
                    if j < out0.len() {
                        assert(out0[j] == out@[j]);
                        let i = choose|i: int| 0 <= i < n && *all[i].0 == out0[j];
                        assert(*all[i].0 == out@[j]);
                    } else {
                        assert(*all[n].0 == out@[j]);
                    }
                }
            }
        }
        proof {
            assert forall|i: int| 0 <= i < n + 1 && *(#[trigger] all[i]).1 == v implies out@.contains(
                *all[i].0,
            ) by {
                if i < n {
                    assert(out0.contains(*all[i].0));
                    let j = choose|j: int| 0 <= j < out0.len() && out0[j] == *all[i].0;
                    assert(out@[j] == *all[i].0);
                } else {
                    assert(out@[out@.len() - 1] == *k);
                }
            }
            n = n + 1;
        }
    }
    assert forall|k: u32| #[trigger] m@.contains_key(k) && m@[k] == v implies out@.contains(k) by {
        assert(all.contains((&k, &m@[k])));
        let i = choose|i: int| 0 <= i < all.len() && all[i] == (&k, &m@[k]);
        assert(all[i] == (&k, &m@[k]));
    }
    assert(out@.to_set() =~= Set::new(|k: u32| m@.contains_key(k) && m@[k] == v));
    out
}

impl ProcessList {
    pub closed spec fn init_pid(&self) -> u32 {
        self.init
    }

    pub closed spec fn next_pid(&self) -> u32 {
        self.next_pid
    }

    /// Parent of each process (init has none).
    pub closed spec fn parent_map(&self) -> Map<u32, u32> {
        self.parents@
    }

    /// Process group id of each process.
    pub closed spec fn pgid_map(&self) -> Map<u32, u32> {
        self.pgids@
    }

    /// Session of each process.
    pub closed spec fn sid_map(&self) -> Map<u32, u32> {
        self.sids@
    }

    /// Process of each thread.
    pub closed spec fn thread_map(&self) -> Map<u32, u32> {
        self.threads@
    }

    /// Foreground process group of each session that has one.
    pub closed spec fn foreground_map(&self) -> Map<u32, u32> {
        self.foreground@
    }

    /// Controlling terminal of each session that has one.
    pub closed spec fn terminal_map(&self) -> Map<u32, u32> {
        self.terminals@
    }

    pub open spec fn procs(&self) -> Set<u32> {
        self.pgid_map().dom()
    }

    /// Group `g` of session `s` has a member.
    pub open spec fn has_group(&self, g: u32, s: u32) -> bool {
        group_live(self.pgid_map(), self.sid_map(), g, s)
    }

    /// Session `s` has a member.
    pub open spec fn has_session(&self, s: u32) -> bool {
        has_value(self.sid_map(), s)
    }

    /// `target` is what a lookup of group `pgid` may give: nothing when no
    /// process has that group id, else the session of a group with it.
    pub open spec fn lookup_gives(&self, pgid: u32, target: Option<u32>) -> bool {
        match target {
            None => !has_value(self.pgid_map(), pgid),
            Some(s) => self.has_group(pgid, s),
        }
    }

    pub open spec fn wf(&self) -> bool {
        &&& self.next_pid() >= 2
        &&& self.procs().contains(self.init_pid())
        &&& self.sid_map().dom() == self.procs()
        &&& !self.parent_map().contains_key(self.init_pid())
        &&& forall|p: u32|
            #![trigger self.procs().contains(p)]
            self.procs().contains(p) && p != self.init_pid() ==> self.parent_map().contains_key(p)
        &&& forall|p: u32| #[trigger]
            self.parent_map().contains_key(p) ==> self.procs().contains(p) && self.procs().contains(
                self.parent_map()[p],
            )
        &&& forall|t: u32| #[trigger]
            self.thread_map().contains_key(t) ==> self.procs().contains(self.thread_map()[t])
        &&& forall|s: u32| #[trigger]
            self.foreground_map().contains_key(s) ==> self.has_group(self.foreground_map()[s], s)
        &&& forall|s: u32| #[trigger] self.terminal_map().contains_key(s) ==> self.has_session(s)
    }

    /// The table with init alone: its own group and session, its main
    /// thread, and pids handed out after it (init's pid comes from the
    /// counter, which starts at 2).
    pub fn new(init: u32) -> (r: Self)
        requires
            1 <= init < u32::MAX,
        ensures
            r.wf(),
            r.init_pid() == init,
            r.next_pid() == init + 1,
            r.parent_map() == Map::<u32, u32>::empty(),
            r.pgid_map() == map![init => init],
            r.sid_map() == map![init => init],
            r.thread_map() == map![init => init],
            r.foreground_map() == Map::<u32, u32>::empty(),
            r.terminal_map() == Map::<u32, u32>::empty(),
    {
        let mut pgids = BTreeMap::new();
        pgids.insert(init, init);
        let mut sids = BTreeMap::new();
        sids.insert(init, init);
        let mut threads = BTreeMap::new();
        threads.insert(init, init);
        let r = ProcessList {
            init,
            next_pid: init + 1,
            parents: BTreeMap::new(),
            pgids,
            sids,
            threads,
            foreground: BTreeMap::new(),
            terminals: BTreeMap::new(),
        };
        assert(r.pgid_map() =~= map![init => init]);
        assert(r.sid_map() =~= map![init => init]);
        assert(r.thread_map() =~= map![init => init]);
        assert(r.sid_map().dom() =~= r.procs());
        r
    }

    pub fn init_process(&self) -> (r: u32)
        ensures
            r == self.init_pid(),
    {
        self.init
    }

    /// The next pid; the counter moves on by one.  Pids are handed out
    /// from 2 upward, each once, until the counter would wrap.
    pub fn alloc_pid(&mut self) -> (r: u32)
        requires
            old(self).wf(),
            old(self).next_pid() < u32::MAX,
        ensures
            final(self).wf(),
            r == old(self).next_pid(),
            r >= 2,
            final(self).next_pid() == r + 1,
            final(self).init_pid() == old(self).init_pid(),
            final(self).parent_map() == old(self).parent_map(),
            final(self).pgid_map() == old(self).pgid_map(),
            final(self).sid_map() == old(self).sid_map(),
            final(self).thread_map() == old(self).thread_map(),
            final(self).foreground_map() == old(self).foreground_map(),
            final(self).terminal_map() == old(self).terminal_map(),
    {
        let pid = self.next_pid;
        self.next_pid = self.next_pid + 1;
        proof {
            assert forall|p: u32| #![trigger self.procs().contains(p)]
                self.procs().contains(p) && p != self.init_pid() implies self.parent_map().contains_key(p) by {
                assert(old(self).procs().contains(p));
            }
            assert forall|c: u32| #[trigger] self.parent_map().contains_key(c) implies self.procs().contains(
                c,
            ) && self.procs().contains(self.parent_map()[c]) by {
                assert(old(self).parent_map().contains_key(c));
            }
            assert forall|t: u32| #[trigger] self.thread_map().contains_key(t) implies self.procs().contains(
                self.thread_map()[t],
            ) by {
                assert(old(self).thread_map().contains_key(t));
            }
            self.lemma_frame(*old(self));
        }
        pid
    }

    /// The table stays well formed when only the counter, the parents or
    /// the threads changed in ways that keep their own conditions.
    proof fn lemma_frame(&self, prev: ProcessList)
        requires
            prev.wf(),
            self.next_pid() >= 2,
            self.init_pid() == prev.init_pid(),
            self.pgid_map() == prev.pgid_map(),
            self.sid_map() == prev.sid_map(),
            self.foreground_map() == prev.foreground_map(),
            self.terminal_map() == prev.terminal_map(),
            !self.parent_map().contains_key(self.init_pid()),
            forall|p: u32|
                #![trigger self.procs().contains(p)]
                self.procs().contains(p) && p != self.init_pid() ==> self.parent_map().contains_key(p),
            forall|p: u32| #[trigger]
                self.parent_map().contains_key(p) ==> self.procs().contains(p) && self.procs().contains(
                    self.parent_map()[p],
                ),
            forall|t: u32| #[trigger]
                self.thread_map().contains_key(t) ==> self.procs().contains(self.thread_map()[t]),
        ensures
            self.wf(),
    {
        assert forall|s: u32| #[trigger] self.foreground_map().contains_key(s) implies self.has_group(
            self.foreground_map()[s],
            s,
        ) by {
            assert(prev.foreground_map().contains_key(s));
        }
        assert forall|s: u32| #[trigger] self.terminal_map().contains_key(s) implies self.has_session(s) by {
            assert(prev.terminal_map().contains_key(s));
        }
    }

    pub fn try_find_process(&self, pid: u32) -> (r: Option<ProcessInfo>)
        requires
            self.wf(),
        ensures
            !self.procs().contains(pid) ==> r is None,
            self.procs().contains(pid) ==> r == Some(
                ProcessInfo {
                    pid,
                    parent: if self.parent_map().contains_key(pid) {
                        Some(self.parent_map()[pid])
                    } else {
                        None
                    },
                    pgid: self.pgid_map()[pid],
                    sid: self.sid_map()[pid],
                },
            ),
    {
        match self.pgids.get(&pid) {
            None => None,
            Some(pgid) => {
                let sid = *self.sids.get(&pid).unwrap();
                let parent = match self.parents.get(&pid) {
                    Some(p) => Some(*p),
                    None => None,
                };
                Some(ProcessInfo { pid, parent, pgid: *pgid, sid })
            },
        }
    }

    /// The members of group `g` of session `s`, each once.
    fn members_of(&self, g: u32, s: u32) -> (r: Vec<u32>)
        requires
            self.sid_map().dom() == self.procs(),
        ensures
            r@.to_set() == Set::new(|p: u32| in_group(self.pgid_map(), self.sid_map(), p, g, s)),
            r@.no_duplicates(),
    {
        let keys = keys_with_value(&self.pgids, g);
        let mut out: Vec<u32> = Vec::new();
        let mut i: usize = 0;
        while i < keys.len()
            invariant
                i <= keys@.len(),
                self.sid_map().dom() == self.procs(),
                keys@.to_set() == Set::new(|k: u32| self.pgids@.contains_key(k) && self.pgids@[k] == g),
                keys@.no_duplicates(),
                out@.no_duplicates(),
                forall|j: int|
                    0 <= j < out@.len() ==> in_group(self.pgid_map(), self.sid_map(), #[trigger] out@[j], g, s),
                forall|j: int|
                    0 <= j < out@.len() ==> exists|m: int| 0 <= m < i && keys@[m] == #[trigger] out@[j],
                forall|m: int|
                    0 <= m < i && in_group(self.pgid_map(), self.sid_map(), #[trigger] keys@[m], g, s)
                        ==> out@.contains(keys@[m]),
            decreases keys@.len() - i,
        {
            let k = keys[i];
            assert(keys@.to_set().contains(k));
            let ks = *self.sids.get(&k).unwrap();
            let ghost out0 = out@;
            if ks == s {
                proof {
                    assert forall|j: int| 0 <= j < out@.len() implies out@[j] != k by {
                        let m = choose|m: int| 0 <= m < i && keys@[m] == out@[j];
                        if out@[j] == k {
                            assert(keys@[m] == keys@[i as int]);
                        }
                    }
                }
                out.push(k);
                proof {
                    assert forall|j: int| 0 <= j < out@.len() implies exists|m: int|
                        0 <= m < i + 1 && keys@[m] == #[trigger] out@[j] by {
                        if j < out0.len() {
                            assert(out0[j] == out@[j]);
                            let m = choose|m: int| 0 <= m < i && keys@[m] == out0[j];
                            assert(keys@[m] == out@[j]);
                        } else {
                            assert(keys@[i as int] == out@[j]);
                        }
                    }
                }
            }
            proof {
                assert forall|m: int|
                    0 <= m < i + 1 && in_group(self.pgid_map(), self.sid_map(), #[trigger] keys@[m], g, s)
                        implies out@.contains(keys@[m]) by {
                    if m < i {
                        assert(out0.contains(keys@[m]));
                        let j = choose|j: int| 0 <= j < out0.len() && out0[j] == keys@[m];
                        assert(out@[j] == keys@[m]);
                    } else {
                        assert(out@[out@.len() - 1] == k);
                    }
                }
            }
            i += 1;
        }
        proof {
            assert forall|p: u32| #[trigger] in_group(self.pgid_map(), self.sid_map(), p, g, s) implies out@.contains(p) by {
                assert(keys@.to_set().contains(p));
                let m = choose|m: int| 0 <= m < keys@.len() && keys@[m] == p;
                assert(in_group(self.pgid_map(), self.sid_map(), keys@[m], g, s));
            }
            assert forall|p: u32| out@.contains(p) implies #[trigger] in_group(self.pgid_map(), self.sid_map(), p, g, s) by {
                let j = choose|j: int| 0 <= j < out@.len() && out@[j] == p;
                assert(in_group(self.pgid_map(), self.sid_map(), out@[j], g, s));
            }
            assert(out@.to_set() =~= Set::new(|p: u32| in_group(self.pgid_map(), self.sid_map(), p, g, s)));
        }
        out
    }

    /// Whether group `g` of session `s` has a member.
    fn group_has_members(&self, g: u32, s: u32) -> (r: bool)
        requires
            self.sid_map().dom() == self.procs(),
        ensures
            r == self.has_group(g, s),
    {
        let m = self.members_of(g, s);
        if m.len() > 0 {
            assert(m@.to_set().contains(m@[0]));
            true
        } else {
            proof {
                assert forall|p: u32| !#[trigger] in_group(self.pgid_map(), self.sid_map(), p, g, s) by {
                    if in_group(self.pgid_map(), self.sid_map(), p, g, s) {
                        assert(m@.to_set().contains(p));
                    }
                }
            }
            false
        }
    }

    /// The session of a group with id `pgid` (of its member with the least
    /// pid), when some process has that group id.
    pub fn try_find_pgroup(&self, pgid: u32) -> (r: Option<u32>)
        requires
            self.wf(),
        ensures
            self.lookup_gives(pgid, r),
    {
        let keys = keys_with_value(&self.pgids, pgid);
        if keys.len() == 0 {
            proof {
                assert forall|k: u32| #[trigger] self.pgid_map().contains_key(k) implies self.pgid_map()[k] != pgid by {
                    if self.pgid_map()[k] == pgid {
                        assert(keys@.to_set().contains(k));
                    }
                }
            }
            None
        } else {
            let k = keys[0];
            assert(keys@.to_set().contains(k));
            let s = *self.sids.get(&k).unwrap();
            assert(in_group(self.pgid_map(), self.sid_map(), k, pgid, s));
            Some(s)
        }
    }

    /// Whether session `sid` has a member.
    pub fn try_find_session(&self, sid: u32) -> (r: bool)
        ensures
            r == self.has_session(sid),
    {
        map_has_value(&self.sids, sid)
    }

    /// The process of thread `tid`.
    pub fn try_find_thread(&self, tid: u32) -> (r: Option<u32>)
        ensures
            r == (if self.thread_map().contains_key(tid) {
                Some(self.thread_map()[tid])
            } else {
                None::<u32>
            }),
    {
        match self.threads.get(&tid) {
            Some(p) => Some(*p),
            None => None,
        }
    }

    pub fn has_children(&self, pid: u32) -> (r: bool)
        ensures
            r == has_value(self.parent_map(), pid),
    {
        map_has_value(&self.parents, pid)
    }

    /// A new thread `tid` of process `pid`.
    pub fn add_thread(&mut self, tid: u32, pid: u32)
        requires
            old(self).wf(),
            old(self).procs().contains(pid),
            !old(self).thread_map().contains_key(tid),
        ensures
            final(self).wf(),
            final(self).thread_map() == old(self).thread_map().insert(tid, pid),
            final(self).init_pid() == old(self).init_pid(),
            final(self).next_pid() == old(self).next_pid(),
            final(self).parent_map() == old(self).parent_map(),
            final(self).pgid_map() == old(self).pgid_map(),
            final(self).sid_map() == old(self).sid_map(),
            final(self).foreground_map() == old(self).foreground_map(),
            final(self).terminal_map() == old(self).terminal_map(),
    {
        self.threads.insert(tid, pid);
        proof {
            assert forall|t: u32| #[trigger] self.thread_map().contains_key(t) implies self.procs().contains(
                self.thread_map()[t],
            ) by {
                if t != tid {
                    assert(old(self).thread_map().contains_key(t));
                }
            }
            self.lemma_frame(*old(self));
        }
    }

    /// A thread that is not the main one of its process is gone.
    pub fn remove_thread(&mut self, tid: u32)
        requires
            old(self).wf(),
            old(self).thread_map().contains_key(tid),
        ensures
            final(self).wf(),
            final(self).thread_map() == old(self).thread_map().remove(tid),
            final(self).init_pid() == old(self).init_pid(),
            final(self).next_pid() == old(self).next_pid(),
            final(self).parent_map() == old(self).parent_map(),
            final(self).pgid_map() == old(self).pgid_map(),
            final(self).sid_map() == old(self).sid_map(),
            final(self).foreground_map() == old(self).foreground_map(),
            final(self).terminal_map() == old(self).terminal_map(),
    {
        self.threads.remove(&tid);
        proof {
            assert forall|t: u32| #[trigger] self.thread_map().contains_key(t) implies self.procs().contains(
                self.thread_map()[t],
            ) by {
                assert(old(self).thread_map().contains_key(t));
            }
            self.lemma_frame(*old(self));
        }
    }

    /// A child of `other` created by `fork`: it gets pid `pid` and shares
    /// the group and the session of its parent.
    pub fn new_cloned(&mut self, other: u32, pid: u32)
        requires
            old(self).wf(),
            old(self).procs().contains(other),
            !old(self).procs().contains(pid),
        ensures
            final(self).wf(),
            final(self).parent_map() == old(self).parent_map().insert(pid, other),
            final(self).pgid_map() == old(self).pgid_map().insert(pid, old(self).pgid_map()[other]),
            final(self).sid_map() == old(self).sid_map().insert(pid, old(self).sid_map()[other]),
            final(self).thread_map() == old(self).thread_map(),
            final(self).init_pid() == old(self).init_pid(),
            final(self).next_pid() == old(self).next_pid(),
            final(self).foreground_map() == old(self).foreground_map(),
            final(self).terminal_map() == old(self).terminal_map(),
    {
        let pgid = *self.pgids.get(&other).unwrap();
        let sid = *self.sids.get(&other).unwrap();
        self.parents.insert(pid, other);
        self.pgids.insert(pid, pgid);
        self.sids.insert(pid, sid);
        proof {
            assert(self.sid_map().dom() =~= self.procs());
            assert forall|p: u32| #![trigger self.procs().contains(p)]
                self.procs().contains(p) && p != self.init_pid() implies self.parent_map().contains_key(p) by {
                if p != pid {
                    assert(old(self).procs().contains(p));
                }
            }
            assert forall|c: u32| #[trigger] self.parent_map().contains_key(c) implies self.procs().contains(
                c,
            ) && self.procs().contains(self.parent_map()[c]) by {
                if c != pid {
                    assert(old(self).parent_map().contains_key(c));
                }
            }
            assert forall|t: u32| #[trigger] self.thread_map().contains_key(t) implies self.procs().contains(
                self.thread_map()[t],
            ) by {
                assert(old(self).thread_map().contains_key(t));
            }
            assert forall|s: u32| #[trigger] self.foreground_map().contains_key(s) implies self.has_group(
                self.foreground_map()[s],
                s,
            ) by {
                assert(old(self).foreground_map().contains_key(s));
                let h = old(self).foreground_map()[s];
                let q = choose|q: u32| #[trigger] in_group(old(self).pgid_map(), old(self).sid_map(), q, h, s);
                assert(q != pid);
                assert(in_group(self.pgid_map(), self.sid_map(), q, h, s));
            }
            assert forall|s: u32| #[trigger] self.terminal_map().contains_key(s) implies self.has_session(s) by {
                assert(old(self).terminal_map().contains_key(s));
                let q = choose|q: u32| #[trigger] old(self).sid_map().contains_key(q) && old(self).sid_map()[q] == s;
                assert(q != pid);
                assert(self.sid_map().contains_key(q) && self.sid_map()[q] == s);
            }
        }
    }

    /// Drop the foreground group of session `s` when it has no member any
    /// more.
    fn fix_foreground(&mut self, s: u32)
        requires
            old(self).sid_map().dom() == old(self).procs(),
        ensures
            final(self).foreground_map() == fg_after(
                old(self).foreground_map(),
                old(self).pgid_map(),
                old(self).sid_map(),
                s,
            ),
            final(self).init_pid() == old(self).init_pid(),
            final(self).next_pid() == old(self).next_pid(),
            final(self).parent_map() == old(self).parent_map(),
            final(self).pgid_map() == old(self).pgid_map(),
            final(self).sid_map() == old(self).sid_map(),
            final(self).thread_map() == old(self).thread_map(),
            final(self).terminal_map() == old(self).terminal_map(),
    {
        match self.foreground.get(&s) {
            Some(g) => {
                let g = *g;
                if !self.group_has_members(g, s) {
                    self.foreground.remove(&s);
                }
            },
            None => {},
        }
    }

    /// Drop the controlling terminal of session `s` when it has no member
    /// any more.
    fn fix_terminal(&mut self, s: u32)
        ensures
            final(self).terminal_map() == terms_after(old(self).terminal_map(), old(self).sid_map(), s),
            final(self).init_pid() == old(self).init_pid(),
            final(self).next_pid() == old(self).next_pid(),
            final(self).parent_map() == old(self).parent_map(),
            final(self).pgid_map() == old(self).pgid_map(),
            final(self).sid_map() == old(self).sid_map(),
            final(self).thread_map() == old(self).thread_map(),
            final(self).foreground_map() == old(self).foreground_map(),
    {
        if !map_has_value(&self.sids, s) {
            self.terminals.remove(&s);
        }
    }

    /// After process `pid` of session `s` changed group or session (or
    /// left), with the foreground group and terminal of `s` fixed up, the
    /// foreground groups and terminals are well formed.
    proof fn lemma_jc_after_change(&self, prev: ProcessList, pid: u32, s: u32)
        requires
            prev.wf(),
            prev.sid_map().contains_key(pid) ==> prev.sid_map()[pid] == s,
            self.pgid_map().remove(pid) == prev.pgid_map().remove(pid),
            self.sid_map().remove(pid) == prev.sid_map().remove(pid),
            self.foreground_map() == fg_after(prev.foreground_map(), self.pgid_map(), self.sid_map(), s),
            self.terminal_map() == terms_after(prev.terminal_map(), self.sid_map(), s),
        ensures
            forall|k: u32| #[trigger]
                self.foreground_map().contains_key(k) ==> self.has_group(self.foreground_map()[k], k),
            forall|k: u32| #[trigger] self.terminal_map().contains_key(k) ==> self.has_session(k),
    {
        assert forall|k: u32| #[trigger] self.foreground_map().contains_key(k) implies self.has_group(
            self.foreground_map()[k],
            k,
        ) by {
            assert(prev.foreground_map().contains_key(k));
            if k != s {
                assert(self.foreground_map()[k] == prev.foreground_map()[k]);
                lemma_other_group_stays(
                    prev.pgid_map(),
                    prev.sid_map(),
                    self.pgid_map(),
                    self.sid_map(),
                    pid,
                    s,
                    prev.foreground_map()[k],
                    k,
                );
            }
        }
        assert forall|k: u32| #[trigger] self.terminal_map().contains_key(k) implies self.has_session(k) by {
            assert(prev.terminal_map().contains_key(k));
            if k != s {
                lemma_other_session_stays(prev.sid_map(), self.sid_map(), pid, s, k);
            }
        }
    }

    /// Make process `pid` the leader of a new session and of a new group
    /// in it, both numbered `pid`; refused with `EPERM` exactly when a
    /// session `pid` has members.  When another group numbered `pid`
    /// still has members (in the caller's old session), it stays as it is:
    /// the two groups of that id are told apart by their sessions.  The
    /// old session loses its foreground group when that group is left
    /// empty, and its terminal when the session is left empty.
    pub fn setsid(&mut self, pid: u32) -> (r: KResult<u32>)
        requires
            old(self).wf(),
            old(self).procs().contains(pid),
        ensures
            final(self).wf(),
            final(self).init_pid() == old(self).init_pid(),
            final(self).next_pid() == old(self).next_pid(),
            final(self).parent_map() == old(self).parent_map(),
            final(self).thread_map() == old(self).thread_map(),
            old(self).has_session(pid) ==> r == Err::<u32, u32>(EPERM) && final(self).pgid_map()
                == old(self).pgid_map() && final(self).sid_map() == old(self).sid_map()
                && final(self).foreground_map() == old(self).foreground_map()
                && final(self).terminal_map() == old(self).terminal_map(),
            !old(self).has_session(pid) ==> ({
                let s = old(self).sid_map()[pid];
                &&& r == Ok::<u32, u32>(pid)
                &&& final(self).pgid_map() == old(self).pgid_map().insert(pid, pid)
                &&& final(self).sid_map() == old(self).sid_map().insert(pid, pid)
                &&& forall|q: u32|
                    #[trigger] in_group(final(self).pgid_map(), final(self).sid_map(), q, pid, pid)
                        <==> q == pid
                &&& final(self).foreground_map() == fg_after(
                    old(self).foreground_map(),
                    final(self).pgid_map(),
                    final(self).sid_map(),
                    s,
                )
                &&& final(self).terminal_map() == terms_after(
                    old(self).terminal_map(),
                    final(self).sid_map(),
                    s,
                )
            }),
    {
        let exists = map_has_value(&self.sids, pid);
        if let Err(e) = setsid_check(exists) {
            return Err(e);
        }
        let s = *self.sids.get(&pid).unwrap();
        self.pgids.insert(pid, pid);
        self.sids.insert(pid, pid);
        assert(self.sid_map().dom() =~= self.procs());
        self.fix_foreground(s);
        self.fix_terminal(s);
        proof {
            assert(s != pid) by {
                assert(old(self).sid_map().contains_key(pid));
            }
            assert(self.pgid_map().remove(pid) =~= old(self).pgid_map().remove(pid));
            assert(self.sid_map().remove(pid) =~= old(self).sid_map().remove(pid));
            self.lemma_jc_after_change(*old(self), pid, s);
            assert forall|q: u32|
                #[trigger] in_group(self.pgid_map(), self.sid_map(), q, pid, pid) <==> q == pid by {
                if q != pid && in_group(self.pgid_map(), self.sid_map(), q, pid, pid) {
                    assert(old(self).sid_map().contains_key(q) && old(self).sid_map()[q] == pid);
                }
            }
            assert forall|p: u32| #![trigger self.procs().contains(p)]
                self.procs().contains(p) && p != self.init_pid() implies self.parent_map().contains_key(p) by {
                assert(old(self).procs().contains(p));
            }
            assert forall|c: u32| #[trigger] self.parent_map().contains_key(c) implies self.procs().contains(
                c,
            ) && self.procs().contains(self.parent_map()[c]) by {
                assert(old(self).parent_map().contains_key(c));
            }
            assert forall|t: u32| #[trigger] self.thread_map().contains_key(t) implies self.procs().contains(
                self.thread_map()[t],
            ) by {
                assert(old(self).thread_map().contains_key(t));
            }
        }
        Ok(pid)
    }

    /// Move process `pid` to group `pgid` as `setpgid_plan_spec` rules for
    /// the session that the lookup of `pgid` gives: into an existing group
    /// of its session, or into a new group `pid` of its session.  The
    /// session loses its foreground group when that is the group left
    /// empty.
    pub fn do_setpgid(&mut self, pid: u32, pgid: u32) -> (r: KResult<()>)
        requires
            old(self).wf(),
            old(self).procs().contains(pid),
        ensures
            final(self).wf(),
            setpgid_outcome(*old(self), *final(self), pid, pgid, r),
    {
        let sid = *self.sids.get(&pid).unwrap();
        let cur = *self.pgids.get(&pid).unwrap();
        let target = self.try_find_pgroup(pgid);
        let plan = setpgid_plan(pid, sid, cur, pgid, target);
        let moved = match plan {
            Err(e) => {
                assert(setpgid_outcome_with(*old(self), *self, pid, pgid, target, Err(e)));
                return Err(e);
            },
            Ok(SetPgidPlan::Unchanged) => false,
            Ok(_) => true,
        };
        if !moved {
            assert(setpgid_outcome_with(*old(self), *self, pid, pgid, target, Ok(())));
            return Ok(());
        }
        self.pgids.insert(pid, pgid);
        assert(self.sid_map().dom() =~= self.procs());
        self.fix_foreground(sid);
        proof {
            assert(self.pgid_map().remove(pid) =~= old(self).pgid_map().remove(pid));
            assert(self.sid_map().remove(pid) =~= old(self).sid_map().remove(pid));
            self.lemma_jc_after_change(*old(self), pid, sid);
            assert(self.terminal_map() == terms_after(old(self).terminal_map(), self.sid_map(), sid)) by {
                assert(self.sid_map().contains_key(pid) && self.sid_map()[pid] == sid);
            }
            assert forall|p: u32| #![trigger self.procs().contains(p)]
                self.procs().contains(p) && p != self.init_pid() implies self.parent_map().contains_key(p) by {
                assert(old(self).procs().contains(p));
            }
            assert forall|c: u32| #[trigger] self.parent_map().contains_key(c) implies self.procs().contains(
                c,
            ) && self.procs().contains(self.parent_map()[c]) by {
                assert(old(self).parent_map().contains_key(c));
            }
            assert forall|t: u32| #[trigger] self.thread_map().contains_key(t) implies self.procs().contains(
                self.thread_map()[t],
            ) by {
                assert(old(self).thread_map().contains_key(t));
            }
            assert(self.procs() =~= old(self).procs());
            assert(setpgid_outcome_with(*old(self), *self, pid, pgid, target, Ok(())));
        }
        Ok(())
    }

    /// `setpgid(pid, pgid)` issued by process `caller`: the target is the
    /// caller or a child of it in the caller's session, as
    /// `setpgid_target_spec` rules; then `do_setpgid`.
    pub fn setpgid(&mut self, caller: u32, pid: u32, pgid: u32) -> (r: KResult<()>)
        requires
            old(self).wf(),
            old(self).procs().contains(caller),
        ensures
            final(self).wf(),
            ({
                let is_child = old(self).parent_map().contains_key(pid) && old(self).parent_map()[pid]
                    == caller;
                let check = setpgid_target_spec(
                    caller,
                    old(self).sid_map()[caller],
                    pid,
                    if is_child {
                        Some(old(self).sid_map()[pid])
                    } else {
                        None
                    },
                );
                &&& check is Err ==> r == check && *final(self) == *old(self)
                &&& check is Ok ==> old(self).procs().contains(pid) && setpgid_outcome(
                    *old(self),
                    *final(self),
                    pid,
                    pgid,
                    r,
                )
            }),
    {
        let caller_sid = *self.sids.get(&caller).unwrap();
        let child_session = match self.parents.get(&pid) {
            Some(parent) => {
                if *parent == caller {
                    Some(*self.sids.get(&pid).unwrap())
                } else {
                    None
                }
            },
            None => None,
        };
        if let Err(e) = setpgid_target_check(caller, caller_sid, pid, child_session) {
            return Err(e);
        }
        self.do_setpgid(pid, pgid)
    }

    /// The table part of reaping an exited thread.  A thread other than
    /// the main one only leaves the thread table (`None`).  When the main
    /// thread of a process exits, every child of the process is handed to
    /// init; the parent to notify and the children handed over come back.
    /// Init itself never exits.
    pub fn reap(&mut self, tid: u32, pid: u32) -> (r: Option<(u32, Vec<u32>)>)
        requires
            old(self).wf(),
            old(self).thread_map().contains_key(tid),
            old(self).thread_map()[tid] == pid,
            tid == pid ==> pid != old(self).init_pid(),
        ensures
            final(self).wf(),
            final(self).init_pid() == old(self).init_pid(),
            final(self).next_pid() == old(self).next_pid(),
            final(self).pgid_map() == old(self).pgid_map(),
            final(self).sid_map() == old(self).sid_map(),
            final(self).foreground_map() == old(self).foreground_map(),
            final(self).terminal_map() == old(self).terminal_map(),
            tid != pid ==> r is None && final(self).thread_map() == old(self).thread_map().remove(
                tid,
            ) && final(self).parent_map() == old(self).parent_map(),
            tid == pid ==> r is Some && final(self).thread_map() == old(self).thread_map() && ({
                let (parent, orphans) = r->Some_0;
                &&& parent == old(self).parent_map()[pid]
                &&& orphans@.to_set() == children_of(old(self).parent_map(), pid)
                &&& orphans@.no_duplicates()
                &&& final(self).parent_map() == handed_to_init(
                    old(self).parent_map(),
                    pid,
                    old(self).init_pid(),
                )
            }),
    {
        if tid != pid {
            self.remove_thread(tid);
            return None;
        }
        let parent = *self.parents.get(&pid).unwrap();
        let orphans = keys_with_value(&self.parents, pid);
        let init = self.init;
        let mut i: usize = 0;
        while i < orphans.len()
            invariant
                0 <= i <= orphans@.len(),
                orphans@.no_duplicates(),
                orphans@.to_set() == children_of(old(self).parent_map(), pid),
                self.init == init,
                init == old(self).init_pid(),
                self.next_pid() == old(self).next_pid(),
                self.pgid_map() == old(self).pgid_map(),
                self.sid_map() == old(self).sid_map(),
                self.thread_map() == old(self).thread_map(),
                self.foreground_map() == old(self).foreground_map(),
                self.terminal_map() == old(self).terminal_map(),
                self.parent_map().dom() == old(self).parent_map().dom(),
                forall|c: u32| #[trigger]
                    self.parent_map().contains_key(c) ==> self.parent_map()[c] == (if old(self).parent_map()[c] == pid && orphans@.subrange(0, i as int).contains(c) {
                        init
                    } else {
                        old(self).parent_map()[c]
                    }),
            decreases orphans@.len() - i,
        {
            let c = orphans[i];
            assert(orphans@.to_set().contains(c));
            self.parents.insert(c, init);
            proof {
                assert forall|d: u32| #[trigger] self.parent_map().contains_key(d) implies self.parent_map()[d] == (
                if old(self).parent_map()[d] == pid && orphans@.subrange(0, i + 1).contains(d) {
                    init
                } else {
                    old(self).parent_map()[d]
                }) by {
                    let before = orphans@.subrange(0, i as int);
                    let after = orphans@.subrange(0, i + 1);
                    if d == c {
                        assert(after[i as int] == c);
                    } else {
                        if after.contains(d) {
                            let j = choose|j: int| 0 <= j < after.len() && after[j] == d;
                            assert(j != i);
                            assert(before[j] == d);
                        }
                        if before.contains(d) {
                            let j = choose|j: int| 0 <= j < before.len() && before[j] == d;
                            assert(after[j] == d);
                        }
                    }
                }
                assert(self.parent_map().dom() =~= old(self).parent_map().dom());
            }
            i += 1;
        }
        proof {
            assert(orphans@.subrange(0, orphans@.len() as int) =~= orphans@);
            assert forall|c: u32| #[trigger] self.parent_map().contains_key(c) implies self.parent_map()[c] == (
            if old(self).parent_map()[c] == pid {
                init
            } else {
                old(self).parent_map()[c]
            }) by {
                if old(self).parent_map()[c] == pid {
                    assert(children_of(old(self).parent_map(), pid).contains(c));
                    assert(orphans@.to_set().contains(c));
                }
            }
            assert forall|c: u32| #[trigger] self.parent_map().contains_key(c) implies self.procs().contains(
                c,
            ) && self.procs().contains(self.parent_map()[c]) by {
                assert(old(self).parent_map().contains_key(c));
            }
            assert forall|p: u32| #![trigger self.procs().contains(p)]
                self.procs().contains(p) && p != self.init_pid() implies self.parent_map().contains_key(p) by {
                assert(old(self).procs().contains(p));
            }
            assert forall|t: u32| #[trigger] self.thread_map().contains_key(t) implies self.procs().contains(
                self.thread_map()[t],
            ) by {
                assert(old(self).thread_map().contains_key(t));
            }
            self.lemma_frame(*old(self));
            assert(self.parent_map() =~= handed_to_init(old(self).parent_map(), pid, init));
        }
        Some((parent, orphans))
    }

    /// The main thread of process `pid` exited with `status`.  Its files
    /// are closed (`files`); if it leads its session and the session has a
    /// controlling terminal, the session drops it and its foreground group
    /// (to be hung up) comes back; its children are handed to init; the
    /// exits queued on it (`own`) go to init's wait list, without the stops
    /// and continues; and the exit is queued on its parent's wait list.
    /// When the parent is init, `parent_list` is init's list: it gets the
    /// passed-on exits and then the exit, and `init_list` is left as it was.
    pub fn exit_main_thread(
        &mut self,
        pid: u32,
        status: WaitType,
        own: &mut WaitList,
        parent_list: &mut WaitList,
        init_list: &mut WaitList,
        files: &mut FileArray,
    ) -> (r: ExitReport)
        requires
            old(self).wf(),
            old(self).thread_map().contains_key(pid),
            old(self).thread_map()[pid] == pid,
            pid != old(self).init_pid(),
        ensures
            final(self).wf(),
            final(files).wf(),
            final(files)@ == Map::<u32, crate::filearray::OpenFile>::empty(),
            final(self).init_pid() == old(self).init_pid(),
            final(self).next_pid() == old(self).next_pid(),
            final(self).pgid_map() == old(self).pgid_map(),
            final(self).sid_map() == old(self).sid_map(),
            final(self).thread_map() == old(self).thread_map(),
            r.parent == old(self).parent_map()[pid],
            r.orphans@.to_set() == children_of(old(self).parent_map(), pid),
            r.orphans@.no_duplicates(),
            final(self).parent_map() == handed_to_init(old(self).parent_map(), pid, old(self).init_pid()),
            old(self).sid_map()[pid] == pid && old(self).terminal_map().contains_key(pid) ==> {
                &&& r.hangup == (if old(self).foreground_map().contains_key(pid) {
                    Some(old(self).foreground_map()[pid])
                } else {
                    None::<u32>
                })
                &&& final(self).foreground_map() == old(self).foreground_map().remove(pid)
                &&& final(self).terminal_map() == old(self).terminal_map().remove(pid)
            },
            !(old(self).sid_map()[pid] == pid && old(self).terminal_map().contains_key(pid)) ==> {
                &&& r.hangup is None
                &&& final(self).foreground_map() == old(self).foreground_map()
                &&& final(self).terminal_map() == old(self).terminal_map()
            },
            final(own)@ == Seq::<WaitObject>::empty(),
            ({
                let exits = old(own)@.filter(|w: WaitObject| !is_stop_or_continue(w));
                let notice = WaitObject { pid, code: status };
                &&& r.notify_init == (exits.len() > 0)
                &&& r.parent == old(self).init_pid() ==> final(parent_list)@ == (old(parent_list)@
                    + exits).push(notice) && final(init_list)@ == old(init_list)@
                &&& r.parent != old(self).init_pid() ==> final(init_list)@ == old(init_list)@
                    + exits && final(parent_list)@ == old(parent_list)@.push(notice)
            }),
    {
        files.close_all();
        let sid = *self.sids.get(&pid).unwrap();
        let hangup = if sid == pid && self.terminals.contains_key(&pid) {
            self.drop_control_terminal(pid)
        } else {
            None
        };
        let reaped = self.reap(pid, pid);
        let (parent, orphans) = reaped.unwrap();
        let exits = own.drain_exited();
        let notice = WaitObject { pid, code: status };
        let init = self.init;
        if parent == init {
            append_all(parent_list, &exits);
        } else {
            append_all(init_list, &exits);
        }
        parent_list.notify(notice);
        ExitReport { parent, orphans, hangup, notify_init: exits.len() > 0 }
    }

    /// The end of a `wait4` that did not sleep: a reported exit takes the
    /// child out of the table (and so out of its parent's children), and
    /// the report, `ECHILD` or nothing comes back as `wait_step` decided.
    pub fn finish_wait(&mut self, step: WaitStep) -> (r: KResult<Option<WaitObject>>)
        requires
            old(self).wf(),
            !(step is Sleep),
            reaps(step) ==> {
                let pid = reaped_pid(step);
                &&& old(self).procs().contains(pid)
                &&& pid != old(self).init_pid()
                &&& old(self).thread_map().contains_key(pid)
                &&& forall|t: u32| #[trigger]
                    old(self).thread_map().contains_key(t) && old(self).thread_map()[t] == pid ==> t == pid
                &&& !has_value(old(self).parent_map(), pid)
            },
        ensures
            final(self).wf(),
            r == (match step {
                WaitStep::Report { object, .. } => Ok::<Option<WaitObject>, u32>(Some(object)),
                WaitStep::NoChild => Err::<Option<WaitObject>, u32>(crate::errno::ECHILD),
                _ => Ok::<Option<WaitObject>, u32>(None),
            }),
            reaps(step) ==> {
                let pid = reaped_pid(step);
                &&& final(self).pgid_map() == old(self).pgid_map().remove(pid)
                &&& final(self).sid_map() == old(self).sid_map().remove(pid)
                &&& final(self).parent_map() == old(self).parent_map().remove(pid)
                &&& final(self).thread_map() == old(self).thread_map().remove(pid)
                &&& final(self).foreground_map() == fg_after(
                    old(self).foreground_map(),
                    final(self).pgid_map(),
                    final(self).sid_map(),
                    old(self).sid_map()[pid],
                )
                &&& final(self).terminal_map() == terms_after(
                    old(self).terminal_map(),
                    final(self).sid_map(),
                    old(self).sid_map()[pid],
                )
            },
            !reaps(step) ==> *final(self) == *old(self),
            final(self).init_pid() == old(self).init_pid(),
            final(self).next_pid() == old(self).next_pid(),
    {
        if let WaitStep::Report { object, reap } = step {
            if reap {
                self.remove_process(object.pid);
            }
        }
        crate::process::wait_result(step)
    }

    /// A zombie child is reaped by its parent's `wait`: its main thread
    /// and the process leave the table.  Its session loses its foreground
    /// group when that group is left empty, and its terminal when the
    /// session is left empty.
    pub fn remove_process(&mut self, pid: u32)
        requires
            old(self).wf(),
            old(self).procs().contains(pid),
            pid != old(self).init_pid(),
            old(self).thread_map().contains_key(pid),
            forall|t: u32| #[trigger]
                old(self).thread_map().contains_key(t) && old(self).thread_map()[t] == pid ==> t == pid,
            !has_value(old(self).parent_map(), pid),
        ensures
            final(self).wf(),
            final(self).init_pid() == old(self).init_pid(),
            final(self).next_pid() == old(self).next_pid(),
            final(self).thread_map() == old(self).thread_map().remove(pid),
            final(self).parent_map() == old(self).parent_map().remove(pid),
            final(self).pgid_map() == old(self).pgid_map().remove(pid),
            final(self).sid_map() == old(self).sid_map().remove(pid),
            final(self).foreground_map() == fg_after(
                old(self).foreground_map(),
                final(self).pgid_map(),
                final(self).sid_map(),
                old(self).sid_map()[pid],
            ),
            final(self).terminal_map() == terms_after(
                old(self).terminal_map(),
                final(self).sid_map(),
                old(self).sid_map()[pid],
            ),
    {
        let s = *self.sids.get(&pid).unwrap();
        self.threads.remove(&pid);
        self.parents.remove(&pid);
        self.pgids.remove(&pid);
        self.sids.remove(&pid);
        assert(self.sid_map().dom() =~= self.procs());
        self.fix_foreground(s);
        self.fix_terminal(s);
        proof {
            assert(self.pgid_map().remove(pid) =~= old(self).pgid_map().remove(pid));
            assert(self.sid_map().remove(pid) =~= old(self).sid_map().remove(pid));
            self.lemma_jc_after_change(*old(self), pid, s);
            assert forall|p: u32| #![trigger self.procs().contains(p)]
                self.procs().contains(p) && p != self.init_pid() implies self.parent_map().contains_key(p) by {
                assert(old(self).procs().contains(p));
            }
            assert forall|c: u32| #[trigger] self.parent_map().contains_key(c) implies self.procs().contains(
                c,
            ) && self.procs().contains(self.parent_map()[c]) by {
                assert(old(self).parent_map().contains_key(c));
                if old(self).parent_map()[c] == pid {
                    assert(has_value(old(self).parent_map(), pid));
                }
            }
            assert forall|t: u32| #[trigger] self.thread_map().contains_key(t) implies self.procs().contains(
                self.thread_map()[t],
            ) by {
                assert(old(self).thread_map().contains_key(t));
            }
        }
    }

    /// The processes of group `pgid` of session `sid`, each once.
    pub fn group_members(&self, pgid: u32, sid: u32) -> (r: Vec<u32>)
        requires
            self.wf(),
        ensures
            r@.to_set() == Set::new(|p: u32| in_group(self.pgid_map(), self.sid_map(), p, pgid, sid)),
            r@.no_duplicates(),
    {
        self.members_of(pgid, sid)
    }

    /// The foreground group of session `sid`, when it has one.
    pub fn foreground_pgroup(&self, sid: u32) -> (r: Option<u32>)
        ensures
            r == (if self.foreground_map().contains_key(sid) {
                Some(self.foreground_map()[sid])
            } else {
                None::<u32>
            }),
    {
        match self.foreground.get(&sid) {
            Some(g) => Some(*g),
            None => None,
        }
    }

    /// The controlling terminal of session `sid`, when it has one.
    pub fn control_terminal(&self, sid: u32) -> (r: Option<u32>)
        ensures
            r == (if self.terminal_map().contains_key(sid) {
                Some(self.terminal_map()[sid])
            } else {
                None::<u32>
            }),
    {
        match self.terminals.get(&sid) {
            Some(t) => Some(*t),
            None => None,
        }
    }

    /// Make group `pgid` of session `sid` its foreground group, or leave
    /// the session without one (`None`); a group id that names no group of
    /// this session is refused with `EPERM`.
    pub fn set_foreground_pgroup(&mut self, sid: u32, pgid: Option<u32>) -> (r: KResult<()>)
        requires
            old(self).wf(),
        ensures
            final(self).wf(),
            final(self).init_pid() == old(self).init_pid(),
            final(self).next_pid() == old(self).next_pid(),
            final(self).parent_map() == old(self).parent_map(),
            final(self).pgid_map() == old(self).pgid_map(),
            final(self).sid_map() == old(self).sid_map(),
            final(self).thread_map() == old(self).thread_map(),
            final(self).terminal_map() == old(self).terminal_map(),
            match pgid {
                Some(g) => if !old(self).has_group(g, sid) {
                    r == Err::<(), u32>(EPERM) && final(self).foreground_map() == old(self).foreground_map()
                } else {
                    r == Ok::<(), u32>(()) && final(self).foreground_map() == old(self).foreground_map().insert(sid, g)
                },
                None => r == Ok::<(), u32>(()) && final(self).foreground_map() == old(self).foreground_map().remove(sid),
            },
    {
        match pgid {
            Some(g) => {
                if !self.group_has_members(g, sid) {
                    return Err(EPERM);
                }
                self.foreground.insert(sid, g);
            },
            None => {
                self.foreground.remove(&sid);
            },
        }
        proof {
            assert forall|k: u32| #[trigger] self.foreground_map().contains_key(k) implies self.has_group(
                self.foreground_map()[k],
                k,
            ) by {
                if k != sid {
                    assert(old(self).foreground_map().contains_key(k));
                }
            }
            assert forall|k: u32| #[trigger] self.terminal_map().contains_key(k) implies self.has_session(k) by {
                assert(old(self).terminal_map().contains_key(k));
            }
            assert forall|t: u32| #[trigger] self.thread_map().contains_key(t) implies self.procs().contains(
                self.thread_map()[t],
            ) by {
                assert(old(self).thread_map().contains_key(t));
            }
            assert forall|p: u32| #[trigger] self.parent_map().contains_key(p) implies self.procs().contains(p)
                && self.procs().contains(self.parent_map()[p]) by {
                assert(old(self).parent_map().contains_key(p));
            }
        }
        Ok(())
    }

    /// Give session `sid`, whose leader (process `sid`) is alive in it and
    /// which has no controlling terminal yet, the terminal `terminal`; the
    /// leader's group becomes the foreground group.
    pub fn set_control_terminal(&mut self, sid: u32, terminal: u32)
        requires
            old(self).wf(),
            !old(self).terminal_map().contains_key(sid),
            old(self).procs().contains(sid),
            old(self).sid_map()[sid] == sid,
        ensures
            final(self).wf(),
            final(self).init_pid() == old(self).init_pid(),
            final(self).next_pid() == old(self).next_pid(),
            final(self).parent_map() == old(self).parent_map(),
            final(self).pgid_map() == old(self).pgid_map(),
            final(self).sid_map() == old(self).sid_map(),
            final(self).thread_map() == old(self).thread_map(),
            final(self).terminal_map() == old(self).terminal_map().insert(sid, terminal),
            final(self).foreground_map() == old(self).foreground_map().insert(
                sid,
                old(self).pgid_map()[sid],
            ),
    {
        let leader_group = *self.pgids.get(&sid).unwrap();
        self.terminals.insert(sid, terminal);
        self.foreground.insert(sid, leader_group);
        proof {
            assert(in_group(self.pgid_map(), self.sid_map(), sid, leader_group, sid));
            assert(self.sid_map().contains_key(sid) && self.sid_map()[sid] == sid);
            assert forall|k: u32| #[trigger] self.foreground_map().contains_key(k) implies self.has_group(
                self.foreground_map()[k],
                k,
            ) by {
                if k != sid {
                    assert(old(self).foreground_map().contains_key(k));
                }
            }
            assert forall|k: u32| #[trigger] self.terminal_map().contains_key(k) implies self.has_session(k) by {
                if k != sid {
                    assert(old(self).terminal_map().contains_key(k));
                }
            }
            assert forall|t: u32| #[trigger] self.thread_map().contains_key(t) implies self.procs().contains(
                self.thread_map()[t],
            ) by {
                assert(old(self).thread_map().contains_key(t));
            }
            assert forall|p: u32| #[trigger] self.parent_map().contains_key(p) implies self.procs().contains(p)
                && self.procs().contains(self.parent_map()[p]) by {
                assert(old(self).parent_map().contains_key(p));
            }
        }
    }

    /// Session `sid` loses its controlling terminal and its foreground
    /// group; that group, when there was one, comes back: its members are
    /// to be sent `SIGHUP` and then `SIGCONT` (see
    /// `process::hangup_group`).
    pub fn drop_control_terminal(&mut self, sid: u32) -> (r: Option<u32>)
        requires
            old(self).wf(),
        ensures
            final(self).wf(),
            r == (if old(self).foreground_map().contains_key(sid) {
                Some(old(self).foreground_map()[sid])
            } else {
                None::<u32>
            }),
            final(self).foreground_map() == old(self).foreground_map().remove(sid),
            final(self).terminal_map() == old(self).terminal_map().remove(sid),
            final(self).init_pid() == old(self).init_pid(),
            final(self).next_pid() == old(self).next_pid(),
            final(self).parent_map() == old(self).parent_map(),
            final(self).pgid_map() == old(self).pgid_map(),
            final(self).sid_map() == old(self).sid_map(),
            final(self).thread_map() == old(self).thread_map(),
    {
        self.terminals.remove(&sid);
        let r = self.foreground.remove(&sid);
        proof {
            assert forall|k: u32| #[trigger] self.foreground_map().contains_key(k) implies self.has_group(
                self.foreground_map()[k],
                k,
            ) by {
                assert(old(self).foreground_map().contains_key(k));
            }
            assert forall|k: u32| #[trigger] self.terminal_map().contains_key(k) implies self.has_session(k) by {
                assert(old(self).terminal_map().contains_key(k));
            }
            assert forall|t: u32| #[trigger] self.thread_map().contains_key(t) implies self.procs().contains(
                self.thread_map()[t],
            ) by {
                assert(old(self).thread_map().contains_key(t));
            }
            assert forall|p: u32| #[trigger] self.parent_map().contains_key(p) implies self.procs().contains(p)
                && self.procs().contains(self.parent_map()[p]) by {
                assert(old(self).parent_map().contains_key(p));
            }
        }
        r
    }
}

/// A session leader cannot move to another process group: for the
/// leader of session `pid`, every `setpgid` of it is refused with `EPERM`,
/// whatever the lookup of the target group gives.
pub proof fn law_session_leader_stays(t: ProcessList, pid: u32, pgid: u32)
    requires
        t.wf(),
        t.procs().contains(pid),
        t.sid_map()[pid] == pid,
    ensures
        forall|target: Option<u32>|
            #[trigger] setpgid_plan_spec(pid, t.sid_map()[pid], t.pgid_map()[pid], pgid, target)
                == Err::<SetPgidPlan, u32>(EPERM),
{
}

/// Pids are handed out from 2 upward and each one once: the counter of a
/// well-formed table is at least 2, and handing out a pid moves it past
/// that pid.
pub proof fn law_pids_from_two_upward(t: ProcessList, u: ProcessList, r: u32)
    requires
        t.wf(),
        r == t.next_pid(),
        u.next_pid() == r + 1,
    ensures
        r >= 2,
        u.next_pid() > r,
{
}

/// Once the children of an exited process are handed to init, the process
/// has no child left (so its parent can remove it), and each of its former
/// children is a child of init.
pub proof fn law_exited_process_has_no_children(parents: Map<u32, u32>, pid: u32, init: u32)
    requires
        pid != init,
    ensures
        !has_value(handed_to_init(parents, pid, init), pid),
        children_of(parents, pid).subset_of(children_of(handed_to_init(parents, pid, init), init)),
        handed_to_init(parents, pid, init).dom() == parents.dom(),
{
    let post = handed_to_init(parents, pid, init);
    assert(post.dom() =~= parents.dom());
    assert forall|c: u32| #[trigger] post.contains_key(c) implies post[c] != pid by {}
}

/// A session keeps a foreground group only while that group has members:
/// once the members of session `s` changed, its foreground group, if it
/// kept one, is a group of `s` with members; other sessions keep theirs.
pub proof fn law_gone_group_is_not_foreground(fg: Map<u32, u32>, pgids: Map<u32, u32>, sids: Map<u32, u32>, s: u32)
    ensures
        fg_after(fg, pgids, sids, s).contains_key(s) ==> group_live(
            pgids,
            sids,
            fg_after(fg, pgids, sids, s)[s],
            s,
        ),
        forall|k: u32|
            k != s ==> (#[trigger] fg_after(fg, pgids, sids, s).contains_key(k) == fg.contains_key(k))
                && fg_after(fg, pgids, sids, s)[k] == fg[k],
{
}

} // verus!
