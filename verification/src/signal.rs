//! Signals, signal masks and the dispositions of signals.

use std::collections::BTreeMap;
use vstd::prelude::*;
use vstd::multiset::Multiset;
use vstd::std_specs::iter::IteratorSpec;

use crate::errno::{KResult, EINVAL};

verus! {

broadcast use {vstd::std_specs::btree::group_btree_axioms, vstd::laws_cmp::group_laws_cmp};

/// A signal number in `1..=64`.
#[derive(Debug, Clone, Copy, PartialEq, Eq, Structural, PartialOrd, Ord)]
pub struct Signal(u32);

pub const SIGHUP: u32 = 1;
pub const SIGINT: u32 = 2;
pub const SIGQUIT: u32 = 3;
pub const SIGILL: u32 = 4;
pub const SIGTRAP: u32 = 5;
pub const SIGABRT: u32 = 6;
pub const SIGIOT: u32 = 6;
pub const SIGBUS: u32 = 7;
pub const SIGFPE: u32 = 8;
pub const SIGKILL: u32 = 9;
pub const SIGUSR1: u32 = 10;
pub const SIGSEGV: u32 = 11;
pub const SIGUSR2: u32 = 12;
pub const SIGPIPE: u32 = 13;
pub const SIGALRM: u32 = 14;
pub const SIGTERM: u32 = 15;
pub const SIGSTKFLT: u32 = 16;
pub const SIGCHLD: u32 = 17;
pub const SIGCONT: u32 = 18;
pub const SIGSTOP: u32 = 19;
pub const SIGTSTP: u32 = 20;
pub const SIGTTIN: u32 = 21;
pub const SIGTTOU: u32 = 22;
pub const SIGURG: u32 = 23;
pub const SIGXCPU: u32 = 24;
pub const SIGXFSZ: u32 = 25;
pub const SIGVTALRM: u32 = 26;
pub const SIGPROF: u32 = 27;
pub const SIGWINCH: u32 = 28;
pub const SIGIO: u32 = 29;
pub const SIGPOLL: u32 = 29;
pub const SIGPWR: u32 = 30;
pub const SIGSYS: u32 = 31;
pub const SIGNUM_MIN: u32 = 1;
pub const SIGNUM_MAX: u32 = 64;

/// Signals whose default action is to do nothing.
pub open spec fn is_ignored_by_default(n: u32) -> bool {
    n == SIGCHLD || n == SIGURG || n == SIGWINCH
}

/// Signals that cannot be caught, ignored or blocked.
pub open spec fn is_unblockable(n: u32) -> bool {
    n == SIGKILL || n == SIGSTOP
}

/// Signals whose default action stops the process.
pub open spec fn is_stop_signal(n: u32) -> bool {
    n == SIGSTOP || n == SIGTSTP || n == SIGTTIN || n == SIGTTOU
}

/// Signals whose default action dumps core.
pub open spec fn is_coredump_signal(n: u32) -> bool {
    n == SIGQUIT || n == SIGILL || n == SIGABRT || n == SIGFPE || n == SIGSEGV || n == SIGBUS
        || n == SIGTRAP || n == SIGSYS || n == SIGXCPU || n == SIGXFSZ
}

/// The bit that stands for signal `n` in a mask.
pub open spec fn signal_bit(n: u32) -> u64 {
    1u64 << ((n - 1) as u64)
}

impl Signal {
    pub closed spec fn num(self) -> u32 {
        self.0
    }

    /// The signal with number `n`.
    pub closed spec fn spec_new(n: u32) -> Signal {
        Signal(n)
    }

    #[verifier::type_invariant]
    spec fn in_range(self) -> bool {
        SIGNUM_MIN <= self.0 <= SIGNUM_MAX
    }

    /// The signal with number `signum`; `EINVAL` outside `1..=64`.
    pub fn try_from(signum: u32) -> (r: KResult<Signal>)
        ensures
            match r {
                Ok(s) => SIGNUM_MIN <= signum <= SIGNUM_MAX && s.num() == signum && s
                    == Signal::spec_new(signum),
                Err(e) => !(SIGNUM_MIN <= signum <= SIGNUM_MAX) && e == EINVAL,
            },
    {
        if SIGNUM_MIN <= signum && signum <= SIGNUM_MAX {
            Ok(Signal(signum))
        } else {
            Err(EINVAL)
        }
    }

    /// The number of the signal.
    pub fn to_signum(self) -> (r: u32)
        ensures
            r == self.num(),
            SIGNUM_MIN <= r <= SIGNUM_MAX,
    {
        proof {
            use_type_invariant(self);
        }
        self.0
    }

    pub fn is_coredump(self) -> (r: bool)
        ensures
            r == is_coredump_signal(self.num()),
            r == (self.num() == 3 || self.num() == 4 || self.num() == 5 || self.num() == 6
                || self.num() == 7 || self.num() == 8 || self.num() == 11 || self.num() == 24
                || self.num() == 25 || self.num() == 31),
    {
        let n = self.0;
        n == SIGQUIT || n == SIGILL || n == SIGABRT || n == SIGFPE || n == SIGSEGV || n == SIGBUS
            || n == SIGTRAP || n == SIGSYS || n == SIGXCPU || n == SIGXFSZ
    }

    pub fn is_ignored_by_default(self) -> (r: bool)
        ensures
            r == is_ignored_by_default(self.num()),
    {
        self.0 == SIGCHLD || self.0 == SIGURG || self.0 == SIGWINCH
    }

    pub fn is_unblockable(self) -> (r: bool)
        ensures
            r == is_unblockable(self.num()),
    {
        self.0 == SIGKILL || self.0 == SIGSTOP
    }

    pub fn is_stop(self) -> (r: bool)
        ensures
            r == is_stop_signal(self.num()),
            r == (19 <= self.num() <= 22),
    {
        self.0 == SIGSTOP || self.0 == SIGTSTP || self.0 == SIGTTIN || self.0 == SIGTTOU
    }
}

/// A set of signals, one bit per signal: bit `n - 1` stands for signal `n`.
#[derive(Debug, Clone, Copy, PartialEq, Eq, Structural)]
pub struct SignalMask(u64);

impl SignalMask {
    pub closed spec fn bits(self) -> u64 {
        self.0
    }

    /// The signal is in the set.
    pub open spec fn has(self, n: u32) -> bool {
        self.bits() & signal_bit(n) != 0
    }

    pub fn new(mask: u64) -> (r: Self)
        ensures
            r.bits() == mask,
    {
        SignalMask(mask)
    }

    pub fn empty() -> (r: Self)
        ensures
            r.bits() == 0,
    {
        SignalMask(0)
    }

    /// The mask that holds only `signal`.
    pub fn from_signal(signal: Signal) -> (r: Self)
        ensures
            r.bits() == signal_bit(signal.num()),
    {
        let n = signal.to_signum();
        SignalMask(1u64 << (n - 1) as u64)
    }

    pub fn from_bits(mask: u64) -> (r: Self)
        ensures
            r.bits() == mask,
    {
        SignalMask(mask)
    }

    pub fn to_bits(self) -> (r: u64)
        ensures
            r == self.bits(),
    {
        self.0
    }

    /// Add the signals of `mask`.
    pub fn mask(&mut self, mask: Self)
        ensures
            final(self).bits() == old(self).bits() | mask.bits(),
    {
        self.0 = self.0 | mask.0;
    }

    /// Remove the signals of `mask`.
    pub fn unmask(&mut self, mask: Self)
        ensures
            final(self).bits() == old(self).bits() & !mask.bits(),
    {
        self.0 = self.0 & !mask.0;
    }

    /// The signal is in the set.
    pub fn includes(&self, signal: Signal) -> (r: bool)
        ensures
            r == self.has(signal.num()),
    {
        let signal_mask = Self::from_signal(signal);
        self.0 & signal_mask.0 != 0
    }
}

/// Adding a set to a mask adds exactly its signals; removing a set removes
/// exactly its signals.
pub proof fn lemma_mask_unmask(a: u64, b: u64, n: u32)
    requires
        SIGNUM_MIN <= n <= SIGNUM_MAX,
    ensures
        ((a | b) & signal_bit(n) != 0) <==> (a & signal_bit(n) != 0 || b & signal_bit(n) != 0),
        ((a & !b) & signal_bit(n) != 0) <==> (a & signal_bit(n) != 0 && b & signal_bit(n) == 0),
{
    let k: u64 = (n - 1) as u64;
    assert(((a | b) & (1u64 << k) != 0) <==> (a & (1u64 << k) != 0 || b & (1u64 << k) != 0))
        by (bit_vector)
        requires
            k < 64,
    ;
    assert(((a & !b) & (1u64 << k) != 0) <==> (a & (1u64 << k) != 0 && b & (1u64 << k) == 0))
        by (bit_vector)
        requires
            k < 64,
    ;
}

/// The mask of one signal holds that signal and no other.
pub proof fn lemma_single_signal_mask(n: u32, m: u32)
    requires
        SIGNUM_MIN <= n <= SIGNUM_MAX,
        SIGNUM_MIN <= m <= SIGNUM_MAX,
    ensures
        (signal_bit(n) & signal_bit(m) != 0) <==> n == m,
{
    let k: u64 = (n - 1) as u64;
    let j: u64 = (m - 1) as u64;
    assert(((1u64 << k) & (1u64 << j) != 0) <==> k == j) by (bit_vector)
        requires
            k < 64,
            j < 64,
    ;
}

/// What to do when a signal arrives.
#[derive(Debug, Clone, Copy, PartialEq, Eq, Structural)]
pub enum SignalAction {
    /// The default action of the signal.
    Default,
    /// Discard the signal.
    Ignore,
    /// Run a user handler with `mask` added to the blocked set, returning
    /// through `restorer`.
    SimpleHandler { handler: usize, restorer: Option<usize>, mask: SignalMask },
}

impl Default for SignalAction {
    fn default() -> (r: Self)
        ensures
            r == SignalAction::Default,
    {
        SignalAction::Default
    }
}

impl SignalAction {
    pub fn ignore() -> (r: Self)
        ensures
            r == SignalAction::Ignore,
    {
        SignalAction::Ignore
    }

    /// A handler at address zero with no restorer and an empty mask, to be
    /// filled in by the other builders.
    pub fn new() -> (r: Self)
        ensures
            r is SimpleHandler,
            r->handler == 0,
            r->restorer is None,
            r->mask.bits() == 0,
    {
        SignalAction::SimpleHandler { handler: 0, restorer: None, mask: SignalMask::empty() }
    }

    /// `SA_SIGINFO` handlers are refused with `EINVAL`.
    pub fn set_siginfo(self) -> (r: KResult<Self>)
        ensures
            r == Err::<Self, u32>(EINVAL),
    {
        Err(EINVAL)
    }

    pub fn handler(self, handler_addr: usize) -> (r: KResult<Self>)
        requires
            self is SimpleHandler,
        ensures
            r == Ok::<Self, u32>(
                SignalAction::SimpleHandler {
                    handler: handler_addr,
                    restorer: self->restorer,
                    mask: self->mask,
                },
            ),
    {
        match self {
            SignalAction::SimpleHandler { restorer, mask, .. } => Ok(
                SignalAction::SimpleHandler { handler: handler_addr, restorer, mask },
            ),
            _ => Err(EINVAL),
        }
    }

    /// A restorer at address zero means none.
    pub fn restorer(self, restorer_addr: usize) -> (r: KResult<Self>)
        requires
            self is SimpleHandler,
        ensures
            r == Ok::<Self, u32>(
                SignalAction::SimpleHandler {
                    handler: self->handler,
                    restorer: if restorer_addr == 0 {
                        None
                    } else {
                        Some(restorer_addr)
                    },
                    mask: self->mask,
                },
            ),
    {
        match self {
            SignalAction::SimpleHandler { handler, mask, .. } => {
                let restorer = if restorer_addr == 0 {
                    None
                } else {
                    Some(restorer_addr)
                };
                Ok(SignalAction::SimpleHandler { handler, restorer, mask })
            },
            _ => Err(EINVAL),
        }
    }

    pub fn mask(self, mask_value: u64) -> (r: KResult<Self>)
        requires
            self is SimpleHandler,
        ensures
            r is Ok,
            r->Ok_0 is SimpleHandler,
            r->Ok_0->handler == self->handler,
            r->Ok_0->restorer == self->restorer,
            r->Ok_0->mask.bits() == mask_value,
    {
        match self {
            SignalAction::SimpleHandler { handler, restorer, .. } => Ok(
                SignalAction::SimpleHandler {
                    handler,
                    restorer,
                    mask: SignalMask::from_bits(mask_value),
                },
            ),
            _ => Err(EINVAL),
        }
    }
}

/// The action of signal `n` in a disposition table: `Default` when absent.
pub open spec fn action_of(m: Map<u32, SignalAction>, n: u32) -> SignalAction {
    if m.contains_key(n) {
        m[n]
    } else {
        SignalAction::Default
    }
}

/// The dispositions of the signals; a signal with no entry has its default.
pub struct SignalActionList {
    actions: BTreeMap<u32, SignalAction>,
}

impl View for SignalActionList {
    type V = Map<u32, SignalAction>;

    closed spec fn view(&self) -> Map<u32, SignalAction> {
        self.actions@
    }
}

impl SignalActionList {
    /// No entry holds `Default`: it is stored as an absent entry.
    pub open spec fn wf(&self) -> bool {
        forall|n: u32| #[trigger] self@.contains_key(n) ==> self@[n] != SignalAction::Default
    }

    pub fn new() -> (r: Self)
        ensures
            r.wf(),
            r@ == Map::<u32, SignalAction>::empty(),
    {
        SignalActionList { actions: BTreeMap::new() }
    }

    /// A copy of the dispositions.
    pub fn new_cloned(other: &Self) -> (r: Self)
        ensures
            r@ == other@,
    {
        SignalActionList { actions: other.actions.clone() }
    }

    /// Set the disposition of `signal`.
    pub fn set(&mut self, signal: Signal, action: SignalAction)
        requires
            old(self).wf(),
            !is_unblockable(signal.num()),
        ensures
            final(self).wf(),
            final(self)@ == (if action == SignalAction::Default {
                old(self)@.remove(signal.num())
            } else {
                old(self)@.insert(signal.num(), action)
            }),
    {
        let n = signal.to_signum();
        match action {
            SignalAction::Default => {
                self.actions.remove(&n);
            },
            _ => {
                self.actions.insert(n, action);
            },
        }
    }

    /// The disposition of `signal`.
    pub fn get(&self, signal: Signal) -> (r: SignalAction)
        ensures
            r == action_of(self@, signal.num()),
    {
        let n = signal.to_signum();
        match self.actions.get(&n) {
            None => SignalAction::Default,
            Some(action) => *action,
        }
    }

    /// Drop every disposition but `Ignore`, as `execve` does.
    pub fn remove_non_ignore(&mut self)
        requires
            old(self).wf(),
        ensures
            final(self).wf(),
            forall|n: u32| #[trigger]
                action_of(final(self)@, n) == (if action_of(old(self)@, n) == SignalAction::Ignore {
                    SignalAction::Ignore
                } else {
                    SignalAction::Default
                }),
    {
        let ghost old_map = self.actions@;
        let mut kept: BTreeMap<u32, SignalAction> = BTreeMap::new();
        let entries = self.actions.iter();
        let ghost all_entries = entries.remaining();
        let ghost mut idx: int = 0;
        for kv in it: entries
            invariant
                old_map == self.actions@,
                it.seq() == all_entries,
                all_entries == vstd::std_specs::btree::spec_btree_map_iter(&self.actions).remaining(),
                idx == it.index(),
                idx <= all_entries.len(),
                forall|k: u32| #[trigger]
                    kept@.contains_key(k) ==> old_map.contains_key(k) && old_map[k]
                        == SignalAction::Ignore && kept@[k] == SignalAction::Ignore,
                forall|i: int|
                    0 <= i < idx ==> (*all_entries[i].1 == SignalAction::Ignore
                        ==> kept@.contains_key(*(#[trigger] all_entries[i]).0)),
        {
            let (k, v) = kv;
            assert(all_entries[idx] == (k, v));
            assert(old_map.contains_key(*all_entries[idx].0));
            if let SignalAction::Ignore = *v {
                kept.insert(*k, SignalAction::Ignore);
            }
            proof {
                idx = idx + 1;
            }
        }
        assert(idx == all_entries.len());
        assert forall|k: u32| #[trigger]
            old_map.contains_key(k) && old_map[k] == SignalAction::Ignore implies kept@.contains_key(
            k,
        ) by {
            assert(all_entries.contains((&k, &old_map[k])));
            let i = choose|i: int| 0 <= i < all_entries.len() && all_entries[i] == (&k, &old_map[k]);
            assert(all_entries[i] == (&k, &old_map[k]));
        }
        self.actions = kept;
    }
}

/// Whether a raised signal was queued or is blocked.
#[derive(Debug, Clone, Copy, PartialEq, Eq, Structural)]
pub enum RaiseResult {
    Finished,
    Masked,
}

/// The next thing the signal handling loop of a thread must do.
#[derive(Debug, Clone, Copy, PartialEq, Eq, Structural)]
pub enum HandleStep {
    /// No signal is pending.
    Done,
    /// Set up a frame for the user handler of `signal`; `old_mask` is the
    /// mask to restore when it returns.
    Deliver { signal: Signal, action: SignalAction, old_mask: SignalMask },
    /// The default action of `signal` is to do nothing.
    Ignore(Signal),
    /// `SIGCONT` was taken: the wake up already happened when it was raised.
    Continue(Signal),
    /// Stop the thread until `SIGCONT` or `SIGKILL` arrives.
    Stop(Signal),
    /// Terminate the process with `signal`.
    Terminate(Signal),
}

/// The least signal number in a multiset of signals.
pub open spec fn is_least_pending(pending: Multiset<Signal>, s: Signal) -> bool {
    &&& pending.count(s) > 0
    &&& forall|t: Signal| pending.count(t) > 0 ==> s.num() <= #[trigger] t.num()
}

/// The default action of a signal: `SIGSTOP`, `SIGTSTP`, `SIGTTIN` and
/// `SIGTTOU` (19 to 22) stop the thread; every other signal but
/// `SIGCHLD`, `SIGCONT`, `SIGURG` and `SIGWINCH` (17, 18, 23, 28)
/// terminates the process.  Whatever the blocked sets, the handling step
/// of a signal with the default disposition says so.
pub proof fn law_default_actions(s: Signal, before: SignalMask, after: SignalMask, r: HandleStep)
    requires
        step_for(s, SignalAction::Default, before, after, r),
    ensures
        19 <= s.num() <= 22 ==> r == HandleStep::Stop(s),
        !(19 <= s.num() <= 22) && s.num() != 17 && s.num() != 18 && s.num() != 23 && s.num()
            != 28 ==> r == HandleStep::Terminate(s),
        s.num() == 18 ==> r == HandleStep::Continue(s),
        (s.num() == 17 || s.num() == 23 || s.num() == 28) ==> r == HandleStep::Ignore(s),
{
}

/// A signal that becomes pending while nothing else is pending is the one
/// the next handling step takes, and taking it leaves nothing pending.
pub proof fn law_lone_signal_is_handled_next(s: Signal)
    ensures
        is_least_pending(Multiset::<Signal>::empty().insert(s), s),
        Multiset::<Signal>::empty().insert(s).remove(s) =~= Multiset::<Signal>::empty(),
{
    broadcast use vstd::multiset::group_multiset_axioms;

    let m = Multiset::<Signal>::empty().insert(s);
    assert forall|t: Signal| m.count(t) > 0 implies s.num() <= #[trigger] t.num() by {
        if t != s {
            assert(m.count(t) == 0);
        }
    }
}

/// Of two signals pending together, the one with the lower number is
/// handled first.
pub proof fn law_lower_signal_handled_first(a: Signal, b: Signal)
    requires
        a.num() < b.num(),
    ensures
        is_least_pending(Multiset::<Signal>::empty().insert(a).insert(b), a),
        !is_least_pending(Multiset::<Signal>::empty().insert(a).insert(b), b),
{
    broadcast use vstd::multiset::group_multiset_axioms;

    let m = Multiset::<Signal>::empty().insert(a).insert(b);
    assert(a != b);
    assert(m.count(a) > 0);
    assert forall|t: Signal| m.count(t) > 0 implies a.num() <= #[trigger] t.num() by {
        if t != a && t != b {
            assert(m.count(t) == 0);
        }
    }
}

/// What raising `signal` does to the signal state `pre` of a thread,
/// giving `post` and handing back the waker `w`: nothing when the thread
/// blocks the signal or its disposition drops it; otherwise the signal
/// becomes pending and blocked, and the waker that its arrival calls for
/// (the stop waker for `SIGCONT`, else the signal waker) is taken out.
pub open spec fn raise_effect<W>(pre: SignalList<W>, post: SignalList<W>, signal: Signal, w: Option<W>) -> bool {
    let n = signal.num();
    let act = action_of(pre.dispositions(), n);
    if pre.blocked().has(n) || act == SignalAction::Ignore || (is_ignored_by_default(n) && act
        == SignalAction::Default) {
        post == pre && w is None
    } else {
        &&& post.dispositions() == pre.dispositions()
        &&& post.blocked().bits() == pre.blocked().bits() | signal_bit(n)
        &&& post.pending() == pre.pending().insert(signal)
        &&& if n == SIGCONT {
            &&& w == pre.stop_waker()
            &&& post.stop_waker() is None
            &&& post.signal_waker() == pre.signal_waker()
        } else {
            &&& w == pre.signal_waker()
            &&& post.signal_waker() is None
            &&& post.stop_waker() == pre.stop_waker()
        }
    }
}

/// The signal state of a thread: blocked set, pending signals, dispositions
/// and the wakers to call when a signal arrives (`W`).
pub struct SignalList<W> {
    mask: SignalMask,
    pending: Vec<Signal>,
    signal_waker: Option<W>,
    stop_waker: Option<W>,
    actions: SignalActionList,
}

impl<W> SignalList<W> {
    pub closed spec fn blocked(&self) -> SignalMask {
        self.mask
    }

    /// The pending signals; a signal may be pending more than once.
    pub closed spec fn pending(&self) -> Multiset<Signal> {
        self.pending@.to_multiset()
    }

    pub closed spec fn dispositions(&self) -> Map<u32, SignalAction> {
        self.actions@
    }

    pub closed spec fn signal_waker(&self) -> Option<W> {
        self.signal_waker
    }

    pub closed spec fn stop_waker(&self) -> Option<W> {
        self.stop_waker
    }

    pub closed spec fn wf(&self) -> bool {
        self.actions.wf()
    }

    pub fn new() -> (r: Self)
        ensures
            r.wf(),
            r.blocked().bits() == 0,
            r.pending() =~= Multiset::<Signal>::empty(),
            r.dispositions() == Map::<u32, SignalAction>::empty(),
            r.signal_waker() is None,
            r.stop_waker() is None,
    {
        broadcast use vstd::seq_lib::group_to_multiset_ensures;

        SignalList {
            mask: SignalMask::empty(),
            pending: Vec::new(),
            signal_waker: None,
            stop_waker: None,
            actions: SignalActionList::new(),
        }
    }

    /// The copy that `fork` gives the child: same mask and dispositions,
    /// nothing pending, no wakers.
    pub fn clone(&self) -> (r: Self)
        requires
            self.wf(),
            self.stop_waker() is None,
        ensures
            r.wf(),
            r.blocked() == self.blocked(),
            r.pending() =~= Multiset::<Signal>::empty(),
            r.dispositions() == self.dispositions(),
            r.signal_waker() is None,
            r.stop_waker() is None,
    {
        broadcast use vstd::seq_lib::group_to_multiset_ensures;

        SignalList {
            mask: self.mask,
            pending: Vec::new(),
            signal_waker: None,
            stop_waker: None,
            actions: SignalActionList::new_cloned(&self.actions),
        }
    }

    pub fn get_mask(&self) -> (r: SignalMask)
        ensures
            r == self.blocked(),
    {
        self.mask
    }

    pub fn set_mask(&mut self, mask: SignalMask)
        ensures
            final(self).blocked() == mask,
            final(self).pending() == old(self).pending(),
            final(self).dispositions() == old(self).dispositions(),
            final(self).wf() == old(self).wf(),
            final(self).signal_waker() == old(self).signal_waker(),
            final(self).stop_waker() == old(self).stop_waker(),
    {
        self.mask = mask;
    }

    /// Block the signals of `mask` as well.
    pub fn mask(&mut self, mask: SignalMask)
        ensures
            final(self).blocked().bits() == old(self).blocked().bits() | mask.bits(),
            final(self).pending() == old(self).pending(),
            final(self).dispositions() == old(self).dispositions(),
            final(self).wf() == old(self).wf(),
            final(self).signal_waker() == old(self).signal_waker(),
            final(self).stop_waker() == old(self).stop_waker(),
    {
        self.mask.mask(mask);
    }

    /// Unblock the signals of `mask`.
    pub fn unmask(&mut self, mask: SignalMask)
        ensures
            final(self).blocked().bits() == old(self).blocked().bits() & !mask.bits(),
            final(self).pending() == old(self).pending(),
            final(self).dispositions() == old(self).dispositions(),
            final(self).wf() == old(self).wf(),
            final(self).signal_waker() == old(self).signal_waker(),
            final(self).stop_waker() == old(self).stop_waker(),
    {
        self.mask.unmask(mask);
    }

    /// Set the disposition of `signal`; `EINVAL` for `SIGKILL` and `SIGSTOP`.
    pub fn set_action(&mut self, signal: Signal, action: SignalAction) -> (r: KResult<()>)
        requires
            old(self).wf(),
        ensures
            final(self).wf(),
            final(self).blocked() == old(self).blocked(),
            final(self).pending() == old(self).pending(),
            final(self).signal_waker() == old(self).signal_waker(),
            final(self).stop_waker() == old(self).stop_waker(),
            is_unblockable(signal.num()) ==> r == Err::<(), u32>(EINVAL) && final(self).dispositions()
                == old(self).dispositions(),
            !is_unblockable(signal.num()) ==> r is Ok && action_of(
                final(self).dispositions(),
                signal.num(),
            ) == action && forall|n: u32|
                n != signal.num() ==> #[trigger] action_of(final(self).dispositions(), n)
                    == action_of(old(self).dispositions(), n),
    {
        if signal.is_unblockable() {
            return Err(EINVAL);
        }
        self.actions.set(signal, action);
        Ok(())
    }

    pub fn get_action(&self, signal: Signal) -> (r: SignalAction)
        ensures
            r == action_of(self.dispositions(), signal.num()),
    {
        self.actions.get(signal)
    }

    pub fn set_signal_waker(&mut self, waker: Option<W>)
        ensures
            final(self).signal_waker() == waker,
            final(self).blocked() == old(self).blocked(),
            final(self).pending() == old(self).pending(),
            final(self).dispositions() == old(self).dispositions(),
            final(self).wf() == old(self).wf(),
            final(self).stop_waker() == old(self).stop_waker(),
    {
        self.signal_waker = waker;
    }

    /// Register the waker of a stopped thread.
    pub fn set_stop_waker(&mut self, waker: W)
        requires
            old(self).stop_waker() is None,
        ensures
            final(self).stop_waker() == Some(waker),
            final(self).signal_waker() == old(self).signal_waker(),
            final(self).blocked() == old(self).blocked(),
            final(self).pending() == old(self).pending(),
            final(self).dispositions() == old(self).dispositions(),
            final(self).wf() == old(self).wf(),
    {
        self.stop_waker = Some(waker);
    }

    /// Drop every disposition but `Ignore`, as `execve` does.
    pub fn clear_non_ignore(&mut self)
        requires
            old(self).wf(),
        ensures
            final(self).wf(),
            forall|n: u32| #[trigger]
                action_of(final(self).dispositions(), n) == (if action_of(
                    old(self).dispositions(),
                    n,
                ) == SignalAction::Ignore {
                    SignalAction::Ignore
                } else {
                    SignalAction::Default
                }),
            final(self).blocked() == old(self).blocked(),
            final(self).pending() == old(self).pending(),
            final(self).signal_waker() == old(self).signal_waker(),
            final(self).stop_waker() == old(self).stop_waker(),
    {
        self.actions.remove_non_ignore();
    }

    /// Forget every pending signal.
    pub fn clear_pending(&mut self)
        ensures
            final(self).pending() =~= Multiset::<Signal>::empty(),
            final(self).blocked() == old(self).blocked(),
            final(self).dispositions() == old(self).dispositions(),
            final(self).wf() == old(self).wf(),
            final(self).signal_waker() == old(self).signal_waker(),
            final(self).stop_waker() == old(self).stop_waker(),
    {
        broadcast use vstd::seq_lib::group_to_multiset_ensures;

        self.pending = Vec::new();
    }

    pub fn has_pending_signal(&self) -> (r: bool)
        ensures
            r == (self.pending().len() > 0),
    {
        broadcast use vstd::seq_lib::group_to_multiset_ensures;

        self.pending.len() != 0
    }

    /// `sigreturn`, given what was read from the user stack (see
    /// `sigreturn_layout`): the saved mask (`None` when it could not be
    /// read), whether the saved extended and interrupt contexts could be
    /// read, and the saved return value.  When all was read, the saved mask
    /// becomes the blocked set and the saved return value comes back;
    /// otherwise `EFAULT` and nothing changes.
    pub fn restore(&mut self, saved_mask: Option<u64>, contexts_read: bool, saved_rax: usize) -> (r:
        KResult<usize>)
        ensures
            final(self).wf() == old(self).wf(),
            final(self).pending() == old(self).pending(),
            final(self).dispositions() == old(self).dispositions(),
            final(self).signal_waker() == old(self).signal_waker(),
            final(self).stop_waker() == old(self).stop_waker(),
            match saved_mask {
                Some(m) => if contexts_read {
                    r == Ok::<usize, u32>(saved_rax) && final(self).blocked().bits() == m
                } else {
                    r == Err::<usize, u32>(crate::errno::EFAULT) && final(self).blocked() == old(self).blocked()
                },
                None => r == Err::<usize, u32>(crate::errno::EFAULT) && final(self).blocked() == old(self).blocked(),
            },
    {
        let m = match saved_mask {
            Some(m) => m,
            None => return Err(crate::errno::EFAULT),
        };
        if !contexts_read {
            return Err(crate::errno::EFAULT);
        }
        self.mask = SignalMask::new(m);
        Ok(saved_rax)
    }

    /// Take the pending signal with the least number.
    fn pop(&mut self) -> (r: Option<Signal>)
        ensures
            old(self).pending().len() == 0 ==> r is None,
            old(self).pending().len() > 0 ==> r is Some && is_least_pending(
                old(self).pending(),
                r->Some_0,
            ) && final(self).pending() == old(self).pending().remove(r->Some_0),
            old(self).pending().len() == 0 ==> final(self).pending() == old(self).pending(),
            final(self).blocked() == old(self).blocked(),
            final(self).dispositions() == old(self).dispositions(),
            final(self).wf() == old(self).wf(),
            final(self).signal_waker() == old(self).signal_waker(),
            final(self).stop_waker() == old(self).stop_waker(),
    {
        broadcast use vstd::seq_lib::group_to_multiset_ensures;

        if self.pending.len() == 0 {
            return None;
        }
        let mut best: usize = 0;
        let mut i: usize = 1;
        while i < self.pending.len()
            invariant
                0 < i <= self.pending@.len(),
                best < i,
                forall|j: int| 0 <= j < i ==> self.pending@[best as int].num() <= #[trigger] self.pending@[j].num(),
            decreases self.pending@.len() - i,
        {
            if self.pending[i].to_signum() < self.pending[best].to_signum() {
                best = i;
            }
            i = i + 1;
        }
        let ghost before = self.pending@;
        let s = self.pending.remove(best);
        proof {
            vstd::seq_lib::to_multiset_remove(before, best as int);
            assert forall|t: Signal| before.to_multiset().count(t) > 0 implies s.num() <= #[trigger] t.num() by {
                assert(before.contains(t));
                let j = choose|j: int| 0 <= j < before.len() && before[j] == t;
                assert(before[j] == t);
            }
            assert(before.contains(s)) by {
                assert(before[best as int] == s);
            }
        }
        Some(s)
    }

    /// Deliver `signal` to this thread: blocked signals are left out,
    /// ignored ones are dropped, others become pending and blocked, and the
    /// waker that the arrival calls for is handed back for the caller to run.
    pub fn raise(&mut self, signal: Signal) -> (r: (RaiseResult, Option<W>))
        requires
            old(self).wf(),
        ensures
            final(self).wf(),
            raise_effect(*old(self), *final(self), signal, r.1),
            final(self).dispositions() == old(self).dispositions(),
            old(self).blocked().has(signal.num()) ==> r.0 == RaiseResult::Masked && r.1 is None
                && *final(self) == *old(self),
            !old(self).blocked().has(signal.num()) ==> r.0 == RaiseResult::Finished,
            !old(self).blocked().has(signal.num()) && (action_of(
                old(self).dispositions(),
                signal.num(),
            ) == SignalAction::Ignore || (is_ignored_by_default(signal.num()) && action_of(
                old(self).dispositions(),
                signal.num(),
            ) == SignalAction::Default)) ==> r.1 is None && *final(self) == *old(self),
            !old(self).blocked().has(signal.num()) && !(action_of(
                old(self).dispositions(),
                signal.num(),
            ) == SignalAction::Ignore || (is_ignored_by_default(signal.num()) && action_of(
                old(self).dispositions(),
                signal.num(),
            ) == SignalAction::Default)) ==> {
                &&& final(self).blocked().bits() == old(self).blocked().bits() | signal_bit(signal.num())
                &&& final(self).pending() == old(self).pending().insert(signal)
                &&& if signal.num() == SIGCONT {
                    &&& r.1 == old(self).stop_waker()
                    &&& final(self).stop_waker() is None
                    &&& final(self).signal_waker() == old(self).signal_waker()
                } else {
                    &&& r.1 == old(self).signal_waker()
                    &&& final(self).signal_waker() is None
                    &&& final(self).stop_waker() == old(self).stop_waker()
                }
            },
    {
        broadcast use vstd::seq_lib::group_to_multiset_ensures;

        if self.mask.includes(signal) {
            return (RaiseResult::Masked, None);
        }
        let action = self.actions.get(signal);
        match action {
            SignalAction::Ignore => return (RaiseResult::Finished, None),
            SignalAction::Default => {
                if signal.is_ignored_by_default() {
                    return (RaiseResult::Finished, None);
                }
            },
            _ => {},
        }
        self.mask.mask(SignalMask::from_signal(signal));
        self.pending.push(signal);
        let waker = if signal.to_signum() == SIGCONT {
            self.stop_waker.take()
        } else {
            self.signal_waker.take()
        };
        (RaiseResult::Finished, waker)
    }

    /// Take the next pending signal and say what handling it needs.  A
    /// signal with a user handler gets the handler's mask added to the
    /// blocked set; one handled by default is unblocked first.
    pub fn next_handle_step(&mut self) -> (r: HandleStep)
        requires
            old(self).wf(),
        ensures
            final(self).wf(),
            final(self).dispositions() == old(self).dispositions(),
            final(self).signal_waker() == old(self).signal_waker(),
            final(self).stop_waker() == old(self).stop_waker(),
            old(self).pending().len() == 0 ==> r == HandleStep::Done && final(self).pending()
                == old(self).pending() && final(self).blocked() == old(self).blocked(),
            old(self).pending().len() > 0 ==> exists|s: Signal|
                #![trigger is_least_pending(old(self).pending(), s)]
                is_least_pending(old(self).pending(), s) && final(self).pending() == old(self).pending().remove(s) && step_for(
                    s,
                    action_of(old(self).dispositions(), s.num()),
                    old(self).blocked(),
                    final(self).blocked(),
                    r,
                ),
    {
        let signal = match self.pop() {
            None => return HandleStep::Done,
            Some(signal) => signal,
        };
        let action = self.actions.get(signal);
        if let SignalAction::SimpleHandler { mask, .. } = action {
            let old_mask = self.mask;
            self.mask.mask(mask);
            return HandleStep::Deliver { signal, action, old_mask };
        }
        self.mask.unmask(SignalMask::from_signal(signal));
        if signal.is_ignored_by_default() {
            HandleStep::Ignore(signal)
        } else if signal.to_signum() == SIGCONT {
            HandleStep::Continue(signal)
        } else if signal.is_stop() {
            HandleStep::Stop(signal)
        } else {
            HandleStep::Terminate(signal)
        }
    }

    /// A user handler frame could not be set up: restore the old mask and
    /// raise `SIGSEGV` for a bad stack (`EFAULT`) or `SIGSYS` otherwise.
    pub fn handler_failed(&mut self, old_mask: SignalMask, err: u32) -> (r: (RaiseResult, Option<W>))
        requires
            old(self).wf(),
        ensures
            final(self).wf(),
            final(self).dispositions() == old(self).dispositions(),
            ({
                let n = if err == crate::errno::EFAULT {
                    SIGSEGV
                } else {
                    SIGSYS
                };
                &&& old_mask.has(n) ==> r.0 == RaiseResult::Masked && r.1 is None && final(self).blocked() == old_mask && final(self).pending() == old(self).pending()
                &&& !old_mask.has(n) ==> r.0 == RaiseResult::Finished
                &&& !old_mask.has(n) && action_of(old(self).dispositions(), n)
                    == SignalAction::Ignore ==> r.1 is None && final(self).blocked() == old_mask
                    && final(self).pending() == old(self).pending()
                &&& !old_mask.has(n) && action_of(old(self).dispositions(), n)
                    != SignalAction::Ignore ==> final(self).blocked().bits() == old_mask.bits()
                    | signal_bit(n) && final(self).pending().count(Signal::spec_new(n)) == old(self).pending().count(Signal::spec_new(n)) + 1 && r.1 == old(self).signal_waker()
            }),
    {
        self.mask = old_mask;
        let sig = if err == crate::errno::EFAULT {
            Signal(SIGSEGV)
        } else {
            Signal(SIGSYS)
        };
        self.raise(sig)
    }
}

/// The handling step for signal `s` with disposition `action`, blocked set
/// `before` going to `after`.
pub open spec fn step_for(
    s: Signal,
    action: SignalAction,
    before: SignalMask,
    after: SignalMask,
    r: HandleStep,
) -> bool {
    match action {
        SignalAction::SimpleHandler { mask, .. } => {
            &&& r == (HandleStep::Deliver { signal: s, action, old_mask: before })
            &&& after.bits() == before.bits() | mask.bits()
        },
        _ => {
            &&& after.bits() == before.bits() & !signal_bit(s.num())
            &&& r == (if is_ignored_by_default(s.num()) {
                HandleStep::Ignore(s)
            } else if s.num() == SIGCONT {
                HandleStep::Continue(s)
            } else if is_stop_signal(s.num()) {
                HandleStep::Stop(s)
            } else {
                HandleStep::Terminate(s)
            })
        },
    }
}

/// Where the user handler of a signal runs.
#[derive(Debug, Clone, Copy, PartialEq, Eq, Structural)]
pub struct SignalFrame {
    /// Start of the saved trap context, FPU state and old mask.
    pub saved_data_addr: usize,
    /// Stack pointer the handler starts with.
    pub new_sp: usize,
    /// First word at `new_sp`: the return address, the restorer.
    pub restorer: u32,
    /// Second word: the argument of the handler, the signal number.
    pub signum: u32,
    /// Program counter the handler starts at.
    pub handler: usize,
}

/// The frame for running the user handler `action` of `signal` on a user
/// stack at `sp`: the saved data goes 128 bytes below the stack (clear of
/// the red zone) aligned down to 16, and the handler's stack starts 20 bytes
/// below that.  A handler without a restorer is refused with `ENOSYS`.
pub fn signal_frame(action: SignalAction, signal: Signal, sp: usize, saved_data_size: usize) -> (r:
    KResult<SignalFrame>)
    requires
        action is SimpleHandler,
        sp >= saved_data_size + 128 + 20 + 15,
    ensures
        action->restorer is None ==> r == Err::<SignalFrame, u32>(crate::errno::ENOSYS),
        action->restorer is Some ==> ({
            let below = sp - 128 - saved_data_size;
            &&& r is Ok
            &&& r->Ok_0.saved_data_addr == below - below % 16
            &&& r->Ok_0.new_sp == below - below % 16 - 20
            &&& r->Ok_0.restorer == (action->restorer->Some_0 as u32)
            &&& r->Ok_0.signum == signal.num()
            &&& r->Ok_0.handler == action->handler
        }),
{
    let (handler, restorer) = match action {
        SignalAction::SimpleHandler { handler, restorer, .. } => (handler, restorer),
        _ => return Err(EINVAL),
    };
    let restorer = match restorer {
        None => return Err(crate::errno::ENOSYS),
        Some(r) => r,
    };
    let below = sp - 128 - saved_data_size;
    let saved_data_addr = below - below % 16;
    let new_sp = saved_data_addr - 16 - 4;
    Ok(
        SignalFrame {
            saved_data_addr,
            new_sp,
            restorer: #[verifier::truncate] (restorer as u32),
            signum: signal.to_signum(),
            handler,
        },
    )
}

/// Where `sigreturn` finds what the handler frame saved, given the user
/// stack pointer at return: the old mask, then the extended (FPU) context of
/// `ext_size` bytes, then the interrupt context.
pub fn sigreturn_layout(rsp: usize, ext_size: usize) -> (r: (usize, usize, usize))
    requires
        rsp + 8 + ext_size <= usize::MAX,
    ensures
        r.0 == rsp,
        r.1 == rsp + 8,
        r.2 == rsp + 8 + ext_size,
{
    (rsp, rsp + 8, rsp + 8 + ext_size)
}

} // verus!
