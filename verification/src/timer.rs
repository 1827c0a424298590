//! Timer ticks (one per millisecond), instants, time slices and the queue
//! of sleeping tasks.

use vstd::prelude::*;

verus! {

/// A count of timer ticks; one tick is one millisecond.
#[derive(Debug, Clone, Copy, PartialEq, Eq, Structural, PartialOrd, Ord)]
pub struct Ticks(pub usize);

/// A point in time, in ticks since boot.
#[derive(Debug, Clone, Copy, PartialEq, Eq, Structural)]
pub struct Instant(pub Ticks);

/// Length of a time slice in milliseconds.
pub const TIMESLICE_MSECS: u128 = 10;

impl Ticks {
    pub fn in_secs(&self) -> (r: u64)
        ensures
            r == (self.0 as u64) / 1000,
    {
        self.0 as u64 / 1_000
    }

    pub fn in_msecs(&self) -> (r: u128)
        ensures
            r == self.0,
    {
        self.0 as u128
    }

    pub fn in_usecs(&self) -> (r: u128)
        ensures
            r == self.0 * 1000,
    {
        self.0 as u128 * 1_000
    }

    pub fn in_nsecs(&self) -> (r: u128)
        ensures
            r == self.0 * 1_000_000,
    {
        self.0 as u128 * 1_000_000
    }

    pub fn add(self, other: Ticks) -> (r: Ticks)
        requires
            self.0 + other.0 <= usize::MAX,
        ensures
            r.0 == self.0 + other.0,
    {
        Ticks(self.0 + other.0)
    }
}

impl Instant {
    pub fn from_ticks(ticks: Ticks) -> (r: Instant)
        ensures
            r.0 == ticks,
    {
        Instant(ticks)
    }

    pub fn ticks(self) -> (r: Ticks)
        ensures
            r == self.0,
    {
        self.0
    }

    /// Nanoseconds from this instant to `now`, truncated to 64 bits.
    pub fn elapsed(&self, now: Ticks) -> (r: u64)
        requires
            now.0 >= (self.0).0,
        ensures
            r == ((now.0 - (self.0).0) * 1_000_000) as u64,
    {
        let a = now.in_nsecs();
        let b = self.0.in_nsecs();
        assert(a - b == (now.0 - (self.0).0) * 1_000_000) by (nonlinear_arith)
            requires
                a == now.0 * 1_000_000,
                b == (self.0).0 * 1_000_000,
        ;
        #[verifier::truncate]
        ((a - b) as u64)
    }

    /// This instant plus `millis` milliseconds.
    pub fn add_millis(self, millis: u128) -> (r: Instant)
        requires
            (self.0).0 + (millis as usize) <= usize::MAX,
        ensures
            (r.0).0 == (self.0).0 + (millis as usize),
    {
        let m = #[verifier::truncate] (millis as usize);
        Instant(self.0.add(Ticks(m)))
    }
}

/// Whether the time slice that began at tick `prev_tick` is over at
/// `current_tick`; gives the tick the next slice begins at.
pub fn should_reschedule(prev_tick: usize, current_tick: usize) -> (r: (bool, usize))
    requires
        current_tick >= prev_tick,
    ensures
        r.0 == (current_tick - prev_tick >= TIMESLICE_MSECS),
        r.1 == (if r.0 {
            current_tick
        } else {
            prev_tick
        }),
{
    if Ticks(current_tick - prev_tick).in_msecs() >= TIMESLICE_MSECS {
        (true, current_tick)
    } else {
        (false, prev_tick)
    }
}

/// The tasks that sleep until one tick.
pub struct Sleepers<W> {
    pub wakeup_tick: usize,
    pub wakers: Vec<W>,
}

/// `i` is the position of the earliest wake up tick.
pub open spec fn is_earliest<W>(s: Seq<(usize, Seq<W>)>, i: int) -> bool {
    &&& 0 <= i < s.len()
    &&& forall|j: int| 0 <= j < s.len() ==> s[i].0 <= #[trigger] s[j].0
}

/// The earliest wake up tick, `usize::MAX` when nobody sleeps.
pub open spec fn earliest_tick<W>(s: Seq<(usize, Seq<W>)>, t: usize) -> bool {
    if s.len() == 0 {
        t == usize::MAX
    } else {
        (exists|i: int| is_earliest(s, i) && s[i].0 == t)
    }
}

/// No sleeper is woken early: when the next wake up of a consistent queue
/// (`next`, its earliest tick) has come at tick `now`, the earliest bucket
/// that a tick hands back is due as well.
pub proof fn law_woken_sleepers_are_due<W>(buckets: Seq<(usize, Seq<W>)>, next: usize, now: usize, i: int)
    requires
        earliest_tick(buckets, next),
        is_earliest(buckets, i),
        next <= now,
    ensures
        buckets[i].0 <= now,
{
    let k = choose|k: int| is_earliest(buckets, k) && buckets[k].0 == next;
    assert(buckets[i].0 <= buckets[k].0);
}

/// `post` is `pre` after one timer tick that handed back `woken`: the
/// count moves on by one and, when the next wake up is due, the earliest
/// bucket is taken out and its wakers are the ones handed back.
pub open spec fn ticked<W>(pre: SleepQueue<W>, post: SleepQueue<W>, woken: Seq<W>) -> bool {
    &&& post.now() == pre.now() + 1
    &&& (pre.next_wakeup() > pre.now() + 1 || pre.buckets().len() == 0) ==> woken == Seq::<W>::empty()
        && post.buckets() == pre.buckets() && post.next_wakeup() == pre.next_wakeup()
    &&& pre.next_wakeup() <= pre.now() + 1 && pre.buckets().len() > 0 ==> exists|i: int|
        is_earliest(pre.buckets(), i) && woken == pre.buckets()[i].1 && post.buckets()
            == pre.buckets().remove(i)
}

/// The tick count never goes back: a tick moves it on by one, and a sleep
/// (`poll_sleep`) or a timer interrupt on another CPU leaves it as it was;
/// these are the only ways a sleep queue changes.
pub proof fn law_ticks_never_decrease<W>(pre: SleepQueue<W>, post: SleepQueue<W>, woken: Seq<W>)
    requires
        ticked(pre, post, woken) || post.now() == pre.now(),
    ensures
        post.now() >= pre.now(),
{
}

/// The tick counter and the sleeping tasks, by wake up tick.
pub struct SleepQueue<W> {
    ticks: usize,
    wakeup_tick: usize,
    sleepers: Vec<Sleepers<W>>,
}

impl<W> SleepQueue<W> {
    pub closed spec fn now(&self) -> usize {
        self.ticks
    }

    pub closed spec fn next_wakeup(&self) -> usize {
        self.wakeup_tick
    }

    /// The sleepers as (wake up tick, wakers) pairs.
    pub closed spec fn buckets(&self) -> Seq<(usize, Seq<W>)> {
        self.sleepers@.map_values(|s: Sleepers<W>| (s.wakeup_tick, s.wakers@))
    }

    /// No two buckets share a tick, and the next wake up is the earliest.
    pub open spec fn wf(&self) -> bool {
        &&& forall|i: int, j: int|
            0 <= i < j < self.buckets().len() ==> #[trigger] self.buckets()[i].0
                != #[trigger] self.buckets()[j].0
        &&& earliest_tick(self.buckets(), self.next_wakeup())
    }

    pub fn new() -> (r: Self)
        ensures
            r.wf(),
            r.now() == 0,
            r.buckets() == Seq::<(usize, Seq<W>)>::empty(),
    {
        let r = SleepQueue { ticks: 0, wakeup_tick: usize::MAX, sleepers: Vec::new() };
        assert(r.buckets() =~= Seq::<(usize, Seq<W>)>::empty());
        r
    }

    pub fn now_ticks(&self) -> (r: Ticks)
        ensures
            r.0 == self.now(),
    {
        Ticks(self.ticks)
    }

    /// Position of the bucket of tick `t`.
    fn find(&self, t: usize) -> (r: Option<usize>)
        ensures
            match r {
                Some(i) => i < self.buckets().len() && self.buckets()[i as int].0 == t,
                None => forall|j: int| 0 <= j < self.buckets().len() ==> #[trigger] self.buckets()[j].0 != t,
            },
    {
        let mut i: usize = 0;
        while i < self.sleepers.len()
            invariant
                i <= self.sleepers@.len(),
                forall|j: int| 0 <= j < i ==> #[trigger] self.buckets()[j].0 != t,
            decreases self.sleepers@.len() - i,
        {
            if self.sleepers[i].wakeup_tick == t {
                return Some(i);
            }
            i = i + 1;
        }
        None
    }

    /// Poll of a task sleeping until `wakeup`: ready once the tick is
    /// reached; otherwise the waker joins the bucket of that tick (a new
    /// one at the back when there is none) and the next wake up moves
    /// earlier if needed.
    pub fn poll_sleep(&mut self, wakeup: usize, waker: W) -> (r: bool)
        requires
            old(self).wf(),
        ensures
            final(self).wf(),
            final(self).now() == old(self).now(),
            r == (old(self).now() >= wakeup),
            r ==> final(self).buckets() == old(self).buckets() && final(self).next_wakeup() == old(self).next_wakeup(),
            !r ==> final(self).next_wakeup() == (if wakeup < old(self).next_wakeup() {
                wakeup
            } else {
                old(self).next_wakeup()
            }),
            !r ==> (exists|i: int|
                0 <= i < old(self).buckets().len() && old(self).buckets()[i].0 == wakeup) ==> exists|i: int|
                0 <= i < old(self).buckets().len() && old(self).buckets()[i].0 == wakeup && final(self).buckets() == old(self).buckets().update(
                    i,
                    (wakeup, old(self).buckets()[i].1.push(waker)),
                ),
            !r ==> (forall|i: int|
                0 <= i < old(self).buckets().len() ==> old(self).buckets()[i].0 != wakeup) ==> final(self).buckets() == old(self).buckets().push((wakeup, seq![waker])),
    {
        if self.ticks >= wakeup {
            return true;
        }
        let ghost ob = self.buckets();
        let ghost mut pos: int = 0;
        match self.find(wakeup) {
            Some(i) => {
                proof {
                    pos = i as int;
                }
                let mut s = self.sleepers.remove(i);
                s.wakers.push(waker);
                self.sleepers.insert(i, s);
                assert(self.buckets() =~= ob.update(i as int, (wakeup, ob[i as int].1.push(waker))));
            },
            None => {
                proof {
                    pos = ob.len() as int;
                }
                let mut ws: Vec<W> = Vec::new();
                ws.push(waker);
                self.sleepers.push(Sleepers { wakeup_tick: wakeup, wakers: ws });
                assert(self.buckets() =~= ob.push((wakeup, seq![waker])));
            },
        }
        if wakeup < self.wakeup_tick {
            self.wakeup_tick = wakeup;
        }
        proof {
            let nb = self.buckets();
            assert(nb.len() > 0);
            if ob.len() == 0 {
                assert(is_earliest(nb, 0));
            } else {
                let k = choose|k: int| is_earliest(ob, k) && ob[k].0 == old(self).wakeup_tick;
                assert(0 <= pos < nb.len() && nb[pos].0 == wakeup);
                assert forall|j: int| 0 <= j < nb.len() && j != pos implies #[trigger] nb[j] == ob[j] by {
                }
                if wakeup < old(self).wakeup_tick {
                    assert forall|j: int| 0 <= j < nb.len() implies nb[pos].0 <= #[trigger] nb[j].0 by {
                        if j != pos {
                            assert(ob[k].0 <= ob[j].0);
                        }
                    }
                    assert(is_earliest(nb, pos));
                } else {
                    assert forall|j: int| 0 <= j < nb.len() implies nb[k].0 <= #[trigger] nb[j].0 by {
                        if j != pos {
                            assert(ob[k].0 <= ob[j].0);
                        }
                    }
                    assert(is_earliest(nb, k));
                }
            }
        }
        false
    }

    /// One timer tick: the count moves on and, when the next wake up is
    /// due, the earliest bucket is taken out and its wakers are handed back.
    pub fn tick(&mut self) -> (r: Vec<W>)
        requires
            old(self).wf(),
            old(self).now() < usize::MAX,
        ensures
            final(self).wf(),
            ticked(*old(self), *final(self), r@),
    {
        self.ticks = self.ticks + 1;
        let current = self.ticks;
        if self.wakeup_tick > current || self.sleepers.len() == 0 {
            return Vec::new();
        }
        let ghost ob = self.buckets();
        let mut best: usize = 0;
        let mut i: usize = 1;
        while i < self.sleepers.len()
            invariant
                0 < i <= self.sleepers@.len(),
                best < i,
                ob == self.buckets(),
                forall|j: int| 0 <= j < i ==> ob[best as int].0 <= #[trigger] ob[j].0,
            decreases self.sleepers@.len() - i,
        {
            if self.sleepers[i].wakeup_tick < self.sleepers[best].wakeup_tick {
                best = i;
            }
            i = i + 1;
        }
        assert(is_earliest(ob, best as int));
        let s = self.sleepers.remove(best);
        assert(self.buckets() =~= ob.remove(best as int));
        let next = self.earliest();
        self.wakeup_tick = next;
        s.wakers
    }

    /// The timer interrupt on CPU `cpu`: only CPU 0 ticks; on any other
    /// CPU nothing changes and nobody is woken.
    pub fn timer_interrupt(&mut self, cpu: usize) -> (r: Vec<W>)
        requires
            old(self).wf(),
            cpu == 0 ==> old(self).now() < usize::MAX,
        ensures
            final(self).wf(),
            cpu != 0 ==> r@ == Seq::<W>::empty() && *final(self) == *old(self),
            cpu == 0 ==> ticked(*old(self), *final(self), r@),
    {
        if cpu != 0 {
            return Vec::new();
        }
        self.tick()
    }

    /// The earliest wake up tick, `usize::MAX` when nobody sleeps.
    fn earliest(&self) -> (r: usize)
        ensures
            earliest_tick(self.buckets(), r),
    {
        if self.sleepers.len() == 0 {
            return usize::MAX;
        }
        let mut best: usize = 0;
        let mut i: usize = 1;
        while i < self.sleepers.len()
            invariant
                0 < i <= self.sleepers@.len(),
                best < i,
                forall|j: int| 0 <= j < i ==> self.buckets()[best as int].0 <= #[trigger] self.buckets()[j].0,
            decreases self.sleepers@.len() - i,
        {
            if self.sleepers[i].wakeup_tick < self.sleepers[best].wakeup_tick {
                best = i;
            }
            i = i + 1;
        }
        assert(is_earliest(self.buckets(), best as int));
        self.sleepers[best].wakeup_tick
    }
}

} // verus!
