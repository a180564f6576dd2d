use std::collections::VecDeque;
use std::time::Duration;

use vstd::prelude::*;

use crate::duration::{duration_nanos, is_positive, saturating_sub};

verus! {

/// Whether a timer fires once or keeps firing every `interval`.
#[derive(Debug, Clone, Copy)]
pub enum TimerKind {
    Once,
    Repeating { interval: Duration },
}

/// Identifier of a timer.
#[derive(Debug, Clone, Copy, PartialEq, Eq, Structural, Hash)]
pub struct TimerId(u64);

impl View for TimerId {
    type V = u64;

    closed spec fn view(&self) -> u64 {
        self.0
    }
}

impl TimerId {
    /// Advances to the next identifier and returns it.
    fn take_next(&mut self) -> (r: Self)
        requires
            old(self)@ < u64::MAX,
        ensures
            final(self)@ == old(self)@ + 1,
            r@ == final(self)@,
    {
        self.0 = self.0 + 1;
        TimerId(self.0)
    }

    /// The first identifier, before any timer was set.
    pub fn zero() -> (r: Self)
        ensures
            r@ == 0,
    {
        TimerId(0)
    }
}

impl vstd::std_specs::convert::FromSpecImpl<u64> for TimerId {
    open spec fn obeys_from_spec() -> bool {
        true
    }

    closed spec fn from_spec(v: u64) -> TimerId {
        TimerId(v)
    }
}

impl From<u64> for TimerId {
    fn from(id: u64) -> (r: Self) {
        TimerId(id)
    }
}

impl vstd::std_specs::convert::FromSpecImpl<TimerId> for u64 {
    open spec fn obeys_from_spec() -> bool {
        true
    }

    closed spec fn from_spec(v: TimerId) -> u64 {
        v.0
    }
}

impl From<TimerId> for u64 {
    fn from(id: TimerId) -> (r: Self) {
        id.0
    }
}

/// A pending timer: its callback, how it repeats, and the time left.
#[derive(Debug, Clone)]
pub struct Timer<C> {
    pub id: TimerId,
    pub callback: C,
    pub kind: TimerKind,
    pub remaining: Duration,
}

/// A timer that has come due, waiting for its callback to run.
#[derive(Debug, Clone)]
pub struct ReleasedTimer<C> {
    pub id: TimerId,
    pub cb: C,
}

/// What a timer is, apart from its callback: id, interval (none for a
/// one-shot timer) and nanoseconds left.
pub type TimerView = (u64, Option<u128>, u128);

pub open spec fn kind_view(k: TimerKind) -> Option<u128> {
    match k {
        TimerKind::Once => None,
        TimerKind::Repeating { interval } => Some(duration_nanos(interval)),
    }
}

pub open spec fn timer_view<C>(t: Timer<C>) -> TimerView {
    (t.id@, kind_view(t.kind), duration_nanos(t.remaining))
}

pub open spec fn timers_view<C>(ts: Seq<Timer<C>>) -> Seq<TimerView> {
    ts.map_values(|t: Timer<C>| timer_view(t))
}

pub open spec fn released_ids<C>(rs: Seq<ReleasedTimer<C>>) -> Seq<u64> {
    rs.map_values(|r: ReleasedTimer<C>| r.id@)
}

pub open spec fn sat_sub(a: u128, b: u128) -> u128 {
    if a >= b {
        (a - b) as u128
    } else {
        0
    }
}

/// What `tick(dt)` does to the timers from position `i` on: each timer has
/// `dt` taken off the time it has left; one that reaches zero is released,
/// and a one-shot timer leaves the list through a swap with the last one
/// (which is then examined at the same position), while a repeating timer
/// starts over with its interval. Returns the timers left and the ids
/// released, in order.
pub open spec fn tick_from(ts: Seq<TimerView>, i: int, dt: u128) -> (Seq<TimerView>, Seq<u64>)
    decreases ts.len() - i,
{
    if i < 0 || i >= ts.len() {
        (ts, Seq::empty())
    } else {
        let t = ts[i];
        let rem = sat_sub(t.2, dt);
        if rem > 0 {
            tick_from(ts.update(i, (t.0, t.1, rem)), i + 1, dt)
        } else {
            match t.1 {
                None => {
                    let r = tick_from(ts.update(i, ts.last()).drop_last(), i, dt);
                    (r.0, seq![t.0] + r.1)
                },
                Some(iv) => {
                    let r = tick_from(ts.update(i, (t.0, t.1, iv)), i + 1, dt);
                    (r.0, seq![t.0] + r.1)
                },
            }
        }
    }
}

/// Where each timer comes from, following the steps of [`tick_from`]: `src`
/// gives, for each timer of `ts`, its position among the timers before the
/// tick. Returns the sources of the timers left and of the timers released,
/// in order.
pub open spec fn tick_sources(ts: Seq<TimerView>, src: Seq<int>, i: int, dt: u128) -> (Seq<int>, Seq<int>)
    decreases ts.len() - i,
{
    if i < 0 || i >= ts.len() {
        (src, Seq::empty())
    } else {
        let t = ts[i];
        let rem = sat_sub(t.2, dt);
        if rem > 0 {
            tick_sources(ts.update(i, (t.0, t.1, rem)), src, i + 1, dt)
        } else {
            match t.1 {
                None => {
                    let r = tick_sources(ts.update(i, ts.last()).drop_last(), src.update(i, src.last()).drop_last(), i, dt);
                    (r.0, seq![src[i]] + r.1)
                },
                Some(iv) => {
                    let r = tick_sources(ts.update(i, (t.0, t.1, iv)), src, i + 1, dt);
                    (r.0, seq![src[i]] + r.1)
                },
            }
        }
    }
}

/// The positions `0..n`, in order.
pub open spec fn positions(n: nat) -> Seq<int> {
    Seq::new(n, |k: int| k)
}

/// A timer left after a tick is the timer it came from, with the same id,
/// callback and kind (only the time left changes).
pub open spec fn kept_from<C>(now: Timer<C>, was: Timer<C>) -> bool {
    now.id == was.id && now.callback == was.callback && now.kind == was.kind
}

/// A released timer carries the id of the timer that fired and its callback:
/// the callback itself for a one-shot timer, which leaves, and a clone of it
/// for a repeating one, which stays.
pub open spec fn released_from<C: Clone>(r: ReleasedTimer<C>, t: Timer<C>) -> bool {
    r.id == t.id && match t.kind {
        TimerKind::Once => r.cb == t.callback,
        TimerKind::Repeating { .. } => cloned::<C>(t.callback, r.cb),
    }
}

/// `tick_sources` follows `tick_from` step by step: as many timers left and
/// released, each source a position of the timers before the tick.
pub proof fn lemma_tick_sources(ts: Seq<TimerView>, src: Seq<int>, i: int, dt: u128, n: int)
    requires
        src.len() == ts.len(),
        forall|k: int| 0 <= k < src.len() ==> 0 <= #[trigger] src[k] < n,
    ensures
        tick_sources(ts, src, i, dt).0.len() == tick_from(ts, i, dt).0.len(),
        tick_sources(ts, src, i, dt).1.len() == tick_from(ts, i, dt).1.len(),
        forall|k: int|
            0 <= k < tick_sources(ts, src, i, dt).0.len() ==> 0 <= #[trigger] tick_sources(ts, src, i, dt).0[k] < n,
        forall|k: int|
            0 <= k < tick_sources(ts, src, i, dt).1.len() ==> 0 <= #[trigger] tick_sources(ts, src, i, dt).1[k] < n,
    decreases ts.len() - i,
{
    if i < 0 || i >= ts.len() {
    } else {
        let t = ts[i];
        let rem = sat_sub(t.2, dt);
        if rem > 0 {
            lemma_tick_sources(ts.update(i, (t.0, t.1, rem)), src, i + 1, dt, n);
        } else {
            match t.1 {
                None => {
                    let src2 = src.update(i, src.last()).drop_last();
                    assert forall|k: int| 0 <= k < src2.len() implies 0 <= #[trigger] src2[k] < n by {
                        if k == i {
                            assert(src2[k] == src[src.len() - 1]);
                        } else {
                            assert(src2[k] == src[k]);
                        }
                    }
                    lemma_tick_sources(ts.update(i, ts.last()).drop_last(), src2, i, dt, n);
                    let r = tick_sources(ts.update(i, ts.last()).drop_last(), src2, i, dt);
                    assert forall|k: int| 0 <= k < (seq![src[i]] + r.1).len() implies 0 <= #[trigger] (seq![src[i]] + r.1)[k] < n by {
                        if k > 0 {
                            assert((seq![src[i]] + r.1)[k] == r.1[k - 1]);
                        }
                    }
                },
                Some(iv) => {
                    lemma_tick_sources(ts.update(i, (t.0, t.1, iv)), src, i + 1, dt, n);
                    let r = tick_sources(ts.update(i, (t.0, t.1, iv)), src, i + 1, dt);
                    assert forall|k: int| 0 <= k < (seq![src[i]] + r.1).len() implies 0 <= #[trigger] (seq![src[i]] + r.1)[k] < n by {
                        if k > 0 {
                            assert((seq![src[i]] + r.1)[k] == r.1[k - 1]);
                        }
                    }
                },
            }
        }
    }
}

/// The pending timers that keep their place when `id` is removed.
pub open spec fn other_timer<C>(id: TimerId) -> spec_fn(Timer<C>) -> bool {
    |t: Timer<C>| t.id != id
}

/// The released timers that keep their place when `id` is removed.
pub open spec fn other_released<C>(id: TimerId) -> spec_fn(ReleasedTimer<C>) -> bool {
    |r: ReleasedTimer<C>| r.id != id
}

/// Some timer in `ts` has id `x`.
pub open spec fn has_id(ts: Seq<TimerView>, x: u64) -> bool {
    exists|j: int| 0 <= j < ts.len() && ts[j].0 == x
}

/// Every id that `tick_from` keeps or releases was an id of the input.
pub proof fn lemma_tick_from_ids(ts: Seq<TimerView>, i: int, dt: u128)
    ensures
        forall|k: int|
            0 <= k < tick_from(ts, i, dt).0.len() ==> has_id(ts, #[trigger] tick_from(ts, i, dt).0[k].0),
        forall|k: int|
            0 <= k < tick_from(ts, i, dt).1.len() ==> has_id(ts, #[trigger] tick_from(ts, i, dt).1[k]),
    decreases ts.len() - i,
{
    let r = tick_from(ts, i, dt);
    if i < 0 || i >= ts.len() {
        assert forall|k: int| 0 <= k < r.0.len() implies has_id(ts, #[trigger] r.0[k].0) by {
            assert(ts[k].0 == r.0[k].0);
        }
    } else {
        let t = ts[i];
        let rem = sat_sub(t.2, dt);
        let ts2 = if rem > 0 {
            ts.update(i, (t.0, t.1, rem))
        } else {
            match t.1 {
                None => ts.update(i, ts.last()).drop_last(),
                Some(iv) => ts.update(i, (t.0, t.1, iv)),
            }
        };
        let i2 = if rem > 0 {
            i + 1
        } else {
            match t.1 {
                None => i,
                Some(_) => i + 1,
            }
        };
        lemma_tick_from_ids(ts2, i2, dt);
        let r2 = tick_from(ts2, i2, dt);
        assert forall|x: u64| has_id(ts2, x) implies has_id(ts, x) by {
            let j2 = choose|j2: int| 0 <= j2 < ts2.len() && ts2[j2].0 == x;
            if j2 == i && rem == 0 && t.1 is None {
                assert(ts[ts.len() - 1].0 == x);
            } else {
                assert(ts[j2].0 == x);
            }
        }
        assert(r.0 == r2.0);
        assert forall|k: int| 0 <= k < r.0.len() implies has_id(ts, #[trigger] r.0[k].0) by {
            assert(has_id(ts2, r2.0[k].0));
        }
        assert forall|k: int| 0 <= k < r.1.len() implies has_id(ts, #[trigger] r.1[k]) by {
            if rem > 0 {
                assert(has_id(ts2, r2.1[k]));
            } else if k == 0 {
                assert(ts[i].0 == r.1[k]);
            } else {
                assert(r.1[k] == r2.1[k - 1]);
                assert(has_id(ts2, r2.1[k - 1]));
            }
        }
    }
}

/// The pending timers, the released ones waiting to run, and the last id.
#[derive(Debug)]
pub struct Timers<C> {
    pub timers: Vec<Timer<C>>,
    pub released: VecDeque<ReleasedTimer<C>>,
    next_id: TimerId,
}

impl<C: Clone> Timers<C> {
    /// The last id handed out; every id set so far is at most this.
    pub closed spec fn last_id(&self) -> u64 {
        self.next_id@
    }

    /// The pending timers, in list order.
    pub closed spec fn pending(&self) -> Seq<Timer<C>> {
        self.timers@
    }

    /// The released timers, front first.
    pub closed spec fn due(&self) -> Seq<ReleasedTimer<C>> {
        self.released@
    }

    /// Every pending and released timer has an id that was handed out.
    pub closed spec fn wf(&self) -> bool {
        &&& forall|k: int| 0 <= k < self.pending().len() ==> (#[trigger] self.pending()[k]).id@ <= self.last_id()
        &&& forall|k: int| 0 <= k < self.due().len() ==> (#[trigger] self.due()[k]).id@ <= self.last_id()
    }

    /// The last id handed out.
    pub fn current_id(&self) -> (id: TimerId)
        ensures
            id@ == self.last_id(),
    {
        self.next_id
    }

    /// No timers.
    pub fn new() -> (r: Self)
        ensures
            r.pending().len() == 0,
            r.due().len() == 0,
            r.last_id() == 0,
            r.wf(),
    {
        Timers { timers: Vec::new(), released: VecDeque::new(), next_id: TimerId(0) }
    }

    /// Takes `dt` off every pending timer; timers that come due are released in
    /// the order that [`tick_from`] gives.
    pub fn tick(&mut self, dt: Duration)
        ensures
            timers_view(final(self).pending()) == tick_from(timers_view(old(self).pending()), 0, duration_nanos(dt)).0,
            released_ids(final(self).due()) == released_ids(old(self).due()) + tick_from(
                timers_view(old(self).pending()),
                0,
                duration_nanos(dt),
            ).1,
            final(self).last_id() == old(self).last_id(),
            old(self).wf() ==> final(self).wf(),
            forall|k: int| 0 <= k < old(self).due().len() ==> #[trigger] final(self).due()[k] == old(self).due()[k],
            ({
                let tr = tick_sources(
                    timers_view(old(self).pending()),
                    positions(old(self).pending().len()),
                    0,
                    duration_nanos(dt),
                );
                &&& tr.0.len() == final(self).pending().len()
                &&& final(self).due().len() == old(self).due().len() + tr.1.len()
                &&& forall|k: int|
                    0 <= k < tr.0.len() ==> 0 <= tr.0[k] < old(self).pending().len() && kept_from(
                        #[trigger] final(self).pending()[k],
                        old(self).pending()[tr.0[k]],
                    )
                &&& forall|k: int|
                    0 <= k < tr.1.len() ==> 0 <= tr.1[k] < old(self).pending().len() && released_from(
                        #[trigger] final(self).due()[old(self).due().len() + k],
                        old(self).pending()[tr.1[k]],
                    )
            }),
    {
        let ghost d = duration_nanos(dt);
        let ghost orig_timers = self.timers@;
        let ghost orig_due = self.released@;
        let ghost n = orig_timers.len() as int;
        let ghost strace = tick_sources(timers_view(orig_timers), positions(orig_timers.len()), 0, d);
        let ghost mut src: Seq<int> = positions(orig_timers.len());
        let ghost mut relsrc: Seq<int> = Seq::empty();
        let ghost orig = timers_view(self.timers@);
        let ghost target = tick_from(orig, 0, d);
        let ghost old_released = released_ids(self.released@);
        let ghost last = self.next_id@;
        let mut i: usize = 0;
        proof {
            assert(timers_view(self.timers@) =~= orig);
            assert(old_released + Seq::<u64>::empty() =~= old_released);
            assert(relsrc + strace.1 =~= strace.1);
        }
        while i < self.timers.len()
            invariant
                i <= self.timers@.len(),
                d == duration_nanos(dt),
                target == tick_from(orig, 0, d),
                self.next_id@ == last,
                tick_from(timers_view(self.timers@), i as int, d).0 == target.0,
                released_ids(self.released@) + tick_from(timers_view(self.timers@), i as int, d).1 == old_released + target.1,
                orig_timers == old(self).timers@,
                orig_due == old(self).released@,
                n == orig_timers.len(),
                strace == tick_sources(timers_view(orig_timers), positions(orig_timers.len()), 0, d),
                src.len() == self.timers@.len(),
                forall|k: int|
                    0 <= k < src.len() ==> 0 <= #[trigger] src[k] < n && kept_from(self.timers@[k], orig_timers[src[k]]),
                tick_sources(timers_view(self.timers@), src, i as int, d).0 == strace.0,
                relsrc + tick_sources(timers_view(self.timers@), src, i as int, d).1 == strace.1,
                self.released@.len() == orig_due.len() + relsrc.len(),
                forall|k: int| 0 <= k < orig_due.len() ==> #[trigger] self.released@[k] == orig_due[k],
                forall|k: int|
                    0 <= k < relsrc.len() ==> 0 <= #[trigger] relsrc[k] < n && released_from(
                        self.released@[orig_due.len() + k],
                        orig_timers[relsrc[k]],
                    ),
            decreases self.timers@.len() - i, self.timers@.len(),
        {
            let ghost tm_before = self.timers@;
            let ghost rl_before = self.released@;
            let ghost before = timers_view(self.timers@);
            let ghost rel_before = released_ids(self.released@);
            let t_remaining = saturating_sub(self.timers[i].remaining, dt);
            let kind = self.timers[i].kind;
            let id = self.timers[i].id;
            if is_positive(t_remaining) {
                let t = &mut self.timers[i];
                t.remaining = t_remaining;
                proof {
                    assert(timers_view(self.timers@) =~= before.update(i as int, (before[i as int].0, before[i as int].1, duration_nanos(t_remaining))));
                    assert forall|k: int| 0 <= k < src.len() implies 0 <= #[trigger] src[k] < n && kept_from(self.timers@[k], orig_timers[src[k]]) by {
                        assert(kept_from(tm_before[k], orig_timers[src[k]]));
                    }
                }
                i = i + 1;
                continue;
            }
            match kind {
                TimerKind::Once => {
                    let t = self.timers.swap_remove(i);
                    self.released.push_back(ReleasedTimer { id: t.id, cb: t.callback });
                    proof {
                        assert(timers_view(self.timers@) =~= before.update(i as int, before.last()).drop_last());
                        assert(released_ids(self.released@) =~= rel_before.push(id@));
                        let s0 = src;
                        let j = s0[i as int];
                        assert(kept_from(tm_before[i as int], orig_timers[j]));
                        assert(t == tm_before[i as int]);
                        let r0 = tick_sources(before.update(i as int, before.last()).drop_last(), s0.update(i as int, s0.last()).drop_last(), i as int, d);
                        assert(tick_sources(before, s0, i as int, d).1 == seq![j] + r0.1);
                        src = s0.update(i as int, s0.last()).drop_last();
                        relsrc = relsrc.push(j);
                        assert(relsrc + r0.1 =~= (relsrc.drop_last()) + (seq![j] + r0.1));
                        assert forall|k: int| 0 <= k < src.len() implies 0 <= #[trigger] src[k] < n && kept_from(self.timers@[k], orig_timers[src[k]]) by {
                            if k == i {
                                assert(self.timers@[k] == tm_before[tm_before.len() - 1]);
                                assert(kept_from(tm_before[tm_before.len() - 1], orig_timers[s0[s0.len() - 1]]));
                            } else {
                                assert(self.timers@[k] == tm_before[k]);
                                assert(kept_from(tm_before[k], orig_timers[s0[k]]));
                            }
                        }
                        assert forall|k: int| 0 <= k < orig_due.len() implies #[trigger] self.released@[k] == orig_due[k] by {
                            assert(rl_before[k] == orig_due[k]);
                        }
                        assert forall|k: int| 0 <= k < relsrc.len() implies 0 <= #[trigger] relsrc[k] < n && released_from(
                            self.released@[orig_due.len() + k],
                            orig_timers[relsrc[k]],
                        ) by {
                            if k < relsrc.len() - 1 {
                                assert(relsrc[k] == relsrc.drop_last()[k]);
                                assert(self.released@[orig_due.len() + k] == rl_before[orig_due.len() + k]);
                            }
                        }
                    }
                },
                TimerKind::Repeating { interval } => {
                    let cb = self.timers[i].callback.clone();
                    let ghost cb_sp = cb;
                    self.released.push_back(ReleasedTimer { id, cb });
                    let t = &mut self.timers[i];
                    t.remaining = interval;
                    proof {
                        assert(timers_view(self.timers@) =~= before.update(i as int, (before[i as int].0, before[i as int].1, duration_nanos(interval))));
                        assert(released_ids(self.released@) =~= rel_before.push(id@));
                        let j = src[i as int];
                        assert(kept_from(tm_before[i as int], orig_timers[j]));
                        assert(cloned::<C>(tm_before[i as int].callback, cb_sp));
                        let r0 = tick_sources(before.update(i as int, (before[i as int].0, before[i as int].1, duration_nanos(interval))), src, i + 1, d);
                        assert(tick_sources(before, src, i as int, d).1 == seq![j] + r0.1);
                        relsrc = relsrc.push(j);
                        assert(relsrc + r0.1 =~= (relsrc.drop_last()) + (seq![j] + r0.1));
                        assert forall|k: int| 0 <= k < src.len() implies 0 <= #[trigger] src[k] < n && kept_from(self.timers@[k], orig_timers[src[k]]) by {
                            assert(kept_from(tm_before[k], orig_timers[src[k]]));
                        }
                        assert forall|k: int| 0 <= k < orig_due.len() implies #[trigger] self.released@[k] == orig_due[k] by {
                            assert(rl_before[k] == orig_due[k]);
                        }
                        assert forall|k: int| 0 <= k < relsrc.len() implies 0 <= #[trigger] relsrc[k] < n && released_from(
                            self.released@[orig_due.len() + k],
                            orig_timers[relsrc[k]],
                        ) by {
                            if k < relsrc.len() - 1 {
                                assert(relsrc[k] == relsrc.drop_last()[k]);
                                assert(self.released@[orig_due.len() + k] == rl_before[orig_due.len() + k]);
                            }
                        }
                    }
                    i = i + 1;
                },
            }
        }
        proof {
            assert(relsrc + Seq::<int>::empty() =~= relsrc);
            lemma_tick_sources(timers_view(orig_timers), positions(orig_timers.len()), 0, d, n);
            assert(tick_from(timers_view(self.timers@), i as int, d).1 =~= Seq::<u64>::empty());
            assert(released_ids(self.released@) + Seq::<u64>::empty() =~= released_ids(self.released@));
            lemma_tick_from_ids(orig, 0, d);
            if old(self).wf() {
                assert forall|x: u64| has_id(orig, x) implies x <= last by {
                    let j = choose|j: int| 0 <= j < orig.len() && orig[j].0 == x;
                    assert(old(self).timers@[j].id@ == x);
                }
                assert forall|k: int| 0 <= k < self.pending().len() implies (#[trigger] self.pending()[k]).id@ <= self.last_id() by {
                    assert(timers_view(self.timers@)[k].0 == self.timers@[k].id@);
                    assert(has_id(orig, target.0[k].0));
                }
                assert forall|k: int| 0 <= k < self.due().len() implies (#[trigger] self.due()[k]).id@ <= self.last_id() by {
                    let ids = released_ids(self.released@);
                    assert(ids[k] == self.released@[k].id@);
                    assert(ids == old_released + target.1);
                    if k < old_released.len() {
                        assert(old_released[k] == old(self).released@[k].id@);
                        assert(old(self).due()[k].id@ <= old(self).last_id());
                        assert((old_released + target.1)[k] == old_released[k]);
                    } else {
                        assert((old_released + target.1)[k] == target.1[k - old_released.len()]);
                        assert(has_id(orig, target.1[k - old_released.len()]));
                    }
                }
            }
        }
    }

    /// Sets a one-shot timer that comes due after `delay`; returns its new id.
    pub fn set_timeout(&mut self, callback: C, delay: Duration) -> (id: TimerId)
        requires
            old(self).last_id() < u64::MAX,
        ensures
            id@ == old(self).last_id() + 1,
            final(self).last_id() == id@,
            final(self).pending() == old(self).pending().push(
                Timer { id, callback, kind: TimerKind::Once, remaining: delay },
            ),
            final(self).due() == old(self).due(),
            old(self).wf() ==> final(self).wf(),
    {
        let id = self.next_id.take_next();
        self.timers.push(Timer { id, callback, kind: TimerKind::Once, remaining: delay });
        proof {
            if old(self).wf() {
                assert forall|k: int| 0 <= k < self.pending().len() implies (#[trigger] self.pending()[k]).id@ <= self.last_id() by {
                    if k < old(self).pending().len() {
                        assert(self.pending()[k] == old(self).pending()[k]);
                        assert(old(self).pending()[k].id@ <= old(self).last_id());
                    }
                }
                assert forall|k: int| 0 <= k < self.due().len() implies (#[trigger] self.due()[k]).id@ <= self.last_id() by {
                    assert(old(self).due()[k].id@ <= old(self).last_id());
                }
            }
        }
        id
    }

    /// Sets a timer that comes due every `delay`; returns its new id.
    pub fn set_interval(&mut self, callback: C, delay: Duration) -> (id: TimerId)
        requires
            old(self).last_id() < u64::MAX,
        ensures
            id@ == old(self).last_id() + 1,
            final(self).last_id() == id@,
            final(self).pending() == old(self).pending().push(
                Timer { id, callback, kind: TimerKind::Repeating { interval: delay }, remaining: delay },
            ),
            final(self).due() == old(self).due(),
            old(self).wf() ==> final(self).wf(),
    {
        let id = self.next_id.take_next();
        self.timers.push(Timer { id, callback, kind: TimerKind::Repeating { interval: delay }, remaining: delay });
        proof {
            if old(self).wf() {
                assert forall|k: int| 0 <= k < self.pending().len() implies (#[trigger] self.pending()[k]).id@ <= self.last_id() by {
                    if k < old(self).pending().len() {
                        assert(self.pending()[k] == old(self).pending()[k]);
                        assert(old(self).pending()[k].id@ <= old(self).last_id());
                    }
                }
                assert forall|k: int| 0 <= k < self.due().len() implies (#[trigger] self.due()[k]).id@ <= self.last_id() by {
                    assert(old(self).due()[k].id@ <= old(self).last_id());
                }
            }
        }
        id
    }

    /// Drops every pending and released timer with id `id`, keeping the order
    /// of the others.
    pub fn remove(&mut self, id: TimerId)
        ensures
            final(self).pending() == old(self).pending().filter(other_timer::<C>(id)),
            final(self).due() == old(self).due().filter(other_released::<C>(id)),
            final(self).last_id() == old(self).last_id(),
            old(self).wf() ==> final(self).wf(),
    {
        let ghost old_pending = self.timers@;
        let ghost old_due = self.released@;
        let mut taken: Vec<Timer<C>> = Vec::new();
        std::mem::swap(&mut taken, &mut self.timers);
        proof {
            assert(old_pending.take(0).filter(other_timer::<C>(id)) =~= Seq::<Timer<C>>::empty());
        }
        for t in it: taken.into_iter()
            invariant
                it.seq() == old_pending,
                self.released@ == old_due,
                self.next_id == old(self).next_id,
                self.timers@ == old_pending.take(it.index() as int).filter(other_timer::<C>(id)),
        {
            proof {
                reveal_with_fuel(Seq::<_>::filter, 1);
                assert(old_pending.take(it.index() + 1).drop_last() =~= old_pending.take(it.index() as int));
            }
            if t.id != id {
                self.timers.push(t);
            }
        }
        proof {
            assert(old_pending.take(old_pending.len() as int) =~= old_pending);
            assert(self.timers@ == old_pending.filter(other_timer::<C>(id)));
        }
        let mut kept: VecDeque<ReleasedTimer<C>> = VecDeque::new();
        let mut n: usize = self.released.len();
        let ghost start = self.released@;
        proof {
            assert(start.take(0).filter(other_released::<C>(id)) =~= Seq::<ReleasedTimer<C>>::empty());
            assert(start.skip(0) =~= start);
        }
        while n > 0
            invariant
                start == old_due,
                self.timers@ == old_pending.filter(other_timer::<C>(id)),
                self.next_id == old(self).next_id,
                n == self.released@.len(),
                n <= start.len(),
                self.released@ == start.skip(start.len() - n),
                kept@ == start.take(start.len() - n).filter(other_released::<C>(id)),
            decreases n,
        {
            let ghost k = start.len() - n;
            let r = self.released.pop_front();
            match r {
                Some(r) => {
                    proof {
                        reveal_with_fuel(Seq::<_>::filter, 1);
                        assert(start.take(k + 1).drop_last() =~= start.take(k));
                        assert(start[k] == r);
                        assert(self.released@ =~= start.skip(k + 1));
                    }
                    if r.id != id {
                        kept.push_back(r);
                    }
                },
                None => {
                    assert(false);
                },
            }
            n = n - 1;
        }
        proof {
            assert(start.take(start.len() as int) =~= start);
        }
        self.released = kept;
        proof {
            if old(self).wf() {
                assert forall|k: int| 0 <= k < self.pending().len() implies (#[trigger] self.pending()[k]).id@ <= self.last_id() by {
                    let t = self.pending()[k];
                    assert(old_pending.filter(other_timer::<C>(id))[k] == t);
                    assert(old_pending.filter(other_timer::<C>(id)).contains(t));
                    old_pending.lemma_filter_contains_rev(other_timer::<C>(id), t);
                    let j = choose|j: int| 0 <= j < old_pending.len() && old_pending[j] == t;
                    assert(old(self).pending()[j].id@ <= old(self).last_id());
                }
                assert forall|k: int| 0 <= k < self.due().len() implies (#[trigger] self.due()[k]).id@ <= self.last_id() by {
                    let t = self.due()[k];
                    assert(old_due.filter(other_released::<C>(id))[k] == t);
                    assert(old_due.filter(other_released::<C>(id)).contains(t));
                    old_due.lemma_filter_contains_rev(other_released::<C>(id), t);
                    let j = choose|j: int| 0 <= j < old_due.len() && old_due[j] == t;
                    assert(old(self).due()[j].id@ <= old(self).last_id());
                }
            }
        }
    }

    /// Drops every pending and released timer.
    pub fn clear(&mut self)
        ensures
            final(self).pending().len() == 0,
            final(self).due().len() == 0,
            final(self).last_id() == old(self).last_id(),
            final(self).wf(),
    {
        self.timers.clear();
        self.released.clear();
    }

    /// Takes the released timer at the front, if any.
    pub fn pop_one(&mut self) -> (r: Option<ReleasedTimer<C>>)
        ensures
            old(self).due().len() == 0 ==> r is None && final(self).due() == old(self).due(),
            old(self).due().len() > 0 ==> r == Some(old(self).due()[0]) && final(self).due()
                == old(self).due().drop_first(),
            final(self).pending() == old(self).pending(),
            final(self).last_id() == old(self).last_id(),
            old(self).wf() ==> final(self).wf(),
    {
        let r = self.released.pop_front();
        proof {
            if old(self).wf() {
                assert forall|k: int| 0 <= k < self.due().len() implies (#[trigger] self.due()[k]).id@ <= self.last_id() by {
                    assert(self.due()[k] == old(self).due()[k + 1]);
                    assert(old(self).due()[k + 1].id@ <= old(self).last_id());
                }
            }
        }
        r
    }
}

/// The id that `set_timeout` and `set_interval` hand out next is new: every
/// timer that is pending or waiting to run has a smaller id.
pub proof fn lemma_next_id_is_fresh<C: Clone>(t: Timers<C>)
    requires
        t.wf(),
    ensures
        forall|k: int| 0 <= k < t.pending().len() ==> (#[trigger] t.pending()[k]).id@ < t.last_id() + 1,
        forall|k: int| 0 <= k < t.due().len() ==> (#[trigger] t.due()[k]).id@ < t.last_id() + 1,
{
}

/// After `remove(id)`, no pending or released timer has that id, and every
/// other timer is still there.
pub proof fn lemma_remove_drops_exactly<C: Clone>(pending: Seq<Timer<C>>, due: Seq<ReleasedTimer<C>>, id: TimerId)
    ensures
        forall|k: int|
            0 <= k < pending.filter(other_timer::<C>(id)).len() ==> (#[trigger] pending.filter(
                other_timer::<C>(id),
            )[k]).id != id,
        forall|k: int|
            0 <= k < due.filter(other_released::<C>(id)).len() ==> (#[trigger] due.filter(
                other_released::<C>(id),
            )[k]).id != id,
        forall|t: Timer<C>| pending.contains(t) && t.id != id ==> pending.filter(other_timer::<C>(id)).contains(t),
        forall|r: ReleasedTimer<C>| due.contains(r) && r.id != id ==> due.filter(other_released::<C>(id)).contains(r),
{
    assert forall|k: int| 0 <= k < pending.filter(other_timer::<C>(id)).len() implies (#[trigger] pending.filter(
        other_timer::<C>(id),
    )[k]).id != id by {
        let t = pending.filter(other_timer::<C>(id))[k];
        assert(pending.filter(other_timer::<C>(id)).contains(t));
        pending.lemma_filter_contains_rev(other_timer::<C>(id), t);
    }
    assert forall|k: int| 0 <= k < due.filter(other_released::<C>(id)).len() implies (#[trigger] due.filter(
        other_released::<C>(id),
    )[k]).id != id by {
        let r = due.filter(other_released::<C>(id))[k];
        assert(due.filter(other_released::<C>(id)).contains(r));
        due.lemma_filter_contains_rev(other_released::<C>(id), r);
    }
    assert forall|t: Timer<C>| pending.contains(t) && t.id != id implies pending.filter(other_timer::<C>(id)).contains(t) by {
        let i = choose|i: int| 0 <= i < pending.len() && pending[i] == t;
        pending.lemma_filter_contains(other_timer::<C>(id), i);
    }
    assert forall|r: ReleasedTimer<C>| due.contains(r) && r.id != id implies due.filter(other_released::<C>(id)).contains(r) by {
        let i = choose|i: int| 0 <= i < due.len() && due[i] == r;
        due.lemma_filter_contains(other_released::<C>(id), i);
    }
}

} // verus!
