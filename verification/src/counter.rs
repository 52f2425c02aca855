//! The per-site visitor counter: a tally with a time-to-live per visitor.
//!
//! Every increment schedules exactly one future decrement, kept here as an
//! explicit deadline. The runtime drives time by passing the current clock
//! (in milliseconds) to each operation; decrements whose deadline has
//! passed are processed before the operation takes effect, exactly as a
//! mailbox would have delivered them first.

use vstd::prelude::*;

use crate::defense::Defense;
use crate::defense::Level;
use crate::defense::defense_wf;
use crate::defense::spec_difficulty;

verus! {

/// What an increment returns: the difficulty factor for the puzzle to
/// issue, and the TTL (seconds) with which the challenge cache should hold
/// it.
#[derive(Clone, Copy, PartialEq, Eq, Structural, Debug)]
pub struct AddVisitorResult {
    pub difficulty_factor: u32,
    pub duration: u64,
}

/// The mathematical state of a counter.
pub struct CounterV {
    pub defense: Seq<Level>,
    pub duration: u64,
    pub visitor_lifetime: u64,
    pub pending: Seq<u64>,
    pub stopped: bool,
}

/// The deadlines among `pending` that are still in the future at `now`:
/// one per visitor currently counted.
pub open spec fn live_deadlines(pending: Seq<u64>, now: u64) -> Seq<u64> {
    pending.filter(|d: u64| now < d)
}

/// Counter transition: process every decrement due by `now`.
pub open spec fn counter_sweep(c: CounterV, now: u64) -> CounterV {
    CounterV { pending: live_deadlines(c.pending, now), ..c }
}

/// Counter transition: process due decrements, then count one visitor in,
/// scheduling its decrement after the configured lifetime.
pub open spec fn counter_add(c: CounterV, now: u64) -> CounterV {
    CounterV {
        pending: live_deadlines(c.pending, now).push((now + c.visitor_lifetime) as u64),
        ..c
    }
}

/// Counter transition: stop, cancelling every pending decrement.
pub open spec fn counter_stop(c: CounterV) -> CounterV {
    CounterV { pending: Seq::empty(), stopped: true, ..c }
}

/// A filtered deadline list is no longer than the original.
pub proof fn lemma_live_len(pending: Seq<u64>, now: u64)
    ensures
        live_deadlines(pending, now).len() <= pending.len(),
    decreases pending.len(),
{
    if pending.len() > 0 {
        lemma_live_len(pending.drop_last(), now);
    }
}

/// A bound on every deadline carries over to the live ones.
pub proof fn lemma_live_bound(pending: Seq<u64>, now: u64, b: u64)
    requires
        forall|i: int| 0 <= i < pending.len() ==> #[trigger] pending[i] <= b,
    ensures
        forall|j: int|
            0 <= j < live_deadlines(pending, now).len()
                ==> #[trigger] live_deadlines(pending, now)[j] <= b,
    decreases pending.len(),
{
    reveal(Seq::filter);
    if pending.len() > 0 {
        assert forall|i: int|
            0 <= i < pending.drop_last().len() implies #[trigger] pending.drop_last()[i]
            <= b by {
            assert(pending.drop_last()[i] == pending[i]);
        }
        lemma_live_bound(pending.drop_last(), now, b);
        assert(pending.last() <= b);
        let dl = live_deadlines(pending.drop_last(), now);
        let l = live_deadlines(pending, now);
        assert forall|j: int| 0 <= j < l.len() implies #[trigger] l[j] <= b by {
            if now < pending.last() {
                assert(l == dl.push(pending.last()));
                if j < l.len() - 1 {
                    assert(l[j] == dl[j]);
                } else {
                    assert(l[j] == pending.last());
                }
            } else {
                assert(l == dl);
            }
        }
    }
}

/// No deadline bounded by `now` survives a sweep at `now`.
pub proof fn lemma_live_none(pending: Seq<u64>, now: u64)
    requires
        forall|i: int| 0 <= i < pending.len() ==> #[trigger] pending[i] <= now,
    ensures
        live_deadlines(pending, now).len() == 0,
    decreases pending.len(),
{
    reveal(Seq::filter);
    if pending.len() > 0 {
        assert forall|i: int|
            0 <= i < pending.drop_last().len() implies #[trigger] pending.drop_last()[i]
            <= now by {
            assert(pending.drop_last()[i] == pending[i]);
        }
        lemma_live_none(pending.drop_last(), now);
    }
}

/// The fold of one increment per entry of `times` over a counter state.
pub open spec fn apply_adds(c: CounterV, times: Seq<u64>) -> CounterV
    decreases times.len(),
{
    if times.len() == 0 {
        c
    } else {
        counter_add(apply_adds(c, times.drop_last()), times.last())
    }
}

/// A run of increments, all by time `last`, leaves only deadlines bounded
/// by `last + lifetime`, and never changes the configuration.
pub proof fn lemma_apply_adds_bound(c: CounterV, times: Seq<u64>, last: u64)
    requires
        c.pending.len() == 0,
        forall|i: int| 0 <= i < times.len() ==> #[trigger] times[i] <= last,
        last + c.visitor_lifetime <= u64::MAX,
    ensures
        apply_adds(c, times).visitor_lifetime == c.visitor_lifetime,
        forall|j: int|
            0 <= j < apply_adds(c, times).pending.len()
                ==> #[trigger] apply_adds(c, times).pending[j] <= last + c.visitor_lifetime,
    decreases times.len(),
{
    if times.len() > 0 {
        assert forall|i: int|
            0 <= i < times.drop_last().len() implies #[trigger] times.drop_last()[i] <= last by {
            assert(times.drop_last()[i] == times[i]);
        }
        lemma_apply_adds_bound(c, times.drop_last(), last);
        let prev = apply_adds(c, times.drop_last());
        let t = times.last();
        let b = (last + c.visitor_lifetime) as u64;
        lemma_live_bound(prev.pending, t, b);
        assert(t + prev.visitor_lifetime <= b);
    }
}

/// Counter conservation: starting from an idle counter, after any run of
/// increments all performed by time `last` and no stop, processing the
/// decrements due at `last + lifetime` returns the visitor count to zero.
pub proof fn lemma_counter_conservation(c: CounterV, times: Seq<u64>, last: u64)
    requires
        c.pending.len() == 0,
        forall|i: int| 0 <= i < times.len() ==> #[trigger] times[i] <= last,
        last + c.visitor_lifetime <= u64::MAX,
    ensures
        counter_sweep(
            apply_adds(c, times),
            (last + c.visitor_lifetime) as u64,
        ).pending.len() == 0,
{
    lemma_apply_adds_bound(c, times, last);
    lemma_live_none(apply_adds(c, times).pending, (last + c.visitor_lifetime) as u64);
}

/// The per-site visitor tally with TTL auto-decrement.
#[derive(Debug)]
pub struct Counter {
    pub defense: Defense,
    /// TTL for puzzles issued against this site, in seconds.
    pub duration: u64,
    /// Delay before a counted visitor is counted back out, in milliseconds.
    pub visitor_lifetime: u64,
    /// Deadlines (milliseconds) of the scheduled decrements, one per
    /// counted visitor.
    pub pending: Vec<u64>,
    pub stopped: bool,
}

impl View for Counter {
    type V = CounterV;

    open spec fn view(&self) -> CounterV {
        CounterV {
            defense: self.defense@,
            duration: self.duration,
            visitor_lifetime: self.visitor_lifetime,
            pending: self.pending@,
            stopped: self.stopped,
        }
    }
}

impl Clone for Counter {
    fn clone(&self) -> (res: Self)
        ensures
            res@ == self@,
    {
        let defense = self.defense.clone();
        let mut pending: Vec<u64> = Vec::new();
        let mut i: usize = 0;
        while i < self.pending.len()
            invariant
                i <= self.pending@.len(),
                pending@ == self.pending@.subrange(0, i as int),
            decreases self.pending@.len() - i,
        {
            pending.push(self.pending[i]);
            proof {
                assert(pending@ =~= self.pending@.subrange(0, i + 1));
            }
            i += 1;
        }
        proof {
            assert(pending@ =~= self.pending@);
        }
        Counter {
            defense,
            duration: self.duration,
            visitor_lifetime: self.visitor_lifetime,
            pending,
            stopped: self.stopped,
        }
    }
}

impl Counter {
    pub open spec fn wf(&self) -> bool {
        defense_wf(self@.defense) && self@.pending.len() <= u32::MAX
    }

    /// A fresh counter: no visitors counted, not stopped.
    pub fn new(defense: Defense, duration: u64, visitor_lifetime: u64) -> (c: Counter)
        requires
            defense.wf(),
        ensures
            c.wf(),
            c@.defense == defense@,
            c@.duration == duration,
            c@.visitor_lifetime == visitor_lifetime,
            c@.pending == Seq::<u64>::empty(),
            !c@.stopped,
    {
        Counter { defense, duration, visitor_lifetime, pending: Vec::new(), stopped: false }
    }

    /// Processes every scheduled decrement whose deadline has passed. Each
    /// decrement retires exactly one pending deadline, so the count never
    /// goes below zero.
    pub fn decrement_due(&mut self, now: u64)
        ensures
            final(self)@ == counter_sweep(old(self)@, now),
    {
        let mut kept: Vec<u64> = Vec::new();
        let mut i: usize = 0;
        proof {
            reveal(Seq::filter);
            assert(kept@ =~= self.pending@.subrange(0, 0).filter(|d: u64| now < d));
        }
        while i < self.pending.len()
            invariant
                i <= self.pending@.len(),
                self@ == old(self)@,
                kept@ == live_deadlines(self.pending@.subrange(0, i as int), now),
            decreases self.pending@.len() - i,
        {
            let d = self.pending[i];
            proof {
                reveal(Seq::filter);
                assert(self.pending@.subrange(0, i + 1).drop_last()
                    =~= self.pending@.subrange(0, i as int));
                assert(self.pending@.subrange(0, i + 1).last() == d);
            }
            if now < d {
                kept.push(d);
            }
            i += 1;
        }
        proof {
            assert(self.pending@.subrange(0, self.pending@.len() as int) =~= self.pending@);
        }
        self.pending = kept;
    }

    /// Counts a visitor in: processes due decrements, increments the tally,
    /// schedules the paired decrement after the configured lifetime, and
    /// returns the difficulty computed from the count immediately after the
    /// increment, together with the puzzle TTL.
    pub fn add_visitor(&mut self, now: u64) -> (r: AddVisitorResult)
        requires
            old(self).wf(),
            !old(self)@.stopped,
            old(self)@.pending.len() < u32::MAX,
            now + old(self)@.visitor_lifetime <= u64::MAX,
        ensures
            final(self).wf(),
            final(self)@ == counter_add(old(self)@, now),
            r.difficulty_factor == spec_difficulty(
                old(self)@.defense,
                final(self)@.pending.len() as u32,
            ),
            r.duration == old(self)@.duration,
    {
        self.decrement_due(now);
        proof {
            lemma_live_len(old(self).pending@, now);
        }
        let deadline = now + self.visitor_lifetime;
        self.pending.push(deadline);
        let count = self.pending.len() as u32;
        let difficulty_factor = self.defense.difficulty(count);
        AddVisitorResult { difficulty_factor, duration: self.duration }
    }

    /// Processes due decrements, then reports the current visitor count.
    pub fn get_current_visitor_count(&mut self, now: u64) -> (count: u32)
        requires
            old(self).wf(),
        ensures
            final(self).wf(),
            final(self)@ == counter_sweep(old(self)@, now),
            count == final(self)@.pending.len(),
    {
        self.decrement_due(now);
        proof {
            lemma_live_len(old(self).pending@, now);
        }
        self.pending.len() as u32
    }

    /// Stops the counter: cancels every pending decrement and marks it
    /// terminal.
    pub fn stop(&mut self)
        ensures
            final(self)@ == counter_stop(old(self)@),
    {
        self.pending = Vec::new();
        self.stopped = true;
    }
}

} // verus!
