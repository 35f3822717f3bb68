//! A queue of timer events ordered by deadline.

use vstd::prelude::*;
use crate::time::Instant;

verus! {

/// Whether the deadlines of `s` never decrease.
pub open spec fn deadlines_sorted<T>(s: Seq<(Instant, T)>) -> bool {
    forall|i: int, j: int| 0 <= i <= j < s.len() ==> s[i].0.nanos <= s[j].0.nanos
}

/// Every event of `s` is due by `time`.
pub open spec fn all_due<T>(s: Seq<(Instant, T)>, time: Instant) -> bool {
    forall|i: int| 0 <= i < s.len() ==> s[i].0.nanos <= time.nanos
}

/// No event of `s` is due by `time`.
pub open spec fn none_due<T>(s: Seq<(Instant, T)>, time: Instant) -> bool {
    forall|i: int| 0 <= i < s.len() ==> s[i].0.nanos > time.nanos
}

/// The events of `s`, without their deadlines.
pub open spec fn payloads<T>(s: Seq<(Instant, T)>) -> Seq<T> {
    s.map_values(|e: (Instant, T)| e.1)
}

/// A timer: events, each with a deadline, kept in order of deadline; events
/// with equal deadlines stay in the order in which they were pushed.
pub struct Timer<T> {
    events: Vec<(Instant, T)>,
}

impl<T> View for Timer<T> {
    type V = Seq<(Instant, T)>;

    closed spec fn view(&self) -> Seq<(Instant, T)> {
        self.events@
    }
}

impl<T> Timer<T> {
    /// The well-formedness of a timer: its events are sorted by deadline.
    pub open spec fn wf(&self) -> bool {
        deadlines_sorted(self@)
    }

    /// An empty timer.
    pub fn new() -> (t: Timer<T>)
        ensures
            t.wf(),
            t@ == Seq::<(Instant, T)>::empty(),
    {
        Timer { events: Vec::new() }
    }

    /// The number of pending events.
    pub fn len(&self) -> (n: usize)
        ensures
            n == self@.len(),
    {
        self.events.len()
    }

    /// Adds an event due at `deadline`, after every pending event due no later.
    pub fn push(&mut self, deadline: Instant, event: T)
        requires
            old(self).wf(),
        ensures
            final(self).wf(),
            exists|p: int| {
                &&& 0 <= p <= old(self)@.len()
                &&& all_due(old(self)@.take(p), deadline)
                &&& none_due(old(self)@.skip(p), deadline)
                &&& final(self)@ == old(self)@.take(p).push((deadline, event)) + old(self)@.skip(p)
            },
    {
        let n = self.events.len();
        let mut p: usize = 0;
        while p < n && self.events[p].0.nanos <= deadline.nanos
            invariant
                n == self.events.len(),
                p <= n,
                self.wf(),
                forall|i: int| 0 <= i < p ==> self@[i].0.nanos <= deadline.nanos,
            decreases n - p,
        {
            p = p + 1;
        }
        let ghost old_events = self@;
        self.events.insert(p, (deadline, event));
        proof {
            assert(all_due(old_events.take(p as int), deadline));
            assert(none_due(old_events.skip(p as int), deadline)) by {
                if p < n {
                    assert(old_events[p as int].0.nanos > deadline.nanos);
                }
            }
            assert(self@ == old_events.take(p as int).push((deadline, event)) + old_events.skip(p as int));
        }
    }

    /// The deadline of the earliest pending event.
    pub fn next_time(&self) -> (t: Option<Instant>)
        ensures
            t == (if self@.len() > 0 { Some(self@[0].0) } else { None::<Instant> }),
    {
        if self.events.len() > 0 {
            Some(self.events[0].0)
        } else {
            None
        }
    }

    /// Removes every event due at or before `time` and hands them out in
    /// order of deadline.
    pub fn fire(&mut self, time: Instant) -> (fired: Vec<T>)
        requires
            old(self).wf(),
        ensures
            final(self).wf(),
            exists|p: int| {
                &&& 0 <= p <= old(self)@.len()
                &&& all_due(old(self)@.take(p), time)
                &&& none_due(old(self)@.skip(p), time)
                &&& fired@ == payloads(old(self)@.take(p))
                &&& final(self)@ == old(self)@.skip(p)
            },
    {
        let ghost old_events = self@;
        let mut fired: Vec<T> = Vec::new();
        let ghost mut p: int = 0;
        while self.events.len() > 0 && self.events[0].0.nanos <= time.nanos
            invariant
                0 <= p <= old_events.len(),
                self@ == old_events.skip(p),
                fired@ == payloads(old_events.take(p)),
                all_due(old_events.take(p), time),
                deadlines_sorted(old_events),
            decreases self.events.len(),
        {
            let (deadline, event) = self.events.remove(0);
            fired.push(event);
            proof {
                assert(old_events.take(p + 1) == old_events.take(p).push(old_events[p]));
                assert(old_events.skip(p + 1) == old_events.skip(p).skip(1));
                p = p + 1;
            }
        }
        proof {
            if self.events.len() > 0 {
                assert(none_due(old_events.skip(p), time)) by {
                    assert forall|i: int| 0 <= i < old_events.skip(p).len() implies old_events.skip(p)[i].0.nanos > time.nanos by {
                        assert(old_events[p].0.nanos <= old_events[p + i].0.nanos);
                    }
                }
            }
        }
        fired
    }
}

/// Firing hands out exactly the events that were due and keeps the rest:
/// what came out followed by what stays is what was queued.
pub proof fn fire_partitions_queue<T>(before: Seq<(Instant, T)>, fired: Seq<T>, after: Seq<(Instant, T)>, time: Instant, p: int)
    requires
        0 <= p <= before.len(),
        fired == payloads(before.take(p)),
        after == before.skip(p),
    ensures
        fired.len() + after.len() == before.len(),
        payloads(before) == fired + payloads(after),
{
    assert(before == before.take(p) + before.skip(p));
    assert(payloads(before) =~= payloads(before.take(p)) + payloads(before.skip(p)));
}

} // verus!
