//! The simulated clock and the timer it drives.

use vstd::prelude::*;
use crate::time::{Duration, Instant};
use crate::timer::{Timer, all_due, none_due, payloads};

verus! {

/// Seconds in a (non-leap) year.
pub const SECS_PER_YEAR: u64 = 31_536_000;
/// Years from 1970 to the simulated epoch, 2022.
pub const YEARS_TO_2022: u64 = 52;
/// The step added to a timer deadline when time jumps to it, 50 ns, so that
/// the clock reads at or after the deadline.
pub const DEADLINE_EPSILON_NANOS: u64 = 50;

/// The wall-clock time, in nanoseconds since the Unix epoch, at which a
/// simulation starts, given a draw of seconds within the first year after 2022.
pub open spec fn spec_base_time_nanos(draw_secs: u64) -> int {
    (SECS_PER_YEAR * YEARS_TO_2022 + draw_secs) * 1_000_000_000
}

/// Error returned by a timeout whose time ran out first.
#[derive(Clone, Copy, Debug, PartialEq, Eq, Structural)]
pub struct Elapsed;

/// A future's deadline: it completes once the clock reaches `deadline`.
#[derive(Clone, Copy, Debug, PartialEq, Eq, Structural)]
pub struct Sleep {
    pub deadline: Instant,
}

impl Sleep {
    /// Returns the instant at which the sleep completes.
    pub fn deadline(&self) -> (t: Instant)
        ensures
            t == self.deadline,
    {
        self.deadline
    }

    /// Returns `true` if the clock reading `now` has reached the deadline.
    pub fn is_elapsed(&self, now: Instant) -> (b: bool)
        ensures
            b == (now.nanos >= self.deadline.nanos),
    {
        now.nanos >= self.deadline.nanos
    }

    /// Resets the sleep to a new deadline.
    pub fn reset(&mut self, deadline: Instant)
        ensures
            final(self).deadline == deadline,
    {
        self.deadline = deadline;
    }
}

/// Waits until `deadline` is reached.
pub fn sleep_until(deadline: Instant) -> (s: Sleep)
    ensures
        s.deadline == deadline,
{
    Sleep { deadline }
}

/// The outcome of polling a timeout: the guarded future is polled first
/// (`future_ready`), then the timer (`timer_elapsed`); `None` while neither
/// has completed.
pub fn timeout_outcome(future_ready: bool, timer_elapsed: bool) -> (r: Option<Result<(), Elapsed>>)
    ensures
        r == (if future_ready {
            Some(Ok::<(), Elapsed>(()))
        } else if timer_elapsed {
            Some(Err::<(), Elapsed>(Elapsed))
        } else {
            None::<Result<(), Elapsed>>
        }),
{
    if future_ready {
        Some(Ok(()))
    } else if timer_elapsed {
        Some(Err(Elapsed))
    } else {
        None
    }
}

/// The simulated time source: a wall-clock base, the time elapsed since the
/// start, and the timer of pending events.
pub struct TimeRuntime<T> {
    /// Wall-clock time at the start, in nanoseconds since the Unix epoch.
    base_time_nanos: u64,
    /// The simulated time elapsed since the start.
    advance: Duration,
    timer: Timer<T>,
}

impl<T> TimeRuntime<T> {
    /// The wall-clock time at the start, in nanoseconds since the Unix epoch.
    pub closed spec fn base_time(&self) -> int {
        self.base_time_nanos as int
    }

    /// The time elapsed since the start, in nanoseconds.
    pub closed spec fn elapsed_nanos(&self) -> int {
        self.advance.nanos as int
    }

    /// The pending timer events.
    pub closed spec fn events(&self) -> Seq<(Instant, T)> {
        self.timer@
    }

    /// The latest deadline a timer can be given: the wall clock must still
    /// be representable once time has jumped just past it.
    pub open spec fn max_deadline(&self) -> int {
        u64::MAX - self.base_time() - DEADLINE_EPSILON_NANOS
    }

    /// The invariant: the timer is ordered, every deadline is at most
    /// [`Self::max_deadline`], and the wall clock stays representable.
    pub closed spec fn wf(&self) -> bool {
        &&& self.timer.wf()
        &&& forall|i: int| 0 <= i < self.timer@.len() ==> self.timer@[i].0.nanos <= self.max_deadline()
        &&& self.base_time_nanos + self.advance.nanos <= u64::MAX
        &&& self.base_time_nanos + DEADLINE_EPSILON_NANOS <= u64::MAX
    }

    /// A time source whose wall clock starts `draw_secs` seconds into 2022.
    pub fn new(draw_secs: u64) -> (rt: TimeRuntime<T>)
        requires
            draw_secs < SECS_PER_YEAR,
        ensures
            rt.wf(),
            rt.base_time() == spec_base_time_nanos(draw_secs),
            rt.elapsed_nanos() == 0,
            rt.events() == Seq::<(Instant, T)>::empty(),
    {
        let secs = SECS_PER_YEAR * YEARS_TO_2022 + draw_secs;
        TimeRuntime {
            base_time_nanos: secs * 1_000_000_000,
            advance: Duration { nanos: 0 },
            timer: Timer::new(),
        }
    }

    /// The current simulated instant.
    pub fn now_instant(&self) -> (t: Instant)
        ensures
            t.nanos == self.elapsed_nanos(),
    {
        Instant { nanos: self.advance.nanos }
    }

    /// The current simulated wall-clock time, in nanoseconds since the Unix epoch.
    pub fn now_time_nanos(&self) -> (t: u64)
        requires
            self.wf(),
        ensures
            t == self.base_time() + self.elapsed_nanos(),
    {
        self.base_time_nanos + self.advance.nanos
    }

    /// The latest deadline a timer can be given, in nanoseconds since the start.
    pub fn max_deadline_nanos(&self) -> (m: u64)
        requires
            self.wf(),
        ensures
            m == self.max_deadline(),
    {
        u64::MAX - self.base_time_nanos - DEADLINE_EPSILON_NANOS
    }

    /// The number of pending timer events.
    pub fn pending(&self) -> (n: usize)
        ensures
            n == self.events().len(),
    {
        self.timer.len()
    }

    /// The time elapsed since the start.
    pub fn elapsed(&self) -> (d: Duration)
        ensures
            d.nanos == self.elapsed_nanos(),
    {
        self.advance
    }

    /// Advances the clock by `duration`, without firing timers.
    pub fn advance(&mut self, duration: Duration)
        requires
            old(self).wf(),
            old(self).base_time() + old(self).elapsed_nanos() + duration.nanos <= u64::MAX,
        ensures
            final(self).wf(),
            final(self).elapsed_nanos() == old(self).elapsed_nanos() + duration.nanos,
            final(self).base_time() == old(self).base_time(),
            final(self).events() == old(self).events(),
    {
        self.advance = Duration { nanos: self.advance.nanos + duration.nanos };
    }

    /// Schedules `event` at `deadline`.
    pub fn add_timer(&mut self, deadline: Instant, event: T)
        requires
            old(self).wf(),
            deadline.nanos <= old(self).max_deadline(),
        ensures
            final(self).wf(),
            final(self).elapsed_nanos() == old(self).elapsed_nanos(),
            final(self).base_time() == old(self).base_time(),
            exists|p: int| {
                &&& 0 <= p <= old(self).events().len()
                &&& all_due(old(self).events().take(p), deadline)
                &&& none_due(old(self).events().skip(p), deadline)
                &&& final(self).events() == old(self).events().take(p).push((deadline, event)) + old(self).events().skip(p)
            },
    {
        let ghost before = self.timer@;
        self.timer.push(deadline, event);
        proof {
            let p = choose|p: int| {
                &&& 0 <= p <= before.len()
                &&& all_due(before.take(p), deadline)
                &&& none_due(before.skip(p), deadline)
                &&& self.timer@ == before.take(p).push((deadline, event)) + before.skip(p)
            };
            assert forall|i: int| 0 <= i < self.timer@.len() implies self.timer@[i].0.nanos <= self.max_deadline() by {
                if i < p {
                    assert(self.timer@[i] == before[i]);
                } else if i > p {
                    assert(self.timer@[i] == before[i - 1]);
                }
            }
            assert(before == old(self).events());
            assert(self.events() == before.take(p).push((deadline, event)) + before.skip(p));
        }
    }

    /// Waits until `duration` has elapsed from now.
    pub fn sleep(&self, duration: Duration) -> (s: Sleep)
        requires
            self.elapsed_nanos() + duration.nanos <= u64::MAX,
        ensures
            s.deadline.nanos == self.elapsed_nanos() + duration.nanos,
    {
        Sleep { deadline: Instant { nanos: self.advance.nanos + duration.nanos } }
    }

    /// Whether the elapsed time is still under the time limit, if any.
    pub fn within_time_limit(&self, limit: Option<Duration>) -> (b: bool)
        ensures
            b == match limit {
                Some(l) => self.elapsed_nanos() < l.nanos,
                None => true,
            },
    {
        match limit {
            Some(l) => self.advance.nanos < l.nanos,
            None => true,
        }
    }

    /// Advances time to the closest timer event, plus [`DEADLINE_EPSILON_NANOS`],
    /// and fires every event due by then. `None` if no event is pending.
    pub fn advance_to_next_event(&mut self) -> (r: Option<Vec<T>>)
        requires
            old(self).wf(),
        ensures
            final(self).wf(),
            final(self).base_time() == old(self).base_time(),
            old(self).events().len() == 0 ==> r is None && *final(self) == *old(self),
            old(self).events().len() > 0 ==> {
                let time = old(self).events()[0].0.nanos + DEADLINE_EPSILON_NANOS;
                &&& final(self).elapsed_nanos() == time
                &&& exists|p: int| {
                    &&& 1 <= p <= old(self).events().len()
                    &&& all_due(old(self).events().take(p), Instant { nanos: time as u64 })
                    &&& none_due(old(self).events().skip(p), Instant { nanos: time as u64 })
                    &&& r is Some && r->0@ == payloads(old(self).events().take(p))
                    &&& final(self).events() == old(self).events().skip(p)
                }
            },
    {
        match self.timer.next_time() {
            Some(next) => {
                let time = Instant { nanos: next.nanos + DEADLINE_EPSILON_NANOS };
                let ghost before = self.timer@;
                let fired = self.timer.fire(time);
                self.advance = Duration { nanos: time.nanos };
                proof {
                    let p = choose|p: int| {
                        &&& 0 <= p <= before.len()
                        &&& all_due(before.take(p), time)
                        &&& none_due(before.skip(p), time)
                        &&& fired@ == payloads(before.take(p))
                        &&& self.timer@ == before.skip(p)
                    };
                    if p == 0 {
                        assert(before.skip(0)[0] == before[0]);
                    }
                    assert forall|i: int| 0 <= i < self.timer@.len() implies self.timer@[i].0.nanos <= self.max_deadline() by {
                        assert(self.timer@[i] == before[i + p]);
                    }
                }
                Some(fired)
            },
            None => None,
        }
    }
}

} // verus!
