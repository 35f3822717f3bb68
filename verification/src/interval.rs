//! Periodic ticks and what happens when a tick is missed.

use vstd::prelude::*;
use crate::time::{Duration, Instant};

verus! {

/// Slack after a scheduled tick before it counts as missed: 5 ms.
pub const MISSED_TICK_SLACK_NANOS: u64 = 5_000_000;

/// Defines the behavior of an [`Interval`] when it misses a tick.
#[derive(Clone, Copy, Debug, PartialEq, Eq, Structural)]
pub enum MissedTickBehavior {
    /// Ticks as fast as possible until caught up.
    Burst,
    /// Tick at multiples of `period` from when the tick was observed, rather than from `start`.
    Delay,
    /// Skips missed ticks and tick on the next multiple of `period` from `start`.
    Skip,
}

/// What `next_timeout` is defined on: the arithmetic of each behaviour stays in range.
pub open spec fn next_timeout_defined(b: MissedTickBehavior, timeout: Instant, now: Instant, period: Duration) -> bool {
    &&& period.nanos > 0
    &&& match b {
        MissedTickBehavior::Burst => timeout.nanos + period.nanos <= u64::MAX,
        MissedTickBehavior::Delay => now.nanos + period.nanos <= u64::MAX,
        MissedTickBehavior::Skip => timeout.nanos <= now.nanos && now.nanos + period.nanos <= u64::MAX,
    }
}

/// The deadline of the next tick after a missed one at `timeout`, observed at `now`.
pub open spec fn spec_next_timeout(b: MissedTickBehavior, timeout: Instant, now: Instant, period: Duration) -> int {
    match b {
        MissedTickBehavior::Burst => timeout.nanos + period.nanos,
        MissedTickBehavior::Delay => now.nanos + period.nanos,
        MissedTickBehavior::Skip => now.nanos + period.nanos - ((now.nanos - timeout.nanos) % (period.nanos as int)),
    }
}

impl MissedTickBehavior {
    /// If a tick is missed, this method is called to determine when the next tick should happen.
    pub fn next_timeout(&self, timeout: Instant, now: Instant, period: Duration) -> (t: Instant)
        requires
            next_timeout_defined(*self, timeout, now, period),
        ensures
            t.nanos == spec_next_timeout(*self, timeout, now, period),
    {
        match self {
            MissedTickBehavior::Burst => Instant { nanos: timeout.nanos + period.nanos },
            MissedTickBehavior::Delay => Instant { nanos: now.nanos + period.nanos },
            MissedTickBehavior::Skip => {
                let rem = (now.nanos - timeout.nanos) % period.nanos;
                Instant { nanos: now.nanos + period.nanos - rem }
            },
        }
    }

    /// The default behaviour: [`MissedTickBehavior::Burst`].
    pub fn default() -> (b: MissedTickBehavior)
        ensures
            b == MissedTickBehavior::Burst,
    {
        MissedTickBehavior::Burst
    }
}

/// Skipping keeps the ticks on the grid that starts at the missed tick: the
/// next tick lies one whole number of periods after it, strictly after `now`
/// and no later than one period after `now`.
pub proof fn skip_stays_on_grid(timeout: Instant, now: Instant, period: Duration)
    requires
        next_timeout_defined(MissedTickBehavior::Skip, timeout, now, period),
    ensures
        now.nanos < spec_next_timeout(MissedTickBehavior::Skip, timeout, now, period) <= now.nanos + period.nanos,
        (spec_next_timeout(MissedTickBehavior::Skip, timeout, now, period) - timeout.nanos) % (period.nanos as int) == 0,
{
    let p = period.nanos as int;
    let k = now.nanos - timeout.nanos;
    vstd::arithmetic::div_mod::lemma_fundamental_div_mod(k, p);
    vstd::arithmetic::div_mod::lemma_mod_bound(k, p);
    let q = k / p;
    assert(spec_next_timeout(MissedTickBehavior::Skip, timeout, now, period) - timeout.nanos == (q + 1) * p) by (nonlinear_arith)
        requires
            k == p * q + k % p,
            spec_next_timeout(MissedTickBehavior::Skip, timeout, now, period) == now.nanos + p - k % p,
            k == now.nanos - timeout.nanos,
    ;
    vstd::arithmetic::div_mod::lemma_mod_multiples_basic(q + 1, p);
}

/// The deadline of the tick after the one scheduled at `timeout`, observed at `now`.
pub open spec fn spec_next_tick(b: MissedTickBehavior, timeout: Instant, now: Instant, period: Duration) -> int {
    if now.nanos > timeout.nanos + MISSED_TICK_SLACK_NANOS {
        spec_next_timeout(b, timeout, now, period)
    } else {
        timeout.nanos + period.nanos
    }
}

/// A tick observed within the slack keeps the ticks on the grid: the next
/// deadline is one period after the one reached, however late within the
/// slack it was observed, and whatever the missed-tick behaviour.
pub proof fn on_time_tick_stays_on_grid(b: MissedTickBehavior, timeout: Instant, now: Instant, period: Duration)
    requires
        timeout.nanos <= now.nanos <= timeout.nanos + MISSED_TICK_SLACK_NANOS,
    ensures
        spec_next_tick(b, timeout, now, period) == timeout.nanos + period.nanos,
{
}

/// With the default behaviour, ticks burst to catch up: the next deadline is
/// always one period after the one reached, however late it was observed.
pub proof fn burst_never_skips(timeout: Instant, now: Instant, period: Duration)
    ensures
        spec_next_tick(MissedTickBehavior::Burst, timeout, now, period) == timeout.nanos + period.nanos,
{
}

/// A delayed interval restarts from when a missed tick was observed: the
/// next deadline is one period after that moment.
pub proof fn delay_restarts_from_observation(timeout: Instant, now: Instant, period: Duration)
    requires
        now.nanos > timeout.nanos + MISSED_TICK_SLACK_NANOS,
    ensures
        spec_next_tick(MissedTickBehavior::Delay, timeout, now, period) == now.nanos + period.nanos,
{
}

/// Whatever the behaviour, the next deadline comes after the one reached
/// and after the moment the tick was observed, and no later than one period
/// after whichever of the two is later.
pub proof fn next_tick_is_ahead(b: MissedTickBehavior, timeout: Instant, now: Instant, period: Duration)
    requires
        period.nanos > 0,
        timeout.nanos <= now.nanos,
        now.nanos + period.nanos <= u64::MAX,
    ensures
        spec_next_tick(b, timeout, now, period) > timeout.nanos,
        now.nanos > timeout.nanos + MISSED_TICK_SLACK_NANOS ==> spec_next_tick(b, timeout, now, period) > now.nanos
            || b == MissedTickBehavior::Burst,
        spec_next_tick(b, timeout, now, period) <= (if now.nanos > timeout.nanos { now.nanos } else { timeout.nanos }) + period.nanos,
{
    if now.nanos > timeout.nanos + MISSED_TICK_SLACK_NANOS && b == MissedTickBehavior::Skip {
        skip_stays_on_grid(timeout, now, period);
    }
}

/// What the tick computation is defined on.
pub open spec fn next_tick_defined(b: MissedTickBehavior, timeout: Instant, now: Instant, period: Duration) -> bool {
    &&& period.nanos > 0
    &&& timeout.nanos + MISSED_TICK_SLACK_NANOS <= u64::MAX
    &&& timeout.nanos + period.nanos <= u64::MAX
    &&& now.nanos + period.nanos <= u64::MAX
}

/// Interval that yields every `period`.
#[derive(Clone, Copy, Debug)]
pub struct Interval {
    /// The deadline of the next tick.
    pub deadline: Instant,
    /// The duration between ticks.
    pub period: Duration,
    /// The strategy used when a tick is missed.
    pub missed_tick_behavior: MissedTickBehavior,
}

/// Creates an [`Interval`] whose first tick completes at `start`. The period
/// must not be zero.
pub fn interval_at(start: Instant, period: Duration) -> (i: Interval)
    requires
        period.nanos > 0,
    ensures
        i.deadline == start,
        i.period == period,
        i.missed_tick_behavior == MissedTickBehavior::Burst,
{
    Interval { deadline: start, period, missed_tick_behavior: MissedTickBehavior::Burst }
}

/// Creates an [`Interval`] whose first tick completes at `now`, the current time.
pub fn interval(now: Instant, period: Duration) -> (i: Interval)
    requires
        period.nanos > 0,
    ensures
        i.deadline == now,
        i.period == period,
        i.missed_tick_behavior == MissedTickBehavior::Burst,
{
    interval_at(now, period)
}

impl Interval {
    /// Polls for the next tick at the current time `now`: `None` while the
    /// deadline has not been reached; otherwise the deadline that was reached,
    /// and the next deadline is scheduled.
    pub fn poll_tick(&mut self, now: Instant) -> (r: Option<Instant>)
        requires
            old(self).period.nanos > 0,
            next_tick_defined(old(self).missed_tick_behavior, old(self).deadline, now, old(self).period),
        ensures
            now.nanos < old(self).deadline.nanos ==> r is None && *final(self) == *old(self),
            old(self).deadline.nanos <= now.nanos ==> {
                &&& r == Some(old(self).deadline)
                &&& final(self).deadline.nanos == spec_next_tick(old(self).missed_tick_behavior, old(self).deadline, now, old(self).period)
                &&& now.nanos <= old(self).deadline.nanos + MISSED_TICK_SLACK_NANOS
                    ==> final(self).deadline.nanos == old(self).deadline.nanos + old(self).period.nanos
                &&& final(self).period == old(self).period
                &&& final(self).missed_tick_behavior == old(self).missed_tick_behavior
            },
    {
        if now.nanos < self.deadline.nanos {
            return None;
        }
        let timeout = self.deadline;
        let next = if now.nanos > timeout.nanos + MISSED_TICK_SLACK_NANOS {
            self.missed_tick_behavior.next_timeout(timeout, now, self.period)
        } else {
            Instant { nanos: timeout.nanos + self.period.nanos }
        };
        self.deadline = next;
        Some(timeout)
    }

    /// Resets the interval to complete one period after `now`.
    pub fn reset(&mut self, now: Instant)
        requires
            now.nanos + old(self).period.nanos <= u64::MAX,
        ensures
            final(self).deadline.nanos == now.nanos + old(self).period.nanos,
            final(self).period == old(self).period,
            final(self).missed_tick_behavior == old(self).missed_tick_behavior,
    {
        self.deadline = Instant { nanos: now.nanos + self.period.nanos };
    }

    /// Returns the strategy currently used for missed ticks.
    pub fn missed_tick_behavior(&self) -> (b: MissedTickBehavior)
        ensures
            b == self.missed_tick_behavior,
    {
        self.missed_tick_behavior
    }

    /// Sets the strategy used for missed ticks.
    pub fn set_missed_tick_behavior(&mut self, behavior: MissedTickBehavior)
        ensures
            final(self).missed_tick_behavior == behavior,
            final(self).deadline == old(self).deadline,
            final(self).period == old(self).period,
    {
        self.missed_tick_behavior = behavior;
    }

    /// Returns the period of the interval.
    pub fn period(&self) -> (p: Duration)
        ensures
            p == self.period,
    {
        self.period
    }
}

} // verus!
