use madsim::interval::{interval, MissedTickBehavior};
use madsim::runtime_time::{sleep_until, timeout_outcome, Elapsed, TimeRuntime};
use madsim::time::{Duration, Instant};
use madsim::timer::Timer;

#[test]
fn durations_and_instants() {
    assert_eq!(Duration::from_secs(2).as_nanos(), 2_000_000_000);
    assert_eq!(Duration::from_millis(3).as_nanos(), 3_000_000);
    assert_eq!(Duration::from_micros(4).as_nanos(), 4_000);
    assert_eq!(Duration::from_nanos(5).checked_add(Duration::from_nanos(6)), Some(Duration::from_nanos(11)));
    assert_eq!(Duration::from_nanos(u64::MAX).checked_add(Duration::from_nanos(1)), None);
    assert_eq!(Duration::from_nanos(u64::MAX / 2).saturating_mul(3), Duration::from_nanos(u64::MAX));
    let t0 = Instant::from_nanos(100);
    let t1 = t0.add(Duration::from_nanos(50));
    assert_eq!(t1.duration_since(t0), Duration::from_nanos(50));
    assert_eq!(t0.checked_duration_since(t1), None);
    assert_eq!(t0.saturating_duration_since(t1), Duration::zero());
    assert_eq!(t1.sub(Duration::from_nanos(150)), Instant::from_nanos(0));
    assert_eq!(t0.checked_sub(Duration::from_nanos(101)), None);
    assert_eq!(t0.elapsed(t1), Duration::from_nanos(50));
}

#[test]
fn mod_time() {
    // the clock only moves when asked to, and sleeps end at their deadline
    let mut rt: TimeRuntime<u32> = TimeRuntime::new(0);
    let t0 = rt.now_instant();
    rt.add_timer(t0.add(Duration::from_secs(1)), 1);
    assert_eq!(rt.advance_to_next_event(), Some(vec![1]));
    assert!(rt.elapsed() >= Duration::from_secs(1));

    let s = sleep_until(t0.add(Duration::from_secs(2)));
    assert!(!s.is_elapsed(rt.now_instant()));
    rt.add_timer(s.deadline(), 2);
    assert_eq!(rt.advance_to_next_event(), Some(vec![2]));
    assert!(s.is_elapsed(rt.now_instant()));

    assert_eq!(timeout_outcome(true, false), Some(Ok(())));
    assert_eq!(timeout_outcome(false, true), Some(Err(Elapsed)));
    assert_eq!(timeout_outcome(false, false), None);
    assert_eq!(rt.advance_to_next_event(), None);
}

#[test]
fn wall_clock_is_in_2022() {
    let rt: TimeRuntime<u32> = TimeRuntime::new(10);
    let secs = rt.now_time_nanos() / 1_000_000_000;
    assert_eq!(secs, 31_536_000 * 52 + 10);
}

#[test]
fn timer_fires_in_deadline_order() {
    let mut timer: Timer<&str> = Timer::new();
    timer.push(Instant::from_nanos(30), "c");
    timer.push(Instant::from_nanos(10), "a");
    timer.push(Instant::from_nanos(10), "b");
    timer.push(Instant::from_nanos(20), "d");
    assert_eq!(timer.next_time(), Some(Instant::from_nanos(10)));
    assert_eq!(timer.fire(Instant::from_nanos(20)), vec!["a", "b", "d"]);
    assert_eq!(timer.len(), 1);
    assert_eq!(timer.fire(Instant::from_nanos(29)), Vec::<&str>::new());
    assert_eq!(timer.fire(Instant::from_nanos(30)), vec!["c"]);
}

#[test]
fn interval_ticks_and_catches_up() {
    let period = Duration::from_millis(10);
    let mut iv = interval(Instant::from_nanos(0), period);
    assert_eq!(iv.missed_tick_behavior(), MissedTickBehavior::Burst);
    assert_eq!(iv.poll_tick(Instant::from_nanos(0)), Some(Instant::from_nanos(0)));
    assert_eq!(iv.poll_tick(Instant::from_nanos(5)), None);
    // burst: a late tick schedules the next one a period after the missed deadline
    assert_eq!(iv.poll_tick(Instant::from_nanos(35_000_000)), Some(Instant::from_nanos(10_000_000)));
    assert_eq!(iv.poll_tick(Instant::from_nanos(35_000_000)), Some(Instant::from_nanos(20_000_000)));

    iv.set_missed_tick_behavior(MissedTickBehavior::Delay);
    assert_eq!(iv.poll_tick(Instant::from_nanos(50_000_000)), Some(Instant::from_nanos(30_000_000)));
    assert_eq!(iv.poll_tick(Instant::from_nanos(60_000_000)), Some(Instant::from_nanos(60_000_000)));

    iv.set_missed_tick_behavior(MissedTickBehavior::Skip);
    assert_eq!(iv.poll_tick(Instant::from_nanos(95_000_000)), Some(Instant::from_nanos(70_000_000)));
    assert_eq!(iv.poll_tick(Instant::from_nanos(100_000_000)), Some(Instant::from_nanos(100_000_000)));
    assert_eq!(iv.period(), period);
}

#[test]
fn skip_stays_on_the_grid() {
    let t = MissedTickBehavior::Skip.next_timeout(
        Instant::from_nanos(100),
        Instant::from_nanos(345),
        Duration::from_nanos(100),
    );
    assert_eq!(t, Instant::from_nanos(400));
    let t = MissedTickBehavior::Delay.next_timeout(Instant::from_nanos(100), Instant::from_nanos(345), Duration::from_nanos(100));
    assert_eq!(t, Instant::from_nanos(445));
    let t = MissedTickBehavior::Burst.next_timeout(Instant::from_nanos(100), Instant::from_nanos(345), Duration::from_nanos(100));
    assert_eq!(t, Instant::from_nanos(200));
}
