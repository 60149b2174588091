//! Timers against a clock that the tests move by hand.
use async_io::reactor::timer::{min_timeout, Reactor, ReactorLock, TIMER_OPS_CAPACITY};
use async_io::task::{Poll, Waker};
use async_io::time::{duration_max, Duration, Instant};
use async_io::timer::Timer;

const SECOND: u128 = 1_000_000_000;

fn at(nanos: u128) -> Instant {
    Instant { nanos }
}

fn task(task: u64) -> Waker {
    Waker { task }
}

/// Fires the timers that are ready, and returns the tasks they wake and the time to the next one.
fn fire(reactor: &mut Reactor, now: Instant) -> (Vec<u64>, Option<Duration>) {
    let mut wakers = Vec::new();
    let until = reactor.process_timers(now, &mut wakers);
    (wakers.iter().map(|w| w.task).collect(), until)
}

#[test]
fn smoke() {
    let mut reactor = Reactor::new();
    let start = at(5 * SECOND);
    let mut timer = Timer::after(start, Duration::from_secs(1));
    assert_eq!(timer.poll(&mut reactor, start, task(1)), Poll::Pending);

    // Just before the second has passed nothing fires.
    let early = at(6 * SECOND - 1);
    assert_eq!(fire(&mut reactor, early), (vec![], Some(Duration::from_nanos(1))));
    assert_eq!(timer.poll(&mut reactor, early, task(1)), Poll::Pending);

    // At exactly one second it does.
    let end = at(6 * SECOND);
    assert_eq!(fire(&mut reactor, end), (vec![1], Some(Duration::from_secs(0))));
    assert_eq!(timer.poll(&mut reactor, end, task(1)), Poll::Ready(end));
    assert_eq!(fire(&mut reactor, at(100 * SECOND)), (vec![], None));
}

#[test]
fn interval() {
    let mut reactor = Reactor::new();
    let period = Duration::from_secs(1);
    let start = at(0);
    let mut timer = Timer::interval(start, period);
    assert_eq!(timer.poll_next(&mut reactor, start, task(1)), Poll::Pending);
    let first = at(SECOND);
    assert_eq!(fire(&mut reactor, first).0, vec![1]);
    assert_eq!(timer.poll_next(&mut reactor, first, task(1)), Poll::Ready(Some(first)));
    assert_eq!(timer.poll_next(&mut reactor, first, task(1)), Poll::Pending);
    let second = at(2 * SECOND);
    assert_eq!(fire(&mut reactor, second).0, vec![1]);
    assert_eq!(timer.poll_next(&mut reactor, second, task(1)), Poll::Ready(Some(second)));
}

#[test]
fn timers_get_different_ids() {
    let mut reactor = Reactor::new();
    let mut ids = Vec::new();
    // More timers than the queue of operations holds, with others removed and fired in between.
    for i in 0..3 * TIMER_OPS_CAPACITY {
        let id = reactor.insert_timer(at(1_000 + i as u128), task(i as u64));
        assert_eq!(id, i + 1);
        if i % 3 == 1 {
            reactor.remove_timer(at(1_000 + i as u128), id);
        }
        if i % 100 == 0 {
            assert!(fire(&mut reactor, at(999)).0.is_empty());
        }
        ids.push(id);
    }
    // Those that were not removed are all there.
    let (woken, _) = fire(&mut reactor, at(1_000_000));
    let left: Vec<u64> = (0..3 * TIMER_OPS_CAPACITY as u64).filter(|i| i % 3 != 1).collect();
    assert_eq!(woken, left);
}

#[test]
fn only_the_last_waker_is_registered() {
    let mut reactor = Reactor::new();
    let mut timer = Timer::at(at(50));
    let mut other = Timer::at(at(60));
    for waker in 1..5 {
        assert_eq!(timer.poll(&mut reactor, at(waker as u128), task(waker)), Poll::Pending);
        assert_eq!(other.poll(&mut reactor, at(waker as u128), task(9)), Poll::Pending);
        assert!(fire(&mut reactor, at(waker as u128)).0.is_empty());
    }
    assert_eq!(fire(&mut reactor, at(50)).0, vec![4]);
    other.close(&mut reactor);
    assert!(fire(&mut reactor, at(100)).0.is_empty());
}

#[test]
fn interval_polled_at_any_times_keeps_its_pace() {
    let mut reactor = Reactor::new();
    let mut timer = Timer::interval_at(at(10), Duration::from_nanos(7));
    let mut events = Vec::new();
    // Early, late, twice at once, and with a clock that is read in another order.
    for (i, now) in [3, 12, 40, 40, 25, 30, 31, 38, 100].into_iter().enumerate() {
        let polled = timer.poll_next(&mut reactor, at(now), task(i as u64 % 3));
        if let Poll::Ready(Some(event)) = polled {
            assert!(event.nanos <= now);
            events.push(event);
        }
    }
    assert_eq!(events, vec![at(10), at(17), at(24), at(31), at(38), at(45)]);
}

#[test]
fn interval_polled_late_keeps_its_pace() {
    let mut reactor = Reactor::new();
    let mut timer = Timer::interval_at(at(10), Duration::from_nanos(7));
    let late = at(1000);
    for k in 0..5u128 {
        let fired = timer.poll_next(&mut reactor, late, task(1));
        assert_eq!(fired, Poll::Ready(Some(at(10 + 7 * k))));
    }
}

#[test]
fn poll_across_tasks() {
    let mut reactor = Reactor::new();
    let start = at(0);
    let mut timer = Timer::after(start, Duration::from_secs(1));
    assert_eq!(timer.poll(&mut reactor, start, task(1)), Poll::Pending);
    // The timer moves to another task, which is the one to be woken.
    assert_eq!(timer.poll(&mut reactor, at(1), task(2)), Poll::Pending);
    assert_eq!(fire(&mut reactor, at(SECOND)).0, vec![2]);
    assert_eq!(timer.poll(&mut reactor, at(SECOND), task(2)), Poll::Ready(at(SECOND)));
}

#[test]
fn set() {
    let mut reactor = Reactor::new();
    let start = at(0);
    let mut timer = Timer::after(start, Duration::from_secs(10));
    assert_eq!(timer.poll(&mut reactor, start, task(1)), Poll::Pending);
    timer.set_after(&mut reactor, at(SECOND), Duration::from_secs(2));
    // Not after two seconds, but two seconds after it was set, and not after ten.
    assert_eq!(fire(&mut reactor, at(2 * SECOND)), (vec![], Some(Duration::from_secs(1))));
    assert_eq!(fire(&mut reactor, at(3 * SECOND)).0, vec![1]);
    assert_eq!(timer.poll(&mut reactor, at(3 * SECOND), task(1)), Poll::Ready(at(3 * SECOND)));
    assert_eq!(fire(&mut reactor, at(10 * SECOND)), (vec![], None));
}

#[test]
fn will_fire() {
    let mut reactor = Reactor::new();
    let now = at(0);
    assert!(!Timer::never().will_fire());
    assert!(Timer::after(now, Duration::from_secs(1)).will_fire());
    assert!(!Timer::after(now, duration_max()).will_fire());

    let mut timer = Timer::after(now, Duration::from_secs(1));
    assert!(timer.will_fire());
    assert_eq!(timer.poll(&mut reactor, at(SECOND), task(1)), Poll::Ready(at(SECOND)));
    assert!(!timer.will_fire());
    assert_eq!(timer.poll(&mut reactor, at(9 * SECOND), task(1)), Poll::Pending);

    let mut timer = Timer::interval(now, Duration::from_secs(1));
    assert!(timer.will_fire());
    assert_eq!(
        timer.poll_next(&mut reactor, at(SECOND), task(1)),
        Poll::Ready(Some(at(SECOND)))
    );
    assert!(timer.will_fire());
}

#[test]
fn never_stays_pending() {
    let mut reactor = Reactor::new();
    let mut timer = Timer::never();
    assert_eq!(timer.poll_next(&mut reactor, at(SECOND), task(1)), Poll::Pending);
    assert_eq!(fire(&mut reactor, at(SECOND)), (vec![], None));
}

#[test]
fn set_at_emits_one_event() {
    let mut reactor = Reactor::new();
    let mut timer = Timer::interval(at(0), Duration::from_secs(1));
    timer.set_at(&mut reactor, at(50));
    assert_eq!(timer.poll_next(&mut reactor, at(50), task(1)), Poll::Ready(Some(at(50))));
    assert!(!timer.will_fire());
}

#[test]
fn set_interval_repeats() {
    let mut reactor = Reactor::new();
    let mut timer = Timer::after(at(0), Duration::from_secs(1));
    assert_eq!(timer.poll_next(&mut reactor, at(0), task(4)), Poll::Pending);
    timer.set_interval(&mut reactor, at(10), Duration::from_nanos(5));
    assert_eq!(fire(&mut reactor, at(15)), (vec![4], Some(Duration::from_secs(0))));
    assert_eq!(timer.poll_next(&mut reactor, at(15), task(4)), Poll::Ready(Some(at(15))));
    assert_eq!(timer.poll_next(&mut reactor, at(20), task(4)), Poll::Ready(Some(at(20))));
    timer.set_interval_at(&mut reactor, at(100), Duration::from_nanos(1));
    assert_eq!(fire(&mut reactor, at(99)), (vec![], Some(Duration::from_nanos(1))));
    assert_eq!(fire(&mut reactor, at(100)).0, vec![4]);
}

#[test]
fn setting_too_far_never_fires() {
    let mut reactor = Reactor::new();
    let mut timer = Timer::after(at(0), Duration::from_secs(1));
    assert_eq!(timer.poll(&mut reactor, at(0), task(1)), Poll::Pending);
    timer.set_after(&mut reactor, at(0), duration_max());
    assert!(!timer.will_fire());
    assert_eq!(fire(&mut reactor, at(5 * SECOND)), (vec![], None));
    timer.set_interval(&mut reactor, at(0), duration_max());
    assert!(!timer.will_fire());
    // The task is still associated with the timer.
    timer.set_at(&mut reactor, at(7));
    assert_eq!(fire(&mut reactor, at(7)).0, vec![1]);
}

#[test]
fn dropped_timer_is_silent() {
    let mut reactor = Reactor::new();
    let mut kept = Timer::at(at(5));
    let mut dropped = Timer::at(at(5));
    assert_eq!(kept.poll(&mut reactor, at(0), task(1)), Poll::Pending);
    assert_eq!(dropped.poll(&mut reactor, at(0), task(2)), Poll::Pending);
    dropped.close(&mut reactor);
    assert_eq!(fire(&mut reactor, at(5)).0, vec![1]);
}

#[test]
fn timers_fire_in_order() {
    let mut reactor = Reactor::new();
    reactor.insert_timer(at(30), task(30));
    reactor.insert_timer(at(10), task(10));
    reactor.insert_timer(at(20), task(20));
    // Timers for the same instant fire in the order of their identifiers.
    reactor.insert_timer(at(10), task(11));
    assert_eq!(fire(&mut reactor, at(20)), (vec![10, 11, 20], Some(Duration::from_secs(0))));
    assert_eq!(fire(&mut reactor, at(21)), (vec![], Some(Duration::from_nanos(9))));
    assert_eq!(fire(&mut reactor, at(30)).0, vec![30]);
    assert_eq!(fire(&mut reactor, at(31)), (vec![], None));
}

#[test]
fn many_timers_overflow_the_queue() {
    let mut reactor = Reactor::new();
    let count = 3 * TIMER_OPS_CAPACITY as u128 + 7;
    for i in 0..count {
        let id = reactor.insert_timer(at(count - i), task((count - i) as u64));
        assert_eq!(id as u128, i + 1);
    }
    let (woken, _) = fire(&mut reactor, at(count));
    assert_eq!(woken, (1..=count as u64).collect::<Vec<_>>());
}

#[test]
fn removing_undoes_inserting() {
    let mut reactor = Reactor::new();
    let first = reactor.insert_timer(at(10), task(1));
    let second = reactor.insert_timer(at(10), task(2));
    assert_ne!(first, second);
    reactor.remove_timer(at(10), first);
    // Removing a timer that is not there changes nothing.
    reactor.remove_timer(at(11), second);
    assert_eq!(fire(&mut reactor, at(10)).0, vec![2]);
}

#[test]
fn inserting_notifies() {
    let mut reactor = Reactor::new();
    assert!(!reactor.take_notification());
    reactor.insert_timer(at(1), task(1));
    assert!(reactor.take_notification());
    assert!(!reactor.take_notification());
    reactor.remove_timer(at(1), 1);
    assert!(!reactor.take_notification());
    reactor.notify();
    assert!(reactor.take_notification());
}

#[test]
fn ticks_go_up() {
    let mut reactor = Reactor::new();
    assert_eq!(reactor.ticker(), 0);
    assert_eq!(reactor.bump_ticker(), 1);
    assert_eq!(reactor.bump_ticker(), 2);
    assert_eq!(reactor.ticker(), 2);
}

#[test]
fn timeouts_are_the_shorter_ones() {
    let short = Duration::from_millis(1);
    let long = Duration::from_secs(1);
    assert_eq!(min_timeout(None, None), None);
    assert_eq!(min_timeout(Some(short), None), Some(short));
    assert_eq!(min_timeout(None, Some(long)), Some(long));
    assert_eq!(min_timeout(Some(short), Some(long)), Some(short));
    assert_eq!(min_timeout(Some(long), Some(short)), Some(short));

    let mut reactor = Reactor::new();
    let mut wakers = Vec::new();
    assert_eq!(reactor.timeout_duration(at(0), None, &mut wakers), None);
    reactor.insert_timer(at(40), task(1));
    let limit = Some(Duration::from_nanos(50));
    assert_eq!(
        reactor.timeout_duration(at(0), limit, &mut wakers),
        Some(Duration::from_nanos(40))
    );
    assert_eq!(
        reactor.timeout_duration(at(0), Some(Duration::from_nanos(30)), &mut wakers),
        Some(Duration::from_nanos(30))
    );
    assert!(wakers.is_empty());
}

#[test]
fn durations_and_instants() {
    assert_eq!(Duration::from_secs(2).nanos, 2_000_000_000);
    assert_eq!(Duration::from_millis(3).nanos, 3_000_000);
    assert_eq!(Duration::from_micros(4).nanos, 4_000);
    assert_eq!(Duration::from_nanos(5).nanos, 5);
    assert_eq!(Duration::from_micros(2_999).as_millis(), 2);
    assert_eq!(duration_max().nanos, std::time::Duration::MAX.as_nanos());
    let a = Duration::from_secs(1);
    let b = Duration::from_secs(2);
    assert_eq!((a.min(b), a.max(b)), (a, b));
    assert_eq!(at(5).saturating_duration_since(at(3)).nanos, 2);
    assert_eq!(at(3).saturating_duration_since(at(5)).nanos, 0);
    assert_eq!(at(3).checked_add(Duration::from_nanos(4)), Some(at(7)));
    assert_eq!(at(0).checked_add(duration_max()), None);
}

#[test]
fn waiting_for_timers_alone() {
    let mut reactor = Reactor::new();
    let lock = ReactorLock::react(&mut reactor, None, at(0));
    assert_eq!(lock.timeout(), None);
    assert!(!lock.hit_timeout(false));
    assert!(lock.into_wakers().is_empty());

    reactor.insert_timer(at(5), task(1));
    reactor.insert_timer(at(9), task(2));
    let mut lock = ReactorLock::react(&mut reactor, None, at(6));
    assert_eq!(reactor.ticker(), 2);
    assert_eq!(lock.timeout(), Some(Duration::from_secs(0)));
    assert!(!lock.hit_timeout(true));
    assert!(lock.hit_timeout(false));
    lock.fire_timers(&mut reactor, at(9));
    assert_eq!(lock.into_wakers(), vec![task(1), task(2)]);
}
