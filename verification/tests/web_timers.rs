//! Timers that are run by the host of a web page.
use async_io::task::{Poll, Waker};
use async_io::time::{duration_max, Duration};
use async_io::timer::web::{host_timeout, timeout_millis, Timer, TimerId};

#[test]
fn timeout_fires_once() {
    let waker = Waker { task: 1 };
    let mut timer = Timer::never();
    assert!(!timer.will_fire());
    assert_eq!(timer.set_after(7), TimerId::NoTimer);
    assert!(timer.will_fire());
    assert_eq!(timer.poll_next(waker), (Poll::Pending, TimerId::NoTimer));
    assert_eq!(timer.wake(), Some(waker));
    assert_eq!(timer.wake(), None);
    assert_eq!(timer.poll_next(waker), (Poll::Ready(Some(())), TimerId::Timeout(7)));
    assert!(!timer.will_fire());
    // The second event is still there, and there is nothing left to clear.
    assert_eq!(timer.poll_next(waker), (Poll::Ready(Some(())), TimerId::NoTimer));
    assert_eq!(timer.poll_next(waker), (Poll::Pending, TimerId::NoTimer));
}

#[test]
fn interval_goes_on() {
    let waker = Waker { task: 1 };
    let mut timer = Timer::never();
    assert_eq!(timer.set_interval(9), TimerId::NoTimer);
    for _ in 0..3 {
        assert_eq!(timer.poll_next(waker).0, Poll::Pending);
        assert_eq!(timer.wake(), Some(waker));
        assert_eq!(timer.poll_next(waker), (Poll::Ready(Some(())), TimerId::NoTimer));
        assert!(timer.will_fire());
    }
    assert_eq!(timer.clear(), TimerId::Interval(9));
    assert!(!timer.will_fire());
    assert_eq!(timer.clear(), TimerId::NoTimer);
}

#[test]
fn host_waits_long_enough() {
    assert_eq!(timeout_millis(Duration::from_millis(5)), 5);
    assert_eq!(timeout_millis(Duration::from_secs(0)), 0);
    assert_eq!(timeout_millis(Duration::from_micros(1)), 1);
    assert_eq!(timeout_millis(Duration::from_micros(1_500)), 2);
    let longest = Duration::from_millis(i32::MAX as u64);
    assert_eq!(timeout_millis(longest), i32::MAX);
    assert_eq!(timeout_millis(Duration { nanos: longest.nanos + 1 }), i32::MAX);
}

#[test]
fn too_long_timers_never_fire() {
    let longest = Duration::from_millis(i32::MAX as u64);
    assert_eq!(host_timeout(longest), Some(i32::MAX));
    assert_eq!(host_timeout(Duration::from_micros(1_500)), Some(2));
    assert_eq!(host_timeout(Duration::from_millis(i32::MAX as u64 + 1)), None);
    assert_eq!(host_timeout(duration_max()), None);

    let waker = Waker { task: 1 };
    let mut timer = Timer::never();
    timer.set_interval(9);
    timer.wake();
    assert_eq!(timer.set_never(), TimerId::Interval(9));
    assert!(!timer.will_fire());
    assert_eq!(timer.poll_next(waker), (Poll::Pending, TimerId::NoTimer));
}

#[test]
fn resetting_forgets_old_events() {
    let waker = Waker { task: 1 };
    let mut timer = Timer::never();
    timer.set_interval(9);
    timer.wake();
    timer.wake();
    // The interval has to be cleared, and its events do not count for the timeout.
    assert_eq!(timer.set_after(10), TimerId::Interval(9));
    assert_eq!(timer.poll_next(waker).0, Poll::Pending);
    assert_eq!(timer.set_interval(11), TimerId::Timeout(10));
    assert_eq!(timer.wake(), Some(waker));
    assert_eq!(timer.poll_next(waker), (Poll::Ready(Some(())), TimerId::NoTimer));
}
