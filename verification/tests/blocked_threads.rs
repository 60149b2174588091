//! Blocking on a future with a parker, and the helper thread.
use async_io::block_on::{
    block_on, wake, yield_now, BlockOnCount, BlockOnLoop, Grab, MainLoop, Phase,
};
use async_io::reactor::poll::{PumpStep, Reactor};
use async_io::sys::{Error, Event};
use async_io::task::{Poll, Waker};
use async_io::time::{Duration, Instant};
use async_io::timer::Timer;

fn at(nanos: u128) -> Instant {
    Instant { nanos }
}

fn waiting() -> BlockOnLoop {
    let mut run = block_on();
    run.pending(false);
    run.tried_lock(true, at(100));
    run
}

#[test]
fn future_that_wakes_itself_never_sleeps() {
    for i in 0..100 {
        let mut run = block_on();
        for _ in 0..i {
            run.pending(true);
            assert_eq!(run.phase, Phase::TryProcess);
            assert!(!run.io_polling() && !run.io_blocked());
            run.tried_process(true);
            assert_eq!(run.phase, Phase::Process);
            assert!(run.io_polling() && !run.io_blocked());
            run.processed();
        }
        assert_eq!(run.phase, Phase::Poll);
        assert!(!run.io_polling());
    }
}

#[test]
fn events_are_processed_only_with_the_lock() {
    let mut run = block_on();
    run.pending(true);
    run.tried_process(false);
    assert_eq!(run.phase, Phase::Poll);
    assert!(!run.io_polling());
}

#[test]
fn polls_are_one_more_than_wakeups() {
    let mut run = block_on();
    let mut polls = 1;
    let mut wakes = 0;
    for i in 0..10 {
        // The task is woken while the future is polled, or while the thread is parked.
        wakes += 1;
        if i % 2 == 0 {
            run.pending(true);
            run.tried_process(true);
            run.processed();
        } else {
            run.pending(false);
            run.tried_lock(false, at(0));
            run.parked();
        }
        assert_eq!(run.phase, Phase::Poll);
        polls += 1;
        assert_eq!(polls, wakes + 1);
    }
}

#[test]
fn blocking_ends_with_the_value_of_the_future() {
    let mut run = block_on();
    run.pending(true);
    run.tried_process(false);
    assert_eq!(run.ready("value"), "value");
    assert_eq!(run.phase, Phase::Done);
    assert!(!run.io_polling() && !run.io_blocked());
}

#[test]
fn thread_waits_for_events() {
    let mut run = waiting();
    assert_eq!(run.phase, Phase::Arm { start: at(100) });
    assert!(run.io_polling() && run.io_blocked());
    run.armed(false);
    assert_eq!(run.phase, Phase::React { start: at(100) });
    run.reacted(false, at(100 + 500_000));
    assert_eq!(run.phase, Phase::Arm { start: at(100) });
    run.armed(false);
    run.reacted(true, at(100 + 500_001));
    assert_eq!(run.phase, Phase::Poll);
}

#[test]
fn thread_stops_hogging() {
    let mut run = waiting();
    run.armed(false);
    run.reacted(false, at(100 + 500_001));
    assert_eq!(run.phase, Phase::Yield);
    assert!(run.io_blocked());
    run.parked();
    assert_eq!(run.phase, Phase::Poll);
}

#[test]
fn notification_before_waiting_counts() {
    let mut run = waiting();
    run.armed(true);
    assert_eq!(run.phase, Phase::Poll);
}

#[test]
fn thread_without_the_lock_parks() {
    let mut run = block_on();
    run.pending(false);
    run.tried_lock(false, at(0));
    assert_eq!(run.phase, Phase::Park);
    assert!(!run.io_polling() && !run.io_blocked());
    run.parked();
    assert_eq!(run.phase, Phase::Poll);
}

#[test]
fn only_foreign_wakeups_notify_the_reactor() {
    assert!(wake(true, false, true));
    assert!(!wake(false, false, true));
    assert!(!wake(true, true, true));
    assert!(!wake(true, false, false));
}

#[test]
fn blocked_threads_are_counted() {
    let mut count = BlockOnCount::new();
    count.enter();
    count.enter();
    assert_eq!(count.count, 2);
    // The helper thread is unparked each time.
    assert!(count.leave());
    assert_eq!(count.count, 1);
    assert!(count.leave());
    assert_eq!(count, BlockOnCount::new());
}

#[test]
fn helper_thread_backs_off() {
    let mut helper = MainLoop::new();
    let busy = BlockOnCount { count: 1 };
    let delays = [50, 75, 100, 250, 500, 750, 1000, 2500, 5000, 10_000, 10_000];
    assert_eq!(helper.delay(BlockOnCount::new()), None);
    for (i, delay) in delays.iter().enumerate() {
        let grab = if i < 10 { Grab::TryLock } else { Grab::Lock };
        assert_eq!(helper.turn(0), grab);
        assert_eq!(helper.delay(busy), Some(Duration::from_micros(*delay)));
        helper.slept(false, 0);
    }
    helper.reacted(1);
    assert_eq!(helper, MainLoop { last_tick: 1, sleeps: 0 });
    helper.slept(false, 1);
    helper.slept(true, 5);
    assert_eq!(helper, MainLoop { last_tick: 5, sleeps: 0 });
    // Somebody else polls.
    assert_eq!(helper.turn(6), Grab::Skip);
    assert_eq!(helper.turn(6), Grab::TryLock);
}

#[test]
fn yield_now_returns_without_blocking() {
    let mut reactor = Reactor::new();
    reactor.insert_timer(at(1_000_000_000), Waker { task: 1 });
    for _ in 0..10 {
        let mut lock = yield_now(&mut reactor, at(0));
        assert_eq!(lock.timeout(), Some(Duration::from_secs(0)));
        let timeout = lock.timeout();
        let waited: Result<Vec<Event>, Error<()>> = Ok(Vec::new());
        assert_eq!(lock.pump_events(&mut reactor, timeout, waited), PumpStep::Done(Ok(())));
        assert!(lock.into_wakers().is_empty());
    }
}

#[test]
fn yield_now_drives_timer() {
    let mut reactor = Reactor::new();
    let start = at(0);
    let waker = Waker { task: 1 };
    let mut timer = Timer::after(start, Duration::from_millis(50));
    let mut now = start;
    while timer.poll(reactor.timers_mut(), now, waker) == Poll::Pending {
        assert!(now.nanos <= 5_000_000_000);
        assert!(yield_now(&mut reactor, now).into_wakers().is_empty());
        now = at(now.nanos + 5_000_000);
    }
    assert_eq!(now, at(50_000_000));

    // A task that waits is woken by the first look at the timers that is late enough.
    let mut timer = Timer::after(start, Duration::from_millis(60));
    assert_eq!(timer.poll(reactor.timers_mut(), now, waker), Poll::Pending);
    assert_eq!(yield_now(&mut reactor, at(60_000_000)).into_wakers(), vec![waker]);
}
