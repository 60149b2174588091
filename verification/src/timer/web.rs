//! Timers that are run by the host of a web page.
//!
//! The host calls back when a timeout or an interval has passed, and each call counts as one event.
use crate::reactor::timer;
use crate::task::{Poll, Waker};
use crate::time::{self, Duration};
use vstd::prelude::*;

verus! {

/// A timeout or interval of the host.
#[derive(Clone, Copy, Debug, PartialEq, Eq, Structural)]
pub enum TimerId {
    /// There is none.
    NoTimer,
    /// A timeout, which passes once.
    Timeout(i32),
    /// An interval, which passes periodically.
    Interval(i32),
}

/// A timer that is run by the host.
#[derive(Debug, PartialEq, Eq)]
pub struct Timer {
    /// The number of events that have not been polled.
    pub woken: usize,
    /// The waker to wake when the timer fires.
    pub waker: Option<Waker>,
    /// The ongoing timeout or interval.
    pub ongoing_timeout: TimerId,
}

/// Whether a duration is short enough for the host.
pub open spec fn fits(duration: Duration) -> bool {
    duration.nanos / 1_000_000 <= i32::MAX
}

/// The whole milliseconds of a duration that is short enough for the host. A part of a millisecond
/// counts as a whole one, unless that is more than the host can take.
pub open spec fn millis_of(duration: Duration) -> int {
    let whole = duration.nanos as int / 1_000_000;
    if duration.nanos % 1_000_000 == 0 || whole == i32::MAX {
        whole
    } else {
        whole + 1
    }
}

/// Converts a duration to the whole milliseconds that the host takes.
///
/// A part of a millisecond counts as a whole one, so that the timer never sleeps for less, unless
/// that is more than the host can take.
pub fn timeout_millis(duration: Duration) -> (millis: i32)
    requires
        fits(duration),
    ensures
        millis == millis_of(duration),
        duration.nanos <= i32::MAX * 1_000_000 ==> duration.nanos <= millis * 1_000_000,
{
    let millis: i32 = duration.as_millis() as i32;
    if duration.nanos % time::NANOS_PER_MILLI != 0 && millis < i32::MAX {
        millis + 1
    } else {
        millis
    }
}

/// Decides what timeout the host has to set for a duration. There is none if the duration is too
/// long for the host: such a timer never fires.
pub fn host_timeout(duration: Duration) -> (timeout: Option<i32>)
    ensures
        match timeout {
            Some(millis) => fits(duration) && millis == millis_of(duration),
            None => !fits(duration),
        },
{
    if duration.as_millis() <= i32::MAX as u128 {
        Some(timeout_millis(duration))
    } else {
        None
    }
}

/// A timer set for a duration never fires early, if the host keeps to what it is told: the timeout
/// is at least as long as the duration, up to the longest that the host can take. The longest
/// duration is too long.
pub proof fn law_host_timeout_is_long_enough(duration: Duration)
    ensures
        duration.nanos <= i32::MAX * 1_000_000 ==> fits(duration) && duration.nanos <= millis_of(
            duration,
        ) * 1_000_000 < duration.nanos + 1_000_000,
        fits(duration) ==> 0 <= millis_of(duration) <= i32::MAX,
        !fits(Duration { nanos: time::MAX_DURATION_NANOS }),
{
}

impl Timer {
    /// Creates a timer that will never fire.
    pub fn never() -> (timer: Timer)
        ensures
            timer == (Timer { woken: 0, waker: None, ongoing_timeout: TimerId::NoTimer }),
    {
        Timer { woken: 0, waker: None, ongoing_timeout: TimerId::NoTimer }
    }

    /// Returns `true` if this timer will fire at some point.
    pub fn will_fire(&self) -> (will_fire: bool)
        ensures
            will_fire == (self.ongoing_timeout != TimerId::NoTimer),
    {
        match self.ongoing_timeout {
            TimerId::NoTimer => false,
            TimerId::Timeout(_) => true,
            TimerId::Interval(_) => true,
        }
    }

    /// Records the timeout that the host has set. Returns the one before it, for the host to clear.
    ///
    /// Events of the one before it do not count any more.
    pub fn set_after(&mut self, id: i32) -> (cleared: TimerId)
        ensures
            cleared == old(self).ongoing_timeout,
            *final(self) == (Timer {
                woken: 0,
                ongoing_timeout: TimerId::Timeout(id),
                ..*old(self)
            }),
    {
        let cleared = self.clear();
        self.woken = 0;
        self.ongoing_timeout = TimerId::Timeout(id);
        cleared
    }

    /// Records the interval that the host has set. Returns the one before it, for the host to
    /// clear.
    ///
    /// Events of the one before it do not count any more.
    pub fn set_interval(&mut self, id: i32) -> (cleared: TimerId)
        ensures
            cleared == old(self).ongoing_timeout,
            *final(self) == (Timer {
                woken: 0,
                ongoing_timeout: TimerId::Interval(id),
                ..*old(self)
            }),
    {
        let cleared = self.clear();
        self.woken = 0;
        self.ongoing_timeout = TimerId::Interval(id);
        cleared
    }

    /// Sets the timer to never fire. Returns the timeout or interval before, for the host to clear.
    ///
    /// Events of the one before do not count any more.
    pub fn set_never(&mut self) -> (cleared: TimerId)
        ensures
            cleared == old(self).ongoing_timeout,
            *final(self) == (Timer {
                woken: 0,
                ongoing_timeout: TimerId::NoTimer,
                ..*old(self)
            }),
    {
        self.woken = 0;
        self.clear()
    }

    /// The host calls back: counts the event and returns the waker to wake.
    pub fn wake(&mut self) -> (waker: Option<Waker>)
        ensures
            waker == old(self).waker,
            *final(self) == (Timer {
                woken: timer::wrapping_succ(old(self).woken),
                waker: None,
                ..*old(self)
            }),
    {
        self.woken = self.woken.wrapping_add(1);
        self.waker.take()
    }

    /// Polls for the next timer event.
    ///
    /// Also returns the timeout or interval that the host has to clear: a timeout that has passed.
    pub fn poll_next(&mut self, waker: Waker) -> (poll: (Poll<Option<()>>, TimerId))
        ensures
            if old(self).woken > 0 {
                &&& poll.0 == Poll::Ready(Some(()))
                &&& final(self).woken == old(self).woken - 1
                &&& final(self).waker == old(self).waker
                &&& if old(self).ongoing_timeout is Timeout {
                    poll.1 == old(self).ongoing_timeout && final(self).ongoing_timeout
                        == TimerId::NoTimer
                } else {
                    poll.1 == TimerId::NoTimer && final(self).ongoing_timeout
                        == old(self).ongoing_timeout
                }
            } else {
                &&& poll.0 == Poll::<Option<()>>::Pending
                &&& poll.1 == TimerId::NoTimer
                &&& *final(self) == (Timer { waker: Some(waker), ..*old(self) })
            },
    {
        if self.woken > 0 {
            // Decrement the number of woken events.
            self.woken = self.woken - 1;
            // If we are using a one-shot timer, clear it.
            let cleared = match self.ongoing_timeout {
                TimerId::Timeout(_) => self.clear(),
                _ => TimerId::NoTimer,
            };
            return (Poll::Ready(Some(())), cleared);
        }
        // Register the waker.
        self.waker = Some(waker);
        (Poll::Pending, TimerId::NoTimer)
    }

    /// Clears the current timeout or interval, and returns it for the host to clear.
    pub fn clear(&mut self) -> (cleared: TimerId)
        ensures
            cleared == old(self).ongoing_timeout,
            *final(self) == (Timer { ongoing_timeout: TimerId::NoTimer, ..*old(self) }),
    {
        let cleared = self.ongoing_timeout;
        self.ongoing_timeout = TimerId::NoTimer;
        cleared
    }
}

/// The host waits for the least whole number of milliseconds that is not shorter than the duration,
/// as far as it can wait that long. A duration is too long for it if it has more milliseconds than
/// the host can count.
pub proof fn law_host_waits_no_longer_than_needed(
    duration: Duration,
    timeout: Option<i32>,
    millis: i32,
)
    requires
        call_ensures(host_timeout, (duration,), timeout),
        timeout is Some ==> call_ensures(timeout_millis, (duration,), millis),
    ensures
        timeout is Some <==> duration.nanos < 0x8000_0000 * 1_000_000,
        timeout matches Some(time) ==> time == millis && 0 <= millis,
        timeout is Some && duration.nanos <= 0x7fff_ffff * 1_000_000 ==> duration.nanos <= millis
            * 1_000_000 && (millis - 1) * 1_000_000 < duration.nanos,
        timeout is Some && duration.nanos > 0x7fff_ffff * 1_000_000 ==> millis == 0x7fff_ffff,
{
}

/// A timer that is set forgets the events before and hands back what was set before for the host to
/// clear. It will fire exactly if there is a timeout or an interval. The task that polls it stays.
pub proof fn law_set_timer_forgets_events(
    once: &mut Timer,
    periodic: &mut Timer,
    never: &mut Timer,
    id: i32,
    cleared: (TimerId, TimerId, TimerId),
    will_fire: (bool, bool, bool),
)
    requires
        call_ensures(Timer::set_after, (once, id), cleared.0),
        call_ensures(Timer::set_interval, (periodic, id), cleared.1),
        call_ensures(Timer::set_never, (never,), cleared.2),
        call_ensures(Timer::will_fire, (final(once),), will_fire.0),
        call_ensures(Timer::will_fire, (final(periodic),), will_fire.1),
        call_ensures(Timer::will_fire, (final(never),), will_fire.2),
    ensures
        cleared.0 == old(once).ongoing_timeout,
        cleared.1 == old(periodic).ongoing_timeout,
        cleared.2 == old(never).ongoing_timeout,
        final(once).woken == 0 && final(periodic).woken == 0 && final(never).woken == 0,
        final(once).ongoing_timeout == TimerId::Timeout(id),
        final(periodic).ongoing_timeout == TimerId::Interval(id),
        final(never).ongoing_timeout == TimerId::NoTimer,
        final(once).waker == old(once).waker,
        final(periodic).waker == old(periodic).waker,
        final(never).waker == old(never).waker,
        will_fire.0 && will_fire.1 && !will_fire.2,
{
}

/// Each call of the host is one event: a task that polls before it waits, the call wakes the task
/// once, and one poll after it gives the event.
pub proof fn law_each_call_is_one_event(
    waiting: &mut Timer,
    waker: Waker,
    before: (Poll<Option<()>>, TimerId),
    called: &mut Timer,
    woken: Option<Waker>,
    polled: &mut Timer,
    other: Waker,
    after: (Poll<Option<()>>, TimerId),
)
    requires
        call_ensures(Timer::poll_next, (waiting, waker), before),
        *old(called) == *final(waiting),
        call_ensures(Timer::wake, (called,), woken),
        old(called).woken < usize::MAX,
        *old(polled) == *final(called),
        call_ensures(Timer::poll_next, (polled, other), after),
    ensures
        before.0 == Poll::Ready(Some(())) <==> old(waiting).woken > 0,
        before.0 == Poll::<Option<()>>::Pending <==> old(waiting).woken == 0,
        old(waiting).woken > 0 ==> final(waiting).woken + 1 == old(waiting).woken,
        old(waiting).woken == 0 ==> final(waiting).woken == 0 && woken == Some(waker)
            && before.1 == TimerId::NoTimer,
        woken == final(waiting).waker,
        final(called).woken == old(called).woken + 1,
        final(called).waker is None,
        final(called).ongoing_timeout == old(called).ongoing_timeout,
        after.0 == Poll::Ready(Some(())),
        final(polled).woken == old(called).woken,
        final(polled).waker is None,
{
}

/// A timeout is over once its event has been polled, and is handed back for the host to clear. An
/// interval goes on, and a poll that gives no event changes neither.
pub proof fn law_timeouts_end_and_intervals_go_on(
    timer: &mut Timer,
    waker: Waker,
    poll: (Poll<Option<()>>, TimerId),
)
    requires
        call_ensures(Timer::poll_next, (timer, waker), poll),
    ensures
        match old(timer).ongoing_timeout {
            TimerId::Timeout(id) => if poll.0 is Ready {
                poll.1 == TimerId::Timeout(id) && final(timer).ongoing_timeout == TimerId::NoTimer
            } else {
                poll.1 == TimerId::NoTimer && final(timer).ongoing_timeout == TimerId::Timeout(id)
            },
            TimerId::Interval(id) => poll.1 == TimerId::NoTimer && final(timer).ongoing_timeout
                == TimerId::Interval(id),
            TimerId::NoTimer => poll.1 == TimerId::NoTimer && final(timer).ongoing_timeout
                == TimerId::NoTimer,
        },
        poll.0 is Ready ==> final(timer).waker == old(timer).waker,
        poll.0 is Pending ==> final(timer).waker == Some(waker),
{
}

/// A new timer never fires. Clearing a timer stops it and hands back what was set, and leaves the
/// events that have not been polled.
pub proof fn law_cleared_timer_stops(
    created: Timer,
    timer: &mut Timer,
    cleared: TimerId,
    will_fire: (bool, bool),
)
    requires
        call_ensures(Timer::never, (), created),
        call_ensures(Timer::clear, (timer,), cleared),
        call_ensures(Timer::will_fire, (&created,), will_fire.0),
        call_ensures(Timer::will_fire, (final(timer),), will_fire.1),
    ensures
        created.woken == 0 && created.waker is None,
        !will_fire.0 && !will_fire.1,
        cleared == old(timer).ongoing_timeout,
        final(timer).woken == old(timer).woken,
        final(timer).waker == old(timer).waker,
{
}

/// No call of the host is taken for none, until so many have come that counting begins again.
pub proof fn law_calls_are_counted(timer: &mut Timer, woken: Option<Waker>)
    requires
        call_ensures(Timer::wake, (timer,), woken),
    ensures
        final(timer).woken == if old(timer).woken < usize::MAX {
            old(timer).woken + 1
        } else {
            0
        },
        woken == old(timer).waker,
        final(timer).waker is None,
        final(timer).ongoing_timeout == old(timer).ongoing_timeout,
{
}

} // verus!
