//! Timers.
//!
//! A timer is registered in the reactor while a task waits for it, and the reactor wakes the task
//! when it is due. The timer may fire later than requested, but never earlier.
use crate::reactor::timer::{self, Reactor, TimersView};
use crate::reactor::timer_map::TimerKey;
use crate::task::{Poll, Waker};
use crate::time::{self, duration_max, Duration, Instant};
use vstd::prelude::*;

pub mod web;
pub mod world;

verus! {

/// What a timer holds.
pub struct TimerView {
    /// The timer's identifier and the last waker that polled it.
    pub id_and_waker: Option<(usize, Waker)>,
    /// The next instant at which this timer fires, if it ever does.
    pub next: Option<Instant>,
    /// The period.
    pub period: Duration,
}

/// The reactor with one more timer.
pub open spec fn with_timer(reactor: TimersView, at: Instant, waker: Waker) -> TimersView {
    TimersView {
        timers: reactor.timers.insert((at, reactor.next_id), waker),
        next_id: timer::wrapping_succ(reactor.next_id),
        notified: true,
        ..reactor
    }
}

/// The reactor without the timer with the given key, if there is a key.
pub open spec fn without_timer(reactor: TimersView, key: Option<TimerKey>) -> TimersView {
    match key {
        Some(key) => TimersView { timers: reactor.timers.remove(key), ..reactor },
        None => reactor,
    }
}

impl TimerView {
    /// A timer that will never fire.
    pub open spec fn never() -> TimerView {
        TimerView {
            id_and_waker: None,
            next: None,
            period: Duration { nanos: time::MAX_DURATION_NANOS },
        }
    }

    /// A timer that fires at `start` and then periodically.
    pub open spec fn starting(start: Option<Instant>, period: Duration) -> TimerView {
        match start {
            Some(start) => TimerView { id_and_waker: None, next: Some(start), period },
            None => TimerView::never(),
        }
    }

    /// The key under which the timer is registered in the reactor, if it is.
    pub open spec fn key(self) -> Option<TimerKey> {
        match (self.next, self.id_and_waker) {
            (Some(at), Some((id, waker))) => Some((at, id)),
            _ => None,
        }
    }

    /// Whether the reactor holds the timer with the task that polled it last, or has fired it.
    pub open spec fn is_registered_or_due(self, reactor: TimersView, now: Instant) -> bool {
        match (self.next, self.id_and_waker) {
            (Some(at), Some((id, waker))) => at.nanos <= now.nanos || (
            reactor.timers.contains_key((at, id)) && reactor.timers[(at, id)] == waker),
            _ => true,
        }
    }

    /// The timer and the reactor once the timer has been set to fire at `start` and then
    /// periodically. The task that polls the timer stays associated with it.
    pub open spec fn set(self, reactor: TimersView, start: Instant, period: Duration) -> (
        TimerView,
        TimersView,
    ) {
        let cleared = without_timer(reactor, self.key());
        match self.id_and_waker {
            Some((id, waker)) => (
                TimerView {
                    id_and_waker: Some((cleared.next_id, waker)),
                    next: Some(start),
                    period,
                },
                with_timer(cleared, start, waker),
            ),
            None => (TimerView { id_and_waker: None, next: Some(start), period }, cleared),
        }
    }

    /// The timer and the reactor once the timer has been set to never fire.
    pub open spec fn unset(self, reactor: TimersView) -> (TimerView, TimersView) {
        (TimerView { next: None, ..self }, without_timer(reactor, self.key()))
    }

    /// The timer and the reactor once a task has polled the timer at `now`, and what the poll
    /// gives.
    pub open spec fn polled(self, reactor: TimersView, now: Instant, waker: Waker) -> (
        TimerView,
        TimersView,
        Poll<Option<Instant>>,
    ) {
        match self.next {
            None => (self, reactor, Poll::Pending),
            Some(at) => {
                let cleared = without_timer(reactor, self.key());
                if at.nanos <= now.nanos {
                    // The timer fires, and is registered for the next period if there is one.
                    match time::instant_after(at, self.period) {
                        Some(next) => (
                            TimerView {
                                id_and_waker: Some((cleared.next_id, waker)),
                                next: Some(next),
                                ..self
                            },
                            with_timer(cleared, next, waker),
                            Poll::Ready(Some(at)),
                        ),
                        None => (
                            TimerView { id_and_waker: None, next: None, ..self },
                            cleared,
                            Poll::Ready(Some(at)),
                        ),
                    }
                } else if self.id_and_waker matches Some((id, w)) && w == waker {
                    // The task is registered already.
                    (self, reactor, Poll::Pending)
                } else {
                    (
                        TimerView { id_and_waker: Some((cleared.next_id, waker)), ..self },
                        with_timer(cleared, at, waker),
                        Poll::Pending,
                    )
                }
            },
        }
    }
}

/// A future or stream that emits timed events.
#[derive(Debug)]
pub struct Timer {
    /// This timer's identifier and last waker that polled it.
    id_and_waker: Option<(usize, Waker)>,
    /// The next instant at which this timer fires, if it ever does.
    next: Option<Instant>,
    /// The period.
    period: Duration,
}

impl View for Timer {
    type V = TimerView;

    closed spec fn view(&self) -> TimerView {
        TimerView { id_and_waker: self.id_and_waker, next: self.next, period: self.period }
    }
}

impl Timer {
    /// Creates a timer that will never fire.
    pub fn never() -> (timer: Timer)
        ensures
            timer@ == TimerView::never(),
    {
        Timer { id_and_waker: None, next: None, period: duration_max() }
    }

    /// Creates a timer that emits an event once after the given duration of time, counted from
    /// `now`. If the clock does not reach so far, the timer will never fire.
    pub fn after(now: Instant, duration: Duration) -> (timer: Timer)
        ensures
            timer@ == TimerView::starting(
                time::instant_after(now, duration),
                Duration { nanos: time::MAX_DURATION_NANOS },
            ),
    {
        match now.checked_add(duration) {
            Some(at) => Timer::at(at),
            None => Timer::never(),
        }
    }

    /// Creates a timer that emits an event once at the given time instant.
    pub fn at(instant: Instant) -> (timer: Timer)
        ensures
            timer@ == TimerView::starting(
                Some(instant),
                Duration { nanos: time::MAX_DURATION_NANOS },
            ),
    {
        Timer::interval_at(instant, duration_max())
    }

    /// Creates a timer that emits events periodically, the first one period after `now`. If the
    /// clock does not reach so far, the timer will never fire.
    pub fn interval(now: Instant, period: Duration) -> (timer: Timer)
        ensures
            timer@ == TimerView::starting(time::instant_after(now, period), period),
    {
        match now.checked_add(period) {
            Some(at) => Timer::interval_at(at, period),
            None => Timer::never(),
        }
    }

    /// Creates a timer that emits events periodically, starting at `start`.
    pub fn interval_at(start: Instant, period: Duration) -> (timer: Timer)
        ensures
            timer@ == TimerView::starting(Some(start), period),
    {
        Timer { id_and_waker: None, next: Some(start), period }
    }

    /// Indicates whether or not this timer will ever fire.
    pub fn will_fire(&self) -> (will_fire: bool)
        ensures
            will_fire == (self@.next is Some),
    {
        self.next.is_some()
    }

    /// Sets the timer to emit an event once after the given duration of time.
    ///
    /// Note that resetting a timer is different from creating a new timer because this does not
    /// remove the waker associated with the task that is polling the timer.
    pub fn set_after(&mut self, reactor: &mut Reactor, now: Instant, duration: Duration)
        requires
            old(reactor).wf(),
        ensures
            final(reactor).wf(),
            (final(self)@, final(reactor)@) == match time::instant_after(now, duration) {
                Some(at) => old(self)@.set(
                    old(reactor)@,
                    at,
                    Duration { nanos: time::MAX_DURATION_NANOS },
                ),
                None => old(self)@.unset(old(reactor)@),
            },
    {
        match now.checked_add(duration) {
            Some(instant) => self.set_at(reactor, instant),
            None => {
                // Overflow to never going off.
                self.clear(reactor);
                self.next = None;
            },
        }
    }

    /// Sets the timer to emit an event once at the given time instant.
    ///
    /// Note that resetting a timer is different from creating a new timer because this does not
    /// remove the waker associated with the task that is polling the timer.
    pub fn set_at(&mut self, reactor: &mut Reactor, instant: Instant)
        requires
            old(reactor).wf(),
        ensures
            final(reactor).wf(),
            (final(self)@, final(reactor)@) == old(self)@.set(
                old(reactor)@,
                instant,
                Duration { nanos: time::MAX_DURATION_NANOS },
            ),
    {
        self.set_interval_at(reactor, instant, duration_max());
    }

    /// Sets the timer to emit events periodically.
    ///
    /// Note that resetting a timer is different from creating a new timer because this does not
    /// remove the waker associated with the task that is polling the timer.
    pub fn set_interval(&mut self, reactor: &mut Reactor, now: Instant, period: Duration)
        requires
            old(reactor).wf(),
        ensures
            final(reactor).wf(),
            (final(self)@, final(reactor)@) == match time::instant_after(now, period) {
                Some(at) => old(self)@.set(old(reactor)@, at, period),
                None => old(self)@.unset(old(reactor)@),
            },
    {
        match now.checked_add(period) {
            Some(instant) => self.set_interval_at(reactor, instant, period),
            None => {
                // Overflow to never going off.
                self.clear(reactor);
                self.next = None;
            },
        }
    }

    /// Sets the timer to emit events periodically, starting at `start`.
    ///
    /// Note that resetting a timer is different from creating a new timer because this does not
    /// remove the waker associated with the task that is polling the timer.
    pub fn set_interval_at(&mut self, reactor: &mut Reactor, start: Instant, period: Duration)
        requires
            old(reactor).wf(),
        ensures
            final(reactor).wf(),
            (final(self)@, final(reactor)@) == old(self)@.set(old(reactor)@, start, period),
    {
        self.clear(reactor);
        self.next = Some(start);
        self.period = period;
        if let Some((_, waker)) = self.id_and_waker {
            // Re-register the timer with the new timeout.
            let id: usize = reactor.insert_timer(start, waker);
            self.id_and_waker = Some((id, waker));
        }
    }

    /// Deregisters the timer from the reactor, if it is registered.
    fn clear(&self, reactor: &mut Reactor)
        requires
            old(reactor).wf(),
        ensures
            final(reactor).wf(),
            final(reactor)@ == without_timer(old(reactor)@, self@.key()),
    {
        if let Some(at) = self.next {
            if let Some((id, _)) = self.id_and_waker {
                reactor.remove_timer(at, id);
            }
        }
    }

    /// Polls for the next timer event.
    pub fn poll_next(&mut self, reactor: &mut Reactor, now: Instant, waker: Waker) -> (poll: Poll<
        Option<Instant>,
    >)
        requires
            old(reactor).wf(),
        ensures
            final(reactor).wf(),
            (final(self)@, final(reactor)@, poll) == old(self)@.polled(old(reactor)@, now, waker),
    {
        if let Some(at) = self.next {
            // Check if the timer has already fired.
            if now.nanos >= at.nanos {
                if let Some((id, _)) = self.id_and_waker.take() {
                    // Deregister the timer from the reactor.
                    reactor.remove_timer(at, id);
                }
                match at.checked_add(self.period) {
                    Some(next) => {
                        self.next = Some(next);
                        // Register the timer in the reactor.
                        let id: usize = reactor.insert_timer(next, waker);
                        self.id_and_waker = Some((id, waker));
                    },
                    None => {
                        self.next = None;
                    },
                }
                return Poll::Ready(Some(at));
            }
            if let Some((id, w)) = self.id_and_waker {
                if w.will_wake(&waker) {
                    return Poll::Pending;
                }
                // Deregister the timer from the reactor to remove the old waker.
                reactor.remove_timer(at, id);
            }
            // Register the timer in the reactor.
            let id: usize = reactor.insert_timer(at, waker);
            self.id_and_waker = Some((id, waker));
        }
        Poll::Pending
    }

    /// Polls the timer as a future that outputs the instant at which the timer was to fire.
    pub fn poll(&mut self, reactor: &mut Reactor, now: Instant, waker: Waker) -> (poll: Poll<
        Instant,
    >)
        requires
            old(reactor).wf(),
        ensures
            final(reactor).wf(),
            (final(self)@, final(reactor)@) == ({
                let (timer, timers, next) = old(self)@.polled(old(reactor)@, now, waker);
                (timer, timers)
            }),
            poll == if old(self)@.next matches Some(at) && at.nanos <= now.nanos {
                Poll::Ready(old(self)@.next.unwrap())
            } else {
                Poll::Pending
            },
    {
        match self.poll_next(reactor, now, waker) {
            Poll::Ready(Some(at)) => Poll::Ready(at),
            _ => Poll::Pending,
        }
    }

    /// Drops the timer.
    pub fn close(self, reactor: &mut Reactor)
        requires
            old(reactor).wf(),
        ensures
            final(reactor).wf(),
            final(reactor)@ == without_timer(old(reactor)@, self@.key()),
    {
        self.clear(reactor);
    }
}

/// A timer never fires early, and fires whenever it is polled at its instant or later.
pub proof fn law_timer_never_fires_early(
    timer: TimerView,
    reactor: TimersView,
    now: Instant,
    waker: Waker,
)
    ensures
        ({
            let (after, timers, poll) = timer.polled(reactor, now, waker);
            &&& poll matches Poll::Ready(fired) ==> fired == timer.next && (fired matches Some(at)
                && at.nanos <= now.nanos)
            &&& timer.next matches Some(at) ==> (at.nanos <= now.nanos ==> poll == Poll::Ready(
                Some(at),
            ))
        }),
{
}

/// A timer that emits an event once never fires again: once it has fired it will not fire, and it
/// is not registered in the reactor.
pub proof fn law_single_timer_fires_once(
    at: Instant,
    id_and_waker: Option<(usize, Waker)>,
    reactor: TimersView,
    now: Instant,
    waker: Waker,
)
    requires
        at.nanos <= now.nanos,
    ensures
        ({
            let timer = TimerView {
                id_and_waker,
                next: Some(at),
                period: Duration { nanos: time::MAX_DURATION_NANOS },
            };
            let (after, timers, poll) = timer.polled(reactor, now, waker);
            &&& poll == Poll::Ready(Some(at))
            &&& after.next is None
            &&& after.key() is None
            &&& timers == without_timer(reactor, timer.key())
        }),
{
}

/// What a timer and the reactor hold after polls, each at some time and by some task, and the
/// events that the polls gave.
pub open spec fn after_polls(
    timer: TimerView,
    reactor: TimersView,
    polls: Seq<(Instant, Waker)>,
) -> (TimerView, TimersView, Seq<Instant>)
    decreases polls.len(),
{
    if polls.len() == 0 {
        (timer, reactor, Seq::empty())
    } else {
        let (before, timers, events) = after_polls(timer, reactor, polls.drop_last());
        let (now, waker) = polls.last();
        let (after, later, poll) = before.polled(timers, now, waker);
        (
            after,
            later,
            match poll {
                Poll::Ready(Some(event)) => events.push(event),
                _ => events,
            },
        )
    }
}

/// An interval fires at its start and then once every period, whenever and by whomever it is
/// polled: its events are the start and the instants whole periods after it, in order and without a
/// gap, and the next one follows after as many periods as there have been events, if the clock
/// reaches so far. No event comes before its instant.
pub proof fn law_interval_keeps_its_pace(
    timer: TimerView,
    reactor: TimersView,
    start: Instant,
    polls: Seq<(Instant, Waker)>,
)
    requires
        timer.next == Some(start),
        start.nanos <= time::MAX_INSTANT_NANOS,
    ensures
        ({
            let (after, timers, events) = after_polls(timer, reactor, polls);
            &&& after.period == timer.period
            &&& forall|i: int|
                0 <= i < events.len() ==> (#[trigger] events[i]).nanos == start.nanos + i
                    * timer.period.nanos
            &&& after.next == if start.nanos + events.len() * timer.period.nanos
                <= time::MAX_INSTANT_NANOS {
                Some(Instant { nanos: (start.nanos + events.len() * timer.period.nanos) as u128 })
            } else {
                None
            }
            &&& forall|i: int|
                0 <= i < events.len() ==> exists|j: int|
                    0 <= j < polls.len() && (#[trigger] events[i]).nanos <= (
                    #[trigger] polls[j]).0.nanos
        }),
    decreases polls.len(),
{
    if polls.len() > 0 {
        let fewer = polls.drop_last();
        law_interval_keeps_its_pace(timer, reactor, start, fewer);
        let (before, timers, had) = after_polls(timer, reactor, fewer);
        let (after, later, events) = after_polls(timer, reactor, polls);
        let period = timer.period.nanos as int;
        let count = had.len() as int;
        assert((count + 1) * period == count * period + period) by (nonlinear_arith);
        assert forall|i: int| 0 <= i < events.len() implies exists|j: int|
            0 <= j < polls.len() && (#[trigger] events[i]).nanos <= (
            #[trigger] polls[j]).0.nanos by {
            if i < count {
                assert(events[i] == had[i]);
                let j = choose|j: int|
                    0 <= j < fewer.len() && had[i].nanos <= (#[trigger] fewer[j]).0.nanos;
                assert(polls[j] == fewer[j]);
            } else {
                assert(events[i].nanos <= polls[polls.len() - 1].0.nanos);
            }
        }
    } else {
        assert(0 * timer.period.nanos == 0);
    }
}

/// An interval that is polled late catches up: each poll at the instant of the next event or later
/// gives one event, and each poll before it gives none.
pub proof fn law_each_late_poll_gives_one_event(
    timer: TimerView,
    reactor: TimersView,
    polls: Seq<(Instant, Waker)>,
    now: Instant,
    waker: Waker,
)
    ensures
        ({
            let (before, timers, had) = after_polls(timer, reactor, polls);
            let (after, later, events) = after_polls(timer, reactor, polls.push((now, waker)));
            events == if before.next matches Some(at) && at.nanos <= now.nanos {
                had.push(before.next.unwrap())
            } else {
                had
            }
        }),
{
    assert(polls.push((now, waker)).drop_last() =~= polls);
}

/// A task that polls a timer is woken by it: if the timer is pending and will fire, the reactor
/// holds it with the waker of the task that polled last.
pub proof fn law_last_waker_is_registered(
    timer: TimerView,
    reactor: TimersView,
    now: Instant,
    waker: Waker,
)
    requires
        timer.is_registered_or_due(reactor, now),
    ensures
        ({
            let (after, timers, poll) = timer.polled(reactor, now, waker);
            after.next is Some ==> {
                &&& after.key() is Some
                &&& timers.timers.contains_key(after.key().unwrap())
                &&& timers.timers[after.key().unwrap()] == waker
            }
        }),
{
}

/// A pending timer wakes its task: once the instant of a timer that was polled has come, processing
/// the reactor's timers wakes the task that polled it last.
pub proof fn law_pending_timer_wakes_its_task(
    timer: TimerView,
    reactor: TimersView,
    now: Instant,
    waker: Waker,
    later: Instant,
)
    requires
        reactor.timers.dom().finite(),
        timer.is_registered_or_due(reactor, now),
    ensures
        ({
            let (after, timers, poll) = timer.polled(reactor, now, waker);
            after.next matches Some(at) ==> (at.nanos <= later.nanos ==> timer::due_wakers(
                timers.timers,
                later,
            ).contains(waker))
        }),
{
    law_last_waker_is_registered(timer, reactor, now, waker);
    let (after, timers, poll) = timer.polled(reactor, now, waker);
    if let Some(at) = after.next {
        let key = after.key().unwrap();
        assert(timers.timers.dom().finite());
        timer::law_due_timers_wake_their_tasks(timers.timers, later, key);
    }
}

/// Resetting a timer keeps the task that polls it: the task is registered for the new instant and
/// no longer for the old one.
pub proof fn law_resetting_keeps_the_waker(
    timer: TimerView,
    reactor: TimersView,
    id: usize,
    waker: Waker,
    start: Instant,
    period: Duration,
)
    requires
        timer.id_and_waker == Some((id, waker)),
    ensures
        ({
            let (after, timers) = timer.set(reactor, start, period);
            &&& after.next == Some(start)
            &&& after.key() == Some((start, reactor.next_id))
            &&& timers.timers.contains_key((start, reactor.next_id))
            &&& timers.timers[(start, reactor.next_id)] == waker
            &&& timer.key() matches Some(key) ==> (key != (start, reactor.next_id)
                ==> !timers.timers.contains_key(key))
        }),
{
}

/// A dropped timer wakes nobody: it leaves the reactor with exactly the other timers.
pub proof fn law_dropped_timer_is_deregistered(timer: TimerView, reactor: TimersView, key: TimerKey)
    ensures
        ({
            let after = without_timer(reactor, timer.key());
            &&& timer.key() == Some(key) ==> !after.timers.contains_key(key)
            &&& timer.key() != Some(key) ==> after.timers.contains_key(key)
                == reactor.timers.contains_key(key) && (reactor.timers.contains_key(key)
                ==> after.timers[key] == reactor.timers[key])
        }),
{
}

/// Which timers will fire: one that never fires does not, one set for a duration does if the clock
/// reaches so far, and the longest duration is too long for that.
pub proof fn law_timers_fire_unless_too_far(now: Instant, duration: Duration)
    ensures
        TimerView::never().next is None,
        TimerView::starting(
            time::instant_after(now, duration),
            Duration { nanos: time::MAX_DURATION_NANOS },
        ).next is Some <==> now.nanos + duration.nanos <= time::MAX_INSTANT_NANOS,
        time::instant_after(now, Duration { nanos: time::MAX_DURATION_NANOS }) is None,
{
}

/// Whether a timer is registered in a reactor under an identifier for an instant, and the reactor
/// would wake the given task then.
pub open spec fn registers(reactor: TimersView, at: Instant, id: usize, waker: Waker) -> bool {
    reactor.timers.contains_key((at, id)) && reactor.timers[(at, id)] == waker
}

/// Whether a reactor holds the timers that it held before, but for the ones with the given keys.
pub open spec fn agrees_but_for(
    before: TimersView,
    after: TimersView,
    one: Option<TimerKey>,
    other: Option<TimerKey>,
) -> bool {
    forall|key: TimerKey|
        one != Some(key) && other != Some(key) ==> (#[trigger] after.timers.contains_key(key)
            == before.timers.contains_key(key)) && (before.timers.contains_key(key)
            ==> after.timers[key] == before.timers[key])
}

/// Whether a timer that was set fires first at `start` and has the given period, and whether the task
/// that polls it, if there is one, is registered for that instant and no longer for the one before.
/// Nothing else in the reactor changes.
pub open spec fn is_reset(
    old_timer: TimerView,
    timer: TimerView,
    old_reactor: TimersView,
    reactor: TimersView,
    start: Instant,
    period: Duration,
) -> bool {
    &&& timer.next == Some(start)
    &&& timer.period == period
    &&& reactor.ticker == old_reactor.ticker
    &&& match old_timer.id_and_waker {
        Some((old_id, waker)) => {
            &&& timer.id_and_waker == Some((old_reactor.next_id, waker))
            &&& registers(reactor, start, old_reactor.next_id, waker)
            &&& reactor.notified
            &&& reactor.next_id != old_reactor.next_id
            &&& match old_timer.next {
                Some(at) => {
                    &&& (at, old_id) != (start, old_reactor.next_id)
                        ==> !reactor.timers.contains_key((at, old_id))
                    &&& agrees_but_for(
                        old_reactor,
                        reactor,
                        Some((at, old_id)),
                        Some((start, old_reactor.next_id)),
                    )
                },
                None => agrees_but_for(
                    old_reactor,
                    reactor,
                    Some((start, old_reactor.next_id)),
                    None,
                ),
            }
        },
        None => {
            &&& timer.id_and_waker is None
            &&& agrees_but_for(old_reactor, reactor, None, None)
            &&& reactor.notified == old_reactor.notified
            &&& reactor.next_id == old_reactor.next_id
        },
    }
}

/// A timer that is set, whether it has been polled or not, fires next at the start that was given,
/// and then at the period that was given: never, after the first time, if it is set to fire once.
pub proof fn law_set_timer_fires_as_set(
    timer: &mut Timer,
    reactor: &mut Reactor,
    start: Instant,
    period: Duration,
    once: &mut Timer,
    other: &mut Reactor,
)
    requires
        old(reactor).wf() && old(other).wf(),
        call_ensures(Timer::set_interval_at, (timer, reactor, start, period), ()),
        call_ensures(Timer::set_at, (once, other, start), ()),
    ensures
        is_reset(old(timer)@, final(timer)@, old(reactor)@, final(reactor)@, start, period),
        is_reset(
            old(once)@,
            final(once)@,
            old(other)@,
            final(other)@,
            start,
            final(once)@.period,
        ),
        final(once)@.period.nanos > time::MAX_INSTANT_NANOS,
{
}

/// A timer that is set to fire after some time does so at the instant that lies the time after now,
/// and then at the period that was given or never again. If the clock does not reach so far, it
/// never fires and nobody is registered for it, but the task that polls it stays with it.
pub proof fn law_timer_set_for_later_fires_then(
    timer: &mut Timer,
    reactor: &mut Reactor,
    once: &mut Timer,
    other: &mut Reactor,
    now: Instant,
    span: Duration,
)
    requires
        old(reactor).wf() && old(other).wf(),
        call_ensures(Timer::set_interval, (timer, reactor, now, span), ()),
        call_ensures(Timer::set_after, (once, other, now, span), ()),
    ensures
        match final(timer)@.next {
            Some(at) => at.nanos == now.nanos + span.nanos && is_reset(
                old(timer)@,
                final(timer)@,
                old(reactor)@,
                final(reactor)@,
                at,
                span,
            ),
            None => now.nanos + span.nanos > time::MAX_INSTANT_NANOS && is_unset(
                old(timer)@,
                final(timer)@,
                old(reactor)@,
                final(reactor)@,
            ),
        },
        match final(once)@.next {
            Some(at) => at.nanos == now.nanos + span.nanos && is_reset(
                old(once)@,
                final(once)@,
                old(other)@,
                final(other)@,
                at,
                final(once)@.period,
            ) && final(once)@.period.nanos > time::MAX_INSTANT_NANOS,
            None => now.nanos + span.nanos > time::MAX_INSTANT_NANOS && is_unset(
                old(once)@,
                final(once)@,
                old(other)@,
                final(other)@,
            ),
        },
{
}

/// Whether a timer keeps its task and its period, and the reactor has lost it and nothing else.
pub open spec fn is_unset(
    old_timer: TimerView,
    timer: TimerView,
    old_reactor: TimersView,
    reactor: TimersView,
) -> bool {
    &&& timer.id_and_waker == old_timer.id_and_waker
    &&& timer.period == old_timer.period
    &&& is_deregistered(old_timer, old_reactor, reactor)
}

/// Whether a reactor has lost a timer and nothing else.
pub open spec fn is_deregistered(
    timer: TimerView,
    old_reactor: TimersView,
    reactor: TimersView,
) -> bool {
    &&& reactor.ticker == old_reactor.ticker
    &&& reactor.next_id == old_reactor.next_id
    &&& reactor.notified == old_reactor.notified
    &&& match (timer.next, timer.id_and_waker) {
        (Some(at), Some((id, waker))) => !reactor.timers.contains_key((at, id)) && agrees_but_for(
            old_reactor,
            reactor,
            Some((at, id)),
            None,
        ),
        _ => agrees_but_for(old_reactor, reactor, None, None),
    }
}

/// A dropped timer is no longer registered, and all others are.
pub proof fn law_dropping_deregisters(timer: Timer, reactor: &mut Reactor)
    requires
        old(reactor).wf(),
        call_ensures(Timer::close, (timer, reactor), ()),
    ensures
        is_deregistered(timer@, old(reactor)@, final(reactor)@),
{
}

/// When a new timer fires: one for an instant fires then and never again, and an interval fires at
/// its start and then every period. Nobody polls a new timer.
pub proof fn law_new_timers_fire_as_asked(
    at: Instant,
    period: Duration,
    never: Timer,
    once: Timer,
    interval: Timer,
)
    requires
        call_ensures(Timer::never, (), never),
        call_ensures(Timer::at, (at,), once),
        call_ensures(Timer::interval_at, (at, period), interval),
    ensures
        never@.next is None && never@.id_and_waker is None,
        once@.next == Some(at) && once@.id_and_waker is None,
        never@.period.nanos > time::MAX_INSTANT_NANOS,
        once@.period.nanos > time::MAX_INSTANT_NANOS,
        interval@.next == Some(at) && interval@.id_and_waker is None,
        interval@.period == period,
{
}

/// When a new timer for a time from now fires: when the time is over, if the clock reaches so far,
/// and else never. After that one fires never again, and the other every period.
pub proof fn law_new_timers_fire_after_the_time(
    now: Instant,
    span: Duration,
    once: Timer,
    interval: Timer,
)
    requires
        call_ensures(Timer::after, (now, span), once),
        call_ensures(Timer::interval, (now, span), interval),
    ensures
        once@.next == interval@.next,
        once@.id_and_waker is None && interval@.id_and_waker is None,
        once@.period.nanos > time::MAX_INSTANT_NANOS,
        match interval@.next {
            Some(at) => at.nanos == now.nanos + span.nanos && interval@.period == span,
            None => now.nanos + span.nanos > time::MAX_INSTANT_NANOS,
        },
{
}

/// A timer says that it will fire exactly if there is an instant at which polling it gives an event.
pub proof fn law_timer_says_whether_it_fires(
    timer: &mut Timer,
    reactor: &mut Reactor,
    now: Instant,
    waker: Waker,
    will_fire: bool,
    poll: Poll<Option<Instant>>,
)
    requires
        old(reactor).wf(),
        call_ensures(Timer::will_fire, (old(timer),), will_fire),
        call_ensures(Timer::poll_next, (timer, reactor, now, waker), poll),
        now.nanos == u128::MAX,
    ensures
        will_fire <==> poll is Ready,
{
}

/// A poll gives an event exactly if the instant of the next one has come, and the event is that
/// instant. The next event is then due one period later, if the clock reaches so far, and otherwise
/// it stays as it is. The period never changes. The task that polled is registered for the next
/// event, unless there is none.
pub proof fn law_poll_gives_the_next_event(
    timer: &mut Timer,
    reactor: &mut Reactor,
    now: Instant,
    waker: Waker,
    poll: Poll<Option<Instant>>,
)
    requires
        old(reactor).wf(),
        call_ensures(Timer::poll_next, (timer, reactor, now, waker), poll),
    ensures
        final(timer)@.period == old(timer)@.period,
        final(reactor)@.ticker == old(reactor)@.ticker,
        match old(timer)@.next {
            Some(at) => if at.nanos <= now.nanos {
                &&& poll == Poll::Ready(Some(at))
                &&& match final(timer)@.next {
                    Some(next) => next.nanos == at.nanos + old(timer)@.period.nanos
                        && final(timer)@.id_and_waker == Some((old(reactor)@.next_id, waker))
                            && registers(
                        final(reactor)@,
                        next,
                        old(reactor)@.next_id,
                        waker,
                    ) && final(reactor)@.notified && final(reactor)@.next_id
                        != old(reactor)@.next_id,
                    None => at.nanos + old(timer)@.period.nanos > time::MAX_INSTANT_NANOS
                        && final(timer)@.id_and_waker is None && is_deregistered(
                        old(timer)@,
                        old(reactor)@,
                        final(reactor)@,
                    ),
                }
            } else {
                &&& poll == Poll::<Option<Instant>>::Pending
                &&& final(timer)@.next == Some(at)
                &&& match old(timer)@.id_and_waker {
                    Some((id, same)) => same == waker ==> final(timer)@ == old(timer)@
                        && final(reactor)@ == old(reactor)@,
                    None => true,
                }
                &&& !(old(timer)@.id_and_waker matches Some((id, same)) && same == waker) ==> {
                    &&& final(timer)@.id_and_waker == Some((old(reactor)@.next_id, waker))
                    &&& registers(final(reactor)@, at, old(reactor)@.next_id, waker)
                    &&& final(reactor)@.notified
                    &&& final(reactor)@.next_id != old(reactor)@.next_id
                    &&& old(timer)@.id_and_waker matches Some((id, other)) ==> (id
                        != old(reactor)@.next_id ==> !final(reactor)@.timers.contains_key((at, id)))
                }
            },
            None => {
                &&& poll == Poll::<Option<Instant>>::Pending
                &&& final(timer)@ == old(timer)@
                &&& final(reactor)@ == old(reactor)@
            },
        },
{
}

/// When a timer fires, the reactor drops the registration for the event that is over and makes one
/// for the next event at most; all other timers stay.
pub proof fn law_firing_leaves_other_timers(
    timer: &mut Timer,
    reactor: &mut Reactor,
    now: Instant,
    waker: Waker,
    poll: Poll<Option<Instant>>,
    key: TimerKey,
)
    requires
        old(reactor).wf(),
        call_ensures(Timer::poll_next, (timer, reactor, now, waker), poll),
        !(old(timer)@.next matches Some(at) && key.0 == at && (
        old(timer)@.id_and_waker matches Some((id, w)) && key.1 == id)),
        !(final(timer)@.next matches Some(at) && key.0 == at && (
        final(timer)@.id_and_waker matches Some((id, w)) && key.1 == id)),
    ensures
        poll is Ready && final(timer)@.key() != old(timer)@.key() ==> (
        old(timer)@.key() matches Some(over) ==> !final(reactor)@.timers.contains_key(over)),
        final(reactor)@.timers.contains_key(key) == old(reactor)@.timers.contains_key(key),
        old(reactor)@.timers.contains_key(key) ==> final(reactor)@.timers[key]
            == old(reactor)@.timers[key],
{
}

/// Polling a timer as a future does what polling it as a stream does, and gives the same event.
pub proof fn law_future_and_stream_agree(
    timer: &mut Timer,
    reactor: &mut Reactor,
    same: &mut Timer,
    other: &mut Reactor,
    now: Instant,
    waker: Waker,
    next: Poll<Option<Instant>>,
    poll: Poll<Instant>,
)
    requires
        old(reactor).wf() && old(other).wf(),
        old(timer)@ == old(same)@ && old(reactor)@ == old(other)@,
        call_ensures(Timer::poll_next, (timer, reactor, now, waker), next),
        call_ensures(Timer::poll, (same, other, now, waker), poll),
    ensures
        final(timer)@ == final(same)@ && final(reactor)@ == final(other)@,
        match poll {
            Poll::Ready(at) => next == Poll::Ready(Some(at)),
            Poll::Pending => next is Pending,
        },
{
}

/// An interval that is set, whether it has been polled or not, gives its start and then the instants
/// one and two periods later to polls that are late enough.
pub proof fn law_set_interval_gives_its_events(
    timer: &mut Timer,
    reactor: &mut Reactor,
    start: Instant,
    period: Duration,
    first: &mut Timer,
    reactor1: &mut Reactor,
    second: &mut Timer,
    reactor2: &mut Reactor,
    third: &mut Timer,
    reactor3: &mut Reactor,
    now: Instant,
    waker: Waker,
    polls: (Poll<Option<Instant>>, Poll<Option<Instant>>, Poll<Option<Instant>>),
)
    requires
        start.nanos + 2 * period.nanos <= now.nanos <= time::MAX_INSTANT_NANOS,
        old(reactor).wf() && old(reactor1).wf() && old(reactor2).wf() && old(reactor3).wf(),
        call_ensures(Timer::set_interval_at, (timer, reactor, start, period), ()),
        old(first)@ == final(timer)@ && old(reactor1)@ == final(reactor)@,
        call_ensures(Timer::poll_next, (first, reactor1, now, waker), polls.0),
        old(second)@ == final(first)@ && old(reactor2)@ == final(reactor1)@,
        call_ensures(Timer::poll_next, (second, reactor2, now, waker), polls.1),
        old(third)@ == final(second)@ && old(reactor3)@ == final(reactor2)@,
        call_ensures(Timer::poll_next, (third, reactor3, now, waker), polls.2),
    ensures
        polls.0 == Poll::Ready(Some(start)),
        polls.1 matches Poll::Ready(Some(at)) && at.nanos == start.nanos + period.nanos,
        polls.2 matches Poll::Ready(Some(at)) && at.nanos == start.nanos + 2 * period.nanos,
{
}

/// An interval that is set, whether it has been polled or not, gives its start and then the instants
/// whole periods after it, in order and without a gap, whenever and by whomever it is polled.
pub proof fn law_set_interval_keeps_its_pace(
    timer: &mut Timer,
    reactor: &mut Reactor,
    start: Instant,
    period: Duration,
    polls: Seq<(Instant, Waker)>,
)
    requires
        start.nanos <= time::MAX_INSTANT_NANOS,
        old(reactor).wf(),
        call_ensures(Timer::set_interval_at, (timer, reactor, start, period), ()),
    ensures
        ({
            let (after, timers, events) = after_polls(final(timer)@, final(reactor)@, polls);
            &&& after.period == period
            &&& forall|i: int|
                0 <= i < events.len() ==> (#[trigger] events[i]).nanos == start.nanos + i
                    * period.nanos
        }),
{
    law_interval_keeps_its_pace(final(timer)@, final(reactor)@, start, polls);
}

} // verus!
