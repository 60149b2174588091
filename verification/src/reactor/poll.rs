//! The reactor: timers and sources of I/O events, and the rounds in which they are polled.
use crate::reactor::registration::Registration;
use crate::reactor::source::{self, Dir, Source, SourceView};
use crate::reactor::sources::{
    self, get_source, get_source_mut, insert_source, new_table, remove_source, vacant_key,
};
use crate::reactor::timer::{self, TimersView};
use crate::reactor::timer_map::TimerKey;
use crate::sys::{Error, ErrorKind, Event};
use crate::task::Waker;
use crate::time::{Duration, Instant};
use slab::Slab;
use vstd::prelude::*;

verus! {

/// What a reactor holds.
pub struct ReactorView {
    /// The timers, the ticker and the notification.
    pub timers: TimersView,
    /// The registered sources by their keys.
    pub sources: Map<usize, SourceView>,
    /// The key that the next source gets.
    pub next_key: usize,
}

/// The sources after the reactor tick `tick` has delivered an event to the one it concerns, if
/// that one is still registered.
pub open spec fn event_delivered(
    sources: Map<usize, SourceView>,
    event: Event,
    tick: usize,
) -> Map<usize, SourceView> {
    if sources.contains_key(event.key) {
        sources.insert(event.key, sources[event.key].delivered(event, tick))
    } else {
        sources
    }
}

/// The tasks that an event wakes.
pub open spec fn event_woken(sources: Map<usize, SourceView>, event: Event) -> Seq<Waker> {
    if sources.contains_key(event.key) {
        sources[event.key].woken_by(event)
    } else {
        Seq::empty()
    }
}

/// The registration and the interest to register again after an event has been delivered, if tasks
/// are left waiting for its source.
pub open spec fn event_interest(
    sources: Map<usize, SourceView>,
    event: Event,
    tick: usize,
) -> Option<(Registration, Event)> {
    if sources.contains_key(event.key) {
        let after = sources[event.key].delivered(event, tick);
        if after.is_idle() {
            None
        } else {
            Some((after.raw, after.interest()))
        }
    } else {
        None
    }
}

/// The sources after all events have been delivered in order.
pub open spec fn all_delivered(
    sources: Map<usize, SourceView>,
    events: Seq<Event>,
    tick: usize,
) -> Map<usize, SourceView>
    decreases events.len(),
{
    if events.len() == 0 {
        sources
    } else {
        all_delivered(event_delivered(sources, events[0], tick), events.drop_first(), tick)
    }
}

/// The tasks that the events wake, in the order of the events.
pub open spec fn all_woken(
    sources: Map<usize, SourceView>,
    events: Seq<Event>,
    tick: usize,
) -> Seq<Waker>
    decreases events.len(),
{
    if events.len() == 0 {
        Seq::empty()
    } else {
        event_woken(sources, events[0]) + all_woken(
            event_delivered(sources, events[0], tick),
            events.drop_first(),
            tick,
        )
    }
}

/// How many events can be delivered before the interest in a source has to be registered again:
/// up to and with the one that leaves tasks waiting, or all of them.
pub open spec fn run_length(
    sources: Map<usize, SourceView>,
    events: Seq<Event>,
    tick: usize,
) -> nat
    decreases events.len(),
{
    if events.len() == 0 {
        0
    } else if event_interest(sources, events[0], tick) is Some {
        1
    } else {
        1 + run_length(event_delivered(sources, events[0], tick), events.drop_first(), tick)
    }
}

/// The interest to register again after such a run of events, if there is any.
pub open spec fn run_interest(
    sources: Map<usize, SourceView>,
    events: Seq<Event>,
    tick: usize,
) -> Option<(Registration, Event)>
    decreases events.len(),
{
    if events.len() == 0 {
        None
    } else if event_interest(sources, events[0], tick) is Some {
        event_interest(sources, events[0], tick)
    } else {
        run_interest(event_delivered(sources, events[0], tick), events.drop_first(), tick)
    }
}

/// The reactor.
pub struct Reactor {
    /// Timers, the ticker and the notification.
    timers: timer::Reactor,
    /// Registered sources.
    sources: Slab<Source>,
}

impl View for Reactor {
    type V = ReactorView;

    closed spec fn view(&self) -> ReactorView {
        ReactorView {
            timers: self.timers@,
            sources: sources::slab_sources(self.sources).map_values(|source: Source| source@),
            next_key: sources::slab_next_key(self.sources),
        }
    }
}

impl Reactor {
    /// The timers are well-formed and every source knows its key.
    pub closed spec fn wf(&self) -> bool {
        &&& self.timers.wf()
        &&& forall|key: usize| #[trigger]
            self@.sources.contains_key(key) ==> self@.sources[key].key == key
    }

    /// Creates a reactor without timers or sources.
    pub fn new() -> (reactor: Reactor)
        ensures
            reactor.wf(),
            reactor@ == (ReactorView {
                timers: TimersView {
                    timers: Map::<TimerKey, Waker>::empty(),
                    ticker: 0,
                    next_id: 1,
                    notified: false,
                },
                sources: Map::<usize, SourceView>::empty(),
                next_key: 0,
            }),
    {
        let reactor = Reactor { timers: timer::Reactor::new(), sources: new_table() };
        assert(reactor@.sources =~= Map::<usize, SourceView>::empty());
        reactor
    }

    /// Returns the current ticker.
    pub fn ticker(&self) -> (ticker: usize)
        ensures
            ticker == self@.timers.ticker,
    {
        self.timers.ticker()
    }

    /// Registers a timer in the reactor.
    ///
    /// Returns the inserted timer's identifier.
    pub fn insert_timer(&mut self, at: Instant, waker: Waker) -> (id: usize)
        requires
            old(self).wf(),
        ensures
            final(self).wf(),
            id == old(self)@.timers.next_id,
            final(self)@ == (ReactorView {
                timers: TimersView {
                    timers: old(self)@.timers.timers.insert((at, id), waker),
                    next_id: timer::wrapping_succ(id),
                    notified: true,
                    ..old(self)@.timers
                },
                ..old(self)@
            }),
    {
        self.timers.insert_timer(at, waker)
    }

    /// Deregisters a timer from the reactor.
    pub fn remove_timer(&mut self, at: Instant, id: usize)
        requires
            old(self).wf(),
        ensures
            final(self).wf(),
            final(self)@ == (ReactorView {
                timers: TimersView {
                    timers: old(self)@.timers.timers.remove((at, id)),
                    ..old(self)@.timers
                },
                ..old(self)@
            }),
    {
        self.timers.remove_timer(at, id)
    }

    /// Returns the part of the reactor that processes timers.
    pub fn timers_mut(&mut self) -> (timers: &mut timer::Reactor)
        requires
            old(self).wf(),
        ensures
            timers.wf(),
            timers@ == old(self)@.timers,
            final(self)@ == (ReactorView { timers: final(timers)@, ..old(self)@ }),
            final(timers).wf() ==> final(self).wf(),
    {
        &mut self.timers
    }

    /// Notifies the thread blocked on the reactor.
    pub fn notify(&mut self)
        requires
            old(self).wf(),
        ensures
            final(self).wf(),
            final(self)@ == (ReactorView {
                timers: TimersView { notified: true, ..old(self)@.timers },
                ..old(self)@
            }),
    {
        self.timers.notify()
    }

    /// Takes the pending notification, if there is one.
    pub fn take_notification(&mut self) -> (notified: bool)
        requires
            old(self).wf(),
        ensures
            final(self).wf(),
            notified == old(self)@.timers.notified,
            final(self)@ == (ReactorView {
                timers: TimersView { notified: false, ..old(self)@.timers },
                ..old(self)@
            }),
    {
        self.timers.take_notification()
    }

    /// Registers an I/O source in the reactor.
    ///
    /// Returns its key, under which the source is to be added to the poller without interest.
    /// What that gives goes to `end_insert_io`.
    pub fn insert_io(&mut self, raw: Registration) -> (key: usize)
        requires
            old(self).wf(),
        ensures
            final(self).wf(),
            key == old(self)@.next_key,
            !old(self)@.sources.contains_key(key),
            final(self)@.timers == old(self)@.timers,
            final(self)@.sources == old(self)@.sources.insert(key, SourceView::fresh(raw, key)),
    {
        let key: usize = vacant_key(&mut self.sources);
        let inserted: usize = insert_source(&mut self.sources, Source::new(raw, key));
        assert(self@.sources =~= old(self)@.sources.insert(key, SourceView::fresh(raw, key)));
        inserted
    }

    /// Ends the registration of an I/O source: if adding it to the poller has failed, it is taken
    /// out again.
    pub fn end_insert_io<E>(&mut self, key: usize, added: Result<(), E>) -> (registered: Result<
        usize,
        E,
    >)
        requires
            old(self).wf(),
            old(self)@.sources.contains_key(key),
        ensures
            final(self).wf(),
            match added {
                Ok(_) => registered == Ok::<usize, E>(key) && final(self)@ == old(self)@,
                Err(err) => registered == Err::<usize, E>(err) && final(self)@ == (ReactorView {
                    sources: old(self)@.sources.remove(key),
                    next_key: key,
                    ..old(self)@
                }),
            },
    {
        match added {
            Ok(()) => Ok(key),
            Err(err) => {
                let _ = self.remove_io(key);
                Err(err)
            },
        }
    }

    /// Deregisters an I/O source from the reactor.
    ///
    /// Returns the registration to delete from the poller.
    pub fn remove_io(&mut self, key: usize) -> (raw: Registration)
        requires
            old(self).wf(),
            old(self)@.sources.contains_key(key),
        ensures
            final(self).wf(),
            raw == old(self)@.sources[key].raw,
            final(self)@ == (ReactorView {
                sources: old(self)@.sources.remove(key),
                next_key: key,
                ..old(self)@
            }),
    {
        let source = remove_source(&mut self.sources, key);
        assert(self@.sources =~= old(self)@.sources.remove(key));
        source.raw()
    }

    /// Returns the source with the given key.
    pub fn source(&self, key: usize) -> (source: Option<&Source>)
        ensures
            match source {
                Some(source) => self@.sources.contains_key(key) && source@ == self@.sources[key],
                None => !self@.sources.contains_key(key),
            },
    {
        get_source(&self.sources, key)
    }

    /// Returns the source with the given key for changing.
    pub fn source_mut(&mut self, key: usize) -> (source: Option<&mut Source>)
        requires
            old(self).wf(),
        ensures
            match source {
                Some(source) => {
                    &&& old(self)@.sources.contains_key(key)
                    &&& source@ == old(self)@.sources[key]
                    &&& source@.key == key
                    &&& final(self)@ == (ReactorView {
                        sources: old(self)@.sources.insert(key, final(source)@),
                        ..old(self)@
                    })
                    &&& final(source)@.key == key ==> final(self).wf()
                },
                None => !old(self)@.sources.contains_key(key) && final(self)@ == old(self)@
                    && final(self).wf(),
            },
    {
        let ghost before = self@.sources;
        let ghost table = sources::slab_sources(self.sources);
        match get_source_mut(&mut self.sources, key) {
            Some(source) => {
                proof {
                    let after = table.insert(key, *final(source));
                    assert(after.map_values(|source: Source| source@) =~= before.insert(
                        key,
                        final(source)@,
                    ));
                }
                Some(source)
            },
            None => None,
        }
    }

    /// Delivers an event to the source it concerns, if that one is still registered.
    ///
    /// Returns the registration and the interest to register again if tasks are left waiting.
    pub fn deliver_event(&mut self, event: Event, tick: usize, wakers: &mut Vec<Waker>) -> (modify:
        Option<(Registration, Event)>)
        requires
            old(self).wf(),
        ensures
            final(self).wf(),
            final(self)@ == (ReactorView {
                sources: event_delivered(old(self)@.sources, event, tick),
                ..old(self)@
            }),
            final(wakers)@ == old(wakers)@ + event_woken(old(self)@.sources, event),
            modify == event_interest(old(self)@.sources, event, tick),
    {
        // Check if there is a source in the table with this key.
        match self.source_mut(event.key) {
            Some(source) => {
                match source.deliver(event, tick, wakers) {
                    Some(interest) => Some((source.raw(), interest)),
                    None => None,
                }
            },
            None => {
                assert(wakers@ =~= old(wakers)@ + Seq::<Waker>::empty());
                None
            },
        }
    }

    /// Readies the reactor for polling: processes ready timers, computes the timeout for blocking
    /// on I/O events and begins a new tick.
    pub fn prepare_for_polling(
        &mut self,
        timeout: Option<Duration>,
        now: Instant,
        wakers: &mut Vec<Waker>,
    ) -> (prepared: (Option<Duration>, usize))
        requires
            old(self).wf(),
        ensures
            final(self).wf(),
            prepared.0
                == timer::shorter_timeout(timer::until_first(old(self)@.timers.timers, now), timeout),
            prepared.1 == timer::wrapping_succ(old(self)@.timers.ticker),
            final(wakers)@ == old(wakers)@ + timer::due_wakers(old(self)@.timers.timers, now),
            final(self)@ == (ReactorView {
                timers: TimersView {
                    timers: timer::pending_timers(old(self)@.timers.timers, now),
                    ticker: prepared.1,
                    ..old(self)@.timers
                },
                ..old(self)@
            }),
    {
        // Process ready timers, and compute the timeout for blocking on I/O events.
        let timeout = self.timers.timeout_duration(now, timeout, wakers);
        // Bump the ticker before polling I/O.
        let tick = self.timers.bump_ticker();
        (timeout, tick)
    }

    /// Processes ready timers and extends the list of wakers to wake.
    pub fn process_timers(&mut self, now: Instant, wakers: &mut Vec<Waker>) -> (until: Option<
        Duration,
    >)
        requires
            old(self).wf(),
        ensures
            final(self).wf(),
            until == timer::until_first(old(self)@.timers.timers, now),
            final(wakers)@ == old(wakers)@ + timer::due_wakers(old(self)@.timers.timers, now),
            final(self)@ == (ReactorView {
                timers: TimersView {
                    timers: timer::pending_timers(old(self)@.timers.timers, now),
                    ..old(self)@.timers
                },
                ..old(self)@
            }),
    {
        self.timers.process_timers(now, wakers)
    }
}

/// What a round of polling asks for next.
#[derive(Debug, PartialEq, Eq)]
pub enum PumpStep<E> {
    /// No event occurred before the timeout: read the clock to fire the timers that are ready.
    ReadClock,
    /// Register the interest in a source again.
    Modify(Registration, Event),
    /// The round has ended.
    Done(Result<(), E>),
}

/// What a lock on the reactor holds.
pub struct LockView {
    /// The events of the current round that have not been delivered yet.
    pub events: Seq<Event>,
    /// The tick of the current round.
    pub tick: usize,
    /// The timeout of the current round.
    pub timeout: Option<Duration>,
    /// The tasks to wake when the round has ended.
    pub wakers: Seq<Waker>,
}

/// A lock on the reactor: the exclusive right to poll, and what a round of polling gathers.
#[derive(Debug)]
pub struct ReactorLock {
    /// Events of the current round.
    events: Vec<Event>,
    /// How many of the events have been delivered.
    delivered: usize,
    /// The tick of the current round.
    tick: usize,
    /// The timeout of the current round.
    timeout: Option<Duration>,
    /// The tasks to wake when the round has ended.
    wakers: Vec<Waker>,
}

impl View for ReactorLock {
    type V = LockView;

    closed spec fn view(&self) -> LockView {
        LockView {
            events: self.events@.skip(self.delivered as int),
            tick: self.tick,
            timeout: self.timeout,
            wakers: self.wakers@,
        }
    }
}

impl ReactorLock {
    /// No more events have been delivered than there are.
    pub closed spec fn wf(&self) -> bool {
        self.delivered <= self.events@.len()
    }

    /// Begins a round of polling.
    ///
    /// The lock tells the timeout to wait with. What waiting gives goes to `pump_events`.
    pub fn react(reactor: &mut Reactor, timeout: Option<Duration>, now: Instant) -> (lock:
        ReactorLock)
        requires
            old(reactor).wf(),
        ensures
            final(reactor).wf(),
            lock.wf(),
            lock@ == (LockView {
                events: Seq::empty(),
                tick: timer::wrapping_succ(old(reactor)@.timers.ticker),
                timeout: timer::shorter_timeout(timer::until_first(old(reactor)@.timers.timers, now), timeout),
                wakers: timer::due_wakers(old(reactor)@.timers.timers, now),
            }),
            final(reactor)@ == (ReactorView {
                timers: TimersView {
                    timers: timer::pending_timers(old(reactor)@.timers.timers, now),
                    ticker: lock@.tick,
                    ..old(reactor)@.timers
                },
                ..old(reactor)@
            }),
    {
        let mut wakers: Vec<Waker> = Vec::new();
        let (timeout, tick) = reactor.prepare_for_polling(timeout, now, &mut wakers);
        let lock = ReactorLock { events: Vec::new(), delivered: 0, tick, timeout, wakers };
        assert(lock@.events =~= Seq::empty());
        assert(lock@.wakers =~= timer::due_wakers(old(reactor)@.timers.timers, now));
        lock
    }

    /// Returns the timeout to wait with.
    pub fn timeout(&self) -> (timeout: Option<Duration>)
        ensures
            timeout == self@.timeout,
    {
        self.timeout
    }

    /// Takes up what waiting for events with the given timeout has given.
    ///
    /// If no event occurred, ready timers are to be fired unless the timeout was zero. If the wait
    /// was interrupted, the round ends; any other error is the result of the round.
    pub fn pump_events<E>(
        &mut self,
        reactor: &mut Reactor,
        timeout: Option<Duration>,
        waited: Result<Vec<Event>, Error<E>>,
    ) -> (step: PumpStep<E>)
        requires
            old(self).wf(),
            old(reactor).wf(),
        ensures
            final(self).wf(),
            final(reactor).wf(),
            match waited {
                Ok(events) => if events@.len() == 0 {
                    &&& step == if timeout == Some(Duration { nanos: 0 }) {
                        PumpStep::Done(Ok::<(), E>(()))
                    } else {
                        PumpStep::ReadClock
                    }
                    &&& final(self)@ == (LockView { events: Seq::empty(), ..old(self)@ })
                    &&& final(reactor)@ == old(reactor)@
                } else {
                    run_delivered(
                        LockView { events: events@, ..old(self)@ },
                        old(reactor)@,
                        final(self)@,
                        final(reactor)@,
                        step,
                    )
                },
                Err(err) => {
                    &&& step == PumpStep::Done(
                        if err.kind == ErrorKind::Interrupted {
                            Ok(())
                        } else {
                            Err(err.error)
                        },
                    )
                    &&& final(self)@ == old(self)@
                    &&& final(reactor)@ == old(reactor)@
                },
            },
    {
        match waited {
            // No I/O events occurred, or at least one did.
            Ok(events) => {
                self.events = events;
                self.delivered = 0;
                assert(self@.events =~= events@);
                if self.events.len() == 0 {
                    assert(self@.events =~= Seq::<Event>::empty());
                    match timeout {
                        Some(timeout) => {
                            if timeout.nanos == 0 {
                                return PumpStep::Done(Ok(()));
                            }
                        },
                        None => {},
                    }
                    // The non-zero timeout was hit so fire ready timers.
                    PumpStep::ReadClock
                } else {
                    self.deliver_run(reactor)
                }
            },
            Err(err) => {
                // The system call was interrupted, or an actual error occurred.
                if err.kind == ErrorKind::Interrupted {
                    PumpStep::Done(Ok(()))
                } else {
                    PumpStep::Done(Err(err.error))
                }
            },
        }
    }

    /// Fires the timers that are ready now that the timeout was hit.
    pub fn fire_timers(&mut self, reactor: &mut Reactor, now: Instant)
        requires
            old(self).wf(),
            old(reactor).wf(),
        ensures
            final(self).wf(),
            final(reactor).wf(),
            final(self)@ == (LockView {
                wakers: old(self)@.wakers + timer::due_wakers(old(reactor)@.timers.timers, now),
                ..old(self)@
            }),
            final(reactor)@ == (ReactorView {
                timers: TimersView {
                    timers: timer::pending_timers(old(reactor)@.timers.timers, now),
                    ..old(reactor)@.timers
                },
                ..old(reactor)@
            }),
    {
        let _ = reactor.process_timers(now, &mut self.wakers);
    }

    /// Goes on delivering events once an interest has been registered again, unless that failed.
    pub fn modified<E>(&mut self, reactor: &mut Reactor, modified: Result<(), E>) -> (step: PumpStep<
        E,
    >)
        requires
            old(self).wf(),
            old(reactor).wf(),
        ensures
            final(self).wf(),
            final(reactor).wf(),
            match modified {
                Err(err) => {
                    &&& step == PumpStep::Done(Err::<(), E>(err))
                    &&& final(self)@ == old(self)@
                    &&& final(reactor)@ == old(reactor)@
                },
                Ok(_) => run_delivered(
                    old(self)@,
                    old(reactor)@,
                    final(self)@,
                    final(reactor)@,
                    step,
                ),
            },
    {
        match modified {
            Err(err) => PumpStep::Done(Err(err)),
            Ok(()) => self.deliver_run(reactor),
        }
    }

    /// Delivers events until the interest in a source has to be registered again, or all have been
    /// delivered.
    fn deliver_run<E>(&mut self, reactor: &mut Reactor) -> (step: PumpStep<E>)
        requires
            old(self).wf(),
            old(reactor).wf(),
        ensures
            final(self).wf(),
            final(reactor).wf(),
            run_delivered(old(self)@, old(reactor)@, final(self)@, final(reactor)@, step),
    {
        let ghost start = self@;
        let ghost before = reactor@;
        let mut count: usize = 0;
        assert(start.events.take(0) =~= Seq::<Event>::empty());
        assert(start.events.skip(0) =~= start.events);
        while self.delivered < self.events.len()
            invariant
                self.wf(),
                reactor.wf(),
                start == old(self)@,
                before == old(reactor)@,
                self.delivered - count == old(self).delivered,
                self.events@ == old(self).events@,
                start.events == self.events@.skip(old(self).delivered as int),
                self@ == (LockView {
                    events: start.events.skip(count as int),
                    wakers: start.wakers + all_woken(
                        before.sources,
                        start.events.take(count as int),
                        start.tick,
                    ),
                    ..start
                }),
                reactor@ == (ReactorView {
                    sources: all_delivered(
                        before.sources,
                        start.events.take(count as int),
                        start.tick,
                    ),
                    ..before
                }),
                run_length(before.sources, start.events, start.tick) == count + run_length(
                    reactor@.sources,
                    self@.events,
                    start.tick,
                ),
                run_interest(before.sources, start.events, start.tick) == run_interest(
                    reactor@.sources,
                    self@.events,
                    start.tick,
                ),
            decreases self.events@.len() - self.delivered,
        {
            let event = self.events[self.delivered];
            let ghost prior = self@;
            let ghost sources = reactor@.sources;
            proof {
                assert(prior.events.len() > 0);
                assert(prior.events[0] == event);
                assert(start.events[count as int] == event);
                lemma_delivered_push(before.sources, start.events, count as int, start.tick);
                assert(prior.events.drop_first() =~= start.events.skip(count + 1));
            }
            let modify = reactor.deliver_event(event, self.tick, &mut self.wakers);
            self.delivered = self.delivered + 1;
            count = count + 1;
            proof {
                assert(self@.events =~= start.events.skip(count as int));
                assert(self@.wakers =~= start.wakers + all_woken(
                    before.sources,
                    start.events.take(count as int),
                    start.tick,
                ));
            }
            match modify {
                Some((raw, interest)) => {
                    return PumpStep::Modify(raw, interest);
                },
                None => {},
            }
        }
        assert(start.events.take(count as int) =~= start.events);
        assert(self@.events =~= Seq::<Event>::empty());
        PumpStep::Done(Ok(()))
    }

    /// Returns the list of tasks to wake.
    pub(crate) fn wakers_mut(&mut self) -> (wakers: &mut Vec<Waker>)
        requires
            old(self).wf(),
        ensures
            wakers@ == old(self)@.wakers,
            final(self).wf(),
            final(self)@ == (LockView { wakers: final(wakers)@, ..old(self)@ }),
    {
        &mut self.wakers
    }

    /// Ends the round and returns the tasks to wake.
    pub fn into_wakers(self) -> (wakers: Vec<Waker>)
        ensures
            wakers@ == self@.wakers,
    {
        self.wakers
    }
}

/// What happens when a run of events is delivered: the run is as long as `run_length` says, its
/// tasks are gathered, and the next step is to register the interest that it leaves, or the end of
/// the round if it leaves none.
pub open spec fn run_delivered<E>(
    lock: LockView,
    reactor: ReactorView,
    lock_after: LockView,
    reactor_after: ReactorView,
    step: PumpStep<E>,
) -> bool {
    let length = run_length(reactor.sources, lock.events, lock.tick) as int;
    &&& lock_after == LockView {
        events: lock.events.skip(length),
        wakers: lock.wakers + all_woken(reactor.sources, lock.events.take(length), lock.tick),
        ..lock
    }
    &&& reactor_after == ReactorView {
        sources: all_delivered(reactor.sources, lock.events.take(length), lock.tick),
        ..reactor
    }
    &&& step == match run_interest(reactor.sources, lock.events, lock.tick) {
        Some((raw, interest)) => PumpStep::Modify(raw, interest),
        None => PumpStep::Done(Ok::<(), E>(())),
    }
}

/// Delivering one more event extends what has been delivered and woken by that event.
proof fn lemma_delivered_push(
    sources: Map<usize, SourceView>,
    events: Seq<Event>,
    count: int,
    tick: usize,
)
    requires
        0 <= count < events.len(),
    ensures
        ({
            let so_far = all_delivered(sources, events.take(count), tick);
            &&& all_delivered(sources, events.take(count + 1), tick) == event_delivered(
                so_far,
                events[count],
                tick,
            )
            &&& all_woken(sources, events.take(count + 1), tick) == all_woken(
                sources,
                events.take(count),
                tick,
            ) + event_woken(so_far, events[count])
        }),
    decreases count,
{
    let longer = events.take(count + 1);
    let shorter = events.take(count);
    if count == 0 {
        assert(shorter =~= Seq::<Event>::empty());
        assert(longer.drop_first() =~= Seq::<Event>::empty());
        assert(longer[0] == events[0]);
        reveal_with_fuel(all_delivered, 2);
        reveal_with_fuel(all_woken, 2);
        assert(event_woken(sources, events[0]) + Seq::<Waker>::empty() =~= Seq::<Waker>::empty()
            + event_woken(sources, events[0]));
    } else {
        let rest = events.drop_first();
        let next = event_delivered(sources, events[0], tick);
        lemma_delivered_push(next, rest, count - 1, tick);
        assert(longer.drop_first() =~= rest.take(count));
        assert(shorter.drop_first() =~= rest.take(count - 1));
        assert(longer[0] == events[0] && shorter[0] == events[0]);
        assert(rest[count - 1] == events[count]);
        let so_far = all_delivered(sources, shorter, tick);
        assert(event_woken(sources, events[0]) + (all_woken(next, rest.take(count - 1), tick)
            + event_woken(so_far, events[count])) =~= (event_woken(sources, events[0]) + all_woken(
            next,
            rest.take(count - 1),
            tick,
        )) + event_woken(so_far, events[count]));
    }
}

/// A reactor holds finitely many timers.
pub proof fn law_timers_are_finite(reactor: Reactor)
    requires
        reactor.wf(),
    ensures
        reactor@.timers.timers.dom().finite(),
{
    timer::law_timers_are_finite(reactor.timers);
}

/// Delivering events in two portions is the same as delivering them all: a round that pauses to
/// register an interest loses no event and no task.
pub proof fn law_delivery_resumes(
    sources: Map<usize, SourceView>,
    events: Seq<Event>,
    count: int,
    tick: usize,
)
    requires
        0 <= count <= events.len(),
    ensures
        ({
            let so_far = all_delivered(sources, events.take(count), tick);
            &&& all_delivered(sources, events, tick) == all_delivered(
                so_far,
                events.skip(count),
                tick,
            )
            &&& all_woken(sources, events, tick) == all_woken(sources, events.take(count), tick)
                + all_woken(so_far, events.skip(count), tick)
        }),
    decreases count,
{
    if count == 0 {
        assert(events.take(0) =~= Seq::<Event>::empty());
        assert(events.skip(0) =~= events);
        assert(Seq::<Waker>::empty() + all_woken(sources, events, tick) =~= all_woken(
            sources,
            events,
            tick,
        ));
    } else {
        let rest = events.drop_first();
        let next = event_delivered(sources, events[0], tick);
        law_delivery_resumes(next, rest, count - 1, tick);
        assert(events.take(count).drop_first() =~= rest.take(count - 1));
        assert(events.take(count)[0] == events[0]);
        assert(events.skip(count) =~= rest.skip(count - 1));
        let so_far = all_delivered(next, rest.take(count - 1), tick);
        assert(event_woken(sources, events[0]) + (all_woken(next, rest.take(count - 1), tick)
            + all_woken(so_far, rest.skip(count - 1), tick)) =~= (event_woken(sources, events[0])
            + all_woken(next, rest.take(count - 1), tick)) + all_woken(
            so_far,
            rest.skip(count - 1),
            tick,
        ));
    }
}

/// A round of polling makes progress: a run delivers at least one event if there is one, and no
/// more than there are. If it asks for no interest to be registered, it has delivered them all.
pub proof fn law_round_makes_progress(
    sources: Map<usize, SourceView>,
    events: Seq<Event>,
    tick: usize,
)
    ensures
        run_length(sources, events, tick) <= events.len(),
        events.len() > 0 ==> run_length(sources, events, tick) > 0,
        run_interest(sources, events, tick) is None ==> run_length(sources, events, tick)
            == events.len(),
    decreases events.len(),
{
    if events.len() > 0 {
        law_round_makes_progress(
            event_delivered(sources, events[0], tick),
            events.drop_first(),
            tick,
        );
    }
}

/// No task is forgotten: a task that waits for a source when events are delivered is woken, or
/// waits for that source still.
pub proof fn law_no_task_is_forgotten(
    sources: Map<usize, SourceView>,
    events: Seq<Event>,
    tick: usize,
    key: usize,
    dir: Dir,
    waker: Waker,
)
    requires
        sources.contains_key(key),
        sources[key].dir(dir).waiting().contains(waker),
    ensures
        all_delivered(sources, events, tick).contains_key(key),
        all_woken(sources, events, tick).contains(waker) || all_delivered(
            sources,
            events,
            tick,
        )[key].dir(dir).waiting().contains(waker),
    decreases events.len(),
{
    if events.len() > 0 {
        let event = events[0];
        let next = event_delivered(sources, event, tick);
        let first = event_woken(sources, event);
        let later = all_woken(next, events.drop_first(), tick);
        source::law_event_wakes_its_direction(sources[key], event, tick, waker);
        if next[key].dir(dir).waiting().contains(waker) {
            law_no_task_is_forgotten(next, events.drop_first(), tick, key, dir, waker);
            if later.contains(waker) {
                let i = choose|i: int| 0 <= i < later.len() && later[i] == waker;
                assert((first + later)[first.len() + i] == waker);
            }
        } else {
            assert(first.contains(waker));
            let i = choose|i: int| 0 <= i < first.len() && first[i] == waker;
            assert((first + later)[i] == waker);
            lemma_keys_kept(sources, events, tick);
        }
    }
}

/// Delivering events neither adds nor removes sources.
proof fn lemma_keys_kept(sources: Map<usize, SourceView>, events: Seq<Event>, tick: usize)
    ensures
        all_delivered(sources, events, tick).dom() == sources.dom(),
    decreases events.len(),
{
    if events.len() > 0 {
        let next = event_delivered(sources, events[0], tick);
        lemma_keys_kept(next, events.drop_first(), tick);
        assert(next.dom() =~= sources.dom());
    }
}

/// Events leave the sources they do not concern as they are.
pub proof fn law_other_sources_are_left_alone(
    sources: Map<usize, SourceView>,
    events: Seq<Event>,
    tick: usize,
    key: usize,
)
    requires
        forall|i: int| 0 <= i < events.len() ==> (#[trigger] events[i]).key != key,
    ensures
        all_delivered(sources, events, tick).contains_key(key) == sources.contains_key(key),
        sources.contains_key(key) ==> all_delivered(sources, events, tick)[key] == sources[key],
    decreases events.len(),
{
    if events.len() > 0 {
        assert(events[0].key != key);
        let rest = events.drop_first();
        assert forall|i: int| 0 <= i < rest.len() implies (#[trigger] rest[i]).key != key by {
            assert(rest[i] == events[i + 1]);
        }
        law_other_sources_are_left_alone(
            event_delivered(sources, events[0], tick),
            rest,
            tick,
            key,
        );
    }
}

/// Whether the poller watches every direction of every source that a task waits for.
///
/// `armed` holds the interest that the poller has registered for each source.
pub open spec fn all_watched(sources: Map<usize, SourceView>, armed: Map<usize, Event>) -> bool {
    forall|key: usize| #[trigger]
        sources.contains_key(key) ==> source::is_watched(sources[key], armed[key])
}

/// The interests that the poller has registered after it has reported events: it stops watching
/// each source that it reports.
pub open spec fn disarmed(armed: Map<usize, Event>, events: Seq<Event>) -> Map<usize, Event>
    decreases events.len(),
{
    if events.len() == 0 {
        armed
    } else {
        disarmed(armed, events.drop_last()).insert(
            events.last().key,
            Event { readable: false, writable: false, key: events.last().key },
        )
    }
}

/// The interests that the poller has registered after the events have been delivered and every
/// interest that they leave has been registered again.
pub open spec fn all_rearmed(
    sources: Map<usize, SourceView>,
    armed: Map<usize, Event>,
    events: Seq<Event>,
    tick: usize,
) -> Map<usize, Event>
    decreases events.len(),
{
    if events.len() == 0 {
        armed
    } else {
        let next = match event_interest(sources, events[0], tick) {
            Some((raw, interest)) => armed.insert(events[0].key, interest),
            None => armed,
        };
        all_rearmed(
            event_delivered(sources, events[0], tick),
            next,
            events.drop_first(),
            tick,
        )
    }
}

/// A round of polling leaves every waiting task watched: if the poller watched all of them before
/// it reported the events, it watches all of them again once the round has ended without an error.
pub proof fn law_round_leaves_all_watched(
    sources: Map<usize, SourceView>,
    armed: Map<usize, Event>,
    events: Seq<Event>,
    tick: usize,
)
    requires
        all_watched(sources, armed),
    ensures
        all_watched(
            all_delivered(sources, events, tick),
            all_rearmed(sources, disarmed(armed, events), events, tick),
        ),
{
    let start = disarmed(armed, events);
    assert forall|key: usize| #[trigger] sources.contains_key(key) implies source::is_watched(
        sources[key],
        start[key],
    ) || is_reported(events, key) by {
        lemma_disarmed(armed, events, key);
    }
    lemma_round(sources, start, events, tick);
}

/// Whether one of the events concerns the source with the given key.
pub open spec fn is_reported(events: Seq<Event>, key: usize) -> bool {
    exists|i: int| 0 <= i < events.len() && (#[trigger] events[i]).key == key
}

/// What the poller has registered for one source after it has reported events.
proof fn lemma_disarmed(armed: Map<usize, Event>, events: Seq<Event>, key: usize)
    ensures
        disarmed(armed, events)[key] == if is_reported(events, key) {
            Event { readable: false, writable: false, key }
        } else {
            armed[key]
        },
    decreases events.len(),
{
    if events.len() > 0 {
        let rest = events.drop_last();
        lemma_disarmed(armed, rest, key);
        if is_reported(rest, key) {
            let i = choose|i: int| 0 <= i < rest.len() && (#[trigger] rest[i]).key == key;
            assert(events[i].key == key);
        }
        if is_reported(events, key) && events.last().key != key {
            let i = choose|i: int| 0 <= i < events.len() && (#[trigger] events[i]).key == key;
            assert(rest[i].key == key);
        }
        if events.last().key == key {
            assert(events[events.len() - 1].key == key);
        }
    }
}

/// Delivering the events that are left watches the sources again that they have disarmed.
proof fn lemma_round(
    sources: Map<usize, SourceView>,
    armed: Map<usize, Event>,
    events: Seq<Event>,
    tick: usize,
)
    requires
        forall|key: usize| #[trigger]
            sources.contains_key(key) ==> source::is_watched(sources[key], armed[key])
                || is_reported(events, key),
    ensures
        all_watched(
            all_delivered(sources, events, tick),
            all_rearmed(sources, armed, events, tick),
        ),
    decreases events.len(),
{
    if events.len() > 0 {
        let event = events[0];
        let rest = events.drop_first();
        let next = event_delivered(sources, event, tick);
        let next_armed = match event_interest(sources, event, tick) {
            Some((raw, interest)) => armed.insert(event.key, interest),
            None => armed,
        };
        assert forall|key: usize| #[trigger] next.contains_key(key) implies source::is_watched(
            next[key],
            next_armed[key],
        ) || is_reported(rest, key) by {
            assert(sources.contains_key(key));
            if key != event.key && is_reported(events, key) {
                let i = choose|i: int| 0 <= i < events.len() && (#[trigger] events[i]).key == key;
                assert(rest[i - 1].key == key);
            }
        }
        lemma_round(next, next_armed, rest, tick);
    } else {
        assert forall|key: usize| #[trigger] sources.contains_key(key) implies source::is_watched(
            sources[key],
            armed[key],
        ) by {
            assert(!is_reported(events, key));
        }
    }
}

/// A new reactor has no timers and no sources, and has not polled.
pub proof fn law_new_reactor_is_empty(
    reactor: Reactor,
    timers: timer::Reactor,
    ticker: usize,
    key: usize,
)
    requires
        call_ensures(Reactor::new, (), reactor),
        call_ensures(timer::Reactor::new, (), timers),
        call_ensures(Reactor::ticker, (&reactor,), ticker),
    ensures
        reactor@.timers == timers@,
        !reactor@.sources.contains_key(key),
        ticker == 0,
{
}

/// What the reactor does with timers and notifications is what the part of it does that processes
/// timers, and the sources stay as they are.
pub proof fn law_timers_are_the_reactors(
    inserted: &mut Reactor,
    same1: &mut timer::Reactor,
    removed: &mut Reactor,
    same2: &mut timer::Reactor,
    at: Instant,
    waker: Waker,
    id: usize,
    ids: (usize, usize),
)
    requires
        old(inserted).wf() && old(same1).wf() && old(same1)@ == old(inserted)@.timers,
        call_ensures(Reactor::insert_timer, (inserted, at, waker), ids.0),
        call_ensures(timer::Reactor::insert_timer, (same1, at, waker), ids.1),
        old(removed).wf() && old(same2).wf() && old(same2)@ == old(removed)@.timers,
        call_ensures(Reactor::remove_timer, (removed, at, id), ()),
        call_ensures(timer::Reactor::remove_timer, (same2, at, id), ()),
    ensures
        ids.0 == ids.1,
        final(inserted)@.timers == final(same1)@,
        final(inserted)@.sources == old(inserted)@.sources,
        final(inserted)@.next_key == old(inserted)@.next_key,
        final(removed)@.timers == final(same2)@,
        final(removed)@.sources == old(removed)@.sources,
        final(removed)@.next_key == old(removed)@.next_key,
{
}

/// The same for notifications and the ticker.
pub proof fn law_notifications_are_the_reactors(
    notified: &mut Reactor,
    same1: &mut timer::Reactor,
    taken: &mut Reactor,
    same2: &mut timer::Reactor,
    had: (bool, bool),
    asked: Reactor,
    same3: timer::Reactor,
    ticks: (usize, usize),
)
    requires
        old(notified).wf() && old(same1).wf() && old(same1)@ == old(notified)@.timers,
        call_ensures(Reactor::notify, (notified,), ()),
        call_ensures(timer::Reactor::notify, (same1,), ()),
        old(taken).wf() && old(same2).wf() && old(same2)@ == old(taken)@.timers,
        call_ensures(Reactor::take_notification, (taken,), had.0),
        call_ensures(timer::Reactor::take_notification, (same2,), had.1),
        same3@ == asked@.timers,
        call_ensures(Reactor::ticker, (&asked,), ticks.0),
        call_ensures(timer::Reactor::ticker, (&same3,), ticks.1),
    ensures
        final(notified)@.timers == final(same1)@,
        final(notified)@.sources == old(notified)@.sources,
        final(notified)@.next_key == old(notified)@.next_key,
        had.0 == had.1,
        final(taken)@.timers == final(same2)@,
        final(taken)@.sources == old(taken)@.sources,
        final(taken)@.next_key == old(taken)@.next_key,
        ticks.0 == ticks.1,
{
}

/// Timers are processed and rounds of polling are prepared by the part of the reactor that processes
/// timers, and the sources stay as they are.
pub proof fn law_rounds_are_prepared_by_the_timers(
    reactor: &mut Reactor,
    timeout: Option<Duration>,
    now: Instant,
    wakers: &mut Vec<Waker>,
    prepared: (Option<Duration>, usize),
    same: &mut timer::Reactor,
    others: &mut Vec<Waker>,
    shorter: Option<Duration>,
    later: &mut timer::Reactor,
    tick: usize,
)
    requires
        old(reactor).wf() && old(same).wf() && old(later).wf(),
        old(same)@ == old(reactor)@.timers && old(others)@ == old(wakers)@,
        call_ensures(Reactor::prepare_for_polling, (reactor, timeout, now, wakers), prepared),
        call_ensures(timer::Reactor::timeout_duration, (same, now, timeout, others), shorter),
        old(later)@ == final(same)@,
        call_ensures(timer::Reactor::bump_ticker, (later,), tick),
    ensures
        prepared == (shorter, tick),
        final(wakers)@ == final(others)@,
        final(reactor)@.timers == final(later)@,
        final(reactor)@.sources == old(reactor)@.sources,
        final(reactor)@.next_key == old(reactor)@.next_key,
{
}

/// Processing the timers of the reactor, or firing those that are due at the end of a round, is what
/// processing timers is in the part of the reactor that does so.
pub proof fn law_timers_are_processed_alike(
    reactor: &mut Reactor,
    now: Instant,
    wakers: &mut Vec<Waker>,
    until: (Option<Duration>, Option<Duration>),
    same: &mut timer::Reactor,
    others: &mut Vec<Waker>,
    lock: &mut ReactorLock,
    third: &mut Reactor,
)
    requires
        old(reactor).wf() && old(same).wf() && old(third).wf() && old(lock).wf(),
        old(same)@ == old(reactor)@.timers && old(others)@ == old(wakers)@,
        old(third)@ == old(reactor)@ && old(lock)@.wakers == old(wakers)@,
        call_ensures(Reactor::process_timers, (reactor, now, wakers), until.0),
        call_ensures(timer::Reactor::process_timers, (same, now, others), until.1),
        call_ensures(ReactorLock::fire_timers, (lock, third, now), ()),
    ensures
        until.0 == until.1,
        final(wakers)@ == final(others)@,
        final(reactor)@.timers == final(same)@,
        final(reactor)@.sources == old(reactor)@.sources,
        final(reactor)@.next_key == old(reactor)@.next_key,
        final(third)@ == final(reactor)@,
        final(lock)@.wakers == final(wakers)@,
        final(lock)@.events == old(lock)@.events,
        final(lock)@.tick == old(lock)@.tick,
        final(lock)@.timeout == old(lock)@.timeout,
{
}

/// A round of polling begins as it is prepared, with the tasks of the timers that fired and without
/// events. It ends with the tasks that it has gathered.
pub proof fn law_round_of_polling_begins(
    reactor: &mut Reactor,
    timeout: Option<Duration>,
    now: Instant,
    lock: ReactorLock,
    asked: Option<Duration>,
    same: &mut Reactor,
    wakers: &mut Vec<Waker>,
    prepared: (Option<Duration>, usize),
    woken: Vec<Waker>,
)
    requires
        old(reactor).wf() && old(same).wf(),
        old(same)@ == old(reactor)@ && old(wakers)@.len() == 0,
        call_ensures(ReactorLock::react, (reactor, timeout, now), lock),
        call_ensures(ReactorLock::timeout, (&lock,), asked),
        call_ensures(Reactor::prepare_for_polling, (same, timeout, now, wakers), prepared),
        call_ensures(ReactorLock::into_wakers, (lock,), woken),
    ensures
        asked == prepared.0,
        lock@.timeout == prepared.0,
        lock@.tick == prepared.1,
        lock@.events.len() == 0,
        woken@ == lock@.wakers,
        woken@ == final(wakers)@,
        final(reactor)@ == final(same)@,
{
    let due = timer::due_wakers(old(same)@.timers.timers, now);
    assert(old(wakers)@ + due =~= due);
}

/// A source that is registered gets a key that no other source has. It is there under that key, as
/// registered, and nobody waits for it. Everything else stays as it is. If it then cannot be added to
/// the poller, the error is handed back and the reactor holds what it held before.
pub proof fn law_registered_source_is_there<E>(
    reactor: &mut Reactor,
    raw: Registration,
    key: usize,
    ended: &mut Reactor,
    added: Result<(), E>,
    registered: Result<usize, E>,
    other: usize,
)
    requires
        old(reactor).wf() && old(ended).wf(),
        call_ensures(Reactor::insert_io, (reactor, raw), key),
        old(ended)@ == final(reactor)@,
        call_ensures(Reactor::end_insert_io::<E>, (ended, key, added), registered),
    ensures
        !old(reactor)@.sources.contains_key(key),
        final(reactor)@.sources.contains_key(key),
        final(reactor)@.sources[key].raw == raw,
        final(reactor)@.sources[key].key == key,
        source::waiting_in(final(reactor)@.sources[key].read) == 0,
        source::waiting_in(final(reactor)@.sources[key].write) == 0,
        other != key ==> final(reactor)@.sources.contains_key(other)
            == old(reactor)@.sources.contains_key(other)
                && (old(reactor)@.sources.contains_key(other) ==> final(reactor)@.sources[other]
                    == old(reactor)@.sources[other]),
        final(reactor)@.timers == old(reactor)@.timers,
        match added {
            Ok(_) => registered == Ok::<usize, E>(key) && final(ended)@ == final(reactor)@,
            Err(err) => registered == Err::<usize, E>(err) && final(ended)@.sources
                == old(reactor)@.sources && final(ended)@.timers == old(reactor)@.timers,
        },
{
    assert(old(reactor)@.sources.insert(key, SourceView::fresh(raw, key)).remove(key)
        =~= old(reactor)@.sources);
}

/// A source that is deregistered is gone, its registration is handed back to be deleted, and all
/// others stay.
pub proof fn law_deregistered_source_is_gone(
    reactor: &mut Reactor,
    key: usize,
    raw: Registration,
    other: usize,
)
    requires
        old(reactor).wf(),
        old(reactor)@.sources.contains_key(key),
        call_ensures(Reactor::remove_io, (reactor, key), raw),
    ensures
        raw == old(reactor)@.sources[key].raw,
        !final(reactor)@.sources.contains_key(key),
        other != key ==> final(reactor)@.sources.contains_key(other)
            == old(reactor)@.sources.contains_key(other)
                && (old(reactor)@.sources.contains_key(other) ==> final(reactor)@.sources[other]
                    == old(reactor)@.sources[other]),
        final(reactor)@.timers == old(reactor)@.timers,
        final(reactor)@.next_key == key,
{
}

/// An event goes to the source it concerns, which does with it what it does on its own, and to no
/// other. If that source is gone, nothing happens.
pub proof fn law_event_reaches_its_source(
    reactor: &mut Reactor,
    event: Event,
    tick: usize,
    wakers: &mut Vec<Waker>,
    modify: Option<(Registration, Event)>,
    source: &mut Source,
    others: &mut Vec<Waker>,
    interest: Option<Event>,
    other: usize,
)
    requires
        old(reactor).wf(),
        call_ensures(Reactor::deliver_event, (reactor, event, tick, wakers), modify),
        old(reactor)@.sources.contains_key(event.key) ==> old(source)@
            == old(reactor)@.sources[event.key],
        old(others)@ == old(wakers)@,
        call_ensures(Source::deliver, (source, event, tick, others), interest),
    ensures
        final(reactor)@.sources.dom() == old(reactor)@.sources.dom(),
        old(reactor)@.sources.contains_key(event.key) ==> {
            &&& final(reactor)@.sources[event.key] == final(source)@
            &&& final(wakers)@ == final(others)@
            &&& match modify {
                Some((raw, event)) => raw == old(source)@.raw && interest == Some(event),
                None => interest is None,
            }
        },
        !old(reactor)@.sources.contains_key(event.key) ==> final(wakers)@ == old(wakers)@ && modify
            is None,
        other != event.key && old(reactor)@.sources.contains_key(other)
            ==> final(reactor)@.sources[other] == old(reactor)@.sources[other],
        final(reactor)@.timers == old(reactor)@.timers,
        final(reactor)@.next_key == old(reactor)@.next_key,
{
    assert(final(reactor)@.sources.dom() =~= old(reactor)@.sources.dom());
}

/// Events are delivered one by one: a run of them begins with the delivery of the first. If that asks
/// for an interest to be registered, the run pauses for it, and otherwise goes on with the others.
pub proof fn law_events_are_delivered_one_by_one<E>(
    lock: &mut ReactorLock,
    reactor: &mut Reactor,
    step: PumpStep<E>,
    first: &mut Reactor,
    wakers: &mut Vec<Waker>,
    modify: Option<(Registration, Event)>,
    rest: &mut ReactorLock,
    later: &mut Reactor,
    next: PumpStep<E>,
)
    requires
        old(lock).wf() && old(reactor).wf() && old(first).wf() && old(rest).wf() && old(later).wf(),
        old(lock)@.events.len() > 0,
        call_ensures(ReactorLock::modified::<E>, (lock, reactor, Ok(())), step),
        old(first)@ == old(reactor)@ && old(wakers)@ == old(lock)@.wakers,
        call_ensures(
            Reactor::deliver_event,
            (first, old(lock)@.events[0], old(lock)@.tick, wakers),
            modify,
        ),
        old(rest)@.events == old(lock)@.events.skip(1),
        old(rest)@.tick == old(lock)@.tick && old(rest)@.timeout == old(lock)@.timeout,
        old(rest)@.wakers == final(wakers)@,
        old(later)@ == final(first)@,
        call_ensures(ReactorLock::modified::<E>, (rest, later, Ok(())), next),
    ensures
        match modify {
            Some((raw, interest)) => {
                &&& step == PumpStep::<E>::Modify(raw, interest)
                &&& final(lock)@ == old(rest)@
                &&& final(reactor)@ == final(first)@
            },
            None => {
                &&& step == next
                &&& final(lock)@ == final(rest)@
                &&& final(reactor)@ == final(later)@
            },
        },
{
    let start = old(lock)@;
    let before = old(reactor)@.sources;
    let tick = start.tick;
    let others = start.events.skip(1);
    let after = event_delivered(before, start.events[0], tick);
    let length = run_length(before, start.events, tick) as int;
    assert(start.events.drop_first() =~= others);
    law_round_makes_progress(before, start.events, tick);
    if modify is None {
        let shorter = run_length(after, others, tick) as int;
        law_round_makes_progress(after, others, tick);
        assert(length == 1 + shorter);
        assert(start.events.skip(length) =~= others.skip(shorter));
        assert(start.events.take(length).drop_first() =~= others.take(shorter));
        assert(start.events.take(length)[0] == start.events[0]);
        let woken = event_woken(before, start.events[0]);
        let later_woken = all_woken(after, others.take(shorter), tick);
        assert(start.wakers + (woken + later_woken) =~= (start.wakers + woken) + later_woken);
    } else {
        assert(length == 1);
        reveal_with_fuel(all_delivered, 2);
        reveal_with_fuel(all_woken, 2);
        let one = start.events.take(1);
        assert(one[0] == start.events[0]);
        assert(one.drop_first() =~= Seq::<Event>::empty());
        let woken = event_woken(before, start.events[0]);
        assert(woken + Seq::<Waker>::empty() =~= woken);
    }
}

/// Once there are no events left the round ends well and nothing changes. If an interest could not be
/// registered, the round ends with the error, and nothing is delivered.
pub proof fn law_round_of_polling_ends<E>(
    lock: &mut ReactorLock,
    reactor: &mut Reactor,
    modified: Result<(), E>,
    step: PumpStep<E>,
)
    requires
        old(lock).wf() && old(reactor).wf(),
        modified is Err || old(lock)@.events.len() == 0,
        call_ensures(ReactorLock::modified::<E>, (lock, reactor, modified), step),
    ensures
        match modified {
            Ok(_) => step == PumpStep::Done(Ok::<(), E>(())),
            Err(err) => step == PumpStep::Done(Err::<(), E>(err)),
        },
        final(reactor)@ == old(reactor)@,
        final(lock)@.wakers == old(lock)@.wakers,
        final(lock)@.events == old(lock)@.events,
        final(lock)@.tick == old(lock)@.tick,
        final(lock)@.timeout == old(lock)@.timeout,
{
    let events = old(lock)@.events;
    if modified is Ok {
        assert(events.skip(0) =~= events);
        assert(events.take(0) =~= events);
        assert(old(lock)@.wakers + Seq::<Waker>::empty() =~= old(lock)@.wakers);
    }
}

/// What waiting gives is taken up: events are delivered as any events of a round are. If there are
/// none, the timeout was hit, and unless it was zero timers may be due. An interrupted wait ends the
/// round well, and any other error ends it with that error.
pub proof fn law_waits_are_judged<E>(
    lock: &mut ReactorLock,
    reactor: &mut Reactor,
    timeout: Option<Duration>,
    waited: Result<Vec<Event>, Error<E>>,
    step: PumpStep<E>,
    same: &mut ReactorLock,
    other: &mut Reactor,
    next: PumpStep<E>,
)
    requires
        old(lock).wf() && old(reactor).wf() && old(same).wf() && old(other).wf(),
        call_ensures(ReactorLock::pump_events::<E>, (lock, reactor, timeout, waited), step),
        waited matches Ok(events) ==> old(same)@.events == events@,
        old(same)@.tick == old(lock)@.tick && old(same)@.timeout == old(lock)@.timeout,
        old(same)@.wakers == old(lock)@.wakers && old(other)@ == old(reactor)@,
        call_ensures(ReactorLock::modified::<E>, (same, other, Ok(())), next),
    ensures
        match waited {
            Ok(events) => if events@.len() > 0 {
                step == next && final(lock)@ == final(same)@ && final(reactor)@ == final(other)@
            } else {
                &&& step is ReadClock <==> !(timeout matches Some(time) && time.nanos == 0)
                &&& step is ReadClock || step == PumpStep::Done(Ok::<(), E>(()))
                &&& final(reactor)@ == old(reactor)@
                &&& final(lock)@.events.len() == 0
                &&& final(lock)@.wakers == old(lock)@.wakers
                &&& final(lock)@.tick == old(lock)@.tick
                &&& final(lock)@.timeout == old(lock)@.timeout
            },
            Err(err) => {
                &&& err.kind == ErrorKind::Interrupted ==> step == PumpStep::Done(Ok::<(), E>(()))
                &&& err.kind != ErrorKind::Interrupted ==> step == PumpStep::Done(
                    Err::<(), E>(err.error),
                )
                &&& final(lock)@ == old(lock)@
                &&& final(reactor)@ == old(reactor)@
            },
        },
{
    if let Ok(events) = waited {
        assert(old(same)@ == (LockView { events: events@, ..old(lock)@ }));
    }
}

/// Whether an event is for a direction of the source with the given key.
pub open spec fn reports(event: Event, key: usize, dir: Dir) -> bool {
    &&& event.key == key
    &&& dir == Dir::Read ==> event.readable
    &&& dir == Dir::Write ==> event.writable
}

/// A round leaves its tick in every direction for which an event was delivered, and nobody waits
/// there any more: all who waited are woken. The other directions stay as they are.
pub proof fn law_round_leaves_its_tick<E>(
    lock: &mut ReactorLock,
    reactor: &mut Reactor,
    step: PumpStep<E>,
    key: usize,
    dir: Dir,
    waker: Waker,
)
    requires
        old(lock).wf() && old(reactor).wf(),
        call_ensures(ReactorLock::modified::<E>, (lock, reactor, Ok(())), step),
        old(reactor)@.sources.contains_key(key),
    ensures
        final(reactor)@.sources.contains_key(key),
        step is Done ==> final(lock)@.events.len() == 0,
        old(lock)@.events.len() > 0 ==> final(lock)@.events.len() < old(lock)@.events.len(),
        ({
            let events = old(lock)@.events;
            let delivered = events.len() - final(lock)@.events.len();
            let before = old(reactor)@.sources[key].dir(dir);
            let after = final(reactor)@.sources[key].dir(dir);
            &&& final(lock)@.events == events.skip(delivered)
            &&& if exists|i: int| 0 <= i < delivered && reports(#[trigger] events[i], key, dir) {
                &&& after.tick == old(lock)@.tick
                &&& source::waiting_in(after) == 0
                &&& after.ticks == before.ticks
                &&& source::waits_in(before, waker) ==> final(lock)@.wakers.contains(waker)
            } else {
                after == before
            }
        }),
{
    let start = old(lock)@;
    let sources = old(reactor)@.sources;
    let length = run_length(sources, start.events, start.tick) as int;
    law_round_makes_progress(sources, start.events, start.tick);
    let run = start.events.take(length);
    assert(start.events.skip(length).len() == start.events.len() - length);
    lemma_ticks_left(sources, run, start.tick, key, dir, waker);
    assert forall|i: int| 0 <= i < length implies #[trigger] run[i] == start.events[i] by {}
    if exists|i: int| 0 <= i < length && reports(#[trigger] start.events[i], key, dir) {
        let i = choose|i: int| 0 <= i < length && reports(#[trigger] start.events[i], key, dir);
        assert(reports(run[i], key, dir));
        let woken = all_woken(sources, run, start.tick);
        if source::waits_in(sources[key].dir(dir), waker) {
            let j = choose|j: int| 0 <= j < woken.len() && woken[j] == waker;
            assert(final(lock)@.wakers[start.wakers.len() + j] == waker);
        }
    }
}

/// What events leave of a direction, and that its tasks are woken.
proof fn lemma_ticks_left(
    sources: Map<usize, SourceView>,
    events: Seq<Event>,
    tick: usize,
    key: usize,
    dir: Dir,
    waker: Waker,
)
    requires
        sources.contains_key(key),
    ensures
        all_delivered(sources, events, tick).contains_key(key),
        ({
            let before = sources[key].dir(dir);
            let after = all_delivered(sources, events, tick)[key].dir(dir);
            if exists|i: int| 0 <= i < events.len() && reports(#[trigger] events[i], key, dir) {
                &&& after.tick == tick
                &&& source::waiting_in(after) == 0
                &&& after.ticks == before.ticks
                &&& source::waits_in(before, waker) ==> all_woken(sources, events, tick).contains(
                    waker,
                )
            } else {
                after == before
            }
        }),
    decreases events.len(),
{
    if events.len() > 0 {
        let event = events[0];
        let rest = events.drop_first();
        let next = event_delivered(sources, event, tick);
        lemma_ticks_left(next, rest, tick, key, dir, waker);
        let before = sources[key].dir(dir);
        let first = event_woken(sources, event);
        let later = all_woken(next, rest, tick);
        assert(all_woken(sources, events, tick) == first + later);
        if exists|i: int| 0 <= i < rest.len() && reports(#[trigger] rest[i], key, dir) {
            let i = choose|i: int| 0 <= i < rest.len() && reports(#[trigger] rest[i], key, dir);
            assert(reports(events[i + 1], key, dir));
        }
        if reports(event, key, dir) {
            assert(reports(events[0], key, dir));
            if source::waits_in(before, waker) {
                source::lemma_waits(before, waker);
                source::law_event_wakes_its_direction(sources[key], event, tick, waker);
                assert(first.contains(waker));
            }
        } else {
            assert(next[key].dir(dir) == before);
            if exists|i: int| 0 <= i < events.len() && reports(#[trigger] events[i], key, dir) {
                let i = choose|i: int|
                    0 <= i < events.len() && reports(#[trigger] events[i], key, dir);
                assert(reports(rest[i - 1], key, dir));
            }
        }
        if first.contains(waker) {
            let j = choose|j: int| 0 <= j < first.len() && first[j] == waker;
            assert((first + later)[j] == waker);
        }
        if later.contains(waker) {
            let j = choose|j: int| 0 <= j < later.len() && later[j] == waker;
            assert((first + later)[first.len() + j] == waker);
        }
    }
}

/// A source is found under its key, to be looked at or to be changed in place, exactly if it is
/// registered. Changing it leaves everything else.
pub proof fn law_source_is_found_under_its_key(
    asked: Reactor,
    key: usize,
    found: Option<&Source>,
    reactor: &mut Reactor,
    source: Option<&mut Source>,
    other: usize,
)
    requires
        old(reactor).wf(),
        call_ensures(Reactor::source, (&asked, key), found),
        call_ensures(Reactor::source_mut, (reactor, key), source),
    ensures
        found is Some <==> asked@.sources.contains_key(key),
        found matches Some(source) ==> source@ == asked@.sources[key],
        source is Some <==> old(reactor)@.sources.contains_key(key),
        source matches Some(source) ==> source@ == old(reactor)@.sources[key]
            && final(reactor)@.sources[key] == final(source)@,
        source is None ==> final(reactor)@ == old(reactor)@,
        final(reactor)@.timers == old(reactor)@.timers,
        final(reactor)@.next_key == old(reactor)@.next_key,
        final(reactor)@.sources.contains_key(other) == old(reactor)@.sources.contains_key(other),
        other != key && old(reactor)@.sources.contains_key(other)
            ==> final(reactor)@.sources[other] == old(reactor)@.sources[other],
{
}

/// The timers of a reactor can be changed in place, and nothing else with them.
pub proof fn law_timers_are_changed_in_place(reactor: &mut Reactor, timers: &mut timer::Reactor)
    requires
        old(reactor).wf(),
        call_ensures(Reactor::timers_mut, (reactor,), timers),
    ensures
        old(timers)@ == old(reactor)@.timers,
        final(reactor)@.timers == final(timers)@,
        final(reactor)@.sources == old(reactor)@.sources,
        final(reactor)@.next_key == old(reactor)@.next_key,
{
}

/// A registration ends by what adding the source to the poller gave, at any time: on success nothing
/// changes, and on failure the source is taken out as any source is.
pub proof fn law_registration_ends_as_the_poller_says<E>(
    reactor: &mut Reactor,
    key: usize,
    added: Result<(), E>,
    registered: Result<usize, E>,
    same: &mut Reactor,
    raw: Registration,
)
    requires
        old(reactor).wf() && old(same).wf(),
        old(reactor)@.sources.contains_key(key),
        call_ensures(Reactor::end_insert_io::<E>, (reactor, key, added), registered),
        old(same)@ == old(reactor)@,
        call_ensures(Reactor::remove_io, (same, key), raw),
    ensures
        match added {
            Ok(_) => registered == Ok::<usize, E>(key) && final(reactor)@ == old(reactor)@,
            Err(err) => registered == Err::<usize, E>(err) && final(reactor)@ == final(same)@,
        },
{
}

} // verus!
