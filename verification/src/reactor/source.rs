//! Sources of I/O events and the tasks that wait for them.
use crate::reactor::operation::{Operation, OperationStatus, OperationView};
use crate::reactor::registration::Registration;
use crate::sys::Event;
use crate::task::{Poll, Waker};
use vstd::prelude::*;

verus! {

/// The two directions of a source.
#[derive(Clone, Copy, Debug, PartialEq, Eq, Structural)]
pub enum Dir {
    /// Reading.
    Read,
    /// Writing.
    Write,
}

/// What a direction of a source holds.
pub struct DirectionView {
    /// Last reactor tick that delivered an event.
    pub tick: usize,
    /// The reactor tick and the tick of the last event when `poll_ready` last had to wait.
    pub ticks: Option<(usize, usize)>,
    /// The task that polls.
    pub waker: Option<Waker>,
    /// Tasks waiting for the next event.
    pub wakers: Seq<Waker>,
}

impl DirectionView {
    /// A direction in which nothing has happened and nobody waits.
    pub open spec fn fresh() -> DirectionView {
        DirectionView { tick: 0, ticks: None, waker: None, wakers: Seq::empty() }
    }

    /// Whether no task is interested in this direction.
    pub open spec fn is_empty(self) -> bool {
        self.waker is None && self.wakers.len() == 0
    }

    /// The tasks interested in this direction, the one that polls first.
    pub open spec fn waiting(self) -> Seq<Waker> {
        match self.waker {
            Some(waker) => seq![waker] + self.wakers,
            None => self.wakers,
        }
    }

    /// The direction once nobody waits any more.
    pub open spec fn drained(self) -> DirectionView {
        DirectionView { waker: None, wakers: Seq::empty(), ..self }
    }

    /// The direction after the reactor tick `tick` has delivered an event.
    pub open spec fn delivered(self, tick: usize) -> DirectionView {
        DirectionView { tick, ..self.drained() }
    }

    /// Whether an event has been delivered by a reactor tick other than the remembered ones.
    pub open spec fn is_fresh(self, ticks: Option<(usize, usize)>) -> bool {
        ticks matches Some((a, b)) && self.tick != a && self.tick != b
    }

    /// The waker that gives way to `waker` as the one that polls, if that is a different one.
    pub open spec fn replaced_by(self, waker: Waker) -> Option<Waker> {
        match self.waker {
            Some(w) => if w == waker {
                None
            } else {
                Some(w)
            },
            None => None,
        }
    }

    /// The direction once `waker` is the one that polls.
    pub open spec fn polled_by(self, waker: Waker) -> DirectionView {
        DirectionView { waker: Some(waker), ..self }
    }

    /// The direction once `waker` is among the tasks that wait for the next event.
    pub open spec fn joined(self, waker: Waker) -> DirectionView {
        if self.wakers.contains(waker) {
            self
        } else {
            DirectionView { wakers: self.wakers.push(waker), ..self }
        }
    }
}

/// A read or write direction.
#[derive(Debug)]
pub struct Direction {
    /// Last reactor tick that delivered an event.
    tick: usize,
    /// Remembered ticks of the task that polls.
    ticks: Option<(usize, usize)>,
    /// Waker of the task that polls.
    waker: Option<Waker>,
    /// Wakers of tasks waiting for the next event.
    wakers: Vec<Waker>,
}

impl View for Direction {
    type V = DirectionView;

    closed spec fn view(&self) -> DirectionView {
        DirectionView {
            tick: self.tick,
            ticks: self.ticks,
            waker: self.waker,
            wakers: self.wakers@,
        }
    }
}

impl Direction {
    /// A direction in which nothing has happened and nobody waits.
    pub fn new() -> (direction: Direction)
        ensures
            direction@ == DirectionView::fresh(),
    {
        Direction { tick: 0, ticks: None, waker: None, wakers: Vec::new() }
    }

    /// Returns the last reactor tick that delivered an event.
    pub fn tick(&self) -> (tick: usize)
        ensures
            tick == self@.tick,
    {
        self.tick
    }

    /// Returns `true` if there are no wakers interested in this direction.
    pub fn is_empty(&self) -> (empty: bool)
        ensures
            empty == self@.is_empty(),
    {
        self.waker.is_none() && self.wakers.is_empty()
    }

    /// Moves all wakers into `dst`.
    pub fn drain_into(&mut self, dst: &mut Vec<Waker>)
        ensures
            final(self)@ == old(self)@.drained(),
            final(dst)@ == old(dst)@ + old(self)@.waiting(),
    {
        if let Some(waker) = self.waker.take() {
            dst.push(waker);
        }
        dst.append(&mut self.wakers);
        proof {
            let waiting = old(self)@.waiting();
            assert(dst@ =~= old(dst)@ + waiting);
        }
    }

    /// Records an event delivered by the reactor tick `tick`, and moves all wakers into `dst`.
    pub fn deliver(&mut self, tick: usize, dst: &mut Vec<Waker>)
        ensures
            final(self)@ == old(self)@.delivered(tick),
            final(dst)@ == old(dst)@ + old(self)@.waiting(),
    {
        self.tick = tick;
        self.drain_into(dst);
    }

    /// Stores the waker of the task that polls.
    ///
    /// Returns the waker that is to be woken because it has been replaced by a different one.
    pub fn set_waker(&mut self, waker: Waker) -> (replaced: Option<Waker>)
        ensures
            final(self)@ == (DirectionView { waker: Some(waker), ..old(self)@ }),
            replaced == old(self)@.replaced_by(waker),
    {
        if let Some(w) = self.waker.take() {
            if w.will_wake(&waker) {
                self.waker = Some(w);
                return None;
            }
            self.waker = Some(waker);
            return Some(w);
        }
        self.waker = Some(waker);
        None
    }

    /// Remembers the reactor's tick and that of the last event, or forgets them.
    fn set_ticks(&mut self, ticks: Option<(usize, usize)>)
        ensures
            final(self)@ == (DirectionView { ticks, ..old(self)@ }),
    {
        self.ticks = ticks;
    }

    /// Returns `true` if an event has been delivered by a reactor tick other than `ticks`.
    ///
    /// If the tick has changed to a value other than the old reactor tick, that means a newer
    /// reactor tick has delivered an event.
    pub fn is_fresh(&self, ticks: Option<(usize, usize)>) -> (fresh: bool)
        ensures
            fresh == self@.is_fresh(ticks),
    {
        match ticks {
            Some((a, b)) => self.tick != a && self.tick != b,
            None => false,
        }
    }

    /// Adds a waker to those waiting for the next event if it is not there already.
    pub fn join(&mut self, waker: Waker)
        ensures
            final(self)@ == old(self)@.joined(waker),
    {
        let mut i: usize = 0;
        while i < self.wakers.len()
            invariant
                i <= self.wakers@.len(),
                *self == *old(self),
                forall|j: int| 0 <= j < i ==> self.wakers@[j] != waker,
            decreases self.wakers@.len() - i,
        {
            if self.wakers[i].will_wake(&waker) {
                assert(self.wakers@[i as int] == waker);
                assert(self@.wakers.contains(waker));
                return ;
            }
            i = i + 1;
        }
        assert(!self@.wakers.contains(waker));
        self.wakers.push(waker);
    }
}

/// What a source holds.
pub struct SourceView {
    /// How the source is registered with the poller.
    pub raw: Registration,
    /// The key of the source.
    pub key: usize,
    /// The read direction.
    pub read: DirectionView,
    /// The write direction.
    pub write: DirectionView,
    /// The read that the completion ring carries out.
    pub read_op: OperationView,
    /// The write that the completion ring carries out.
    pub write_op: OperationView,
}

impl SourceView {
    /// A source that has just been registered.
    pub open spec fn fresh(raw: Registration, key: usize) -> SourceView {
        SourceView {
            raw,
            key,
            read: DirectionView::fresh(),
            write: DirectionView::fresh(),
            read_op: OperationView::fresh(),
            write_op: OperationView::fresh(),
        }
    }

    /// One direction of the source.
    pub open spec fn dir(self, dir: Dir) -> DirectionView {
        match dir {
            Dir::Read => self.read,
            Dir::Write => self.write,
        }
    }

    /// The source with one direction replaced.
    pub open spec fn with_dir(self, dir: Dir, direction: DirectionView) -> SourceView {
        match dir {
            Dir::Read => SourceView { read: direction, ..self },
            Dir::Write => SourceView { write: direction, ..self },
        }
    }

    /// The operation of one direction.
    pub open spec fn op(self, dir: Dir) -> OperationView {
        match dir {
            Dir::Read => self.read_op,
            Dir::Write => self.write_op,
        }
    }

    /// The source with the operation of one direction replaced.
    pub open spec fn with_op(self, dir: Dir, operation: OperationView) -> SourceView {
        match dir {
            Dir::Read => SourceView { read_op: operation, ..self },
            Dir::Write => SourceView { write_op: operation, ..self },
        }
    }

    /// Whether no task is interested in the source.
    pub open spec fn is_idle(self) -> bool {
        self.read.is_empty() && self.write.is_empty()
    }

    /// The interest that the tasks waiting on the source amount to.
    pub open spec fn interest(self) -> Event {
        Event { readable: !self.read.is_empty(), writable: !self.write.is_empty(), key: self.key }
    }

    /// The source after the reactor tick `tick` has delivered `event` to it.
    pub open spec fn delivered(self, event: Event, tick: usize) -> SourceView {
        SourceView {
            write: if event.writable {
                self.write.delivered(tick)
            } else {
                self.write
            },
            read: if event.readable {
                self.read.delivered(tick)
            } else {
                self.read
            },
            ..self
        }
    }

    /// The tasks that `event` wakes, writers first.
    pub open spec fn woken_by(self, event: Event) -> Seq<Waker> {
        (if event.writable {
            self.write.waiting()
        } else {
            Seq::empty()
        }) + (if event.readable {
            self.read.waiting()
        } else {
            Seq::empty()
        })
    }

    /// The interest to register before a task starts polling in one direction: none if the
    /// direction has tasks already.
    pub open spec fn poll_interest(self, dir: Dir) -> Option<Event> {
        if self.dir(dir).is_empty() {
            Some(
                match dir {
                    Dir::Read => Event { readable: true, ..self.interest() },
                    Dir::Write => Event { writable: true, ..self.interest() },
                },
            )
        } else {
            None
        }
    }
}

/// A registered source of I/O events.
#[derive(Debug)]
pub struct Source {
    /// How the source is registered with the poller.
    raw: Registration,
    /// The key of this source obtained during registration.
    key: usize,
    /// State of the read direction.
    read: Direction,
    /// State of the write direction.
    write: Direction,
    /// The read that the completion ring carries out.
    read_op: Operation,
    /// The write that the completion ring carries out.
    write_op: Operation,
}

impl View for Source {
    type V = SourceView;

    closed spec fn view(&self) -> SourceView {
        SourceView {
            raw: self.raw,
            key: self.key,
            read: self.read@,
            write: self.write@,
            read_op: self.read_op@,
            write_op: self.write_op@,
        }
    }
}

impl Source {
    /// Creates a source that nobody waits for.
    pub fn new(raw: Registration, key: usize) -> (source: Source)
        ensures
            source@ == SourceView::fresh(raw, key),
    {
        Source {
            raw,
            key,
            read: Direction::new(),
            write: Direction::new(),
            read_op: Operation::new(),
            write_op: Operation::new(),
        }
    }

    /// Returns how the source is registered with the poller.
    pub fn raw(&self) -> (raw: Registration)
        ensures
            raw == self@.raw,
    {
        self.raw
    }

    /// Returns the key of this source.
    pub fn key(&self) -> (key: usize)
        ensures
            key == self@.key,
    {
        self.key
    }

    /// Returns one direction of the source.
    fn dir(&self, dir: Dir) -> (direction: &Direction)
        ensures
            direction@ == self@.dir(dir),
    {
        match dir {
            Dir::Read => &self.read,
            Dir::Write => &self.write,
        }
    }

    /// Returns one direction of the source for changing.
    fn dir_mut(&mut self, dir: Dir) -> (direction: &mut Direction)
        ensures
            direction@ == old(self)@.dir(dir),
            final(self)@ == old(self)@.with_dir(dir, final(direction)@),
    {
        match dir {
            Dir::Read => &mut self.read,
            Dir::Write => &mut self.write,
        }
    }

    /// Returns the operation of one direction.
    pub fn op_mut(&mut self, dir: Dir) -> (operation: &mut Operation)
        ensures
            operation@ == old(self)@.op(dir),
            final(self)@ == old(self)@.with_op(dir, final(operation)@),
    {
        match dir {
            Dir::Read => &mut self.read_op,
            Dir::Write => &mut self.write_op,
        }
    }

    /// Decides whether the bytes of a completed read, if there is one, fit into a buffer of the given
    /// length.
    pub(crate) fn read_fits(&self, len: usize) -> (fits: bool)
        ensures
            fits == (self@.read_op.status matches OperationStatus::Complete(code) ==> code <= len
                && code <= self@.read_op.buffer.len()),
    {
        self.read_op.fits(len)
    }

    /// Returns the interest that the tasks waiting on the source amount to.
    pub fn interest(&self) -> (interest: Event)
        ensures
            interest == self@.interest(),
    {
        Event {
            readable: !self.read.is_empty(),
            writable: !self.write.is_empty(),
            key: self.key,
        }
    }

    /// Delivers an event: wakes the tasks it concerns and remembers the tick.
    ///
    /// Returns the interest to register again, which there is if tasks are left waiting. That
    /// happens if both readability and writability were of interest but only one was emitted.
    pub fn deliver(&mut self, event: Event, tick: usize, wakers: &mut Vec<Waker>) -> (interest:
        Option<Event>)
        ensures
            final(self)@ == old(self)@.delivered(event, tick),
            final(wakers)@ == old(wakers)@ + old(self)@.woken_by(event),
            interest == if final(self)@.is_idle() {
                None
            } else {
                Some(final(self)@.interest())
            },
    {
        // Wake writers if a writability event was emitted.
        if event.writable {
            self.write.deliver(tick, wakers);
        }
        // Wake readers if a readability event was emitted.
        if event.readable {
            self.read.deliver(tick, wakers);
        }
        assert(wakers@ =~= old(wakers)@ + old(self)@.woken_by(event));
        if !(self.write.is_empty() && self.read.is_empty()) {
            Some(self.interest())
        } else {
            None
        }
    }

    /// Returns the interest to register before a task starts polling in the given direction.
    ///
    /// If there are other tasks in that direction, the source is registered already.
    pub fn poll_interest(&self, dir: Dir) -> (interest: Option<Event>)
        ensures
            interest == self@.poll_interest(dir),
    {
        if self.dir(dir).is_empty() {
            let interest = self.interest();
            Some(
                match dir {
                    Dir::Read => Event { readable: true, ..interest },
                    Dir::Write => Event { writable: true, ..interest },
                },
            )
        } else {
            None
        }
    }

    /// Registers the waker of a task that reads.
    ///
    /// `registered` is what registering the interest gave, and `Ok` if there was none to register.
    /// If a different waker is already registered, it gets replaced and returned to be woken.
    pub fn register_reader<E>(&mut self, waker: Waker, registered: Result<(), E>) -> (replaced:
        Result<Option<Waker>, E>)
        ensures
            match registered {
                Err(err) => replaced == Err::<Option<Waker>, E>(err) && final(self)@ == old(self)@,
                Ok(_) => {
                    &&& replaced == Ok::<Option<Waker>, E>(old(self)@.read.replaced_by(waker))
                    &&& final(self)@ == old(self)@.with_dir(
                        Dir::Read,
                        old(self)@.read.polled_by(waker),
                    )
                },
            },
    {
        match registered {
            Err(err) => Err(err),
            Ok(()) => Ok(self.read.set_waker(waker)),
        }
    }

    /// Registers the waker of a task that writes.
    ///
    /// `registered` is what registering the interest gave, and `Ok` if there was none to register.
    /// If a different waker is already registered, it gets replaced and returned to be woken.
    pub fn register_writer<E>(&mut self, waker: Waker, registered: Result<(), E>) -> (replaced:
        Result<Option<Waker>, E>)
        ensures
            match registered {
                Err(err) => replaced == Err::<Option<Waker>, E>(err) && final(self)@ == old(self)@,
                Ok(_) => {
                    &&& replaced == Ok::<Option<Waker>, E>(old(self)@.write.replaced_by(waker))
                    &&& final(self)@ == old(self)@.with_dir(
                        Dir::Write,
                        old(self)@.write.polled_by(waker),
                    )
                },
            },
    {
        match registered {
            Err(err) => Err(err),
            Ok(()) => Ok(self.write.set_waker(waker)),
        }
    }

    /// Starts waiting until the source is readable.
    pub fn readable(&self) -> (wait: Readiness)
        ensures
            wait == (Readiness { dir: Dir::Read, ticks: None }),
    {
        Readiness { dir: Dir::Read, ticks: None }
    }

    /// Starts waiting until the source is writable.
    pub fn writable(&self) -> (wait: Readiness)
        ensures
            wait == (Readiness { dir: Dir::Write, ticks: None }),
    {
        Readiness { dir: Dir::Write, ticks: None }
    }

    /// Polls the source in one direction on behalf of the one task that polls it.
    ///
    /// Gives `Ready` if an event has been delivered since the task was last told to wait.
    /// Otherwise gives the interest to register, if there is any, after which `end_poll` is to be
    /// called.
    pub fn begin_poll(&mut self, dir: Dir) -> (step: ReadyStep)
        ensures
            if old(self)@.dir(dir).is_fresh(old(self)@.dir(dir).ticks) {
                &&& step == ReadyStep::Ready
                &&& final(self)@ == old(self)@.with_dir(
                    dir,
                    DirectionView { ticks: None, ..old(self)@.dir(dir) },
                )
            } else {
                &&& step == ReadyStep::Wait(old(self)@.poll_interest(dir))
                &&& final(self)@ == old(self)@
            },
    {
        let ticks = self.dir(dir).ticks;
        if self.dir(dir).is_fresh(ticks) {
            self.dir_mut(dir).set_ticks(None);
            ReadyStep::Ready
        } else {
            ReadyStep::Wait(self.poll_interest(dir))
        }
    }

    /// Registers the waker of the task that polls in one direction, and remembers the ticks.
    ///
    /// `registered` is what registering the interest gave, and `Ok` if there was none to register.
    /// If a different waker is already registered, it gets replaced and returned to be woken.
    pub fn end_poll<E>(
        &mut self,
        dir: Dir,
        waker: Waker,
        ticker: usize,
        registered: Result<(), E>,
    ) -> (replaced: Result<Option<Waker>, E>)
        ensures
            match registered {
                Err(err) => replaced == Err::<Option<Waker>, E>(err) && final(self)@ == old(self)@,
                Ok(_) => {
                    &&& replaced == Ok::<Option<Waker>, E>(
                        old(self)@.dir(dir).replaced_by(waker),
                    )
                    &&& final(self)@ == old(self)@.with_dir(
                        dir,
                        DirectionView {
                            ticks: Some((ticker, old(self)@.dir(dir).tick)),
                            ..old(self)@.dir(dir).polled_by(waker)
                        },
                    )
                },
            },
    {
        let replaced = match dir {
            Dir::Read => self.register_reader(waker, registered),
            Dir::Write => self.register_writer(waker, registered),
        };
        if replaced.is_ok() {
            let tick = self.dir(dir).tick;
            self.dir_mut(dir).set_ticks(Some((ticker, tick)));
        }
        replaced
    }
}

/// How a poll for readiness goes on.
#[derive(Clone, Copy, Debug, PartialEq, Eq, Structural)]
pub enum ReadyStep {
    /// The source is ready.
    Ready,
    /// The task has to wait, once the interest has been registered if there is one.
    Wait(Option<Event>),
}

/// A task's wait for the next readiness event in one direction.
#[derive(Clone, Copy, Debug, PartialEq, Eq)]
pub struct Readiness {
    /// The direction.
    pub dir: Dir,
    /// The reactor tick and the tick of the last event when the wait began.
    pub ticks: Option<(usize, usize)>,
}

impl Readiness {
    /// Polls for readiness.
    ///
    /// Unless a fresh event has been delivered, the task joins those that wait for the next one.
    /// The interest has to be updated if nobody waited in this direction before.
    pub fn poll(&self, source: &mut Source, waker: Waker) -> (step: ReadyStep)
        ensures
            if old(source)@.dir(self.dir).is_fresh(self.ticks) {
                &&& step == ReadyStep::Ready
                &&& final(source)@ == old(source)@
            } else {
                &&& final(source)@ == old(source)@.with_dir(
                    self.dir,
                    old(source)@.dir(self.dir).joined(waker),
                )
                &&& step == ReadyStep::Wait(
                    if old(source)@.dir(self.dir).is_empty() {
                        Some(final(source)@.interest())
                    } else {
                        None
                    },
                )
            },
    {
        // Check if the reactor has delivered an event.
        if source.dir(self.dir).is_fresh(self.ticks) {
            return ReadyStep::Ready;
        }
        let was_empty = (source.read.is_empty(), source.write.is_empty());
        // Register the current task's waker if not present already.
        source.dir_mut(self.dir).join(waker);
        // Update interest in this I/O handle.
        if was_empty.0 != source.read.is_empty() || was_empty.1 != source.write.is_empty() {
            ReadyStep::Wait(Some(source.interest()))
        } else {
            ReadyStep::Wait(None)
        }
    }

    /// Goes on waiting, if updating the interest has succeeded.
    ///
    /// `updated` is what updating the interest gave, and `Ok` if it was not necessary. The current
    /// ticks are remembered by the first call.
    pub fn wait<E>(&mut self, source: &Source, ticker: usize, updated: Result<(), E>) -> (poll: Poll<
        Result<(), E>,
    >)
        ensures
            match updated {
                Err(err) => poll == Poll::Ready(Err::<(), E>(err)) && *final(self) == *old(self),
                Ok(_) => {
                    &&& poll == Poll::<Result<(), E>>::Pending
                    &&& *final(self) == Readiness {
                        ticks: match old(self).ticks {
                            Some(ticks) => Some(ticks),
                            None => Some((ticker, source@.dir(old(self).dir).tick)),
                        },
                        ..*old(self)
                    }
                },
            },
    {
        match updated {
            Err(err) => Poll::Ready(Err(err)),
            Ok(()) => {
                // Remember the current ticks.
                if self.ticks.is_none() {
                    self.ticks = Some((ticker, source.dir(self.dir).tick));
                }
                Poll::Pending
            },
        }
    }
}

/// Whether the poller watches every direction of a source that a task waits for.
///
/// `armed` is the interest that the poller has registered for the source.
pub open spec fn is_watched(source: SourceView, armed: Event) -> bool {
    &&& !source.read.is_empty() ==> armed.readable
    &&& !source.write.is_empty() ==> armed.writable
}

/// The interest that the poller has registered after an update, if one was asked for.
pub open spec fn rearmed(armed: Event, update: Option<Event>) -> Event {
    match update {
        Some(interest) => interest,
        None => armed,
    }
}

/// A task that starts polling is watched: registering the interest that `poll_interest` asks for
/// and then the waker keeps every direction with tasks watched by the poller.
pub proof fn law_polling_is_watched(source: SourceView, armed: Event, dir: Dir, waker: Waker)
    requires
        is_watched(source, armed),
    ensures
        is_watched(
            source.with_dir(dir, source.dir(dir).polled_by(waker)),
            rearmed(armed, source.poll_interest(dir)),
        ),
        !source.with_dir(dir, source.dir(dir).polled_by(waker)).dir(dir).is_empty(),
{
}

/// A task that starts waiting is watched: joining a direction and updating the interest if the
/// direction was empty keeps every direction with tasks watched by the poller.
pub proof fn law_waiting_is_watched(source: SourceView, armed: Event, dir: Dir, waker: Waker)
    requires
        is_watched(source, armed),
    ensures
        ({
            let joined = source.with_dir(dir, source.dir(dir).joined(waker));
            let update = if source.dir(dir).is_empty() {
                Some(joined.interest())
            } else {
                None
            };
            is_watched(joined, rearmed(armed, update)) && joined.dir(dir).wakers.contains(waker)
        }),
{
    let direction = source.dir(dir);
    if !direction.wakers.contains(waker) {
        assert(direction.wakers.push(waker).last() == waker);
    }
}

/// Tasks left behind by an event stay watched: the poller stops watching a source once it reports
/// an event, and registering the interest that is left watches every direction with tasks again.
pub proof fn law_left_behind_is_watched(source: SourceView, event: Event, tick: usize)
    ensures
        ({
            let after = source.delivered(event, tick);
            let update = if after.is_idle() {
                None
            } else {
                Some(after.interest())
            };
            is_watched(
                after,
                rearmed(Event { readable: false, writable: false, key: source.key }, update),
            )
        }),
{
}

/// An event wakes everybody who waits for it, and leaves the others waiting.
pub proof fn law_event_wakes_its_direction(source: SourceView, event: Event, tick: usize, waker: Waker)
    ensures
        event.readable && source.read.waiting().contains(waker) ==> source.woken_by(event).contains(
            waker,
        ),
        event.writable && source.write.waiting().contains(waker) ==> source.woken_by(
            event,
        ).contains(waker),
        !event.readable ==> source.delivered(event, tick).read == source.read,
        !event.writable ==> source.delivered(event, tick).write == source.write,
        event.readable ==> source.delivered(event, tick).read.is_empty(),
        event.writable ==> source.delivered(event, tick).write.is_empty(),
{
    let writers = if event.writable {
        source.write.waiting()
    } else {
        Seq::empty()
    };
    let readers = if event.readable {
        source.read.waiting()
    } else {
        Seq::empty()
    };
    assert(source.woken_by(event) == writers + readers);
    if event.writable && source.write.waiting().contains(waker) {
        let i = choose|i: int| 0 <= i < writers.len() && writers[i] == waker;
        assert((writers + readers)[i] == waker);
    }
    if event.readable && source.read.waiting().contains(waker) {
        let i = choose|i: int| 0 <= i < readers.len() && readers[i] == waker;
        assert((writers + readers)[writers.len() + i] == waker);
    }
}

/// Only fresh events count: if a wait began when the reactor's tick was `ticker`, and every event
/// delivered since comes from that tick or a later one, then the wait ends exactly when a later
/// tick has delivered an event.
pub proof fn law_only_fresh_events_count(
    began: DirectionView,
    ticker: usize,
    ended: DirectionView,
    delivered: bool,
)
    requires
        began.tick <= ticker,
        delivered ==> ticker <= ended.tick,
        !delivered ==> ended.tick == began.tick,
    ensures
        ended.is_fresh(Some((ticker, began.tick))) <==> delivered && ticker < ended.tick,
{
}

/// Any number of tasks can wait for the same direction: one more leaves all the others waiting.
pub proof fn law_any_number_of_tasks_can_wait(direction: DirectionView, waker: Waker, other: Waker)
    requires
        direction.waiting().contains(other),
    ensures
        direction.joined(waker).waiting().contains(other),
        direction.joined(waker).waiting().contains(waker),
{
    let before = direction.waiting();
    let after = direction.joined(waker).waiting();
    let i = choose|i: int| 0 <= i < before.len() && before[i] == other;
    assert(after[i] == other);
    if direction.wakers.contains(waker) {
        let j = choose|j: int| 0 <= j < direction.wakers.len() && direction.wakers[j] == waker;
        let k = if direction.waker is Some {
            j + 1
        } else {
            j
        };
        assert(after[k] == waker);
    } else {
        assert(after.last() == waker);
    }
}

/// What can happen to a source.
pub enum SourceEvent {
    /// A task joins those that wait for the next event in one direction.
    Join { dir: Dir, waker: Waker },
    /// A task becomes the one that polls in one direction.
    Register { dir: Dir, waker: Waker },
    /// The ticks of the task that polls in one direction are remembered or forgotten.
    Remember { dir: Dir, ticks: Option<(usize, usize)> },
    /// A reactor tick delivers an event.
    Deliver { event: Event, tick: usize },
    /// The operation of one direction goes on.
    Operate { dir: Dir, operation: OperationView },
}

impl SourceView {
    /// The source after an event.
    pub open spec fn after(self, event: SourceEvent) -> SourceView {
        match event {
            SourceEvent::Join { dir, waker } => self.with_dir(dir, self.dir(dir).joined(waker)),
            SourceEvent::Register { dir, waker } => self.with_dir(
                dir,
                self.dir(dir).polled_by(waker),
            ),
            SourceEvent::Remember { dir, ticks } => self.with_dir(
                dir,
                DirectionView { ticks, ..self.dir(dir) },
            ),
            SourceEvent::Deliver { event, tick } => self.delivered(event, tick),
            SourceEvent::Operate { dir, operation } => self.with_op(dir, operation),
        }
    }

    /// The source after events.
    pub open spec fn after_all(self, events: Seq<SourceEvent>) -> SourceView
        decreases events.len(),
    {
        if events.len() == 0 {
            self
        } else {
            self.after_all(events.drop_last()).after(events.last())
        }
    }
}

/// No task stands twice in the list of those that wait for a direction, whatever has happened to
/// the source since it was registered.
pub proof fn law_no_task_waits_twice(
    raw: Registration,
    key: usize,
    events: Seq<SourceEvent>,
    dir: Dir,
)
    ensures
        SourceView::fresh(raw, key).after_all(events).dir(dir).wakers.no_duplicates(),
    decreases events.len(),
{
    if events.len() > 0 {
        law_no_task_waits_twice(raw, key, events.drop_last(), dir);
        let before = SourceView::fresh(raw, key).after_all(events.drop_last());
        match events.last() {
            SourceEvent::Join { waker, .. } => {
                lemma_joined_once(before.dir(dir), waker);
            },
            _ => {},
        }
    }
}

/// Joining a list without repeats keeps it so.
proof fn lemma_joined_once(direction: DirectionView, waker: Waker)
    requires
        direction.wakers.no_duplicates(),
    ensures
        direction.joined(waker).wakers.no_duplicates(),
        direction.joined(waker).wakers.contains(waker),
{
    let list = direction.joined(waker).wakers;
    if !direction.wakers.contains(waker) {
        assert(list.last() == waker);
        assert forall|i: int, j: int|
            0 <= i < list.len() && 0 <= j < list.len() && i != j implies list[i] != list[j] by {
            if i == list.len() - 1 {
                assert(direction.wakers.contains(direction.wakers[j]));
            } else if j == list.len() - 1 {
                assert(direction.wakers.contains(direction.wakers[i]));
            }
        }
    }
}

/// A task that polls for readiness and has to wait stands in the list of its direction exactly
/// once. The first poll always has to wait, and a later one has to unless an event has been
/// delivered by a tick other than the two remembered ones.
pub proof fn law_waiting_task_is_listed_once(
    raw: Registration,
    key: usize,
    events: Seq<SourceEvent>,
    dir: Dir,
    ticks: Option<(usize, usize)>,
    waker: Waker,
)
    ensures
        ({
            let source = SourceView::fresh(raw, key).after_all(events);
            let list = source.after(SourceEvent::Join { dir, waker }).dir(dir).wakers;
            &&& ticks is None ==> !source.dir(dir).is_fresh(ticks)
            &&& ticks matches Some((a, b)) ==> (source.dir(dir).is_fresh(ticks) <==> source.dir(
                dir,
            ).tick != a && source.dir(dir).tick != b)
            &&& exists|i: int| 0 <= i < list.len() && #[trigger] list[i] == waker
            &&& forall|i: int, j: int|
                0 <= i < list.len() && 0 <= j < list.len() && #[trigger] list[i] == waker
                    && #[trigger] list[j] == waker ==> i == j
        }),
{
    let source = SourceView::fresh(raw, key).after_all(events);
    law_no_task_waits_twice(raw, key, events, dir);
    lemma_joined_once(source.dir(dir), waker);
    let list = source.after(SourceEvent::Join { dir, waker }).dir(dir).wakers;
    let i = choose|i: int| 0 <= i < list.len() && list[i] == waker;
    assert(list[i] == waker);
}

/// Only one task can poll a direction at a time: two that try keep waking each other in turn, while
/// one that polls again wakes nobody.
pub proof fn law_conflicting_tasks_wake_each_other(
    direction: DirectionView,
    waker: Waker,
    other: Waker,
)
    ensures
        waker != other ==> direction.polled_by(waker).replaced_by(other) == Some(waker),
        direction.polled_by(waker).replaced_by(waker) is None,
{
}

/// Delivering an event by a tick leaves that tick in every direction that the event is for, whoever
/// waits there, and nobody waits there any more. The other direction is as it was, and so is
/// everything else about the source.
pub proof fn law_delivery_records_its_tick(
    source: &mut Source,
    event: Event,
    tick: usize,
    wakers: &mut Vec<Waker>,
    interest: Option<Event>,
    dir: Dir,
)
    requires
        call_ensures(Source::deliver, (source, event, tick, wakers), interest),
    ensures
        ({
            let before = old(source)@.dir(dir);
            let after = final(source)@.dir(dir);
            let emitted = match dir {
                Dir::Read => event.readable,
                Dir::Write => event.writable,
            };
            &&& emitted ==> after.tick == tick && after.waker is None && after.wakers.len() == 0
            &&& !emitted ==> after.tick == before.tick && after.waker == before.waker
                && after.wakers == before.wakers
            &&& after.ticks == before.ticks
        }),
        final(source)@.key == old(source)@.key,
        final(source)@.raw == old(source)@.raw,
        final(source)@.read_op == old(source)@.read_op,
        final(source)@.write_op == old(source)@.write_op,
{
}

/// Delivering an event wakes exactly the tasks that wait in the directions it is for, writers before
/// readers, and each as often as it waits. Tasks that were to be woken before still are.
pub proof fn law_delivery_wakes_those_who_wait(
    source: &mut Source,
    event: Event,
    tick: usize,
    wakers: &mut Vec<Waker>,
    interest: Option<Event>,
    waker: Waker,
)
    requires
        call_ensures(Source::deliver, (source, event, tick, wakers), interest),
    ensures
        ({
            let source = old(source)@;
            let had = old(wakers)@.len() as int;
            let writers = if event.writable {
                waiting_in(source.write)
            } else {
                0
            };
            let readers = if event.readable {
                waiting_in(source.read)
            } else {
                0
            };
            let all = final(wakers)@;
            &&& all.len() == had + writers + readers
            &&& all.take(had) == old(wakers)@
            &&& event.writable ==> (all.subrange(had, had + writers).contains(waker)
                <==> waits_in(source.write, waker))
            &&& event.readable ==> (all.skip(had + writers).contains(waker) <==> waits_in(
                source.read,
                waker,
            ))
        }),
{
    let view = old(source)@;
    let had = old(wakers)@.len() as int;
    let all = final(wakers)@;
    let writers = if event.writable {
        view.write.waiting()
    } else {
        Seq::empty()
    };
    let readers = if event.readable {
        view.read.waiting()
    } else {
        Seq::empty()
    };
    assert(all == old(wakers)@ + (writers + readers));
    assert(all.take(had) =~= old(wakers)@);
    assert(all.subrange(had, had + writers.len()) =~= writers);
    assert(all.skip(had + writers.len()) =~= readers);
    lemma_waits(view.write, waker);
    lemma_waits(view.read, waker);
}

/// How many tasks wait in a direction: one that polls, if there is one, and those in the list.
pub open spec fn waiting_in(direction: DirectionView) -> int {
    direction.wakers.len() + if direction.waker is Some {
        1int
    } else {
        0int
    }
}

/// Whether a task polls a direction or stands in its list.
pub open spec fn waits_in(direction: DirectionView, waker: Waker) -> bool {
    direction.waker == Some(waker) || exists|i: int|
        0 <= i < direction.wakers.len() && #[trigger] direction.wakers[i] == waker
}

/// The tasks that wait in a direction are the one that polls and those in the list.
pub proof fn lemma_waits(direction: DirectionView, waker: Waker)
    ensures
        direction.waiting().len() == waiting_in(direction),
        direction.waiting().contains(waker) <==> waits_in(direction, waker),
{
    let waiting = direction.waiting();
    let first: int = if direction.waker is Some {
        1
    } else {
        0
    };
    if waits_in(direction, waker) {
        if direction.waker == Some(waker) {
            assert(waiting[0] == waker);
        } else {
            let i = choose|i: int|
                0 <= i < direction.wakers.len() && #[trigger] direction.wakers[i] == waker;
            assert(waiting[i + first] == waker);
        }
    }
    if waiting.contains(waker) {
        let i = choose|i: int| 0 <= i < waiting.len() && waiting[i] == waker;
        if i >= first {
            assert(direction.wakers[i - first] == waker);
        }
    }
}

/// Once an event has been delivered, the poller has to watch exactly the directions in which tasks
/// are left waiting, under the key of the source, and nothing if there are none.
pub proof fn law_delivery_asks_for_what_is_left(
    source: &mut Source,
    event: Event,
    tick: usize,
    wakers: &mut Vec<Waker>,
    interest: Option<Event>,
)
    requires
        call_ensures(Source::deliver, (source, event, tick, wakers), interest),
    ensures
        ({
            let left_reading = !event.readable && waiting_in(old(source)@.read) > 0;
            let left_writing = !event.writable && waiting_in(old(source)@.write) > 0;
            match interest {
                Some(interest) => (left_reading || left_writing) && interest.readable
                    == left_reading && interest.writable == left_writing && interest.key
                        == old(source)@.key,
                None => !left_reading && !left_writing,
            }
        }),
{
}

/// A delivered event ends every wait for it: whoever else waits, and however many there are, a task
/// that remembers other ticks than that of the delivery finds the source ready. A task that
/// remembers that tick, or has not waited yet, has to wait.
pub proof fn law_delivery_ends_every_wait(
    source: &mut Source,
    event: Event,
    tick: usize,
    wakers: &mut Vec<Waker>,
    interest: Option<Event>,
    later: &mut Source,
    wait: Readiness,
    waker: Waker,
    step: ReadyStep,
)
    requires
        call_ensures(Source::deliver, (source, event, tick, wakers), interest),
        old(later)@ == final(source)@,
        wait.dir == Dir::Read ==> event.readable,
        wait.dir == Dir::Write ==> event.writable,
        call_ensures(Readiness::poll, (&wait, later, waker), step),
    ensures
        match wait.ticks {
            Some((a, b)) => step == ReadyStep::Ready <==> tick != a && tick != b,
            None => step != ReadyStep::Ready,
        },
        step == ReadyStep::Ready ==> final(later)@ == old(later)@,
{
}

/// The same for the task that polls a direction: once an event has been delivered by another tick
/// than those it was told to wait with, it finds the source ready, once.
pub proof fn law_delivery_ends_the_polling(
    source: &mut Source,
    event: Event,
    tick: usize,
    wakers: &mut Vec<Waker>,
    interest: Option<Event>,
    later: &mut Source,
    dir: Dir,
    step: ReadyStep,
    again: &mut Source,
    second: ReadyStep,
)
    requires
        call_ensures(Source::deliver, (source, event, tick, wakers), interest),
        old(later)@ == final(source)@,
        dir == Dir::Read ==> event.readable,
        dir == Dir::Write ==> event.writable,
        call_ensures(Source::begin_poll, (later, dir), step),
        old(again)@ == final(later)@,
        call_ensures(Source::begin_poll, (again, dir), second),
    ensures
        match old(source)@.dir(dir).ticks {
            Some((a, b)) => step == ReadyStep::Ready <==> tick != a && tick != b,
            None => step != ReadyStep::Ready,
        },
        second != ReadyStep::Ready,
        final(later)@.read.wakers == old(later)@.read.wakers,
        final(later)@.write.wakers == old(later)@.write.wakers,
        final(later)@.read.waker == old(later)@.read.waker,
        final(later)@.write.waker == old(later)@.write.waker,
        final(later)@.read.tick == old(later)@.read.tick,
        final(later)@.write.tick == old(later)@.write.tick,
        final(later)@.key == old(later)@.key,
        final(later)@.raw == old(later)@.raw,
        final(later)@.read_op == old(later)@.read_op,
        final(later)@.write_op == old(later)@.write_op,
{
}

/// A task that has to wait for readiness stands in the list of its direction, after those that stood
/// there before, and nothing else about the source changes. The poller has to be told exactly if
/// nobody waited in that direction, and then of all directions in which tasks wait.
pub proof fn law_waiting_joins_the_list(
    source: &mut Source,
    wait: Readiness,
    waker: Waker,
    step: ReadyStep,
    other: Waker,
)
    requires
        call_ensures(Readiness::poll, (&wait, source, waker), step),
        step != ReadyStep::Ready,
    ensures
        ({
            let before = old(source)@.dir(wait.dir);
            let after = final(source)@.dir(wait.dir);
            &&& before.wakers.is_prefix_of(after.wakers)
            &&& after.wakers.contains(waker)
            &&& waker != other ==> (after.wakers.contains(other) <==> before.wakers.contains(other))
            &&& after.wakers.len() <= before.wakers.len() + 1
            &&& before.wakers.contains(waker) ==> after.wakers.len() == before.wakers.len()
            &&& after.waker == before.waker && after.tick == before.tick && after.ticks
                == before.ticks
            &&& match step {
                ReadyStep::Wait(Some(interest)) => waiting_in(before) == 0 && interest.key
                    == old(source)@.key && interest.readable
                        == (waiting_in(final(source)@.read) > 0)
                    && interest.writable == (waiting_in(final(source)@.write) > 0),
                ReadyStep::Wait(None) => waiting_in(before) > 0,
                ReadyStep::Ready => false,
            }
        }),
        wait.dir == Dir::Read ==> final(source)@.write == old(source)@.write,
        wait.dir == Dir::Write ==> final(source)@.read == old(source)@.read,
        final(source)@.key == old(source)@.key,
        final(source)@.raw == old(source)@.raw,
        final(source)@.read_op == old(source)@.read_op,
        final(source)@.write_op == old(source)@.write_op,
{
    let before = old(source)@.dir(wait.dir).wakers;
    let after = final(source)@.dir(wait.dir).wakers;
    if !before.contains(waker) {
        assert(after == before.push(waker));
        assert(after.last() == waker);
        if after.contains(other) && waker != other {
            let i = choose|i: int| 0 <= i < after.len() && after[i] == other;
            assert(before[i] == other);
        }
        if before.contains(other) {
            let i = choose|i: int| 0 <= i < before.len() && before[i] == other;
            assert(after[i] == other);
        }
    }
}

/// A wait remembers the ticks at which it began: the reactor's and that of the last event. Going on
/// does not change them, and only a failure to update the interest ends the wait, with that error.
pub proof fn law_wait_remembers_when_it_began<E>(
    wait: &mut Readiness,
    source: Source,
    ticker: usize,
    updated: Result<(), E>,
    poll: Poll<Result<(), E>>,
)
    requires
        call_ensures(Readiness::wait::<E>, (wait, &source, ticker, updated), poll),
    ensures
        final(wait).dir == old(wait).dir,
        old(wait).ticks is Some ==> final(wait).ticks == old(wait).ticks,
        match updated {
            Ok(_) => poll is Pending && (old(wait).ticks is None ==> (
            final(wait).ticks matches Some((a, b)) && a == ticker && b == source@.dir(
                old(wait).dir,
            ).tick)),
            Err(err) => poll == Poll::Ready(Err::<(), E>(err)) && final(wait).ticks
                == old(wait).ticks,
        },
{
}

/// A task that polls and has to wait asks the poller to watch its direction, in addition to those in
/// which tasks wait already, unless tasks wait in that direction already.
pub proof fn law_polling_asks_for_its_direction(source: Source, dir: Dir, interest: Option<Event>)
    requires
        call_ensures(Source::poll_interest, (&source, dir), interest),
    ensures
        interest is Some <==> waiting_in(source@.dir(dir)) == 0,
        interest matches Some(interest) ==> interest.key == source@.key && interest.readable == (dir
            == Dir::Read || waiting_in(source@.read) > 0) && interest.writable == (dir == Dir::Write
            || waiting_in(source@.write) > 0),
{
}

/// The interest in a source is in the directions in which tasks wait.
pub proof fn law_interest_is_where_tasks_wait(source: Source, interest: Event)
    requires
        call_ensures(Source::interest, (&source,), interest),
    ensures
        interest.key == source@.key,
        interest.readable <==> waiting_in(source@.read) > 0,
        interest.writable <==> waiting_in(source@.write) > 0,
{
}

/// Beginning to poll tells the interest to register if the source is not ready, and then changes
/// nothing.
pub proof fn law_begun_poll_tells_the_interest(
    source: &mut Source,
    dir: Dir,
    step: ReadyStep,
    interest: Option<Event>,
    asked: Source,
)
    requires
        call_ensures(Source::begin_poll, (source, dir), step),
        asked@ == old(source)@,
        call_ensures(Source::poll_interest, (&asked, dir), interest),
    ensures
        step == ReadyStep::Ready || (step == ReadyStep::Wait(interest) && final(source)@
            == old(source)@),
{
}

/// Ending a poll makes the task the one that polls, remembers the reactor's tick and that of the
/// last event, and hands back the task that polled before, if that is another. If the interest could
/// not be registered, nothing changes and the error is handed back.
pub proof fn law_ended_poll_registers_the_task<E>(
    source: &mut Source,
    dir: Dir,
    waker: Waker,
    ticker: usize,
    registered: Result<(), E>,
    replaced: Result<Option<Waker>, E>,
)
    requires
        call_ensures(
            Source::end_poll::<E>,
            (source, dir, waker, ticker, registered),
            replaced,
        ),
    ensures
        match registered {
            Ok(_) => {
                let before = old(source)@.dir(dir);
                let after = final(source)@.dir(dir);
                &&& after.waker == Some(waker)
                &&& after.ticks == Some((ticker, before.tick))
                &&& after.tick == before.tick && after.wakers == before.wakers
                &&& match replaced {
                    Ok(Some(other)) => before.waker == Some(other) && other != waker,
                    Ok(None) => before.waker is None || before.waker == Some(waker),
                    Err(_) => false,
                }
            },
            Err(err) => replaced == Err::<Option<Waker>, E>(err) && final(source)@ == old(source)@,
        },
        dir == Dir::Read ==> final(source)@.write == old(source)@.write,
        dir == Dir::Write ==> final(source)@.read == old(source)@.read,
        final(source)@.key == old(source)@.key,
        final(source)@.raw == old(source)@.raw,
        final(source)@.read_op == old(source)@.read_op,
        final(source)@.write_op == old(source)@.write_op,
{
}

/// Registering a reader or a writer makes the task the one that polls in that direction and changes
/// nothing else. The task that polled before is handed back if it is another.
pub proof fn law_registering_replaces_the_task<E>(
    source: &mut Source,
    other: &mut Source,
    waker: Waker,
    registered: Result<(), E>,
    reader: Result<Option<Waker>, E>,
    writer: Result<Option<Waker>, E>,
)
    requires
        call_ensures(Source::register_reader::<E>, (source, waker, registered), reader),
        call_ensures(Source::register_writer::<E>, (other, waker, registered), writer),
    ensures
        match registered {
            Ok(_) => {
                &&& final(source)@.read.waker == Some(waker)
                &&& final(other)@.write.waker == Some(waker)
                &&& reader matches Ok(replaced) && (match replaced {
                    Some(task) => old(source)@.read.waker == Some(task) && task != waker,
                    None => old(source)@.read.waker is None || old(source)@.read.waker == Some(
                        waker,
                    ),
                })
                &&& writer matches Ok(replaced) && (match replaced {
                    Some(task) => old(other)@.write.waker == Some(task) && task != waker,
                    None => old(other)@.write.waker is None || old(other)@.write.waker == Some(
                        waker,
                    ),
                })
            },
            Err(err) => {
                &&& reader == Err::<Option<Waker>, E>(err) && writer == Err::<Option<Waker>, E>(err)
                &&& final(source)@ == old(source)@ && final(other)@ == old(other)@
            },
        },
        final(source)@.read.wakers == old(source)@.read.wakers,
        final(source)@.read.tick == old(source)@.read.tick,
        final(source)@.read.ticks == old(source)@.read.ticks,
        final(source)@.write == old(source)@.write,
        final(source)@.key == old(source)@.key,
        final(source)@.raw == old(source)@.raw,
        final(source)@.read_op == old(source)@.read_op,
        final(source)@.write_op == old(source)@.write_op,
        final(other)@.write.wakers == old(other)@.write.wakers,
        final(other)@.write.tick == old(other)@.write.tick,
        final(other)@.write.ticks == old(other)@.write.ticks,
        final(other)@.read == old(other)@.read,
        final(other)@.key == old(other)@.key,
        final(other)@.raw == old(other)@.raw,
        final(other)@.read_op == old(other)@.read_op,
        final(other)@.write_op == old(other)@.write_op,
{
}

/// Waits for reading are for reading and waits for writing for writing, and neither has begun. A new
/// source is registered as asked, and nobody waits for it.
pub proof fn law_new_sources_and_waits(
    raw: Registration,
    key: usize,
    source: Source,
    readable: Readiness,
    writable: Readiness,
)
    requires
        call_ensures(Source::new, (raw, key), source),
        call_ensures(Source::readable, (&source,), readable),
        call_ensures(Source::writable, (&source,), writable),
    ensures
        source@.raw == raw,
        source@.key == key,
        waiting_in(source@.read) == 0 && waiting_in(source@.write) == 0,
        source@.read.tick == 0 && source@.write.tick == 0,
        source@.read.ticks is None && source@.write.ticks is None,
        source@.read_op.waker is None && source@.write_op.waker is None,
        source@.read_op.buffer.len() == 0 && source@.write_op.buffer.len() == 0,
        source@.read_op.status == OperationStatus::NotStarted,
        source@.write_op.status == OperationStatus::NotStarted,
        readable.dir == Dir::Read && readable.ticks is None,
        writable.dir == Dir::Write && writable.ticks is None,
{
}

/// A source tells how and under which key it is registered.
pub proof fn law_source_tells_its_registration(source: Source, raw: Registration, key: usize)
    requires
        call_ensures(Source::raw, (&source,), raw),
        call_ensures(Source::key, (&source,), key),
    ensures
        raw == source@.raw,
        key == source@.key,
{
}

/// The parts of a direction do what the whole source relies on: an event leaves its tick and empties
/// the direction, a task joins the list once, and one that polls replaces another.
pub proof fn law_direction_does_its_part(
    delivered: &mut Direction,
    tick: usize,
    wakers: &mut Vec<Waker>,
    drained: &mut Direction,
    others: &mut Vec<Waker>,
    joined: &mut Direction,
    polled: &mut Direction,
    waker: Waker,
    replaced: Option<Waker>,
    asked: Direction,
    ticks: Option<(usize, usize)>,
    fresh: bool,
    empty: bool,
    last: usize,
    created: Direction,
)
    requires
        call_ensures(Direction::deliver, (delivered, tick, wakers), ()),
        call_ensures(Direction::drain_into, (drained, others), ()),
        call_ensures(Direction::join, (joined, waker), ()),
        call_ensures(Direction::set_waker, (polled, waker), replaced),
        call_ensures(Direction::is_fresh, (&asked, ticks), fresh),
        call_ensures(Direction::is_empty, (&asked,), empty),
        call_ensures(Direction::tick, (&asked,), last),
        call_ensures(Direction::new, (), created),
    ensures
        final(delivered)@.tick == tick,
        waiting_in(final(delivered)@) == 0,
        final(delivered)@.ticks == old(delivered)@.ticks,
        final(wakers)@.len() == old(wakers)@.len() + waiting_in(old(delivered)@),
        old(wakers)@.is_prefix_of(final(wakers)@),
        final(drained)@.tick == old(drained)@.tick,
        final(drained)@.ticks == old(drained)@.ticks,
        waiting_in(final(drained)@) == 0,
        final(others)@.len() == old(others)@.len() + waiting_in(old(drained)@),
        old(others)@.is_prefix_of(final(others)@),
        final(joined)@.wakers.contains(waker),
        old(joined)@.wakers.is_prefix_of(final(joined)@.wakers),
        old(joined)@.wakers.contains(waker) ==> final(joined)@.wakers == old(joined)@.wakers,
        final(joined)@.wakers.len() <= old(joined)@.wakers.len() + 1,
        final(joined)@.tick == old(joined)@.tick && final(joined)@.ticks == old(joined)@.ticks
            && final(joined)@.waker == old(joined)@.waker,
        final(polled)@.waker == Some(waker),
        final(polled)@.tick == old(polled)@.tick && final(polled)@.ticks == old(polled)@.ticks
            && final(polled)@.wakers == old(polled)@.wakers,
        match replaced {
            Some(task) => old(polled)@.waker == Some(task) && task != waker,
            None => old(polled)@.waker is None || old(polled)@.waker == Some(waker),
        },
        match ticks {
            Some((a, b)) => fresh <==> asked@.tick != a && asked@.tick != b,
            None => !fresh,
        },
        empty <==> waiting_in(asked@) == 0,
        last == asked@.tick,
        waiting_in(created@) == 0 && created@.tick == 0 && created@.ticks is None,
{
    lemma_waits(old(delivered)@, waker);
    lemma_waits(old(drained)@, waker);
    let before = old(joined)@.wakers;
    if !before.contains(waker) {
        assert(final(joined)@.wakers.last() == waker);
    }
}

/// Whether the tasks of a direction stand in a list from an index on: first the one that polls, if
/// there is one, and then those that wait, in the order in which they came.
pub open spec fn stand_from(list: Seq<Waker>, start: int, direction: DirectionView) -> bool {
    &&& start + waiting_in(direction) <= list.len()
    &&& direction.waker matches Some(waker) ==> list[start] == waker
    &&& forall|i: int|
        0 <= i < direction.wakers.len() ==> #[trigger] direction.wakers[i] == list[start
            + waiting_in(direction) - direction.wakers.len() + i]
}

/// Tasks are woken in the order in which they came: for writing before for reading, and in each
/// direction the one that polls first.
pub proof fn law_tasks_are_woken_in_order(
    source: &mut Source,
    event: Event,
    tick: usize,
    wakers: &mut Vec<Waker>,
    interest: Option<Event>,
    direction: &mut Direction,
    others: &mut Vec<Waker>,
    drained: &mut Direction,
    more: &mut Vec<Waker>,
)
    requires
        call_ensures(Source::deliver, (source, event, tick, wakers), interest),
        call_ensures(Direction::deliver, (direction, tick, others), ()),
        call_ensures(Direction::drain_into, (drained, more), ()),
    ensures
        event.writable ==> stand_from(
            final(wakers)@,
            old(wakers)@.len() as int,
            old(source)@.write,
        ),
        event.readable ==> stand_from(
            final(wakers)@,
            old(wakers)@.len() + if event.writable {
                waiting_in(old(source)@.write)
            } else {
                0
            },
            old(source)@.read,
        ),
        stand_from(final(others)@, old(others)@.len() as int, old(direction)@),
        stand_from(final(more)@, old(more)@.len() as int, old(drained)@),
{
    let view = old(source)@;
    let had = old(wakers)@;
    let writers = if event.writable {
        view.write.waiting()
    } else {
        Seq::empty()
    };
    let readers = if event.readable {
        view.read.waiting()
    } else {
        Seq::empty()
    };
    assert(final(wakers)@ =~= had + writers + readers);
    lemma_stand_from(had, view.write, readers);
    lemma_stand_from(had + writers, view.read, Seq::empty());
    assert(had + writers + readers + Seq::<Waker>::empty() =~= had + writers + readers);
    lemma_stand_from(old(others)@, old(direction)@, Seq::empty());
    lemma_stand_from(old(more)@, old(drained)@, Seq::empty());
    assert(final(others)@ + Seq::<Waker>::empty() =~= final(others)@);
    assert(final(more)@ + Seq::<Waker>::empty() =~= final(more)@);
}

/// The tasks that wait in a direction stand where their list is put.
proof fn lemma_stand_from(before: Seq<Waker>, direction: DirectionView, after: Seq<Waker>)
    ensures
        stand_from(before + direction.waiting() + after, before.len() as int, direction),
        direction.waiting().len() == waiting_in(direction),
{
}

/// The operation of a direction can be changed through the source, and nothing else with it.
pub proof fn law_operation_is_changed_in_place(
    source: &mut Source,
    dir: Dir,
    operation: &mut Operation,
)
    requires
        call_ensures(Source::op_mut, (source, dir), operation),
    ensures
        dir == Dir::Read ==> old(operation)@ == old(source)@.read_op && final(source)@.read_op
            == final(operation)@ && final(source)@.write_op == old(source)@.write_op,
        dir == Dir::Write ==> old(operation)@ == old(source)@.write_op && final(source)@.write_op
            == final(operation)@ && final(source)@.read_op == old(source)@.read_op,
        final(source)@.read == old(source)@.read,
        final(source)@.write == old(source)@.write,
        final(source)@.key == old(source)@.key,
        final(source)@.raw == old(source)@.raw,
{
}

/// Whether a source is ready is decided by ticks alone, whoever waits for it: a wait that remembers two
/// ticks has ended exactly if the last event came with another, and one that remembers none has not.
/// The same holds for the task that polls, and readiness is then used up.
pub proof fn law_readiness_is_told_by_ticks(
    waiting: &mut Source,
    wait: Readiness,
    waker: Waker,
    waited: ReadyStep,
    polled: &mut Source,
    dir: Dir,
    polling: ReadyStep,
)
    requires
        call_ensures(Readiness::poll, (&wait, waiting, waker), waited),
        call_ensures(Source::begin_poll, (polled, dir), polling),
    ensures
        match wait.ticks {
            Some((a, b)) => waited is Ready <==> old(waiting)@.dir(wait.dir).tick != a
                && old(waiting)@.dir(wait.dir).tick != b,
            None => !(waited is Ready),
        },
        waited is Ready ==> final(waiting)@ == old(waiting)@,
        match old(polled)@.dir(dir).ticks {
            Some((a, b)) => polling is Ready <==> old(polled)@.dir(dir).tick != a
                && old(polled)@.dir(dir).tick != b,
            None => !(polling is Ready),
        },
        polling is Ready ==> {
            let before = old(polled)@.dir(dir);
            let after = final(polled)@.dir(dir);
            &&& after.ticks is None
            &&& after.tick == before.tick && after.waker == before.waker && after.wakers
                == before.wakers
            &&& dir == Dir::Read ==> final(polled)@.write == old(polled)@.write
            &&& dir == Dir::Write ==> final(polled)@.read == old(polled)@.read
            &&& final(polled)@.key == old(polled)@.key && final(polled)@.raw == old(polled)@.raw
            &&& final(polled)@.read_op == old(polled)@.read_op && final(polled)@.write_op
                == old(polled)@.write_op
        },
        !(polling is Ready) ==> final(polled)@ == old(polled)@,
{
}

} // verus!
