//! The adapter that registers descriptors in the reactor, and the loops of its operations.
use crate::reactor::poll::{Reactor, ReactorView};
use crate::reactor::registration::Registration;
use crate::reactor::source::{Dir, DirectionView, Readiness, ReadyStep, Source, SourceView};
use crate::sys::{Error, ErrorKind, Event};
use crate::task::{Poll, Waker};
use vstd::prelude::*;

verus! {

/// What an adapter holds.
pub struct AsyncView<T> {
    /// The key of its source in the reactor.
    pub source: usize,
    /// The inner I/O handle.
    pub io: T,
}

/// An adapter whose source has been put into the reactor but not yet added to the poller.
#[derive(Debug)]
pub struct NewAsync<T> {
    source: usize,
    io: T,
}

impl<T> View for NewAsync<T> {
    type V = AsyncView<T>;

    closed spec fn view(&self) -> AsyncView<T> {
        AsyncView { source: self.source, io: self.io }
    }
}

impl<T> NewAsync<T> {
    /// Puts a source into the reactor.
    pub fn register(io: T, registration: Registration, reactor: &mut Reactor) -> (new: NewAsync<T>)
        requires
            old(reactor).wf(),
        ensures
            final(reactor).wf(),
            new@ == (AsyncView { source: old(reactor)@.next_key, io }),
            !old(reactor)@.sources.contains_key(new@.source),
            final(reactor)@.timers == old(reactor)@.timers,
            final(reactor)@.sources == old(reactor)@.sources.insert(
                new@.source,
                SourceView::fresh(registration, new@.source),
            ),
    {
        let source: usize = reactor.insert_io(registration);
        NewAsync { source, io }
    }

    /// Returns the key of the source, under which it has to be added to the poller.
    pub fn key(&self) -> (key: usize)
        ensures
            key == self@.source,
    {
        self.source
    }

    /// Ends the registration. If adding the source to the poller has failed, it is taken out of
    /// the reactor again.
    pub fn added<E>(self, reactor: &mut Reactor, added: Result<(), E>) -> (result: Result<
        Async<T>,
        E,
    >)
        requires
            old(reactor).wf(),
            old(reactor)@.sources.contains_key(self@.source),
        ensures
            final(reactor).wf(),
            match added {
                Ok(_) => {
                    &&& final(reactor)@ == old(reactor)@
                    &&& result matches Ok(adapter) && adapter@ == self@
                },
                Err(err) => {
                    &&& final(reactor)@ == (ReactorView {
                        sources: old(reactor)@.sources.remove(self@.source),
                        next_key: self@.source,
                        ..old(reactor)@
                    })
                    &&& result == Err::<Async<T>, E>(err)
                },
            },
    {
        match reactor.end_insert_io(self.source, added) {
            Ok(source) => Ok(Async { source, io: self.io }),
            Err(err) => Err(err),
        }
    }
}

/// Async adapter for I/O types.
///
/// Its source stays registered in the reactor until the adapter is taken apart or closed.
#[derive(Debug)]
pub struct Async<T> {
    source: usize,
    io: T,
}

impl<T> View for Async<T> {
    type V = AsyncView<T>;

    closed spec fn view(&self) -> AsyncView<T> {
        AsyncView { source: self.source, io: self.io }
    }
}

impl<T> Async<T> {
    /// Creates an async I/O handle: once the descriptor is in non-blocking mode, its source is put
    /// into the reactor. What adding it to the poller gives goes to `NewAsync::added`.
    ///
    /// `nonblocking` is what putting the descriptor in non-blocking mode gave.
    pub fn new<E>(
        io: T,
        registration: Registration,
        nonblocking: Result<(), E>,
        reactor: &mut Reactor,
    ) -> (result: Result<NewAsync<T>, E>)
        requires
            old(reactor).wf(),
        ensures
            final(reactor).wf(),
            match nonblocking {
                Ok(_) => {
                    &&& result matches Ok(new) && new@ == (AsyncView {
                        source: old(reactor)@.next_key,
                        io,
                    })
                    &&& !old(reactor)@.sources.contains_key(old(reactor)@.next_key)
                    &&& final(reactor)@.timers == old(reactor)@.timers
                    &&& final(reactor)@.sources == old(reactor)@.sources.insert(
                        old(reactor)@.next_key,
                        SourceView::fresh(registration, old(reactor)@.next_key),
                    )
                },
                Err(err) => {
                    &&& result == Err::<NewAsync<T>, E>(err)
                    &&& final(reactor)@ == old(reactor)@
                },
            },
    {
        match nonblocking {
            Ok(()) => Ok(NewAsync::register(io, registration, reactor)),
            Err(err) => Err(err),
        }
    }

    /// Returns the key of the source.
    pub fn key(&self) -> (key: usize)
        ensures
            key == self@.source,
    {
        self.source
    }

    /// Gets a reference to the inner I/O handle.
    pub fn get_ref(&self) -> (io: &T)
        ensures
            *io == self@.io,
    {
        &self.io
    }

    /// Gets a mutable reference to the inner I/O handle.
    ///
    /// The handle must not be replaced by another one while it is registered.
    pub fn get_mut(&mut self) -> (io: &mut T)
        ensures
            *io == old(self)@.io,
            final(self)@ == (AsyncView { io: *final(io), ..old(self)@ }),
    {
        &mut self.io
    }

    /// Unwraps the inner I/O handle, whose source is taken out of the reactor.
    ///
    /// Also returns the registration to delete from the poller. If that fails, the handle must be
    /// dropped and the error returned in its place.
    pub fn into_inner(self, reactor: &mut Reactor) -> (inner: (T, Registration))
        requires
            old(reactor).wf(),
            old(reactor)@.sources.contains_key(self@.source),
        ensures
            final(reactor).wf(),
            inner.0 == self@.io,
            inner.1 == old(reactor)@.sources[self@.source].raw,
            final(reactor)@ == (ReactorView {
                sources: old(reactor)@.sources.remove(self@.source),
                next_key: self@.source,
                ..old(reactor)@
            }),
    {
        let raw = reactor.remove_io(self.source);
        (self.io, raw)
    }

    /// Starts waiting until the I/O handle is readable.
    pub fn readable(&self) -> (wait: Readiness)
        ensures
            wait == (Readiness { dir: Dir::Read, ticks: None }),
    {
        Readiness { dir: Dir::Read, ticks: None }
    }

    /// Starts waiting until the I/O handle is writable.
    pub fn writable(&self) -> (wait: Readiness)
        ensures
            wait == (Readiness { dir: Dir::Write, ticks: None }),
    {
        Readiness { dir: Dir::Write, ticks: None }
    }

    /// Polls the I/O handle for readability.
    ///
    /// Unless it is ready, the interest has to be registered if there is one, and what that gives
    /// goes to `register_readable`.
    pub fn poll_readable(&self, reactor: &mut Reactor) -> (step: ReadyStep)
        requires
            old(reactor).wf(),
            old(reactor)@.sources.contains_key(self@.source),
        ensures
            final(reactor).wf(),
            poll_begins(old(reactor)@, final(reactor)@, self@.source, Dir::Read, step),
    {
        begin_poll(reactor, self.source, Dir::Read)
    }

    /// Polls the I/O handle for writability.
    ///
    /// Unless it is ready, the interest has to be registered if there is one, and what that gives
    /// goes to `register_writable`.
    pub fn poll_writable(&self, reactor: &mut Reactor) -> (step: ReadyStep)
        requires
            old(reactor).wf(),
            old(reactor)@.sources.contains_key(self@.source),
        ensures
            final(reactor).wf(),
            poll_begins(old(reactor)@, final(reactor)@, self@.source, Dir::Write, step),
    {
        begin_poll(reactor, self.source, Dir::Write)
    }

    /// Registers the task that polls for readability, if registering the interest has succeeded.
    ///
    /// Returns the waker to wake because it has been replaced.
    pub fn register_readable<E>(
        &self,
        reactor: &mut Reactor,
        waker: Waker,
        registered: Result<(), E>,
    ) -> (replaced: Result<Option<Waker>, E>)
        requires
            old(reactor).wf(),
            old(reactor)@.sources.contains_key(self@.source),
        ensures
            final(reactor).wf(),
            poll_ends(
                old(reactor)@,
                final(reactor)@,
                self@.source,
                Dir::Read,
                waker,
                registered,
                replaced,
            ),
    {
        end_poll(reactor, self.source, Dir::Read, waker, registered)
    }

    /// Registers the task that polls for writability, if registering the interest has succeeded.
    ///
    /// Returns the waker to wake because it has been replaced.
    pub fn register_writable<E>(
        &self,
        reactor: &mut Reactor,
        waker: Waker,
        registered: Result<(), E>,
    ) -> (replaced: Result<Option<Waker>, E>)
        requires
            old(reactor).wf(),
            old(reactor)@.sources.contains_key(self@.source),
        ensures
            final(reactor).wf(),
            poll_ends(
                old(reactor)@,
                final(reactor)@,
                self@.source,
                Dir::Write,
                waker,
                registered,
                replaced,
            ),
    {
        end_poll(reactor, self.source, Dir::Write, waker, registered)
    }
}

/// How polling a source in one direction begins.
pub open spec fn poll_begins(
    before: ReactorView,
    after: ReactorView,
    key: usize,
    dir: Dir,
    step: ReadyStep,
) -> bool {
    let source = before.sources[key];
    let direction = source.dir(dir);
    if direction.is_fresh(direction.ticks) {
        &&& step == ReadyStep::Ready
        &&& after == ReactorView {
            sources: before.sources.insert(
                key,
                source.with_dir(dir, DirectionView { ticks: None, ..direction }),
            ),
            ..before
        }
    } else {
        step == ReadyStep::Wait(source.poll_interest(dir)) && after == before
    }
}

/// How polling a source in one direction ends if the source was not ready.
pub open spec fn poll_ends<E>(
    before: ReactorView,
    after: ReactorView,
    key: usize,
    dir: Dir,
    waker: Waker,
    registered: Result<(), E>,
    replaced: Result<Option<Waker>, E>,
) -> bool {
    let source = before.sources[key];
    let direction = source.dir(dir);
    match registered {
        Err(err) => replaced == Err::<Option<Waker>, E>(err) && after == before,
        Ok(_) => {
            &&& replaced == Ok::<Option<Waker>, E>(direction.replaced_by(waker))
            &&& after == ReactorView {
                sources: before.sources.insert(
                    key,
                    source.with_dir(
                        dir,
                        DirectionView {
                            ticks: Some((before.timers.ticker, direction.tick)),
                            ..direction.polled_by(waker)
                        },
                    ),
                ),
                ..before
            }
        },
    }
}

/// Begins to poll a source in one direction.
fn begin_poll(reactor: &mut Reactor, key: usize, dir: Dir) -> (step: ReadyStep)
    requires
        old(reactor).wf(),
        old(reactor)@.sources.contains_key(key),
    ensures
        final(reactor).wf(),
        poll_begins(old(reactor)@, final(reactor)@, key, dir, step),
{
    let ghost sources = reactor@.sources;
    match reactor.source_mut(key) {
        Some(source) => {
            let step = source.begin_poll(dir);
            proof {
                if !(step is Ready) {
                    assert(sources.insert(key, sources[key]) =~= sources);
                }
            }
            step
        },
        None => ReadyStep::Ready,
    }
}

/// Ends polling a source that was not ready in one direction.
fn end_poll<E>(
    reactor: &mut Reactor,
    key: usize,
    dir: Dir,
    waker: Waker,
    registered: Result<(), E>,
) -> (replaced: Result<Option<Waker>, E>)
    requires
        old(reactor).wf(),
        old(reactor)@.sources.contains_key(key),
    ensures
        final(reactor).wf(),
        poll_ends(old(reactor)@, final(reactor)@, key, dir, waker, registered, replaced),
{
    let ghost sources = reactor@.sources;
    let ticker: usize = reactor.ticker();
    match reactor.source_mut(key) {
        Some(source) => {
            let replaced = source.end_poll(dir, waker, ticker, registered);
            proof {
                if registered is Err {
                    assert(sources.insert(key, sources[key]) =~= sources);
                }
            }
            replaced
        },
        None => Ok(None),
    }
}

/// How an I/O operation goes on.
#[derive(Debug, PartialEq, Eq)]
pub enum IoStep<R, E> {
    /// Attempt the operation.
    Attempt,
    /// The operation would block: poll for readiness.
    PollReady,
    /// The operation has ended, or the task has to wait.
    Done(Poll<Result<R, E>>),
}

/// Judges an attempt at an operation: unless it would block, its result is the result.
pub fn attempted<R, E>(result: Result<R, Error<E>>) -> (step: IoStep<R, E>)
    ensures
        step == match result {
            Ok(value) => IoStep::Done(Poll::Ready(Ok::<R, E>(value))),
            Err(err) => if err.kind == ErrorKind::WouldBlock {
                IoStep::PollReady
            } else {
                IoStep::Done(Poll::Ready(Err(err.error)))
            },
        },
{
    match result {
        Ok(value) => IoStep::Done(Poll::Ready(Ok(value))),
        Err(err) => {
            if err.kind == ErrorKind::WouldBlock {
                IoStep::PollReady
            } else {
                IoStep::Done(Poll::Ready(Err(err.error)))
            }
        },
    }
}

/// Judges a poll for readiness: if the handle is ready, the operation is attempted again.
pub fn polled_ready<R, E>(ready: Poll<Result<(), E>>) -> (step: IoStep<R, E>)
    ensures
        step == match ready {
            Poll::Ready(Ok(_)) => IoStep::Attempt,
            Poll::Ready(Err(err)) => IoStep::Done(Poll::Ready(Err::<R, E>(err))),
            Poll::Pending => IoStep::Done(Poll::Pending),
        },
{
    match ready {
        Poll::Ready(Ok(())) => IoStep::Attempt,
        Poll::Ready(Err(err)) => IoStep::Done(Poll::Ready(Err(err))),
        Poll::Pending => IoStep::Done(Poll::Pending),
    }
}

/// A wait for readiness that ends at the latest when it is polled the second time: the operation is
/// then attempted again, whatever has woken the task.
#[derive(Clone, Copy, Debug, PartialEq, Eq, Structural)]
pub struct Optimistic {
    /// The wait has been polled.
    pub polled: bool,
}

/// Starts an optimistic wait for readiness.
pub fn optimistic() -> (wait: Optimistic)
    ensures
        !wait.polled,
{
    Optimistic { polled: false }
}

impl Optimistic {
    /// Polls the wait. Returns `true` if the inner wait has to be polled, and `false` if the wait
    /// has ended.
    pub fn poll(&mut self) -> (poll_inner: bool)
        ensures
            poll_inner == !old(self).polled,
            final(self).polled,
    {
        let poll_inner = !self.polled;
        self.polled = true;
        poll_inner
    }
}

/// Judges an attempt to connect: it goes on in the background if it is in progress or would block.
pub fn connect<E>(result: Result<(), Error<E>>) -> (started: Result<(), E>)
    ensures
        started == match result {
            Ok(_) => Ok::<(), E>(()),
            Err(err) => if err.kind == ErrorKind::InProgress || err.kind == ErrorKind::WouldBlock {
                Ok(())
            } else {
                Err(err.error)
            },
        },
{
    match result {
        Ok(()) => Ok(()),
        Err(err) => {
            if err.kind == ErrorKind::InProgress || err.kind == ErrorKind::WouldBlock {
                Ok(())
            } else {
                Err(err.error)
            }
        },
    }
}

/// Judges a socket that has become writable after connecting, given the error pending on it: the
/// connection is established if there is none.
pub fn connected<E>(taken: Result<Option<E>, E>) -> (result: Result<(), E>)
    ensures
        result == match taken {
            Ok(None) => Ok::<(), E>(()),
            Ok(Some(err)) => Err(err),
            Err(err) => Err(err),
        },
{
    match taken {
        Ok(None) => Ok(()),
        Ok(Some(err)) => Err(err),
        Err(err) => Err(err),
    }
}

/// A registration that fails leaves nothing behind: the sources are as they were.
pub proof fn law_failed_registration_leaves_nothing(
    sources: Map<usize, SourceView>,
    key: usize,
    registration: Registration,
)
    requires
        !sources.contains_key(key),
    ensures
        sources.insert(key, SourceView::fresh(registration, key)).remove(key) == sources,
{
    assert(sources.insert(key, SourceView::fresh(registration, key)).remove(key) =~= sources);
}

/// A task that polls a source that is not ready will be woken: it waits in that direction, and
/// delivering an event for the direction wakes it.
pub proof fn law_polling_task_is_woken<E>(
    before: ReactorView,
    after: ReactorView,
    key: usize,
    dir: Dir,
    waker: Waker,
    replaced: Result<Option<Waker>, E>,
    event: Event,
    tick: usize,
)
    requires
        before.sources.contains_key(key),
        poll_ends(before, after, key, dir, waker, Ok::<(), E>(()), replaced),
        event.key == key,
        dir == Dir::Read ==> event.readable,
        dir == Dir::Write ==> event.writable,
    ensures
        crate::reactor::poll::event_woken(after.sources, event).contains(waker),
{
    let source = after.sources[key];
    let waiting = source.dir(dir).waiting();
    assert(waiting[0] == waker);
    assert(waiting.contains(waker));
    crate::reactor::source::law_event_wakes_its_direction(source, event, tick, waker);
}

/// A task that polls a source is told that it is ready exactly once a later tick of the reactor has
/// delivered an event: right after it was told to wait, it is not.
pub proof fn law_polling_waits_for_a_fresh_event<E>(
    before: ReactorView,
    after: ReactorView,
    key: usize,
    dir: Dir,
    waker: Waker,
    replaced: Result<Option<Waker>, E>,
    event: Event,
    tick: usize,
)
    requires
        before.sources.contains_key(key),
        poll_ends(before, after, key, dir, waker, Ok::<(), E>(()), replaced),
        event.key == key,
        dir == Dir::Read ==> event.readable,
        dir == Dir::Write ==> event.writable,
        tick != before.timers.ticker,
        tick != before.sources[key].dir(dir).tick,
    ensures
        ({
            let direction = after.sources[key].dir(dir);
            !direction.is_fresh(direction.ticks)
        }),
        ({
            let direction = crate::reactor::poll::event_delivered(
                after.sources,
                event,
                tick,
            )[key].dir(dir);
            direction.is_fresh(direction.ticks)
        }),
{
}

/// A handle is put into the reactor as a source of its own, once it is in non-blocking mode, and the
/// adapter remembers the key and the handle. If it could not be put in that mode, or could not be
/// added to the poller, the error is handed back and the reactor holds what it held.
pub proof fn law_new_handle_is_registered<T, E>(
    io: T,
    registration: Registration,
    nonblocking: Result<(), E>,
    reactor: &mut Reactor,
    begun: Result<NewAsync<T>, E>,
    ended: &mut Reactor,
    added: Result<(), E>,
    result: Result<Async<T>, E>,
    same: &mut Reactor,
    key: usize,
)
    requires
        old(reactor).wf() && old(ended).wf() && old(same).wf(),
        call_ensures(Async::<T>::new::<E>, (io, registration, nonblocking, reactor), begun),
        old(ended)@ == final(reactor)@,
        begun matches Ok(new) ==> call_ensures(
            NewAsync::<T>::added::<E>,
            (new, ended, added),
            result,
        ),
        old(same)@ == old(reactor)@,
        call_ensures(Reactor::insert_io, (same, registration), key),
    ensures
        match nonblocking {
            Ok(_) => {
                &&& begun matches Ok(new) && new@.source == key && new@.io == io
                &&& final(reactor)@.sources == final(same)@.sources
                &&& final(reactor)@.timers == final(same)@.timers
                &&& match added {
                    Ok(_) => (result matches Ok(adapter) && adapter@.source == key && adapter@.io
                        == io) && final(ended)@ == final(reactor)@,
                    Err(err) => result == Err::<Async<T>, E>(err) && final(ended)@.sources
                        == old(reactor)@.sources && final(ended)@.timers == old(reactor)@.timers,
                }
            },
            Err(err) => begun == Err::<NewAsync<T>, E>(err) && final(reactor)@ == old(reactor)@,
        },
{
    assert(old(reactor)@.sources.insert(key, SourceView::fresh(registration, key)).remove(key)
        =~= old(reactor)@.sources);
}

/// An adapter tells its key and its handle, before and after it has been added to the poller. The
/// handle that is unwrapped is the one that was put in, and its source leaves the reactor as any does.
pub proof fn law_handle_is_given_back<T>(
    io: T,
    registration: Registration,
    reactor: &mut Reactor,
    new: NewAsync<T>,
    key: usize,
    adapter: Async<T>,
    keys: usize,
    handle: &T,
    other: &mut Reactor,
    inner: (T, Registration),
    same: &mut Reactor,
    raw: Registration,
)
    requires
        old(reactor).wf() && old(other).wf() && old(same).wf(),
        call_ensures(NewAsync::<T>::register, (io, registration, reactor), new),
        call_ensures(NewAsync::<T>::key, (&new,), key),
        call_ensures(Async::<T>::key, (&adapter,), keys),
        call_ensures(Async::<T>::get_ref, (&adapter,), handle),
        old(other)@.sources.contains_key(adapter@.source),
        call_ensures(Async::<T>::into_inner, (adapter, other), inner),
        old(same)@ == old(other)@,
        call_ensures(Reactor::remove_io, (same, adapter@.source), raw),
    ensures
        key == new@.source && new@.io == io,
        final(reactor)@.sources.contains_key(key),
        final(reactor)@.sources[key].raw == registration,
        keys == adapter@.source,
        *handle == adapter@.io,
        inner.0 == adapter@.io,
        inner.1 == raw,
        final(other)@ == final(same)@,
{
}

/// Waits that an adapter starts are for their direction and have not begun.
pub proof fn law_waits_are_for_their_direction<T>(
    adapter: Async<T>,
    readable: Readiness,
    writable: Readiness,
)
    requires
        call_ensures(Async::<T>::readable, (&adapter,), readable),
        call_ensures(Async::<T>::writable, (&adapter,), writable),
    ensures
        readable.dir == Dir::Read && readable.ticks is None,
        writable.dir == Dir::Write && writable.ticks is None,
{
}

/// Polling an adapter begins as polling its source does, in the direction that is asked for, and
/// leaves all other sources.
pub proof fn law_polling_begins_at_the_source<T>(
    adapter: Async<T>,
    reading: &mut Reactor,
    read: ReadyStep,
    reader: &mut Source,
    same_read: ReadyStep,
    writing: &mut Reactor,
    write: ReadyStep,
    writer: &mut Source,
    same_write: ReadyStep,
)
    requires
        old(reading).wf() && old(writing).wf(),
        old(reading)@.sources.contains_key(adapter@.source),
        old(writing)@.sources.contains_key(adapter@.source),
        call_ensures(Async::<T>::poll_readable, (&adapter, reading), read),
        call_ensures(Async::<T>::poll_writable, (&adapter, writing), write),
        old(reader)@ == old(reading)@.sources[adapter@.source],
        old(writer)@ == old(writing)@.sources[adapter@.source],
        call_ensures(Source::begin_poll, (reader, Dir::Read), same_read),
        call_ensures(Source::begin_poll, (writer, Dir::Write), same_write),
    ensures
        read == same_read && write == same_write,
        only_source_changed(old(reading)@, final(reading)@, adapter@.source, final(reader)@),
        only_source_changed(old(writing)@, final(writing)@, adapter@.source, final(writer)@),
{
    let key = adapter@.source;
    let a = old(reading)@.sources;
    let b = old(writing)@.sources;
    assert(a.insert(key, final(reader)@).dom() =~= a.dom());
    assert(b.insert(key, final(writer)@).dom() =~= b.dom());
}

/// Whether one source of a reactor is now the given one, and everything else is as it was.
pub open spec fn only_source_changed(
    before: ReactorView,
    after: ReactorView,
    key: usize,
    source: SourceView,
) -> bool {
    &&& after.timers == before.timers
    &&& after.next_key == before.next_key
    &&& after.sources.dom() == before.sources.dom()
    &&& after.sources[key] == source
    &&& forall|other: usize|
        other != key && before.sources.contains_key(other) ==> #[trigger] after.sources[other]
            == before.sources[other]
}

/// Polling an adapter ends as polling its source does with the ticker of the reactor, in the
/// direction that is asked for, and leaves all other sources.
pub proof fn law_polling_ends_at_the_source<T, E>(
    adapter: Async<T>,
    waker: Waker,
    registered: Result<(), E>,
    asked: Reactor,
    ticker: usize,
    reading: &mut Reactor,
    read: Result<Option<Waker>, E>,
    reader: &mut Source,
    same_read: Result<Option<Waker>, E>,
    writing: &mut Reactor,
    write: Result<Option<Waker>, E>,
    writer: &mut Source,
    same_write: Result<Option<Waker>, E>,
)
    requires
        old(reading).wf() && old(writing).wf(),
        old(reading)@ == asked@ && old(writing)@ == asked@,
        call_ensures(Reactor::ticker, (&asked,), ticker),
        asked@.sources.contains_key(adapter@.source),
        call_ensures(
            Async::<T>::register_readable::<E>,
            (&adapter, reading, waker, registered),
            read,
        ),
        call_ensures(
            Async::<T>::register_writable::<E>,
            (&adapter, writing, waker, registered),
            write,
        ),
        old(reader)@ == asked@.sources[adapter@.source],
        old(writer)@ == asked@.sources[adapter@.source],
        call_ensures(
            Source::end_poll::<E>,
            (reader, Dir::Read, waker, ticker, registered),
            same_read,
        ),
        call_ensures(
            Source::end_poll::<E>,
            (writer, Dir::Write, waker, ticker, registered),
            same_write,
        ),
    ensures
        read == same_read && write == same_write,
        only_source_changed(asked@, final(reading)@, adapter@.source, final(reader)@),
        only_source_changed(asked@, final(writing)@, adapter@.source, final(writer)@),
{
    let key = adapter@.source;
    let sources = asked@.sources;
    assert(sources.insert(key, final(reader)@).dom() =~= sources.dom());
    assert(sources.insert(key, final(writer)@).dom() =~= sources.dom());
}

/// An operation ends with the result of the attempt, unless that would block, in which case nothing
/// but readiness leads to another attempt. A wait for readiness that fails ends the operation with
/// the error, and one that goes on leaves it waiting.
pub proof fn law_operations_go_on_while_they_would_block<R, E>(
    result: Result<R, Error<E>>,
    first: IoStep<R, E>,
    ready: Poll<Result<(), E>>,
    second: IoStep<R, E>,
)
    requires
        call_ensures(attempted::<R, E>, (result,), first),
        call_ensures(polled_ready::<R, E>, (ready,), second),
    ensures
        match result {
            Ok(value) => first == IoStep::Done(Poll::Ready(Ok::<R, E>(value))),
            Err(err) => {
                &&& err.kind == ErrorKind::WouldBlock <==> first is PollReady
                &&& err.kind != ErrorKind::WouldBlock ==> first == IoStep::Done(
                    Poll::Ready(Err::<R, E>(err.error)),
                )
            },
        },
        ready is Pending ==> second == IoStep::Done(Poll::<Result<R, E>>::Pending),
        ready matches Poll::Ready(Ok(_)) ==> second is Attempt,
        ready matches Poll::Ready(Err(err)) ==> second == IoStep::Done(
            Poll::Ready(Err::<R, E>(err)),
        ),
{
}

/// An optimistic wait polls the inner wait the first time and never again.
pub proof fn law_optimistic_wait_polls_once(
    wait: Optimistic,
    first: &mut Optimistic,
    second: &mut Optimistic,
    polls: (bool, bool),
)
    requires
        call_ensures(optimistic, (), wait),
        *old(first) == wait,
        call_ensures(Optimistic::poll, (first,), polls.0),
        *old(second) == *final(first),
        call_ensures(Optimistic::poll, (second,), polls.1),
    ensures
        polls.0 && !polls.1,
        *final(second) == *final(first),
{
}

/// Connecting fails at once with any error but those that say that it goes on, and fails later
/// exactly if an error is pending on the socket or cannot be asked for, with that error.
pub proof fn law_connecting_reports_its_error<E>(
    result: Result<(), Error<E>>,
    started: Result<(), E>,
    taken: Result<Option<E>, E>,
    ended: Result<(), E>,
)
    requires
        call_ensures(connect::<E>, (result,), started),
        call_ensures(connected::<E>, (taken,), ended),
    ensures
        result is Ok ==> started is Ok,
        result matches Err(err) ==> {
            &&& err.kind == ErrorKind::InProgress ==> started is Ok
            &&& err.kind == ErrorKind::WouldBlock ==> started is Ok
            &&& err.kind != ErrorKind::InProgress && err.kind != ErrorKind::WouldBlock
                ==> started == Err::<(), E>(err.error)
        },
        ended is Ok <==> taken == Ok::<Option<E>, E>(None),
        taken matches Ok(Some(err)) ==> ended == Err::<(), E>(err),
        taken matches Err(err) ==> ended == Err::<(), E>(err),
{
}

/// The handle that can be changed is the one in the adapter: a change of it stays there, and the key
/// stays as it is.
pub proof fn law_handle_is_changed_in_place<T>(adapter: &mut Async<T>, io: &mut T)
    requires
        call_ensures(Async::<T>::get_mut, (adapter,), io),
    ensures
        *old(io) == old(adapter)@.io,
        final(adapter)@.io == *final(io),
        final(adapter)@.source == old(adapter)@.source,
{
}

/// An adapter is ready for use once its source has been added to the poller, and until then ends as
/// the registration of its source does.
pub proof fn law_adapter_ends_with_its_registration<T, E>(
    new: NewAsync<T>,
    reactor: &mut Reactor,
    added: Result<(), E>,
    result: Result<Async<T>, E>,
    same: &mut Reactor,
    registered: Result<usize, E>,
)
    requires
        old(reactor).wf() && old(same).wf(),
        old(reactor)@.sources.contains_key(new@.source),
        call_ensures(NewAsync::<T>::added::<E>, (new, reactor, added), result),
        old(same)@ == old(reactor)@,
        call_ensures(Reactor::end_insert_io::<E>, (same, new@.source, added), registered),
    ensures
        final(reactor)@ == final(same)@,
        match registered {
            Ok(key) => result matches Ok(adapter) && adapter@.source == key && adapter@.io
                == new@.io,
            Err(err) => result == Err::<Async<T>, E>(err),
        },
{
}

} // verus!
