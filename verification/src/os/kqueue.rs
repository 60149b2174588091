//! Functionality that is only available for `kqueue`-based platforms.
//!
//! The underlying `kqueue` implementation can be used to poll for events besides file descriptor
//! read/write readiness.
use crate::io::{Async, NewAsync};
use crate::os::AsyncSealed;
use crate::reactor::poll::Reactor;
use crate::reactor::registration::Registration;
use crate::reactor::source::{self, SourceView};
use vstd::prelude::*;

verus! {

/// An object representing a signal.
///
/// When registered, it gives a readability event when the signal is received.
#[derive(Clone, Copy, Debug, PartialEq, Eq, PartialOrd, Ord, Hash, Structural)]
pub struct Signal(pub i32);

/// A child process.
#[derive(Clone, Copy, Debug, PartialEq, Eq, Structural)]
pub struct Child {
    /// The number of the process.
    pub pid: u32,
}

/// Wait for a child process to exit.
///
/// When registered, it gives a readability event when the child process exits. It can be registered
/// once.
#[derive(Debug, PartialEq, Eq)]
pub struct Exit(Option<Child>);

impl Exit {
    /// The process that is waited for, unless it has been registered.
    pub closed spec fn child(&self) -> Option<Child> {
        self.0
    }

    /// Creates a new `Exit` object.
    pub fn new(child: Child) -> (exit: Exit)
        ensures
            exit.child() == Some(child),
    {
        Exit(Some(child))
    }
}

/// Objects that tell how they are registered.
pub trait FilterSealed {
    /// How the object is registered, if it can be.
    spec fn target(&self) -> Option<Registration>;

    /// Whether `after` is what this object has become once it has been registered.
    spec fn becomes(&self, after: &Self) -> bool;

    /// Gets a registration object for this filter.
    fn registration(&mut self) -> (registration: Registration)
        requires
            old(self).target() is Some,
        ensures
            Some(registration) == old(self).target(),
            old(self).becomes(final(self)),
    ;
}

/// Objects that can be registered into the reactor.
pub trait Filter: FilterSealed {

}

impl FilterSealed for Signal {
    open spec fn target(&self) -> Option<Registration> {
        Some(Registration::Signal(*self))
    }

    open spec fn becomes(&self, after: &Self) -> bool {
        *after == *self
    }

    fn registration(&mut self) -> (registration: Registration) {
        Registration::Signal(*self)
    }
}

impl Filter for Signal {

}

impl FilterSealed for Exit {
    open spec fn target(&self) -> Option<Registration> {
        match self.child() {
            Some(child) => Some(Registration::Process(child)),
            None => None,
        }
    }

    open spec fn becomes(&self, after: &Self) -> bool {
        after.child() is None
    }

    fn registration(&mut self) -> (registration: Registration) {
        let child = self.0.take();
        Registration::Process(child.unwrap())
    }
}

impl Filter for Exit {

}

/// An extension trait that provides the ability to register other queueable objects into the
/// reactor.
pub trait AsyncKqueueExt<T: Filter>: AsyncSealed {
    /// Registers a filter in the reactor. What adding it to the poller gives goes to
    /// `NewAsync::added`.
    fn with_filter(filter: T, reactor: &mut Reactor) -> (new: NewAsync<T>)
        requires
            old(reactor).wf(),
            filter.target() is Some,
        ensures
            final(reactor).wf(),
            new@.source == old(reactor)@.next_key,
            filter.becomes(&new@.io),
            !old(reactor)@.sources.contains_key(new@.source),
            final(reactor)@.timers == old(reactor)@.timers,
            final(reactor)@.sources == old(reactor)@.sources.insert(
                new@.source,
                SourceView::fresh(filter.target().unwrap(), new@.source),
            ),
    ;
}

impl<T: Filter> AsyncKqueueExt<T> for Async<T> {
    fn with_filter(filter: T, reactor: &mut Reactor) -> (new: NewAsync<T>) {
        let mut filter = filter;
        let registration = filter.registration();
        NewAsync::register(filter, registration, reactor)
    }
}

/// A signal is registered by its number as often as it is asked, and stays the same signal.
pub proof fn law_signal_is_registered_by_its_number(
    signal: &mut Signal,
    registration: Registration,
    reactor: &mut Reactor,
    new: NewAsync<Signal>,
)
    requires
        call_ensures(<Signal as FilterSealed>::registration, (signal,), registration),
        old(reactor).wf(),
        call_ensures(
            <Async<Signal> as AsyncKqueueExt<Signal>>::with_filter,
            (*final(signal), reactor),
            new,
        ),
    ensures
        registration matches Registration::Signal(Signal(number)) && number == old(signal).0,
        *final(signal) == *old(signal),
        new@.io == *old(signal),
        final(reactor)@.sources.contains_key(new@.source),
        final(reactor)@.sources[new@.source].raw == registration,
{
}

/// A process is waited for once: it is registered as the process that was given, and can then not be
/// registered again.
pub proof fn law_process_is_registered_once(
    child: Child,
    exit: Exit,
    registered: &mut Exit,
    registration: Registration,
    reactor: &mut Reactor,
    new: NewAsync<Exit>,
)
    requires
        call_ensures(Exit::new, (child,), exit),
        *old(registered) == exit,
        call_ensures(<Exit as FilterSealed>::registration, (registered,), registration),
        old(reactor).wf(),
        call_ensures(<Async<Exit> as AsyncKqueueExt<Exit>>::with_filter, (exit, reactor), new),
    ensures
        exit.target() is Some,
        registration == Registration::Process(child),
        final(registered).child() is None && final(registered).target() is None,
        new@.io.child() is None,
        final(reactor)@.sources.contains_key(new@.source),
        final(reactor)@.sources[new@.source].raw == registration,
{
}

/// Registering a filter puts one source into the reactor, for which nobody waits yet, and leaves
/// everything else.
pub proof fn law_filter_is_one_source<T: Filter>(
    filter: T,
    reactor: &mut Reactor,
    new: NewAsync<T>,
    other: usize,
)
    requires
        old(reactor).wf(),
        filter.target() is Some,
        call_ensures(<Async<T> as AsyncKqueueExt<T>>::with_filter, (filter, reactor), new),
    ensures
        !old(reactor)@.sources.contains_key(new@.source),
        final(reactor)@.sources.contains_key(new@.source),
        Some(final(reactor)@.sources[new@.source].raw) == filter.target(),
        final(reactor)@.sources[new@.source].key == new@.source,
        source::waiting_in(final(reactor)@.sources[new@.source].read) == 0,
        source::waiting_in(final(reactor)@.sources[new@.source].write) == 0,
        other != new@.source ==> final(reactor)@.sources.contains_key(other)
            == old(reactor)@.sources.contains_key(other)
                && (old(reactor)@.sources.contains_key(other) ==> final(reactor)@.sources[other]
                    == old(reactor)@.sources[other]),
        final(reactor)@.timers == old(reactor)@.timers,
{
}

} // verus!
