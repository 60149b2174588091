//! How sources are registered with the poller.
use crate::os::kqueue::{Child, Signal};
use crate::sys::Event;
use vstd::prelude::*;

verus! {

/// The raw registration into the reactor.
#[derive(Clone, Copy, Debug, PartialEq, Eq, Structural)]
pub enum Registration {
    /// Raw file descriptor for readability/writability.
    Fd(i32),
    /// Raw socket handle for readability/writability.
    Socket(u64),
    /// Raw signal number for signal delivery.
    Signal(Signal),
    /// Process for process termination.
    Process(Child),
}

/// What is asked of the poller.
#[derive(Clone, Copy, Debug, PartialEq, Eq, Structural)]
pub enum Request {
    /// Add a file descriptor with an interest.
    AddFd(i32, Event),
    /// Change the interest in a file descriptor.
    ModifyFd(i32, Event),
    /// Delete a file descriptor.
    DeleteFd(i32),
    /// Add a socket with an interest.
    AddSocket(u64, Event),
    /// Change the interest in a socket.
    ModifySocket(u64, Event),
    /// Delete a socket.
    DeleteSocket(u64),
    /// Add a filter under a key, for one event.
    AddFilter(PollFilter, usize),
    /// Register a filter again under a key, for one event.
    ModifyFilter(PollFilter, usize),
    /// Delete a filter.
    DeleteFilter(PollFilter),
}

/// What the poller can wait for besides readiness.
#[derive(Clone, Copy, Debug, PartialEq, Eq, Structural)]
pub enum PollFilter {
    /// The delivery of a signal.
    Signal(i32),
    /// The exit of a process.
    Exit(u32),
}

impl From<i32> for Registration {
    fn from(raw: i32) -> (registration: Registration) {
        Registration::Fd(raw)
    }
}

impl vstd::std_specs::convert::FromSpecImpl<i32> for Registration {
    open spec fn obeys_from_spec() -> bool {
        true
    }

    open spec fn from_spec(raw: i32) -> Registration {
        Registration::Fd(raw)
    }
}

impl From<u64> for Registration {
    fn from(raw: u64) -> (registration: Registration) {
        Registration::Socket(raw)
    }
}

impl vstd::std_specs::convert::FromSpecImpl<u64> for Registration {
    open spec fn obeys_from_spec() -> bool {
        true
    }

    open spec fn from_spec(raw: u64) -> Registration {
        Registration::Socket(raw)
    }
}

impl From<Signal> for Registration {
    fn from(signal: Signal) -> (registration: Registration) {
        Registration::Signal(signal)
    }
}

impl vstd::std_specs::convert::FromSpecImpl<Signal> for Registration {
    open spec fn obeys_from_spec() -> bool {
        true
    }

    open spec fn from_spec(signal: Signal) -> Registration {
        Registration::Signal(signal)
    }
}

impl From<Child> for Registration {
    fn from(process: Child) -> (registration: Registration) {
        Registration::Process(process)
    }
}

impl vstd::std_specs::convert::FromSpecImpl<Child> for Registration {
    open spec fn obeys_from_spec() -> bool {
        true
    }

    open spec fn from_spec(process: Child) -> Registration {
        Registration::Process(process)
    }
}

impl Registration {
    /// Asks to register the object into the reactor, without any interest yet.
    pub fn add(&self, token: usize) -> (request: Request)
        ensures
            request == match *self {
                Registration::Fd(raw) => Request::AddFd(
                    raw,
                    Event { readable: false, writable: false, key: token },
                ),
                Registration::Socket(raw) => Request::AddSocket(
                    raw,
                    Event { readable: false, writable: false, key: token },
                ),
                Registration::Signal(signal) => Request::AddFilter(
                    PollFilter::Signal(signal.0),
                    token,
                ),
                Registration::Process(process) => Request::AddFilter(
                    PollFilter::Exit(process.pid),
                    token,
                ),
            },
    {
        match self {
            Registration::Fd(raw) => Request::AddFd(*raw, Event::none(token)),
            Registration::Socket(raw) => Request::AddSocket(*raw, Event::none(token)),
            Registration::Signal(signal) => Request::AddFilter(PollFilter::Signal(signal.0), token),
            Registration::Process(process) => Request::AddFilter(
                PollFilter::Exit(process.pid),
                token,
            ),
        }
    }

    /// Asks to register the object into the reactor again, with a new interest.
    pub fn modify(&self, interest: Event) -> (request: Request)
        ensures
            request == match *self {
                Registration::Fd(raw) => Request::ModifyFd(raw, interest),
                Registration::Socket(raw) => Request::ModifySocket(raw, interest),
                Registration::Signal(signal) => Request::ModifyFilter(
                    PollFilter::Signal(signal.0),
                    interest.key,
                ),
                Registration::Process(process) => Request::ModifyFilter(
                    PollFilter::Exit(process.pid),
                    interest.key,
                ),
            },
    {
        match self {
            Registration::Fd(raw) => Request::ModifyFd(*raw, interest),
            Registration::Socket(raw) => Request::ModifySocket(*raw, interest),
            Registration::Signal(signal) => Request::ModifyFilter(
                PollFilter::Signal(signal.0),
                interest.key,
            ),
            Registration::Process(process) => Request::ModifyFilter(
                PollFilter::Exit(process.pid),
                interest.key,
            ),
        }
    }

    /// Asks to deregister the object from the reactor.
    pub fn delete(&self) -> (request: Request)
        ensures
            request == match *self {
                Registration::Fd(raw) => Request::DeleteFd(raw),
                Registration::Socket(raw) => Request::DeleteSocket(raw),
                Registration::Signal(signal) => Request::DeleteFilter(PollFilter::Signal(signal.0)),
                Registration::Process(process) => Request::DeleteFilter(
                    PollFilter::Exit(process.pid),
                ),
            },
    {
        match self {
            Registration::Fd(raw) => Request::DeleteFd(*raw),
            Registration::Socket(raw) => Request::DeleteSocket(*raw),
            Registration::Signal(signal) => Request::DeleteFilter(PollFilter::Signal(signal.0)),
            Registration::Process(process) => Request::DeleteFilter(PollFilter::Exit(process.pid)),
        }
    }
}

/// An object is registered as what it is, and the poller is asked to add it under its key without any
/// interest yet.
pub proof fn law_objects_are_added_without_interest(
    fd: i32,
    socket: u64,
    signal: Signal,
    child: Child,
    token: usize,
    registrations: (Registration, Registration, Registration, Registration),
    requests: (Request, Request, Request, Request),
)
    requires
        call_ensures(<Registration as From<i32>>::from, (fd,), registrations.0),
        call_ensures(<Registration as From<u64>>::from, (socket,), registrations.1),
        call_ensures(<Registration as From<Signal>>::from, (signal,), registrations.2),
        call_ensures(<Registration as From<Child>>::from, (child,), registrations.3),
        call_ensures(Registration::add, (&registrations.0, token), requests.0),
        call_ensures(Registration::add, (&registrations.1, token), requests.1),
        call_ensures(Registration::add, (&registrations.2, token), requests.2),
        call_ensures(Registration::add, (&registrations.3, token), requests.3),
    ensures
        registrations.0 == Registration::Fd(fd),
        registrations.1 == Registration::Socket(socket),
        registrations.2 == Registration::Signal(signal),
        registrations.3 == Registration::Process(child),
        requests.0 matches Request::AddFd(raw, interest) && raw == fd && interest.key == token
            && !interest.readable && !interest.writable,
        requests.1 matches Request::AddSocket(raw, interest) && raw == socket && interest.key
            == token && !interest.readable && !interest.writable,
        requests.2 == Request::AddFilter(PollFilter::Signal(signal.0), token),
        requests.3 == Request::AddFilter(PollFilter::Exit(child.pid), token),
{
}

/// The poller is asked to change the interest in the object that was added, or to delete that object,
/// and it is told the whole interest. A signal or a process has none but its key.
pub proof fn law_requests_name_the_object(
    registration: Registration,
    interest: Event,
    modify: Request,
    delete: Request,
)
    requires
        call_ensures(Registration::modify, (&registration, interest), modify),
        call_ensures(Registration::delete, (&registration,), delete),
    ensures
        match registration {
            Registration::Fd(raw) => modify == Request::ModifyFd(raw, interest) && delete
                == Request::DeleteFd(raw),
            Registration::Socket(raw) => modify == Request::ModifySocket(raw, interest) && delete
                == Request::DeleteSocket(raw),
            Registration::Signal(Signal(number)) => modify == Request::ModifyFilter(
                PollFilter::Signal(number),
                interest.key,
            ) && delete == Request::DeleteFilter(PollFilter::Signal(number)),
            Registration::Process(child) => modify == Request::ModifyFilter(
                PollFilter::Exit(child.pid),
                interest.key,
            ) && delete == Request::DeleteFilter(PollFilter::Exit(child.pid)),
        },
{
}

} // verus!
