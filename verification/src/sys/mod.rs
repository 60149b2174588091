//! What the operating system reports: readiness events and errors.
use vstd::prelude::*;

pub mod epoll;
pub mod wepoll;

verus! {

/// Readiness of an I/O source, or interest in it.
#[derive(Clone, Copy, Debug, PartialEq, Eq, Structural)]
pub struct Event {
    /// The source can be read.
    pub readable: bool,
    /// The source can be written.
    pub writable: bool,
    /// The key of the source.
    pub key: usize,
}

impl Event {
    /// No interest in the source with the given key.
    pub fn none(key: usize) -> (event: Event)
        ensures
            event == (Event { readable: false, writable: false, key }),
    {
        Event { readable: false, writable: false, key }
    }
}

/// The kinds of errors that decisions depend on.
#[derive(Clone, Copy, Debug, PartialEq, Eq, Structural)]
pub enum ErrorKind {
    /// The operation would block.
    WouldBlock,
    /// The call was interrupted by a signal.
    Interrupted,
    /// The socket is not connected.
    NotConnected,
    /// The connection is being established.
    InProgress,
    /// Any other error.
    Other,
}

/// An error reported by the operating system: its kind, and the error itself, which is only handed
/// on.
#[derive(Clone, Copy, Debug, PartialEq, Eq)]
pub struct Error<E> {
    /// What kind of error it is.
    pub kind: ErrorKind,
    /// The error as it was reported.
    pub error: E,
}

/// Judges what shutting down the write side of a source gave.
///
/// The source may not be a socket at all, so the only actual error is that it is not connected;
/// everything else is ignored.
pub fn shutdown_write<E>(shutdown: Result<(), Error<E>>) -> (result: Result<(), E>)
    ensures
        result == match shutdown {
            Err(err) => if err.kind == ErrorKind::NotConnected {
                Err(err.error)
            } else {
                Ok(())
            },
            Ok(_) => Ok(()),
        },
{
    match shutdown {
        Err(err) => {
            if err.kind == ErrorKind::NotConnected {
                Err(err.error)
            } else {
                Ok(())
            }
        },
        Ok(()) => Ok(()),
    }
}

/// Returns the status flags that put a descriptor in non-blocking mode, given its flags and the
/// flag for that mode, or `None` if it is in that mode already.
pub fn nonblocking_flags(previous: u32, nonblock: u32) -> (flags: Option<u32>)
    ensures
        flags == if previous & nonblock == nonblock {
            None
        } else {
            Some(previous | nonblock)
        },
{
    let new: u32 = previous | nonblock;
    assert((previous | nonblock == previous) == (previous & nonblock == nonblock)) by (bit_vector);
    if new != previous {
        Some(new)
    } else {
        None
    }
}

/// An event of no interest is just that, under the given key.
pub proof fn law_no_interest_is_none(key: usize, event: Event)
    requires
        call_ensures(Event::none, (key,), event),
    ensures
        !event.readable && !event.writable,
        event.key == key,
{
}

/// Shutting down fails only for a socket that is not connected, and then with the error that was
/// reported.
pub proof fn law_only_unconnected_sockets_fail<E>(
    shutdown: Result<(), Error<E>>,
    result: Result<(), E>,
)
    requires
        call_ensures(shutdown_write::<E>, (shutdown,), result),
    ensures
        result is Err <==> (shutdown matches Err(err) && err.kind == ErrorKind::NotConnected),
        shutdown matches Err(err) ==> (result matches Err(given) ==> given == err.error),
{
}

/// Putting a descriptor in non-blocking mode adds that mode and keeps every other flag, and there is
/// nothing to do exactly if it is in that mode.
pub proof fn law_nonblocking_mode_is_added(previous: u32, nonblock: u32, flags: Option<u32>)
    requires
        call_ensures(nonblocking_flags, (previous, nonblock), flags),
    ensures
        flags is None <==> previous & nonblock == nonblock,
        flags matches Some(flags) ==> flags & nonblock == nonblock && flags & !nonblock == previous
            & !nonblock,
{
    assert((previous | nonblock) & nonblock == nonblock && (previous | nonblock) & !nonblock
        == previous & !nonblock) by (bit_vector);
}

} // verus!
