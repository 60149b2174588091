//! What wepoll (Windows) takes and reports.
//!
//! The flags for readiness and the layout of events are those of epoll.
use crate::sys::epoll::{self, read_flags, write_flags, RawEvent};
use crate::sys::Event;
use crate::time::Duration;
use vstd::prelude::*;

verus! {

/// The socket is not watched any more once an event has been reported.
pub const EPOLLONESHOT: u32 = 0x8000_0000;

/// The flags that an interest amounts to.
pub open spec fn flags_of(read: bool, write: bool) -> u32 {
    EPOLLONESHOT | (if read {
        epoll::reading()
    } else {
        0
    }) | (if write {
        epoll::writing()
    } else {
        0
    })
}

/// Returns the flags to register for an interest.
pub fn interest(read: bool, write: bool) -> (flags: u32)
    ensures
        flags == flags_of(read, write),
{
    let mut flags: u32 = EPOLLONESHOT;
    if read {
        flags = flags | read_flags();
    } else {
        assert(flags | 0u32 == flags) by (bit_vector);
    }
    let ghost so_far = flags;
    if write {
        flags = flags | write_flags();
    } else {
        assert(so_far | 0u32 == so_far) by (bit_vector);
    }
    flags
}

/// Converts a timeout to the milliseconds that waiting takes, where -1 stands for no timeout.
///
/// A timeout shorter than a millisecond, but not zero, lasts one. A timeout that is too long for
/// the call lasts as long as the call can.
pub fn timeout_ms(timeout: Option<Duration>) -> (millis: i32)
    ensures
        millis == match timeout {
            None => -1int,
            Some(t) => if t.nanos == 0 {
                0
            } else if t.nanos < 1_000_000 {
                1
            } else if t.nanos / 1_000_000 <= i32::MAX {
                (t.nanos / 1_000_000) as int
            } else {
                i32::MAX as int
            },
        },
{
    match timeout {
        None => -1,
        Some(t) => {
            if t.nanos == 0 {
                0
            } else {
                let millis: u128 = t.max(Duration::from_millis(1)).as_millis();
                if millis <= 0x7fff_ffff {
                    millis as i32
                } else {
                    i32::MAX
                }
            }
        },
    }
}

/// Returns the events that the first `len` raw events mean.
pub fn events(list: &Vec<RawEvent>, len: usize) -> (events: Vec<Event>)
    requires
        len <= list@.len(),
    ensures
        events@ == list@.take(len as int).map_values(|raw: RawEvent| epoll::event_of(raw)),
{
    epoll::events(list, len)
}

/// Every event that is asked for comes out, in order: it is readable exactly if one of the flags for
/// that is set (input, exceptional condition, error, hangup of the peer or of its writing half),
/// writable exactly if one of the flags for that is set (room for output, error, hangup), each
/// whatever else is set, and has the key that was registered.
pub proof fn law_events_tell_their_flags(
    list: Vec<RawEvent>,
    len: usize,
    told: Vec<Event>,
    i: int,
)
    requires
        len <= list@.len(),
        call_ensures(events, (&list, len), told),
        0 <= i < len,
    ensures
        told@.len() == len,
        ({
            let flags = list@[i].events;
            let event = told@[i];
            &&& flags & 0x1 != 0 ==> event.readable
            &&& flags & 0x2 != 0 ==> event.readable
            &&& flags & 0x4 != 0 ==> event.writable
            &&& flags & 0x8 != 0 ==> event.readable && event.writable
            &&& flags & 0x10 != 0 ==> event.readable && event.writable
            &&& flags & 0x2000 != 0 ==> event.readable
            &&& event.readable ==> flags & 0x1 != 0 || flags & 0x2 != 0 || flags & 0x8 != 0 || flags
                & 0x10 != 0 || flags & 0x2000 != 0
            &&& event.writable ==> flags & 0x4 != 0 || flags & 0x8 != 0 || flags & 0x10 != 0
            &&& list@[i].data <= usize::MAX ==> event.key == list@[i].data
        }),
{
    let flags = list@[i].events;
    let raw = list@[i];
    assert(list@.take(len as int)[i] == raw);
    assert(epoll::event_of(raw) == told@[i]);
    assert((flags & 0x1u32 != 0 || flags & 0x2u32 != 0 || flags & 0x8u32 != 0 || flags & 0x10u32
        != 0 || flags & 0x2000u32 != 0) == (flags & (0x1u32 | 0x2000u32 | 0x10u32 | 0x8u32 | 0x2u32)
        != 0)) by (bit_vector);
    assert((flags & 0x4u32 != 0 || flags & 0x8u32 != 0 || flags & 0x10u32 != 0) == (flags & (0x4u32
        | 0x10u32 | 0x8u32) != 0)) by (bit_vector);
}

/// An interest asks for what makes a descriptor readable exactly if it is in reading, and for what
/// makes it writable exactly if it is in writing, for one event only and for nothing else.
pub proof fn law_interest_asks_for_its_directions(read: bool, write: bool, flags: u32)
    requires
        call_ensures(interest, (read, write), flags),
    ensures
        flags & 0x1 != 0 <==> read,
        flags & 0x2 != 0 <==> read,
        flags & 0x2000 != 0 <==> read,
        flags & 0x4 != 0 <==> write,
        flags & 0x8 != 0 <==> read || write,
        flags & 0x10 != 0 <==> read || write,
        flags & 0x8000_0000u32 != 0,
        flags & !(0x201fu32 | 0x8000_0000u32) == 0,
{
    let r = if read {
        (0x1u32 | 0x2000u32 | 0x10u32 | 0x8u32 | 0x2u32)
    } else {
        0u32
    };
    let w = if write {
        (0x4u32 | 0x10u32 | 0x8u32)
    } else {
        0u32
    };
    assert(flags == 0x8000_0000u32 | r | w);
    assert(((0x8000_0000u32 | r | w) & 0x1 != 0) == read && ((0x8000_0000u32 | r | w) & 0x2
        != 0) == read
        && ((0x8000_0000u32 | r | w) & 0x2000 != 0) == read && ((0x8000_0000u32 | r | w) & 0x4
            != 0) == write
        && ((0x8000_0000u32 | r | w) & 0x8 != 0) == (read || write)
            && ((0x8000_0000u32 | r | w) & 0x10 != 0) == (
    read || write) && (0x8000_0000u32 | r | w) & 0x8000_0000u32 != 0
        && (0x8000_0000u32 | r | w) & !(0x201fu32 | 0x8000_0000u32)
        == 0) by (bit_vector)
        requires
            r == if read {
                (0x1u32 | 0x2000u32 | 0x10u32 | 0x8u32 | 0x2u32)
            } else {
                0u32
            },
            w == if write {
                (0x4u32 | 0x10u32 | 0x8u32)
            } else {
                0u32
            },
    ;
}

/// Waiting lasts as long as asked for, in whole milliseconds: without a timeout it has no limit, a
/// timeout of zero does not wait, any other waits at least one millisecond, and one of at least a
/// millisecond is not exceeded and falls short by less than a millisecond. A timeout that is too long
/// for the call lasts as long as the call can.
pub proof fn law_wait_lasts_as_asked(timeout: Option<Duration>, millis: i32)
    requires
        call_ensures(timeout_ms, (timeout,), millis),
    ensures
        timeout is None ==> millis == -1,
        timeout matches Some(t) ==> {
            &&& t.nanos == 0 <==> millis == 0
            &&& 0 < t.nanos < 1_000_000 ==> millis == 1
            &&& 1_000_000 <= t.nanos < (i32::MAX + 1) * 1_000_000 ==> millis * 1_000_000 <= t.nanos
                < (millis + 1) * 1_000_000
            &&& t.nanos >= (i32::MAX + 1) * 1_000_000 ==> millis == i32::MAX
        },
{
}

} // verus!
