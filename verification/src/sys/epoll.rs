//! What epoll (Linux, Android, illumos) takes and reports.
use crate::sys::Event;
use crate::time::Duration;
use vstd::prelude::*;

verus! {

/// The descriptor can be read.
pub const EPOLLIN: u32 = 0x1;

/// There is an exceptional condition on the descriptor.
pub const EPOLLPRI: u32 = 0x2;

/// The descriptor can be written.
pub const EPOLLOUT: u32 = 0x4;

/// There is an error on the descriptor.
pub const EPOLLERR: u32 = 0x8;

/// The peer has hung up.
pub const EPOLLHUP: u32 = 0x10;

/// The peer has shut down its writing half.
pub const EPOLLRDHUP: u32 = 0x2000;

/// The descriptor is not watched any more once an event has been reported.
pub const EPOLLONESHOT: u32 = 0x4000_0000;

/// The key of the descriptor that interrupts the wait for events.
pub const NOTIFY_KEY: usize = usize::MAX;

/// An event as epoll reports it.
#[derive(Clone, Copy, Debug, PartialEq, Eq, Structural)]
pub struct RawEvent {
    /// The flags of what has happened.
    pub events: u32,
    /// The data that was registered with the descriptor.
    pub data: u64,
}

/// The flags that mean that a descriptor can be read.
pub open spec fn reading() -> u32 {
    EPOLLIN | EPOLLRDHUP | EPOLLHUP | EPOLLERR | EPOLLPRI
}

/// The flags that mean that a descriptor can be written.
pub open spec fn writing() -> u32 {
    EPOLLOUT | EPOLLHUP | EPOLLERR
}

/// The flags that an interest amounts to.
pub open spec fn flags_of(read: bool, write: bool) -> u32 {
    EPOLLONESHOT | (if read {
        reading()
    } else {
        0
    }) | (if write {
        writing()
    } else {
        0
    })
}

/// The event that a raw event means.
pub open spec fn event_of(raw: RawEvent) -> Event {
    Event {
        readable: raw.events & reading() != 0,
        writable: raw.events & writing() != 0,
        key: raw.data as usize,
    }
}

/// Returns the flags that mean that a descriptor can be read.
pub fn read_flags() -> (flags: u32)
    ensures
        flags == reading(),
{
    EPOLLIN | EPOLLRDHUP | EPOLLHUP | EPOLLERR | EPOLLPRI
}

/// Returns the flags that mean that a descriptor can be written.
pub fn write_flags() -> (flags: u32)
    ensures
        flags == writing(),
{
    EPOLLOUT | EPOLLHUP | EPOLLERR
}

/// Returns the flags to register for an interest.
pub fn interest(read: bool, write: bool) -> (flags: u32)
    ensures
        flags == flags_of(read, write),
{
    let mut flags: u32 = EPOLLONESHOT;
    if read {
        flags = flags | read_flags();
    } else {
        assert(flags | 0u32 == flags) by (bit_vector);
    }
    let ghost so_far = flags;
    if write {
        flags = flags | write_flags();
    } else {
        assert(so_far | 0u32 == so_far) by (bit_vector);
    }
    flags
}

/// Converts a timeout to the milliseconds that waiting takes, where -1 stands for no timeout.
///
/// A timeout shorter than a millisecond, but not zero, lasts one. A timeout that is too long for
/// the call is none.
pub fn timeout_ms(timeout: Option<Duration>) -> (millis: i32)
    ensures
        millis == match timeout {
            None => -1int,
            Some(t) => if t.nanos == 0 {
                0
            } else if t.nanos < 1_000_000 {
                1
            } else if t.nanos / 1_000_000 <= i32::MAX {
                (t.nanos / 1_000_000) as int
            } else {
                -1
            },
        },
{
    match timeout {
        None => -1,
        Some(t) => {
            let t = if t.nanos == 0 {
                t
            } else {
                t.max(Duration::from_millis(1))
            };
            let millis: u128 = t.as_millis();
            if millis <= 0x7fff_ffff {
                millis as i32
            } else {
                -1
            }
        },
    }
}

/// Returns the events that the first `len` raw events mean.
pub fn events(list: &Vec<RawEvent>, len: usize) -> (events: Vec<Event>)
    requires
        len <= list@.len(),
    ensures
        events@ == list@.take(len as int).map_values(|raw: RawEvent| event_of(raw)),
{
    let ghost meant = list@.map_values(|raw: RawEvent| event_of(raw));
    let mut events: Vec<Event> = Vec::new();
    let mut i: usize = 0;
    while i < len
        invariant
            i <= len <= list@.len(),
            meant == list@.map_values(|raw: RawEvent| event_of(raw)),
            events@ == meant.take(i as int),
        decreases len - i,
    {
        let raw = list[i];
        events.push(
            Event {
                readable: raw.events & read_flags() != 0,
                writable: raw.events & write_flags() != 0,
                key: raw.data as usize,
            },
        );
        i = i + 1;
        assert(meant.take(i as int) =~= meant.take(i - 1).push(meant[i - 1]));
    }
    assert(list@.take(len as int).map_values(|raw: RawEvent| event_of(raw)) =~= meant.take(
        len as int,
    ));
    events
}

/// An error or a hangup wakes readers and writers alike.
pub proof fn law_errors_wake_everybody(raw: RawEvent)
    requires
        raw.events & (EPOLLERR | EPOLLHUP) != 0,
    ensures
        event_of(raw).readable,
        event_of(raw).writable,
{
    let events = raw.events;
    assert(events & (0x8u32 | 0x10u32) != 0 ==> events & (0x1u32 | 0x2000u32 | 0x10u32 | 0x8u32
        | 0x2u32) != 0 && events & (0x4u32 | 0x10u32 | 0x8u32) != 0) by (bit_vector);
}

/// What is reported of a registered interest is of that interest: input makes a descriptor readable
/// and not writable, and room for output makes it writable and not readable.
pub proof fn law_directions_are_told_apart(data: u64)
    ensures
        event_of(RawEvent { events: EPOLLIN, data }) == (Event {
            readable: true,
            writable: false,
            key: data as usize,
        }),
        event_of(RawEvent { events: EPOLLOUT, data }) == (Event {
            readable: false,
            writable: true,
            key: data as usize,
        }),
{
    assert(0x1u32 & (0x1u32 | 0x2000u32 | 0x10u32 | 0x8u32 | 0x2u32) != 0) by (bit_vector);
    assert(0x1u32 & (0x4u32 | 0x10u32 | 0x8u32) == 0) by (bit_vector);
    assert(0x4u32 & (0x1u32 | 0x2000u32 | 0x10u32 | 0x8u32 | 0x2u32) == 0) by (bit_vector);
    assert(0x4u32 & (0x4u32 | 0x10u32 | 0x8u32) != 0) by (bit_vector);
}

/// Every registered interest is for one event only, and an interest in nothing is just that.
pub proof fn law_interest_is_for_one_event(read: bool, write: bool)
    ensures
        flags_of(read, write) & EPOLLONESHOT != 0,
        flags_of(false, false) == EPOLLONESHOT,
{
    let r = if read {
        reading()
    } else {
        0u32
    };
    let w = if write {
        writing()
    } else {
        0u32
    };
    assert((0x4000_0000u32 | r | w) & 0x4000_0000u32 != 0) by (bit_vector);
    assert(0x4000_0000u32 | 0u32 | 0u32 == 0x4000_0000u32) by (bit_vector);
}

/// Every event that is asked for comes out, in order: it is readable exactly if one of the flags for
/// that is set (input, exceptional condition, error, hangup of the peer or of its writing half),
/// writable exactly if one of the flags for that is set (room for output, error, hangup), each
/// whatever else is set, and has the key that was registered.
pub proof fn law_events_tell_their_flags(
    list: Vec<RawEvent>,
    len: usize,
    told: Vec<Event>,
    i: int,
)
    requires
        len <= list@.len(),
        call_ensures(events, (&list, len), told),
        0 <= i < len,
    ensures
        told@.len() == len,
        ({
            let flags = list@[i].events;
            let event = told@[i];
            &&& flags & 0x1 != 0 ==> event.readable
            &&& flags & 0x2 != 0 ==> event.readable
            &&& flags & 0x4 != 0 ==> event.writable
            &&& flags & 0x8 != 0 ==> event.readable && event.writable
            &&& flags & 0x10 != 0 ==> event.readable && event.writable
            &&& flags & 0x2000 != 0 ==> event.readable
            &&& event.readable ==> flags & 0x1 != 0 || flags & 0x2 != 0 || flags & 0x8 != 0 || flags
                & 0x10 != 0 || flags & 0x2000 != 0
            &&& event.writable ==> flags & 0x4 != 0 || flags & 0x8 != 0 || flags & 0x10 != 0
            &&& list@[i].data <= usize::MAX ==> event.key == list@[i].data
        }),
{
    let flags = list@[i].events;
    let raw = list@[i];
    assert(list@.take(len as int)[i] == raw);
    assert(event_of(raw) == told@[i]);
    assert((flags & 0x1u32 != 0 || flags & 0x2u32 != 0 || flags & 0x8u32 != 0 || flags & 0x10u32
        != 0 || flags & 0x2000u32 != 0) == (flags & (0x1u32 | 0x2000u32 | 0x10u32 | 0x8u32 | 0x2u32)
        != 0)) by (bit_vector);
    assert((flags & 0x4u32 != 0 || flags & 0x8u32 != 0 || flags & 0x10u32 != 0) == (flags & (0x4u32
        | 0x10u32 | 0x8u32) != 0)) by (bit_vector);
}

/// An interest asks for what makes a descriptor readable exactly if it is in reading, and for what
/// makes it writable exactly if it is in writing, for one event only and for nothing else.
pub proof fn law_interest_asks_for_its_directions(read: bool, write: bool, flags: u32)
    requires
        call_ensures(interest, (read, write), flags),
    ensures
        flags & 0x1 != 0 <==> read,
        flags & 0x2 != 0 <==> read,
        flags & 0x2000 != 0 <==> read,
        flags & 0x4 != 0 <==> write,
        flags & 0x8 != 0 <==> read || write,
        flags & 0x10 != 0 <==> read || write,
        flags & 0x4000_0000u32 != 0,
        flags & !(0x201fu32 | 0x4000_0000u32) == 0,
{
    let r = if read {
        (0x1u32 | 0x2000u32 | 0x10u32 | 0x8u32 | 0x2u32)
    } else {
        0u32
    };
    let w = if write {
        (0x4u32 | 0x10u32 | 0x8u32)
    } else {
        0u32
    };
    assert(flags == 0x4000_0000u32 | r | w);
    assert(((0x4000_0000u32 | r | w) & 0x1 != 0) == read && ((0x4000_0000u32 | r | w) & 0x2
        != 0) == read
        && ((0x4000_0000u32 | r | w) & 0x2000 != 0) == read && ((0x4000_0000u32 | r | w) & 0x4
            != 0) == write
        && ((0x4000_0000u32 | r | w) & 0x8 != 0) == (read || write)
            && ((0x4000_0000u32 | r | w) & 0x10 != 0) == (
    read || write) && (0x4000_0000u32 | r | w) & 0x4000_0000u32 != 0
        && (0x4000_0000u32 | r | w) & !(0x201fu32 | 0x4000_0000u32)
        == 0) by (bit_vector)
        requires
            r == if read {
                (0x1u32 | 0x2000u32 | 0x10u32 | 0x8u32 | 0x2u32)
            } else {
                0u32
            },
            w == if write {
                (0x4u32 | 0x10u32 | 0x8u32)
            } else {
                0u32
            },
    ;
}

/// Waiting lasts as long as asked for, in whole milliseconds: without a timeout it has no limit, a
/// timeout of zero does not wait, any other waits at least one millisecond, and one of at least a
/// millisecond is not exceeded and falls short by less than a millisecond. A timeout that is too long
/// for the call is none.
pub proof fn law_wait_lasts_as_asked(timeout: Option<Duration>, millis: i32)
    requires
        call_ensures(timeout_ms, (timeout,), millis),
    ensures
        timeout is None ==> millis == -1,
        timeout matches Some(t) ==> {
            &&& t.nanos == 0 <==> millis == 0
            &&& 0 < t.nanos < 1_000_000 ==> millis == 1
            &&& 1_000_000 <= t.nanos < (i32::MAX + 1) * 1_000_000 ==> millis * 1_000_000 <= t.nanos
                < (millis + 1) * 1_000_000
            &&& t.nanos >= (i32::MAX + 1) * 1_000_000 ==> millis == -1
        },
{
}

/// The flags that mean readable are those of input, of an exceptional condition, of an error and of
/// hangups, and those that mean writable are those of room for output, of an error and of a hangup.
pub proof fn law_flags_mean_their_directions(reads: u32, writes: u32)
    requires
        call_ensures(read_flags, (), reads),
        call_ensures(write_flags, (), writes),
    ensures
        reads & 0x1 != 0 && reads & 0x2 != 0 && reads & 0x8 != 0 && reads & 0x10 != 0 && reads
            & 0x2000 != 0,
        reads & !0x201bu32 == 0,
        writes & 0x4 != 0 && writes & 0x8 != 0 && writes & 0x10 != 0,
        writes & !0x1cu32 == 0,
{
    assert((0x1u32 | 0x2000u32 | 0x10u32 | 0x8u32 | 0x2u32) == 0x201bu32) by (bit_vector);
    assert((0x4u32 | 0x10u32 | 0x8u32) == 0x1cu32) by (bit_vector);
    assert(0x201bu32 & 0x1u32 != 0 && 0x201bu32 & 0x2u32 != 0 && 0x201bu32 & 0x8u32 != 0
        && 0x201bu32 & 0x10u32 != 0 && 0x201bu32 & 0x2000u32 != 0 && 0x201bu32 & !0x201bu32
        == 0) by (bit_vector);
    assert(0x1cu32 & 0x4u32 != 0 && 0x1cu32 & 0x8u32 != 0 && 0x1cu32 & 0x10u32 != 0 && 0x1cu32
        & !0x1cu32 == 0) by (bit_vector);
}

} // verus!
