//! What platforms take and report.
use async_io::sys::epoll::{self, RawEvent};
use async_io::sys::{nonblocking_flags, shutdown_write, wepoll, Error, ErrorKind, Event};
use async_io::time::{duration_max, Duration};

#[test]
fn flags_are_those_of_the_system() {
    assert_eq!(epoll::EPOLLIN, libc::EPOLLIN as u32);
    assert_eq!(epoll::EPOLLPRI, libc::EPOLLPRI as u32);
    assert_eq!(epoll::EPOLLOUT, libc::EPOLLOUT as u32);
    assert_eq!(epoll::EPOLLERR, libc::EPOLLERR as u32);
    assert_eq!(epoll::EPOLLHUP, libc::EPOLLHUP as u32);
    assert_eq!(epoll::EPOLLRDHUP, libc::EPOLLRDHUP as u32);
    assert_eq!(epoll::EPOLLONESHOT, libc::EPOLLONESHOT as u32);
    assert_eq!(epoll::read_flags(), 0x201b);
    assert_eq!(epoll::write_flags(), 0x1c);
}

#[test]
fn interests_become_flags() {
    assert_eq!(epoll::interest(false, false), 0x4000_0000);
    assert_eq!(epoll::interest(true, false), 0x4000_201b);
    assert_eq!(epoll::interest(false, true), 0x4000_001c);
    assert_eq!(epoll::interest(true, true), 0x4000_201f);
    assert_eq!(wepoll::interest(false, false), 0x8000_0000);
    assert_eq!(wepoll::interest(true, true), 0x8000_201f);
}

#[test]
fn raw_events_become_events() {
    let raw = |events: u32, data: u64| RawEvent { events, data };
    let list = vec![
        raw(epoll::EPOLLIN, 1),
        raw(epoll::EPOLLOUT, 2),
        raw(epoll::EPOLLHUP, 3),
        raw(0, 4),
        raw(epoll::EPOLLIN, 5),
    ];
    let event = |readable, writable, key| Event { readable, writable, key };
    let expected =
        vec![event(true, false, 1), event(false, true, 2), event(true, true, 3), event(false, false, 4)];
    assert_eq!(epoll::events(&list, 4), expected);
    assert_eq!(wepoll::events(&list, 4), expected);
    assert!(epoll::events(&list, 0).is_empty());
}

#[test]
fn timeouts_become_millis() {
    let cases = [
        (None, -1, -1),
        (Some(Duration::from_secs(0)), 0, 0),
        (Some(Duration::from_nanos(1)), 1, 1),
        (Some(Duration::from_micros(1_999)), 1, 1),
        (Some(Duration::from_secs(2)), 2_000, 2_000),
        (Some(Duration::from_millis(i32::MAX as u64)), i32::MAX, i32::MAX),
        (Some(Duration::from_millis(i32::MAX as u64 + 1)), -1, i32::MAX),
        (Some(duration_max()), -1, i32::MAX),
    ];
    for (timeout, epoll_ms, wepoll_ms) in cases {
        assert_eq!(epoll::timeout_ms(timeout), epoll_ms);
        assert_eq!(wepoll::timeout_ms(timeout), wepoll_ms);
    }
}

#[test]
fn only_unconnected_sockets_fail_to_shut_down() {
    let ok: Result<(), Error<&str>> = Ok(());
    assert_eq!(shutdown_write(ok), Ok(()));
    let error = |kind| Err(Error { kind, error: "error" });
    assert_eq!(shutdown_write(error(ErrorKind::NotConnected)), Err("error"));
    assert_eq!(shutdown_write(error(ErrorKind::Other)), Ok(()));
    assert_eq!(shutdown_write(error(ErrorKind::WouldBlock)), Ok(()));
}

#[test]
fn descriptors_become_nonblocking() {
    assert_eq!(nonblocking_flags(0, 0x800), Some(0x800));
    assert_eq!(nonblocking_flags(0x8002, 0x800), Some(0x8802));
    assert_eq!(nonblocking_flags(0x802, 0x800), None);
}

#[test]
fn no_interest() {
    assert_eq!(Event::none(3), Event { readable: false, writable: false, key: 3 });
}
