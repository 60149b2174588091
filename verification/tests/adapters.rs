//! The adapter and the loops of its operations.
use async_io::io::{
    attempted, connect, connected, optimistic, polled_ready, Async, IoStep, NewAsync,
};
use async_io::os::kqueue::{AsyncKqueueExt, Signal};
use async_io::reactor::poll::{Reactor, ReactorLock};
use async_io::reactor::registration::Registration;
use async_io::reactor::source::{Dir, ReadyStep};
use async_io::sys::{Error, ErrorKind, Event};
use async_io::task::{Poll, Waker};
use async_io::time::Instant;

type Res = Result<(), &'static str>;

fn task(task: u64) -> Waker {
    Waker { task }
}

fn adapter(reactor: &mut Reactor, io: &'static str, fd: i32) -> Async<&'static str> {
    let ok: Res = Ok(());
    let new = Async::new(io, Registration::Fd(fd), ok, reactor).unwrap();
    new.added(reactor, ok).unwrap()
}

fn err(kind: ErrorKind) -> Error<&'static str> {
    Error { kind, error: "error" }
}

#[test]
fn adapter_is_registered_and_unregistered() {
    let mut reactor = Reactor::new();
    let mut io = adapter(&mut reactor, "io", 3);
    assert_eq!(*io.get_ref(), "io");
    *io.get_mut() = "changed";
    assert_eq!(reactor.source(io.key()).unwrap().raw(), Registration::Fd(3));
    let key = io.key();
    assert_eq!(io.into_inner(&mut reactor), ("changed", Registration::Fd(3)));
    assert!(reactor.source(key).is_none());
}

#[test]
fn adapter_that_cannot_be_made() {
    let mut reactor = Reactor::new();
    let failed: Res = Err("einval");
    assert!(matches!(
        Async::new("io", Registration::Fd(3), failed, &mut reactor),
        Err("einval")
    ));
    assert!(reactor.source(0).is_none());
    let ok: Res = Ok(());
    let new = Async::new("io", Registration::Fd(3), ok, &mut reactor).unwrap();
    assert_eq!(new.key(), 0);
    assert!(matches!(new.added(&mut reactor, Err("eperm")), Err("eperm")));
    assert!(reactor.source(0).is_none());
    // The key is free for the next one.
    assert_eq!(adapter(&mut reactor, "io", 4).key(), 0);
}

#[test]
fn polling_an_adapter() {
    let mut reactor = Reactor::new();
    let io = adapter(&mut reactor, "io", 3);
    let read = Event { readable: true, writable: false, key: io.key() };
    let both = Event { readable: true, writable: true, key: io.key() };
    assert_eq!(io.poll_readable(&mut reactor), ReadyStep::Wait(Some(read)));
    let ok: Res = Ok(());
    assert_eq!(io.register_readable(&mut reactor, task(1), ok), Ok(None));
    assert_eq!(io.poll_readable(&mut reactor), ReadyStep::Wait(None));
    assert_eq!(io.register_readable(&mut reactor, task(2), ok), Ok(Some(task(1))));
    assert_eq!(io.poll_writable(&mut reactor), ReadyStep::Wait(Some(both)));
    let failed: Res = Err("enoent");
    assert_eq!(io.register_writable(&mut reactor, task(3), failed), Err("enoent"));
    assert_eq!(io.register_writable(&mut reactor, task(3), ok), Ok(None));

    let mut lock = ReactorLock::react(&mut reactor, None, Instant { nanos: 0 });
    let waited: Result<Vec<Event>, Error<&str>> = Ok(vec![both]);
    lock.pump_events(&mut reactor, None, waited);
    assert_eq!(lock.into_wakers(), vec![task(3), task(2)]);
    assert_eq!(io.poll_readable(&mut reactor), ReadyStep::Ready);
    assert_eq!(io.poll_writable(&mut reactor), ReadyStep::Ready);
    // The event is used up.
    assert_eq!(io.poll_readable(&mut reactor), ReadyStep::Wait(Some(read)));
    assert_eq!(io.readable().dir, Dir::Read);
    assert_eq!(io.writable().dir, Dir::Write);
}

#[test]
fn filter_is_registered() {
    let mut reactor = Reactor::new();
    let new: NewAsync<Signal> = Async::with_filter(Signal(17), &mut reactor);
    let io = new.added(&mut reactor, Ok::<(), ()>(())).unwrap();
    assert_eq!(*io.get_ref(), Signal(17));
    let raw = reactor.source(io.key()).unwrap().raw();
    assert_eq!(raw, Registration::Signal(Signal(17)));
}

#[test]
fn operations_are_attempted_until_they_do_not_block() {
    let done: IoStep<u8, &str> = attempted(Ok(7));
    assert_eq!(done, IoStep::Done(Poll::Ready(Ok(7))));
    let wait: IoStep<u8, &str> = attempted(Err(err(ErrorKind::WouldBlock)));
    assert_eq!(wait, IoStep::PollReady);
    let failed: IoStep<u8, &str> = attempted(Err(err(ErrorKind::Interrupted)));
    assert_eq!(failed, IoStep::Done(Poll::Ready(Err("error"))));

    let again: IoStep<u8, &str> = polled_ready(Poll::Ready(Ok(())));
    assert_eq!(again, IoStep::Attempt);
    let failed: IoStep<u8, &str> = polled_ready(Poll::Ready(Err("ebadf")));
    assert_eq!(failed, IoStep::Done(Poll::Ready(Err("ebadf"))));
    let pending: IoStep<u8, &str> = polled_ready(Poll::Pending);
    assert_eq!(pending, IoStep::Done(Poll::Pending));
}

#[test]
fn optimistic_wait_ends_at_the_second_poll() {
    let mut wait = optimistic();
    assert!(wait.poll());
    assert!(!wait.poll());
    assert!(!wait.poll());
}

#[test]
fn connecting_goes_on_in_the_background() {
    let ok: Result<(), Error<&str>> = Ok(());
    assert_eq!(connect(ok), Ok(()));
    assert_eq!(connect(Err(err(ErrorKind::InProgress))), Ok(()));
    assert_eq!(connect(Err(err(ErrorKind::WouldBlock))), Ok(()));
    assert_eq!(connect(Err(err(ErrorKind::Other))), Err("error"));
    assert_eq!(connect(Err(err(ErrorKind::NotConnected))), Err("error"));

    let none: Result<Option<&str>, &str> = Ok(None);
    assert_eq!(connected(none), Ok(()));
    assert_eq!(connected(Ok(Some("refused"))), Err("refused"));
    assert_eq!(connected(Err("ebadf")), Err("ebadf"));
}
