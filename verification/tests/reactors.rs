//! Sources, events and rounds of polling.
use async_io::reactor::poll::{PumpStep, Reactor, ReactorLock};
use async_io::reactor::registration::{PollFilter, Registration, Request};
use async_io::reactor::source::{Dir, Direction, Readiness, ReadyStep, Source};
use async_io::os::kqueue::{Child, Exit, FilterSealed, Signal};
use async_io::sys::{Error, ErrorKind, Event};
use async_io::task::{Poll, Waker};
use async_io::time::{Duration, Instant};

type Res = Result<(), &'static str>;
type Waited = Result<Vec<Event>, Error<&'static str>>;

fn at(nanos: u128) -> Instant {
    Instant { nanos }
}

fn task(task: u64) -> Waker {
    Waker { task }
}

fn event(key: usize, readable: bool, writable: bool) -> Event {
    Event { readable, writable, key }
}

fn fd(raw: i32) -> Registration {
    Registration::Fd(raw)
}

/// Lets a task wait for readiness of a source, and returns the interest to register.
fn wait(reactor: &mut Reactor, key: usize, dir: Dir, waker: Waker) -> (Readiness, ReadyStep) {
    let ticker = reactor.ticker();
    let source = reactor.source_mut(key).unwrap();
    let mut readiness = match dir {
        Dir::Read => source.readable(),
        Dir::Write => source.writable(),
    };
    let step = readiness.poll(source, waker);
    let updated: Res = Ok(());
    assert_eq!(readiness.wait(source, ticker, updated), Poll::Pending);
    (readiness, step)
}

/// Runs a round of polling in which these events occur, and returns what is registered again, the
/// tasks that are woken and the result.
fn round(reactor: &mut Reactor, events: Vec<Event>) -> (Vec<(Registration, Event)>, Vec<u64>, Res) {
    let mut lock = ReactorLock::react(reactor, None, at(0));
    let timeout = lock.timeout();
    let waited: Waited = Ok(events);
    let mut step = lock.pump_events(reactor, timeout, waited);
    let mut modified = Vec::new();
    loop {
        match step {
            PumpStep::ReadClock => {
                lock.fire_timers(reactor, at(0));
                step = PumpStep::Done(Ok(()));
            }
            PumpStep::Modify(raw, interest) => {
                modified.push((raw, interest));
                step = lock.modified(reactor, Ok(()));
            }
            PumpStep::Done(result) => {
                let woken = lock.into_wakers().iter().map(|w| w.task).collect();
                return (modified, woken, result);
            }
        }
    }
}

#[test]
fn sources_get_keys() {
    let mut reactor = Reactor::new();
    let a = reactor.insert_io(fd(10));
    let b = reactor.insert_io(fd(11));
    assert_eq!((a, b), (0, 1));
    assert_eq!(reactor.source(a).unwrap().raw(), fd(10));
    assert_eq!(reactor.source(b).unwrap().key(), b);
    let added: Result<(), &str> = Ok(());
    assert_eq!(reactor.end_insert_io(a, added), Ok(a));
    assert_eq!(reactor.remove_io(a), fd(10));
    assert!(reactor.source(a).is_none());
    assert!(reactor.source_mut(a).is_none());
    // The key is used again.
    assert_eq!(reactor.insert_io(fd(12)), a);
}

#[test]
fn failed_registration_leaves_nothing() {
    let mut reactor = Reactor::new();
    let key = reactor.insert_io(fd(10));
    let added: Result<(), &str> = Err("full");
    assert_eq!(reactor.end_insert_io(key, added), Err("full"));
    assert!(reactor.source(key).is_none());
    assert_eq!(reactor.insert_io(fd(11)), key);
}

#[test]
fn event_wakes_its_direction() {
    let mut reactor = Reactor::new();
    let key = reactor.insert_io(fd(10));
    let (_, step) = wait(&mut reactor, key, Dir::Read, task(1));
    assert_eq!(step, ReadyStep::Wait(Some(event(key, true, false))));
    let (_, step) = wait(&mut reactor, key, Dir::Read, task(2));
    assert_eq!(step, ReadyStep::Wait(None));
    let (_, step) = wait(&mut reactor, key, Dir::Write, task(3));
    assert_eq!(step, ReadyStep::Wait(Some(event(key, true, true))));

    // Only readability is emitted: writers are left behind and registered again.
    let (modified, woken, result) = round(&mut reactor, vec![event(key, true, false)]);
    assert_eq!(modified, vec![(fd(10), event(key, false, true))]);
    assert_eq!(woken, vec![1, 2]);
    assert_eq!(result, Ok(()));
    let (modified, woken, _) = round(&mut reactor, vec![event(key, true, true)]);
    assert!(modified.is_empty());
    assert_eq!(woken, vec![3]);
}

#[test]
fn same_task_waits_once() {
    let mut reactor = Reactor::new();
    let key = reactor.insert_io(fd(10));
    wait(&mut reactor, key, Dir::Write, task(5));
    wait(&mut reactor, key, Dir::Write, task(5));
    let (_, woken, _) = round(&mut reactor, vec![event(key, false, true)]);
    assert_eq!(woken, vec![5]);
}

#[test]
fn only_fresh_events_count() {
    let mut reactor = Reactor::new();
    let key = reactor.insert_io(fd(10));
    let (readiness, _) = wait(&mut reactor, key, Dir::Read, task(1));
    let source = reactor.source_mut(key).unwrap();
    assert_ne!(readiness.poll(source, task(1)), ReadyStep::Ready);
    round(&mut reactor, vec![event(key, true, false)]);
    let source = reactor.source_mut(key).unwrap();
    assert_eq!(readiness.poll(source, task(1)), ReadyStep::Ready);
    // A new wait does not take the old event for a new one.
    let (readiness, _) = wait(&mut reactor, key, Dir::Read, task(1));
    let source = reactor.source_mut(key).unwrap();
    assert_ne!(readiness.poll(source, task(1)), ReadyStep::Ready);
}

#[test]
fn failed_update_ends_the_wait() {
    let mut source = Source::new(fd(1), 0);
    let mut readiness = source.readable();
    assert_ne!(readiness.poll(&mut source, task(1)), ReadyStep::Ready);
    assert_eq!(readiness.wait(&source, 0, Err("gone")), Poll::Ready(Err("gone")));
    assert_eq!(readiness.ticks, None);
}

#[test]
fn replaced_waker_is_handed_back() {
    let mut source = Source::new(fd(1), 7);
    assert_eq!(source.poll_interest(Dir::Read), Some(event(7, true, false)));
    let ok: Res = Ok(());
    assert_eq!(source.register_reader(task(1), ok), Ok(None));
    assert_eq!(source.poll_interest(Dir::Read), None);
    assert_eq!(source.poll_interest(Dir::Write), Some(event(7, true, true)));
    assert_eq!(source.register_reader(task(1), ok), Ok(None));
    assert_eq!(source.register_reader(task(2), ok), Ok(Some(task(1))));
    assert_eq!(source.register_writer(task(3), Err("no")), Err("no"));
    assert_eq!(source.register_writer(task(3), ok), Ok(None));
    assert_eq!(source.register_writer(task(4), ok), Ok(Some(task(3))));
    assert_eq!(source.interest(), event(7, true, true));
}

#[test]
fn direction_keeps_its_tasks() {
    let mut direction = Direction::new();
    assert!(direction.is_empty());
    direction.join(task(1));
    direction.join(task(1));
    assert_eq!(direction.set_waker(task(2)), None);
    let mut wakers = Vec::new();
    direction.deliver(4, &mut wakers);
    assert_eq!(wakers, vec![task(2), task(1)]);
    assert!(direction.is_empty());
    assert_eq!(direction.tick(), 4);
    assert!(direction.is_fresh(Some((3, 0))));
    assert!(!direction.is_fresh(Some((4, 0))));
    assert!(!direction.is_fresh(Some((0, 4))));
    assert!(!direction.is_fresh(None));
}

#[test]
fn events_of_unknown_sources_are_ignored() {
    let mut reactor = Reactor::new();
    let key = reactor.insert_io(fd(10));
    wait(&mut reactor, key, Dir::Read, task(1));
    let events = vec![event(99, true, true), event(key, true, false), event(98, true, true)];
    let (modified, woken, result) = round(&mut reactor, events);
    assert!(modified.is_empty());
    assert_eq!((woken, result), (vec![1], Ok(())));
}

#[test]
fn failed_update_stops_the_round_but_wakes() {
    let mut reactor = Reactor::new();
    let a = reactor.insert_io(fd(10));
    let b = reactor.insert_io(fd(11));
    wait(&mut reactor, a, Dir::Read, task(1));
    wait(&mut reactor, a, Dir::Write, task(2));
    wait(&mut reactor, b, Dir::Read, task(3));
    let mut lock = ReactorLock::react(&mut reactor, None, at(0));
    let waited: Waited = Ok(vec![event(a, true, false), event(b, true, false)]);
    let step = lock.pump_events(&mut reactor, None, waited);
    assert_eq!(step, PumpStep::Modify(fd(10), event(a, false, true)));
    assert_eq!(lock.modified(&mut reactor, Err("broken")), PumpStep::Done(Err("broken")));
    // The task that was drained is woken, the other source has not been reached.
    assert_eq!(lock.into_wakers(), vec![task(1)]);
    assert_eq!(reactor.source(b).unwrap().interest(), event(b, true, false));
}

#[test]
fn errors_of_waiting() {
    let mut reactor = Reactor::new();
    let mut lock = ReactorLock::react(&mut reactor, None, at(0));
    let interrupted: Waited = Err(Error { kind: ErrorKind::Interrupted, error: "eintr" });
    assert_eq!(lock.pump_events(&mut reactor, None, interrupted), PumpStep::Done(Ok(())));
    let other: Waited = Err(Error { kind: ErrorKind::Other, error: "ebadf" });
    assert_eq!(lock.pump_events(&mut reactor, None, other), PumpStep::Done(Err("ebadf")));
    let blocked: Waited = Err(Error { kind: ErrorKind::WouldBlock, error: "eagain" });
    assert_eq!(lock.pump_events(&mut reactor, None, blocked), PumpStep::Done(Err("eagain")));
}

#[test]
fn timers_fire_when_the_timeout_is_hit() {
    let mut reactor = Reactor::new();
    reactor.insert_timer(at(100), task(9));
    let limit = Some(Duration::from_secs(1));
    let mut lock = ReactorLock::react(&mut reactor, limit, at(40));
    assert_eq!(reactor.ticker(), 1);
    assert_eq!(lock.timeout(), Some(Duration::from_nanos(60)));
    let timeout = lock.timeout();
    let waited: Waited = Ok(Vec::new());
    assert_eq!(lock.pump_events(&mut reactor, timeout, waited), PumpStep::ReadClock);
    lock.fire_timers(&mut reactor, at(100));
    assert_eq!(lock.into_wakers(), vec![task(9)]);

    // A timer that is due already leaves no time to wait.
    reactor.insert_timer(at(100), task(8));
    let mut lock = ReactorLock::react(&mut reactor, None, at(200));
    assert_eq!(lock.timeout(), Some(Duration::from_secs(0)));
    let timeout = lock.timeout();
    let waited: Waited = Ok(Vec::new());
    assert_eq!(lock.pump_events(&mut reactor, timeout, waited), PumpStep::Done(Ok(())));
    assert_eq!(lock.into_wakers(), vec![task(8)]);
}

#[test]
fn delivering_to_a_source() {
    let mut source = Source::new(fd(3), 6);
    let mut readiness = source.writable();
    readiness.poll(&mut source, task(1));
    let ok: Res = Ok(());
    readiness.wait(&source, 2, ok);
    assert_eq!(readiness.ticks, Some((2, 0)));
    let mut wakers = Vec::new();
    assert_eq!(source.deliver(event(6, true, false), 3, &mut wakers), Some(event(6, false, true)));
    assert!(wakers.is_empty());
    assert_eq!(source.deliver(event(6, false, true), 3, &mut wakers), None);
    assert_eq!(wakers, vec![task(1)]);
}

#[test]
fn delivering_by_key() {
    let mut reactor = Reactor::new();
    let key = reactor.insert_io(fd(10));
    wait(&mut reactor, key, Dir::Read, task(1));
    wait(&mut reactor, key, Dir::Write, task(2));
    let mut wakers = Vec::new();
    let left = reactor.deliver_event(event(key, false, true), 1, &mut wakers);
    assert_eq!(left, Some((fd(10), event(key, true, false))));
    assert_eq!(wakers, vec![task(2)]);
    assert_eq!(reactor.deliver_event(event(77, true, true), 1, &mut wakers), None);
}

#[test]
fn notifications_reach_the_reactor() {
    let mut reactor = Reactor::new();
    assert!(!reactor.take_notification());
    reactor.notify();
    assert!(reactor.take_notification());
    let id = reactor.insert_timer(at(5), task(1));
    assert!(reactor.take_notification());
    reactor.remove_timer(at(5), id);
    assert!(!reactor.take_notification());
}

#[test]
fn registrations_become_requests() {
    let none = Event::none(4);
    let both = event(4, true, true);
    let of_fd: Registration = 3i32.into();
    assert_eq!(of_fd.add(4), Request::AddFd(3, none));
    assert_eq!(of_fd.modify(both), Request::ModifyFd(3, both));
    assert_eq!(of_fd.delete(), Request::DeleteFd(3));
    let of_socket: Registration = 5u64.into();
    assert_eq!(of_socket.add(4), Request::AddSocket(5, none));
    assert_eq!(of_socket.modify(both), Request::ModifySocket(5, both));
    assert_eq!(of_socket.delete(), Request::DeleteSocket(5));
    let of_signal: Registration = Signal(15).into();
    let filter = PollFilter::Signal(15);
    assert_eq!(of_signal.add(4), Request::AddFilter(filter, 4));
    assert_eq!(of_signal.modify(both), Request::ModifyFilter(filter, 4));
    assert_eq!(of_signal.delete(), Request::DeleteFilter(filter));
    let of_child: Registration = Child { pid: 77 }.into();
    let filter = PollFilter::Exit(77);
    assert_eq!(of_child.add(4), Request::AddFilter(filter, 4));
    assert_eq!(of_child.modify(both), Request::ModifyFilter(filter, 4));
    assert_eq!(of_child.delete(), Request::DeleteFilter(filter));
}

#[test]
fn filters_tell_their_registration() {
    let mut signal = Signal(2);
    assert_eq!(signal.registration(), Registration::Signal(Signal(2)));
    assert_eq!(signal.registration(), Registration::Signal(Signal(2)));
    let mut exit = Exit::new(Child { pid: 9 });
    assert_eq!(exit.registration(), Registration::Process(Child { pid: 9 }));
}
