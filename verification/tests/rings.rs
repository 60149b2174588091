//! Reads and writes by way of the completion ring.
use async_io::reactor::operation::{Operation, OperationStep};
use async_io::reactor::poll::{PumpStep, Reactor, ReactorLock};
use async_io::reactor::registration::Registration;
use async_io::reactor::source::{Dir, Source};
use async_io::reactor::uring::{
    after_wait, can_submit, cvt_timeout, Completion, CompletionQueue, QueueStep, RingStep, Uring, WaitStep,
    EPOLL_KEY, OPERATION_MASK,
};
use async_io::sys::{Error, ErrorKind};
use async_io::task::Waker;
use async_io::time::{duration_max, Duration, Instant};

type Step = RingStep<&'static str>;

fn task(task: u64) -> Waker {
    Waker { task }
}

fn blocked() -> Result<usize, Error<&'static str>> {
    Err(Error { kind: ErrorKind::WouldBlock, error: "eagain" })
}

#[test]
fn read_goes_round() {
    let mut reactor = Reactor::new();
    let mut uring = Uring::new();
    let key = reactor.insert_io(Registration::Fd(4));
    let source = reactor.source_mut(key).unwrap();
    let mut buf = [9u8; 4];
    let step: Step = Uring::poll_read(source, &mut buf, task(1));
    assert_eq!(step, RingStep::Try);
    let step = uring.tried_read(source, buf.len(), blocked(), 0, 8, task(1));
    assert_eq!(step, RingStep::Submit(key as u64));
    // Polling again waits; another task takes the place of the first.
    let step: Step = Uring::poll_read(source, &mut buf, task(1));
    assert_eq!(step, RingStep::Pending(None));
    let step: Step = Uring::poll_read(source, &mut buf, task(2));
    assert_eq!(step, RingStep::Pending(Some(task(1))));

    // The ring fills the buffer.
    let buffer = source.op_mut(Dir::Read).buffer_mut();
    assert_eq!(buffer.len(), 4);
    buffer[..3].copy_from_slice(b"abc");

    let mut lock = ReactorLock::react(&mut reactor, None, Instant { nanos: 0 });
    let mut queue: CompletionQueue<&str> = CompletionQueue::new();
    queue.fill(vec![Completion { data: key as u64, result: 3 }]);
    let step = queue.process_queue(&mut uring, &mut reactor, &mut lock);
    assert_eq!(step, QueueStep::Refill);
    assert_eq!(lock.into_wakers(), vec![task(2)]);
    assert_eq!(queue.into_result(), Ok(()));

    let source = reactor.source_mut(key).unwrap();
    let step: Step = Uring::poll_read(source, &mut buf, task(2));
    assert_eq!(step, RingStep::Complete(Ok(3)));
    assert_eq!(buf, [b'a', b'b', b'c', 9]);
    let step: Step = Uring::poll_read(source, &mut buf, task(2));
    assert_eq!(step, RingStep::Try);
}

#[test]
fn write_goes_round() {
    let mut reactor = Reactor::new();
    let mut uring = Uring::new();
    let key = reactor.insert_io(Registration::Fd(4));
    let source = reactor.source_mut(key).unwrap();
    let step: Step = Uring::poll_write(source, task(1));
    assert_eq!(step, RingStep::Try);
    let step = uring.tried_write(source, b"abc", blocked(), 0, 8, task(1));
    let data = key as u64 | OPERATION_MASK;
    assert_eq!(step, RingStep::Submit(data));
    let mut lock = ReactorLock::react(&mut reactor, None, Instant { nanos: 0 });
    let mut queue: CompletionQueue<&str> = CompletionQueue::new();
    queue.fill(vec![Completion { data, result: -32 }]);
    queue.process_queue(&mut uring, &mut reactor, &mut lock);
    assert_eq!(lock.into_wakers(), vec![task(1)]);
    let source = reactor.source_mut(key).unwrap();
    let step: Step = Uring::poll_write(source, task(1));
    assert_eq!(step, RingStep::Complete(Err(32)));
}

#[test]
fn operation_may_end_at_once() {
    let mut uring = Uring::new();
    let mut source = Source::new(Registration::Fd(4), 0);
    let step: Step = uring.tried_read(&mut source, 8, Ok(5), 0, 8, task(1));
    assert_eq!(step, RingStep::Ready(Ok(5)));
    let failed = Err(Error { kind: ErrorKind::Other, error: "eio" });
    assert_eq!(uring.tried_read(&mut source, 8, failed, 0, 8, task(1)), RingStep::Ready(Err("eio")));
    let step: Step = uring.tried_write(&mut source, b"x", Ok(1), 0, 8, task(1));
    assert_eq!(step, RingStep::Ready(Ok(1)));
    let failed = Err(Error { kind: ErrorKind::Other, error: "eio" });
    let step = uring.tried_write(&mut source, b"x", failed, 0, 8, task(1));
    assert_eq!(step, RingStep::Ready(Err("eio")));
}

#[test]
fn any_source_may_end_an_operation_at_once() {
    // The key does not fit the user data, and there is no room in the ring.
    let mut uring = Uring::new();
    let mut source = Source::new(Registration::Fd(4), 128);
    assert!(!can_submit(128, Dir::Read));
    let step: Step = Uring::poll_write(&mut source, task(1));
    assert_eq!(step, RingStep::Try);
    let step: Step = uring.tried_write(&mut source, b"x", Ok(1), 0, 0, task(1));
    assert_eq!(step, RingStep::Ready(Ok(1)));
    let step: Step = uring.tried_read(&mut source, 8, Ok(5), 0, 0, task(1));
    assert_eq!(step, RingStep::Ready(Ok(5)));
    let step: Step = Uring::poll_write(&mut source, task(1));
    assert_eq!(step, RingStep::Try);
}

#[test]
fn one_space_is_left_for_polling() {
    let mut uring = Uring::new();
    assert_eq!(uring.submit_entry(1, Dir::Read, 6, 8, task(1)), Some(1));
    assert_eq!(uring.submit_entry(1, Dir::Write, 6, 8, task(1)), Some(0x81));
    assert_eq!(uring.submit_entry(1, Dir::Read, 7, 8, task(2)), None);
    assert_eq!(uring.submit_entry(1, Dir::Read, 8, 8, task(3)), None);
    assert_eq!(uring.submit_entry(1, Dir::Read, 0, 1, task(4)), None);

    // The tasks that had to wait are woken once completions have been processed.
    let mut reactor = Reactor::new();
    let mut lock = ReactorLock::react(&mut reactor, None, Instant { nanos: 0 });
    let mut queue: CompletionQueue<&str> = CompletionQueue::new();
    // Without completions there is no more room than before, and nobody is woken.
    let step = queue.process_queue(&mut uring, &mut reactor, &mut lock);
    assert_eq!(step, QueueStep::Refill);
    queue.fill(vec![]);
    let step = queue.process_queue(&mut uring, &mut reactor, &mut lock);
    assert_eq!(step, QueueStep::Refill);
    queue.fill(vec![Completion { data: 5, result: 0 }]);
    let step = queue.process_queue(&mut uring, &mut reactor, &mut lock);
    assert_eq!(step, QueueStep::Refill);
    assert_eq!(lock.into_wakers(), vec![task(2), task(3), task(4)]);
}

#[test]
fn waiting_tasks_are_woken_after_the_poller_had_its_turn() {
    let mut uring = Uring::new();
    assert_eq!(uring.submit_entry(1, Dir::Read, 7, 8, task(2)), None);
    let mut reactor = Reactor::new();
    let mut lock = ReactorLock::react(&mut reactor, None, Instant { nanos: 0 });
    let mut queue: CompletionQueue<&str> = CompletionQueue::new();
    queue.fill(vec![Completion { data: EPOLL_KEY, result: 1 }]);
    assert_eq!(queue.process_queue(&mut uring, &mut reactor, &mut lock), QueueStep::Pump);
    assert_eq!(queue.process_queue(&mut uring, &mut reactor, &mut lock), QueueStep::Refill);
    // Only once for each batch of completions.
    assert_eq!(uring.submit_entry(1, Dir::Read, 7, 8, task(3)), None);
    assert_eq!(queue.process_queue(&mut uring, &mut reactor, &mut lock), QueueStep::Refill);
    assert_eq!(lock.into_wakers(), vec![task(2)]);
}

#[test]
fn completed_read_must_fit_the_buffer() {
    let mut source = Source::new(Registration::Fd(4), 0);
    assert!(Uring::can_finish_read(&source, 0));
    let operation = source.op_mut(Dir::Read);
    operation.prepare_read(4);
    operation.submitted(true, task(1));
    let mut wakers = Vec::new();
    operation.complete(3, &mut wakers);
    assert!(Uring::can_finish_read(&source, 3));
    assert!(!Uring::can_finish_read(&source, 2));
    source.op_mut(Dir::Read).complete(5, &mut wakers);
    assert!(!Uring::can_finish_read(&source, 8));
    source.op_mut(Dir::Read).complete(-5, &mut wakers);
    assert!(Uring::can_finish_read(&source, 0));
}

#[test]
fn poller_is_registered_once() {
    let mut uring = Uring::new();
    assert!(uring.register_polling());
    assert!(!uring.register_polling());

    let mut reactor = Reactor::new();
    let key = reactor.insert_io(Registration::Fd(1));
    let mut lock = ReactorLock::react(&mut reactor, None, Instant { nanos: 0 });
    let mut queue: CompletionQueue<&str> = CompletionQueue::new();
    let read = Completion { data: key as u64, result: 0 };
    let poll = Completion { data: EPOLL_KEY, result: 1 };
    queue.fill(vec![read, poll, read]);
    assert_eq!(queue.process_queue(&mut uring, &mut reactor, &mut lock), QueueStep::Pump);
    let pumped = lock.pump_events(&mut reactor, Some(Duration::from_secs(0)), Ok(vec![]));
    assert_eq!(pumped, PumpStep::Done(Ok::<(), &str>(())));
    queue.pumped(Ok(()));
    assert_eq!(queue.process_queue(&mut uring, &mut reactor, &mut lock), QueueStep::Refill);
    assert_eq!(queue.into_result(), Ok(()));
    assert!(uring.register_polling());
}

#[test]
fn keys_must_leave_room_for_the_operation() {
    assert!(can_submit(0, Dir::Read));
    assert!(can_submit(127, Dir::Write));
    assert!(!can_submit(128, Dir::Read));
    assert!(can_submit(256, Dir::Read));
    let all_but_the_bit = (u64::MAX & !OPERATION_MASK) as usize;
    assert!(can_submit(all_but_the_bit, Dir::Read));
    assert!(!can_submit(all_but_the_bit, Dir::Write));
}

#[test]
fn first_error_stays() {
    let mut queue: CompletionQueue<&str> = CompletionQueue::new();
    queue.pumped(Ok(()));
    queue.pumped(Err("first"));
    queue.pumped(Err("second"));
    queue.pumped(Ok(()));
    assert_eq!(queue.into_result(), Err("first"));
}

#[test]
fn completions_of_unknown_sources_are_ignored() {
    let mut uring = Uring::new();
    let mut reactor = Reactor::new();
    let mut lock = ReactorLock::react(&mut reactor, None, Instant { nanos: 0 });
    let mut queue: CompletionQueue<&str> = CompletionQueue::new();
    queue.fill(vec![Completion { data: 5, result: 1 }]);
    assert_eq!(queue.process_queue(&mut uring, &mut reactor, &mut lock), QueueStep::Refill);
    assert!(lock.into_wakers().is_empty());
}

#[test]
fn waiting_for_the_ring() {
    let zero = Some(Duration::from_secs(0));
    let some = Some(Duration::from_secs(1));
    let ok: Result<(), Error<&str>> = Ok(());
    assert_eq!(after_wait(ok, true, some), WaitStep::ReadClock);
    assert_eq!(after_wait(ok, true, None), WaitStep::ReadClock);
    assert_eq!(after_wait(ok, true, zero), WaitStep::Process);
    assert_eq!(after_wait(ok, false, some), WaitStep::Process);
    let interrupted = Err(Error { kind: ErrorKind::Interrupted, error: "eintr" });
    assert_eq!(after_wait(interrupted, true, some), WaitStep::Done(Ok(())));
    let other = Err(Error { kind: ErrorKind::Other, error: "ebusy" });
    assert_eq!(after_wait(other, true, some), WaitStep::Done(Err("ebusy")));
}

#[test]
fn timeouts_become_timespecs() {
    assert_eq!(cvt_timeout(Duration::from_secs(0)), (0, 0));
    assert_eq!(cvt_timeout(Duration { nanos: 5_000_000_007 }), (5, 7));
    assert_eq!(cvt_timeout(duration_max()), (u64::MAX, 999_999_999));
}

#[test]
fn buffers_of_operations() {
    let mut operation = Operation::new();
    assert_eq!(operation.attempt(task(1)), OperationStep::Start);
    operation.prepare_write(b"hello");
    // A read into a shorter buffer keeps the longer one.
    operation.prepare_read(3);
    assert_eq!(operation.buffer_mut().as_slice(), b"hello");
    operation.submitted(true, task(1));
    assert_eq!(operation.attempt(task(1)), OperationStep::Wait(None));
    let mut wakers = Vec::new();
    operation.complete(5, &mut wakers);
    assert_eq!(wakers, vec![task(1)]);
    assert_eq!(operation.attempt(task(1)), OperationStep::Finish(5));
    let mut buf = [0u8; 6];
    assert_eq!(operation.finish_read(&mut buf, 5), Ok(5));
    assert_eq!(&buf, b"hello\0");
    assert_eq!(operation.finish_read(&mut buf, -4), Err(4));
    assert_eq!(operation.finish_write(2), Ok(2));
    assert_eq!(operation.finish_write(-11), Err(11));
    assert_eq!(operation.attempt(task(1)), OperationStep::Start);
    operation.submitted(false, task(1));
    assert_eq!(operation.attempt(task(1)), OperationStep::Start);
}
