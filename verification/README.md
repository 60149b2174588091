# async-io

Async I/O and timers, with the decisions verified by Verus.

The crate under `src/` holds the logic of an async runtime's I/O driver as plain state and functions
with contracts:

* `reactor` keeps the registered sources and timers, hands out events in rounds of polling, and says
  which tasks to wake. `reactor::uring` does the same for reads and writes by way of a completion
  ring.
* `timer` holds timers that fire once or periodically, and `timer::web` those that a host runs.
  `timer::world` proves that each registration in the reactor belongs to one timer, and that no timer
  has more than one.
* `driver` decides which thread polls the reactor, and how the lead is passed on. `driver::world`
  proves, unless the "async-io" thread has the reactor for itself, that in the polling state exactly
  one running thread leads and in the other states nobody does, also when the "async-io" thread is
  disabled, that nobody who waits for the lead is forgotten, and that no nomination is slept through.
  `driver::wakeups` proves that a task that is woken is polled again.
* `block_on` and `parking` are the loops of threads that block with a parker. `parking::world` proves
  that a handle notifies its own parker only, and that a thread that is notified stops parking.
* `io` holds the adapter for I/O handles and the loops of its operations.
* `sys` and `os` hold what platforms take and report.

What reads the clock, calls the operating system, locks, sleeps or wakes stands in `app/`: each loop
there does what the library says next and hands back what came of it. Instants and durations are
whole nanoseconds, a waker is the number of its task, and errors are handed through unchanged.

Two collections of other crates are used in verified code, `concurrent_queue::ConcurrentQueue` and
`slab::Slab`. What is trusted of them is stated in `src/reactor/queue.rs`, `src/reactor/sources.rs`
and `src/reactor/uring.rs`.

`tests/` runs the library against a clock and events that the tests move by hand.
