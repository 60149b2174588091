//! Async I/O and timers.
//!
//! The library decides and the program around it acts: the reactor, the driver and the loops of
//! blocked threads hold plain values, say what has to be done next, and take what came of it. What
//! reads the clock, polls, sleeps, locks or wakes stands outside.
//!
//! * [`io`] holds the adapter that registers descriptors, and the loops of its operations.
//! * [`timer`] holds timers.
//! * [`reactor`] holds sources, timers and the rounds in which they are polled.
//! * [`driver`] decides which thread polls; [`block_on`] and [`parking`] do so with parkers.
//! * [`sys`] and [`os`] hold what platforms take and report.
pub mod block_on;
pub mod driver;
pub mod io;
pub mod os;
pub mod parking;
pub mod reactor;
pub mod sys;
pub mod task;
pub mod time;
pub mod timer;
