//! The reactor: it knows who waits for what, and wakes them when it happens.
pub mod operation;
pub mod poll;
pub mod queue;
pub mod registration;
pub mod source;
pub mod sources;
pub mod timer;
pub mod timer_map;
pub mod uring;
