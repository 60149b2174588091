//! Tasks that wait on the reactor, and what polling on their behalf gives.
use vstd::prelude::*;

verus! {

/// A handle to a task that can be woken.
///
/// Two handles wake the same task exactly when their `task` fields agree.
#[derive(Clone, Copy, Debug, PartialEq, Eq, Structural)]
pub struct Waker {
    /// The task that this handle wakes.
    pub task: u64,
}

impl Waker {
    /// Returns `true` if both handles wake the same task.
    pub fn will_wake(&self, other: &Waker) -> (same: bool)
        ensures
            same == (*self == *other),
    {
        self.task == other.task
    }
}

/// What polling gives: a value, or the word that there is none yet.
#[derive(Clone, Copy, Debug, PartialEq, Eq)]
pub enum Poll<T> {
    /// The value is there.
    Ready(T),
    /// The value is not there yet.
    Pending,
}

/// Two handles wake the same task exactly if they are handles of the same task.
pub proof fn law_handles_of_one_task_agree(a: Waker, b: Waker, same: bool)
    requires
        call_ensures(Waker::will_wake, (&a, &b), same),
    ensures
        same <==> a.task == b.task,
{
}

} // verus!
