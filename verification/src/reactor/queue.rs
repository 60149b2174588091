//! The queue of timer operations.
//!
//! Inserting or removing a timer does not touch the ordered map of timers: the operation is pushed
//! into a bounded `concurrent_queue::ConcurrentQueue`, and applied to the map when the queue fills
//! up or the reactor is polled.
use crate::reactor::timer_map::TimerKey;
use crate::time::Instant;
use crate::task::Waker;
use concurrent_queue::ConcurrentQueue;
use vstd::prelude::*;

verus! {

/// A single timer operation.
#[derive(Clone, Copy, Debug, PartialEq, Eq, Structural)]
pub enum TimerOp {
    /// Registers a timer: when it fires, its identifier and the task to wake.
    Insert(Instant, usize, Waker),
    /// Deregisters a timer.
    Remove(Instant, usize),
}

/// The timers after one operation.
pub open spec fn apply_op(timers: Map<TimerKey, Waker>, op: TimerOp) -> Map<TimerKey, Waker> {
    match op {
        TimerOp::Insert(at, id, waker) => timers.insert((at, id), waker),
        TimerOp::Remove(at, id) => timers.remove((at, id)),
    }
}

/// The timers after a sequence of operations, oldest first.
pub open spec fn apply_ops(timers: Map<TimerKey, Waker>, ops: Seq<TimerOp>) -> Map<TimerKey, Waker>
    decreases ops.len(),
{
    if ops.len() == 0 {
        timers
    } else {
        apply_op(apply_ops(timers, ops.drop_last()), ops.last())
    }
}

/// Applying the oldest operation first and then the others applies them all.
pub proof fn lemma_apply_first(timers: Map<TimerKey, Waker>, ops: Seq<TimerOp>)
    requires
        ops.len() > 0,
    ensures
        apply_ops(apply_op(timers, ops[0]), ops.drop_first()) == apply_ops(timers, ops),
    decreases ops.len(),
{
    if ops.len() == 1 {
        assert(ops.drop_last() =~= Seq::<TimerOp>::empty());
        assert(ops.drop_first() =~= Seq::<TimerOp>::empty());
        reveal_with_fuel(apply_ops, 2);
    } else {
        lemma_apply_first(timers, ops.drop_last());
        assert(ops.drop_last().drop_first() =~= ops.drop_first().drop_last());
        assert(ops.drop_first().last() == ops.last());
    }
}

/// Operations keep a finite map finite.
pub proof fn lemma_apply_is_finite(timers: Map<TimerKey, Waker>, ops: Seq<TimerOp>)
    requires
        timers.dom().finite(),
    ensures
        apply_ops(timers, ops).dom().finite(),
    decreases ops.len(),
{
    if ops.len() > 0 {
        lemma_apply_is_finite(timers, ops.drop_last());
    }
}

/// `concurrent_queue::ConcurrentQueue`, a queue that is shared between threads. Verified code
/// holds it through an exclusive reference, so nothing else happens to it during a call.
#[verifier::external_type_specification]
#[verifier::external_body]
#[verifier::reject_recursive_types(T)]
pub struct ExConcurrentQueue<T>(concurrent_queue::ConcurrentQueue<T>);

/// The operations in a queue, oldest first.
pub uninterp spec fn queued_ops(queue: ConcurrentQueue<TimerOp>) -> Seq<TimerOp>;

/// How many operations a queue can hold, if that is limited.
pub uninterp spec fn ops_capacity(queue: ConcurrentQueue<TimerOp>) -> Option<usize>;

/// Whether a queue has been closed.
pub uninterp spec fn ops_closed(queue: ConcurrentQueue<TimerOp>) -> bool;

/// Calls `ConcurrentQueue::bounded`: an open queue that holds nothing and has room for `cap`
/// operations. The bounds on `cap` leave out the capacity of zero, on which the call panics, and
/// capacities so large that the buffer or its stamps would not fit.
#[verifier::external_body]
pub(crate) fn bounded_ops(cap: usize) -> (queue: ConcurrentQueue<TimerOp>)
    requires
        0 < cap <= 0x1_0000,
    ensures
        queued_ops(queue) == Seq::<TimerOp>::empty(),
        ops_capacity(queue) == Some(cap),
        !ops_closed(queue),
{
    ConcurrentQueue::bounded(cap)
}

/// Calls `ConcurrentQueue::push` on an open queue: the operation is appended if there is room for
/// it, and is handed back otherwise, with the queue left as it was.
#[verifier::external_body]
pub(crate) fn push_op(queue: &mut ConcurrentQueue<TimerOp>, op: TimerOp) -> (pushed: Result<
    (),
    TimerOp,
>)
    requires
        !ops_closed(*old(queue)),
    ensures
        pushed is Ok <==> match ops_capacity(*old(queue)) {
            Some(cap) => queued_ops(*old(queue)).len() < cap,
            None => true,
        },
        match pushed {
            Ok(_) => queued_ops(*final(queue)) == queued_ops(*old(queue)).push(op),
            Err(back) => back == op && queued_ops(*final(queue)) == queued_ops(*old(queue)),
        },
        ops_capacity(*final(queue)) == ops_capacity(*old(queue)),
        !ops_closed(*final(queue)),
{
    match queue.push(op) {
        Ok(()) => Ok(()),
        Err(concurrent_queue::PushError::Full(op)) => Err(op),
        Err(concurrent_queue::PushError::Closed(op)) => Err(op),
    }
}

/// Calls `ConcurrentQueue::pop`: takes out the oldest operation, if there is one.
#[verifier::external_body]
pub(crate) fn pop_op(queue: &mut ConcurrentQueue<TimerOp>) -> (popped: Option<TimerOp>)
    ensures
        match popped {
            Some(op) => queued_ops(*old(queue)).len() > 0 && op == queued_ops(*old(queue))[0]
                && queued_ops(*final(queue)) == queued_ops(*old(queue)).drop_first(),
            None => queued_ops(*old(queue)).len() == 0 && queued_ops(*final(queue)) == queued_ops(
                *old(queue),
            ),
        },
        ops_capacity(*final(queue)) == ops_capacity(*old(queue)),
        ops_closed(*final(queue)) == ops_closed(*old(queue)),
{
    queue.pop().ok()
}

/// Calls `ConcurrentQueue::capacity`: how many operations the queue can hold, `None` if that is
/// not limited.
#[verifier::external_body]
pub(crate) fn capacity_of_ops(queue: &ConcurrentQueue<TimerOp>) -> (capacity: Option<usize>)
    ensures
        capacity == ops_capacity(*queue),
{
    queue.capacity()
}

} // verus!
