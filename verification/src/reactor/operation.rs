//! Reads and writes that are carried out by the completion ring.
use crate::task::Waker;
use vstd::prelude::*;

verus! {

/// How far an operation has come.
#[derive(Clone, Copy, Debug, PartialEq, Eq, Structural)]
pub enum OperationStatus {
    /// The operation has not been submitted to the ring.
    NotStarted,
    /// The operation is in the ring.
    Pending,
    /// The ring has completed the operation with this result.
    Complete(i32),
}

/// What an operation holds.
pub struct OperationView {
    /// How far the operation has come.
    pub status: OperationStatus,
    /// The task waiting for the operation.
    pub waker: Option<Waker>,
    /// The bytes that the ring reads or writes.
    pub buffer: Seq<u8>,
}

impl OperationView {
    /// An operation that has not been started.
    pub open spec fn fresh() -> OperationView {
        OperationView {
            status: OperationStatus::NotStarted,
            waker: None,
            buffer: Seq::empty(),
        }
    }

    /// The task that is to be woken when `waker` takes its place.
    pub open spec fn replaced_by(self, waker: Waker) -> Option<Waker> {
        match self.waker {
            Some(w) => if w == waker {
                None
            } else {
                Some(w)
            },
            None => None,
        }
    }

    /// The operation once the ring has completed it.
    pub open spec fn completed(self, result: i32) -> OperationView {
        OperationView { status: OperationStatus::Complete(result), waker: None, ..self }
    }
}

/// How an attempt at an operation goes on.
#[derive(Clone, Copy, Debug, PartialEq, Eq, Structural)]
pub enum OperationStep {
    /// Try the operation at once, and submit it to the ring if it would block.
    Start,
    /// Wait for the ring, once the replaced waker has been woken if there is one.
    Wait(Option<Waker>),
    /// The ring has completed the operation with this result.
    Finish(i32),
}

/// A read or write of a source by way of the ring.
#[derive(Debug)]
pub struct Operation {
    status: OperationStatus,
    waker: Option<Waker>,
    buffer: Vec<u8>,
}

impl View for Operation {
    type V = OperationView;

    closed spec fn view(&self) -> OperationView {
        OperationView { status: self.status, waker: self.waker, buffer: self.buffer@ }
    }
}

/// What the ring's result of an operation means: a count of bytes, or the number of an error.
pub open spec fn result_of(code: i32) -> Result<usize, i32> {
    if code < 0 {
        Err(
            if code == i32::MIN {
                i32::MIN
            } else {
                (-code) as i32
            },
        )
    } else {
        Ok(code as usize)
    }
}

/// Judges the ring's result of an operation.
fn judge(code: i32) -> (result: Result<usize, i32>)
    ensures
        result == result_of(code),
{
    if code == i32::MIN {
        Err(i32::MIN)
    } else if code < 0 {
        Err(-code)
    } else {
        Ok(code as usize)
    }
}

impl Operation {
    /// An operation that has not been started.
    pub fn new() -> (operation: Operation)
        ensures
            operation@ == OperationView::fresh(),
    {
        Operation { status: OperationStatus::NotStarted, waker: None, buffer: Vec::new() }
    }

    /// Attempts the operation on behalf of a task.
    pub fn attempt(&mut self, waker: Waker) -> (step: OperationStep)
        ensures
            match old(self)@.status {
                OperationStatus::NotStarted => {
                    &&& step == OperationStep::Start
                    &&& final(self)@ == old(self)@
                },
                OperationStatus::Pending => {
                    &&& step == OperationStep::Wait(old(self)@.replaced_by(waker))
                    &&& final(self)@ == (OperationView { waker: Some(waker), ..old(self)@ })
                },
                OperationStatus::Complete(code) => {
                    &&& step == OperationStep::Finish(code)
                    &&& final(self)@ == (OperationView {
                        status: OperationStatus::NotStarted,
                        ..old(self)@
                    })
                },
            },
    {
        match self.status {
            OperationStatus::NotStarted => OperationStep::Start,
            OperationStatus::Pending => {
                // The operation is still pending. Register the waker.
                if let Some(w) = self.waker.take() {
                    self.waker = Some(waker);
                    if w.will_wake(&waker) {
                        return OperationStep::Wait(None);
                    }
                    // Wake the previous waker, since it has been replaced.
                    return OperationStep::Wait(Some(w));
                }
                self.waker = Some(waker);
                OperationStep::Wait(None)
            },
            OperationStatus::Complete(code) => {
                self.status = OperationStatus::NotStarted;
                OperationStep::Finish(code)
            },
        }
    }

    /// Makes the buffer at least `len` bytes long for the ring to read into.
    pub fn prepare_read(&mut self, len: usize)
        ensures
            final(self)@.status == old(self)@.status,
            final(self)@.waker == old(self)@.waker,
            final(self)@.buffer.len() == if old(self)@.buffer.len() < len {
                len as nat
            } else {
                old(self)@.buffer.len()
            },
            old(self)@.buffer.is_prefix_of(final(self)@.buffer),
    {
        if self.buffer.len() < len {
            self.buffer.resize(len, 0);
        }
    }

    /// Fills the buffer with the bytes that the ring is to write.
    pub fn prepare_write(&mut self, bytes: &[u8])
        ensures
            final(self)@ == (OperationView { buffer: bytes@, ..old(self)@ }),
    {
        self.buffer.clear();
        self.buffer.extend_from_slice(bytes);
        assert(self.buffer@ =~= bytes@);
    }

    /// Returns the buffer that the ring reads into or writes from.
    pub fn buffer_mut(&mut self) -> (buffer: &mut Vec<u8>)
        ensures
            buffer@ == old(self)@.buffer,
            final(self)@ == (OperationView { buffer: final(buffer)@, ..old(self)@ }),
    {
        &mut self.buffer
    }

    /// Records whether the operation has been submitted to the ring.
    pub fn submitted(&mut self, submitted: bool, waker: Waker)
        ensures
            final(self)@ == if submitted {
                OperationView {
                    status: OperationStatus::Pending,
                    waker: Some(waker),
                    ..old(self)@
                }
            } else {
                old(self)@
            },
    {
        if submitted {
            // Register the waker in the operation.
            self.waker = Some(waker);
            self.status = OperationStatus::Pending;
        }
    }

    /// Records the ring's result, and moves the waker into `wakers` if there is one.
    pub fn complete(&mut self, result: i32, wakers: &mut Vec<Waker>)
        ensures
            final(self)@ == old(self)@.completed(result),
            final(wakers)@ == match old(self)@.waker {
                Some(waker) => old(wakers)@.push(waker),
                None => old(wakers)@,
            },
    {
        self.status = OperationStatus::Complete(result);
        if let Some(waker) = self.waker.take() {
            wakers.push(waker);
        }
    }

    /// Decides whether the bytes of a completed operation, if it is one, fit into a buffer of the
    /// given length.
    pub(crate) fn fits(&self, len: usize) -> (fits: bool)
        ensures
            fits == (self@.status matches OperationStatus::Complete(code) ==> code <= len && code
                <= self@.buffer.len()),
    {
        match self.status {
            OperationStatus::Complete(code) => {
                code < 0 || (code as usize <= len && code as usize <= self.buffer.len())
            },
            _ => true,
        }
    }

    /// Hands out what the ring has read: copies the bytes into `buf` and returns their number, or
    /// returns the number of the error.
    pub fn finish_read(&self, buf: &mut [u8], code: i32) -> (result: Result<usize, i32>)
        requires
            code <= old(buf)@.len(),
            code <= self@.buffer.len(),
        ensures
            result == result_of(code),
            final(buf)@ == if code < 0 {
                old(buf)@
            } else {
                self@.buffer.take(code as int) + old(buf)@.skip(code as int)
            },
    {
        let result = judge(code);
        if let Ok(amount) = result {
            let mut i: usize = 0;
            while i < amount
                invariant
                    i <= amount,
                    amount <= buf@.len(),
                    amount <= self.buffer@.len(),
                    buf@.len() == old(buf)@.len(),
                    buf@ == self.buffer@.take(i as int) + old(buf)@.skip(i as int),
                decreases amount - i,
            {
                buf[i] = self.buffer[i];
                i = i + 1;
                assert(buf@ =~= self.buffer@.take(i as int) + old(buf)@.skip(i as int));
            }
        }
        result
    }

    /// Hands out how many bytes the ring has written, or the number of the error.
    pub fn finish_write(&self, code: i32) -> (result: Result<usize, i32>)
        ensures
            result == result_of(code),
    {
        judge(code)
    }
}

/// A read that the ring has completed with a count gives that count and copies exactly so many
/// bytes from the front of its buffer to the front of the reader's, and nothing else. One that the
/// ring has failed gives the number of the error and copies nothing.
pub proof fn law_read_gives_what_was_read(
    operation: Operation,
    buf: &mut [u8],
    code: i32,
    result: Result<usize, i32>,
)
    requires
        code <= old(buf)@.len(),
        code <= operation@.buffer.len(),
        call_ensures(Operation::finish_read, (&operation, buf, code), result),
    ensures
        final(buf)@.len() == old(buf)@.len(),
        match result {
            Ok(count) => {
                &&& count == code
                &&& forall|i: int|
                    0 <= i < count ==> #[trigger] final(buf)@[i] == operation@.buffer[i]
                &&& forall|i: int|
                    count <= i < old(buf)@.len() ==> #[trigger] final(buf)@[i] == old(buf)@[i]
            },
            Err(error) => {
                &&& code < 0
                &&& error == if code == i32::MIN {
                    i32::MIN as int
                } else {
                    0 - code
                }
                &&& final(buf)@ == old(buf)@
            },
        },
{
}

/// A write that the ring has completed with a count gives that count, and one that the ring has
/// failed gives the number of the error.
pub proof fn law_write_gives_what_was_written(
    operation: Operation,
    code: i32,
    result: Result<usize, i32>,
)
    requires
        call_ensures(Operation::finish_write, (&operation, code), result),
    ensures
        match result {
            Ok(count) => count == code,
            Err(error) => code < 0 && error == if code == i32::MIN {
                i32::MIN as int
            } else {
                0 - code
            },
        },
{
}

/// An operation goes round: once submitted it waits for the ring, on behalf of whoever asks last,
/// and once the ring has completed it, that task is woken and the next attempt gets the result,
/// once. After that the operation can be started again.
pub proof fn law_operation_goes_round(
    submitted: &mut Operation,
    first: Waker,
    waiting: &mut Operation,
    second: Waker,
    wait: OperationStep,
    completed: &mut Operation,
    result: i32,
    wakers: &mut Vec<Waker>,
    finished: &mut Operation,
    third: Waker,
    finish: OperationStep,
    again: &mut Operation,
    start: OperationStep,
)
    requires
        call_ensures(Operation::submitted, (submitted, true, first), ()),
        old(waiting)@ == final(submitted)@,
        call_ensures(Operation::attempt, (waiting, second), wait),
        old(completed)@ == final(waiting)@,
        call_ensures(Operation::complete, (completed, result, wakers), ()),
        old(finished)@ == final(completed)@,
        call_ensures(Operation::attempt, (finished, third), finish),
        old(again)@ == final(finished)@,
        call_ensures(Operation::attempt, (again, third), start),
    ensures
        match wait {
            OperationStep::Wait(Some(replaced)) => replaced == first && first != second,
            OperationStep::Wait(None) => first == second,
            _ => false,
        },
        final(wakers)@.len() == old(wakers)@.len() + 1,
        final(wakers)@.last() == second,
        old(wakers)@.is_prefix_of(final(wakers)@),
        finish == OperationStep::Finish(result),
        start == OperationStep::Start,
        final(again)@.buffer == old(submitted)@.buffer,
        final(again)@.status == OperationStatus::NotStarted,
{
}

/// What an attempt changes: a pending operation gets the task that asks, and hands back the one that
/// asked before if it is another; a completed one becomes one that has not been started. Nothing else
/// changes, and the buffer never does.
pub proof fn law_attempt_changes_little(operation: &mut Operation, waker: Waker, step: OperationStep)
    requires
        call_ensures(Operation::attempt, (operation, waker), step),
    ensures
        final(operation)@.buffer == old(operation)@.buffer,
        step == OperationStep::Start <==> old(operation)@.status == OperationStatus::NotStarted,
        step is Wait <==> old(operation)@.status == OperationStatus::Pending,
        step matches OperationStep::Finish(code) ==> old(operation)@.status
            == OperationStatus::Complete(code),
        step matches OperationStep::Wait(replaced) ==> (match replaced {
            Some(task) => old(operation)@.waker == Some(task) && task != waker,
            None => old(operation)@.waker is None || old(operation)@.waker == Some(waker),
        }),
        final(operation)@.waker == if step is Wait {
            Some(waker)
        } else {
            old(operation)@.waker
        },
        final(operation)@.status == if step is Finish {
            OperationStatus::NotStarted
        } else {
            old(operation)@.status
        },
{
}

/// Recording a submission or a completion leaves the buffer alone. An operation that could not be
/// submitted is as it was, and a completion wakes the task that waits, if there is one, and nobody
/// twice.
pub proof fn law_records_leave_the_buffer(
    submitted: &mut Operation,
    was: bool,
    waker: Waker,
    completed: &mut Operation,
    result: i32,
    wakers: &mut Vec<Waker>,
    created: Operation,
)
    requires
        call_ensures(Operation::submitted, (submitted, was, waker), ()),
        call_ensures(Operation::complete, (completed, result, wakers), ()),
        call_ensures(Operation::new, (), created),
    ensures
        final(submitted)@.buffer == old(submitted)@.buffer,
        was ==> final(submitted)@.status == OperationStatus::Pending && final(submitted)@.waker
            == Some(waker),
        !was ==> final(submitted)@.status == old(submitted)@.status && final(submitted)@.waker
            == old(submitted)@.waker,
        final(completed)@.buffer == old(completed)@.buffer,
        final(completed)@.status == OperationStatus::Complete(result),
        final(completed)@.waker is None,
        old(wakers)@.is_prefix_of(final(wakers)@),
        match old(completed)@.waker {
            Some(task) => final(wakers)@.len() == old(wakers)@.len() + 1 && final(wakers)@.last()
                == task,
            None => final(wakers)@.len() == old(wakers)@.len(),
        },
        created@.status == OperationStatus::NotStarted && created@.waker is None
            && created@.buffer.len() == 0,
{
}

/// A buffer for reading is long enough and keeps what was in it, and a buffer for writing holds the
/// bytes to write and no others. Neither starts the operation.
pub proof fn law_buffers_are_prepared(
    reading: &mut Operation,
    len: usize,
    writing: &mut Operation,
    bytes: &[u8],
)
    requires
        call_ensures(Operation::prepare_read, (reading, len), ()),
        call_ensures(Operation::prepare_write, (writing, bytes), ()),
    ensures
        final(reading)@.buffer.len() >= len,
        final(reading)@.buffer.len() >= old(reading)@.buffer.len(),
        final(reading)@.buffer.len() == len || final(reading)@.buffer.len()
            == old(reading)@.buffer.len(),
        forall|i: int|
            0 <= i < old(reading)@.buffer.len() ==> #[trigger] final(reading)@.buffer[i]
                == old(reading)@.buffer[i],
        final(reading)@.status == old(reading)@.status && final(reading)@.waker
            == old(reading)@.waker,
        final(writing)@.buffer.len() == bytes@.len(),
        forall|i: int| 0 <= i < bytes@.len() ==> #[trigger] final(writing)@.buffer[i] == bytes@[i],
        final(writing)@.status == old(writing)@.status && final(writing)@.waker
            == old(writing)@.waker,
{
}

/// The buffer that the ring uses is that of the operation, and nothing else of it can be changed
/// through it.
pub proof fn law_buffer_is_changed_in_place(operation: &mut Operation, buffer: &mut Vec<u8>)
    requires
        call_ensures(Operation::buffer_mut, (operation,), buffer),
    ensures
        old(buffer)@ == old(operation)@.buffer,
        final(operation)@.buffer == final(buffer)@,
        final(operation)@.status == old(operation)@.status,
        final(operation)@.waker == old(operation)@.waker,
{
}

} // verus!
