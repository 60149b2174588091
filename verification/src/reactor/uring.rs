//! The reactor's use of a completion ring for reads and writes.
//!
//! An operation that would block is submitted to the ring, and so is the wait for the poller. When
//! the ring reports completions, each is matched with its source by the user data that went in.
use crate::reactor::operation::{self, Operation, OperationStatus, OperationStep, OperationView};
use crate::reactor::poll::{LockView, Reactor, ReactorLock, ReactorView};
use crate::reactor::source::{Dir, Source, SourceView};
use crate::sys::{Error, ErrorKind};
use crate::task::Waker;
use crate::time::{self, Duration};
use concurrent_queue::ConcurrentQueue;
use vstd::prelude::*;

verus! {

/// The user data of the wait for the poller.
pub const EPOLL_KEY: u64 = u64::MAX;

/// Which bit of the user data tells the operation: the number of bytes in the data, less one.
pub const OPERATION_SHIFT: u64 = 7;

/// The bit of the user data that tells the operation.
pub const OPERATION_MASK: u64 = 0x80;

/// The tasks in a queue, oldest first.
pub uninterp spec fn queued_wakers(queue: ConcurrentQueue<Waker>) -> Seq<Waker>;

/// Whether a queue takes any number of tasks and has not been closed.
pub uninterp spec fn is_unbounded(queue: ConcurrentQueue<Waker>) -> bool;

/// Calls `ConcurrentQueue::unbounded`: an open queue that holds nothing and whose size is not
/// limited.
#[verifier::external_body]
pub(crate) fn unbounded_wakers() -> (queue: ConcurrentQueue<Waker>)
    ensures
        queued_wakers(queue) == Seq::<Waker>::empty(),
        is_unbounded(queue),
{
    ConcurrentQueue::unbounded()
}

/// Calls `ConcurrentQueue::push` on an open queue of unlimited size: the task is appended.
#[verifier::external_body]
pub(crate) fn push_waker(queue: &mut ConcurrentQueue<Waker>, waker: Waker)
    requires
        is_unbounded(*old(queue)),
    ensures
        queued_wakers(*final(queue)) == queued_wakers(*old(queue)).push(waker),
        is_unbounded(*final(queue)),
{
    queue.push(waker).ok();
}

/// Calls `ConcurrentQueue::pop`: takes out the oldest task, if there is one.
#[verifier::external_body]
pub(crate) fn pop_waker(queue: &mut ConcurrentQueue<Waker>) -> (popped: Option<Waker>)
    ensures
        match popped {
            Some(waker) => queued_wakers(*old(queue)).len() > 0 && waker == queued_wakers(
                *old(queue),
            )[0] && queued_wakers(*final(queue)) == queued_wakers(*old(queue)).drop_first(),
            None => queued_wakers(*old(queue)).len() == 0 && queued_wakers(*final(queue))
                == queued_wakers(*old(queue)),
        },
        is_unbounded(*final(queue)) == is_unbounded(*old(queue)),
{
    queue.pop().ok()
}

/// The user data of an operation of a source.
pub open spec fn data_of(key: usize, dir: Dir) -> u64 {
    match dir {
        Dir::Read => key as u64,
        Dir::Write => key as u64 | OPERATION_MASK,
    }
}

/// Whether the user data of an operation tells its source: the key leaves out the bit for the
/// operation, and the data is not that of the wait for the poller.
pub open spec fn is_encodable(key: usize, dir: Dir) -> bool {
    key as u64 & OPERATION_MASK == 0 && data_of(key, dir) != EPOLL_KEY
}

/// The key of the source that user data tells of.
pub open spec fn key_of(data: u64) -> usize {
    (data & !OPERATION_MASK) as usize
}

/// The operation that user data tells of.
pub open spec fn dir_of(data: u64) -> Dir {
    if data & OPERATION_MASK == 0 {
        Dir::Read
    } else {
        Dir::Write
    }
}

/// User data leads back to the operation it was made for, and is never taken for that of the wait
/// for the poller.
pub proof fn law_user_data_leads_back(key: usize, dir: Dir)
    requires
        is_encodable(key, dir),
    ensures
        key_of(data_of(key, dir)) == key,
        dir_of(data_of(key, dir)) == dir,
        data_of(key, dir) != EPOLL_KEY,
{
    let wide = key as u64;
    assert(wide & !0x80u64 == wide && (wide | 0x80u64) & !0x80u64 == wide && (wide | 0x80u64)
        & 0x80u64 != 0) by (bit_vector)
        requires
            wide & 0x80u64 == 0,
    ;
}

/// Decides whether the user data of an operation tells its source.
pub fn can_submit(key: usize, dir: Dir) -> (fits: bool)
    ensures
        fits == is_encodable(key, dir),
{
    let wide: u64 = key as u64;
    let data: u64 = match dir {
        Dir::Read => wide,
        Dir::Write => wide | OPERATION_MASK,
    };
    wide & OPERATION_MASK == 0 && data != EPOLL_KEY
}

/// Computes the user data of an operation of a source.
fn user_data(key: usize, dir: Dir) -> (data: u64)
    requires
        is_encodable(key, dir),
    ensures
        data == data_of(key, dir),
{
    let operation: u64 = match dir {
        Dir::Read => 0,
        Dir::Write => 1,
    };
    assert(1u64 << 7u64 == 0x80u64 && 0u64 << 7u64 == 0u64) by (bit_vector);
    let wide: u64 = key as u64;
    assert(wide | 0u64 == wide) by (bit_vector);
    wide | (operation << OPERATION_SHIFT)
}

/// Takes user data apart into the key of a source and the operation.
fn split_data(data: u64) -> (split: (usize, Dir))
    ensures
        split.0 == key_of(data),
        split.1 == dir_of(data),
{
    let key: usize = (data & !OPERATION_MASK) as usize;
    let operation: u64 = (data & OPERATION_MASK) >> OPERATION_SHIFT;
    assert(((data & 0x80u64) >> 7u64 == 0) == (data & 0x80u64 == 0)) by (bit_vector);
    if operation == 0 {
        (key, Dir::Read)
    } else {
        (key, Dir::Write)
    }
}

/// A completion that the ring reports: the user data that went in, and the result.
#[derive(Clone, Copy, Debug, PartialEq, Eq, Structural)]
pub struct Completion {
    /// The user data.
    pub data: u64,
    /// The result of the operation.
    pub result: i32,
}

/// The sources after the ring has reported the completion of an operation.
pub open spec fn completed(
    sources: Map<usize, SourceView>,
    completion: Completion,
) -> Map<usize, SourceView> {
    let key = key_of(completion.data);
    let dir = dir_of(completion.data);
    if sources.contains_key(key) {
        let source = sources[key];
        sources.insert(key, source.with_op(dir, source.op(dir).completed(completion.result)))
    } else {
        sources
    }
}

/// The task that the completion of an operation wakes, if there is one.
pub open spec fn completion_wakes(
    sources: Map<usize, SourceView>,
    completion: Completion,
) -> Seq<Waker> {
    let key = key_of(completion.data);
    if sources.contains_key(key) {
        match sources[key].op(dir_of(completion.data)).waker {
            Some(waker) => seq![waker],
            None => Seq::empty(),
        }
    } else {
        Seq::empty()
    }
}

/// The sources after the ring has reported completions of operations.
pub open spec fn all_completed(
    sources: Map<usize, SourceView>,
    completions: Seq<Completion>,
) -> Map<usize, SourceView>
    decreases completions.len(),
{
    if completions.len() == 0 {
        sources
    } else {
        completed(all_completed(sources, completions.drop_last()), completions.last())
    }
}

/// The tasks that completions of operations wake, in their order.
pub open spec fn completions_wake(
    sources: Map<usize, SourceView>,
    completions: Seq<Completion>,
) -> Seq<Waker>
    decreases completions.len(),
{
    if completions.len() == 0 {
        Seq::empty()
    } else {
        completions_wake(sources, completions.drop_last()) + completion_wakes(
            all_completed(sources, completions.drop_last()),
            completions.last(),
        )
    }
}

/// How many completions come before the next one of the wait for the poller.
pub open spec fn until_epoll(completions: Seq<Completion>) -> nat
    decreases completions.len(),
{
    if completions.len() == 0 || completions[0].data == EPOLL_KEY {
        0
    } else {
        1 + until_epoll(completions.drop_first())
    }
}

/// What the ring's part of the reactor holds.
pub struct UringView {
    /// Whether the wait for the poller is in the ring.
    pub querying_epoll: bool,
    /// Tasks waiting for there to be more room in the submission queue.
    pub submission_wait: Seq<Waker>,
}

/// The ring's part of the reactor.
pub struct Uring {
    querying_epoll: bool,
    submission_wait: ConcurrentQueue<Waker>,
}

impl View for Uring {
    type V = UringView;

    closed spec fn view(&self) -> UringView {
        UringView {
            querying_epoll: self.querying_epoll,
            submission_wait: queued_wakers(self.submission_wait),
        }
    }
}

/// How a read or write by way of the ring goes on.
#[derive(Debug, PartialEq, Eq)]
pub enum RingStep<E> {
    /// Try the operation at once.
    Try,
    /// The operation was carried out at once.
    Ready(Result<usize, E>),
    /// The ring has carried out the operation: a count of bytes, or the number of an error.
    Complete(Result<usize, i32>),
    /// Submit the operation with this user data, and wait.
    Submit(u64),
    /// Wait, once the replaced waker has been woken if there is one.
    Pending(Option<Waker>),
}

impl Uring {
    /// The queue of waiting tasks takes any number of them.
    pub closed spec fn wf(&self) -> bool {
        is_unbounded(self.submission_wait)
    }

    /// Nothing has been submitted to the ring.
    pub fn new() -> (uring: Uring)
        ensures
            uring.wf(),
            uring@ == (UringView { querying_epoll: false, submission_wait: Seq::empty() }),
    {
        Uring { querying_epoll: false, submission_wait: unbounded_wakers() }
    }

    /// Registers the poller into the ring if it hasn't been already.
    ///
    /// Returns `true` if the wait for the poller has to be submitted.
    pub fn register_polling(&mut self) -> (submit: bool)
        requires
            old(self).wf(),
        ensures
            final(self).wf(),
            submit == !old(self)@.querying_epoll,
            final(self)@ == (UringView { querying_epoll: true, ..old(self)@ }),
    {
        let querying = self.querying_epoll;
        self.querying_epoll = true;
        !querying
    }

    /// Decides whether an operation can be submitted, given how many entries the submission queue
    /// holds and how many it has room for. Returns the user data if it can.
    ///
    /// If the queue is almost full, the task waits for space to become available. There is always
    /// one space left for the wait for the poller.
    pub fn submit_entry(
        &mut self,
        key: usize,
        dir: Dir,
        len: usize,
        capacity: usize,
        waker: Waker,
    ) -> (data: Option<u64>)
        requires
            old(self).wf(),
            is_encodable(key, dir),
            capacity > 0,
        ensures
            final(self).wf(),
            if len >= capacity - 1 {
                &&& data is None
                &&& final(self)@ == (UringView {
                    submission_wait: old(self)@.submission_wait.push(waker),
                    ..old(self)@
                })
            } else {
                data == Some(data_of(key, dir)) && final(self)@ == old(self)@
            },
    {
        if len >= capacity - 1 {
            push_waker(&mut self.submission_wait, waker);
            return None;
        }
        Some(user_data(key, dir))
    }

    /// Attempts to read from a source on behalf of a task.
    ///
    /// If the ring has completed a read, its bytes are copied into `buf`.
    pub fn poll_read<E>(source: &mut Source, buf: &mut [u8], waker: Waker) -> (step: RingStep<E>)
        requires
            old(source)@.read_op.status matches OperationStatus::Complete(code)
                ==> code <= old(buf)@.len() && code <= old(source)@.read_op.buffer.len(),
        ensures
            poll_steps(old(source)@, final(source)@, Dir::Read, waker, step),
            final(buf)@ == match old(source)@.read_op.status {
                OperationStatus::Complete(code) => if code < 0 {
                    old(buf)@
                } else {
                    old(source)@.read_op.buffer.take(code as int) + old(buf)@.skip(code as int)
                },
                _ => old(buf)@,
            },
    {
        let operation = source.op_mut(Dir::Read);
        match operation.attempt(waker) {
            OperationStep::Start => RingStep::Try,
            OperationStep::Wait(replaced) => RingStep::Pending(replaced),
            OperationStep::Finish(code) => RingStep::Complete(operation.finish_read(buf, code)),
        }
    }

    /// Decides whether a read can be finished into a buffer of the given length, if the ring has
    /// completed one: the bytes must fit.
    pub fn can_finish_read(source: &Source, len: usize) -> (fits: bool)
        ensures
            fits == (source@.read_op.status matches OperationStatus::Complete(code) ==> code <= len
                && code <= source@.read_op.buffer.len()),
    {
        source.read_fits(len)
    }

    /// Attempts to write to a source on behalf of a task.
    pub fn poll_write<E>(source: &mut Source, waker: Waker) -> (step: RingStep<E>)
        ensures
            poll_steps(old(source)@, final(source)@, Dir::Write, waker, step),
    {
        let operation = source.op_mut(Dir::Write);
        match operation.attempt(waker) {
            OperationStep::Start => RingStep::Try,
            OperationStep::Wait(replaced) => RingStep::Pending(replaced),
            OperationStep::Finish(code) => RingStep::Complete(operation.finish_write(code)),
        }
    }

    /// A read of up to `amount` bytes has been tried at once. If it would block, it is submitted
    /// to the ring, for which the user data must tell the source.
    pub fn tried_read<E>(
        &mut self,
        source: &mut Source,
        amount: usize,
        tried: Result<usize, Error<E>>,
        len: usize,
        capacity: usize,
        waker: Waker,
    ) -> (step: RingStep<E>)
        requires
            old(self).wf(),
            would_block(tried) ==> is_encodable(old(source)@.key, Dir::Read) && capacity > 0,
        ensures
            final(self).wf(),
            tried_steps(
                old(self)@,
                final(self)@,
                old(source)@.key,
                Dir::Read,
                tried,
                len,
                capacity,
                waker,
                step,
            ),
            would_block(tried) ==> {
                &&& final(source)@ == old(source)@.with_op(Dir::Read, final(source)@.read_op)
                &&& old(source)@.read_op.buffer.is_prefix_of(final(source)@.read_op.buffer)
                &&& final(source)@.read_op.buffer.len() == if old(source)@.read_op.buffer.len()
                    < amount {
                    amount as nat
                } else {
                    old(source)@.read_op.buffer.len()
                }
                &&& submit_recorded(old(source)@.read_op, final(source)@.read_op, waker, step)
            },
            !would_block(tried) ==> final(source)@ == old(source)@,
    {
        match tried {
            Err(err) => {
                if err.kind == ErrorKind::WouldBlock {
                    let key: usize = source.key();
                    let operation = source.op_mut(Dir::Read);
                    // Resize the buffer to the proper size.
                    operation.prepare_read(amount);
                    self.submit(operation, key, Dir::Read, len, capacity, waker)
                } else {
                    RingStep::Ready(Err(err.error))
                }
            },
            Ok(amount) => RingStep::Ready(Ok(amount)),
        }
    }

    /// A write of `bytes` has been tried at once. If it would block, it is submitted to the ring,
    /// for which the user data must tell the source.
    pub fn tried_write<E>(
        &mut self,
        source: &mut Source,
        bytes: &[u8],
        tried: Result<usize, Error<E>>,
        len: usize,
        capacity: usize,
        waker: Waker,
    ) -> (step: RingStep<E>)
        requires
            old(self).wf(),
            would_block(tried) ==> is_encodable(old(source)@.key, Dir::Write) && capacity > 0,
        ensures
            final(self).wf(),
            tried_steps(
                old(self)@,
                final(self)@,
                old(source)@.key,
                Dir::Write,
                tried,
                len,
                capacity,
                waker,
                step,
            ),
            would_block(tried) ==> {
                &&& final(source)@ == old(source)@.with_op(Dir::Write, final(source)@.write_op)
                &&& final(source)@.write_op.buffer == bytes@
                &&& submit_recorded(old(source)@.write_op, final(source)@.write_op, waker, step)
            },
            !would_block(tried) ==> final(source)@ == old(source)@,
    {
        match tried {
            Err(err) => {
                if err.kind == ErrorKind::WouldBlock {
                    let key: usize = source.key();
                    let operation = source.op_mut(Dir::Write);
                    // Fill the buffer with our bytes.
                    operation.prepare_write(bytes);
                    self.submit(operation, key, Dir::Write, len, capacity, waker)
                } else {
                    RingStep::Ready(Err(err.error))
                }
            },
            Ok(amount) => RingStep::Ready(Ok(amount)),
        }
    }

    /// Submits an operation whose buffer is ready, if there is room for it.
    fn submit<E>(
        &mut self,
        operation: &mut Operation,
        key: usize,
        dir: Dir,
        len: usize,
        capacity: usize,
        waker: Waker,
    ) -> (step: RingStep<E>)
        requires
            old(self).wf(),
            is_encodable(key, dir),
            capacity > 0,
        ensures
            final(self).wf(),
            if len >= capacity - 1 {
                &&& step == RingStep::<E>::Pending(None)
                &&& final(operation)@ == old(operation)@
                &&& final(self)@ == (UringView {
                    submission_wait: old(self)@.submission_wait.push(waker),
                    ..old(self)@
                })
            } else {
                &&& step == RingStep::<E>::Submit(data_of(key, dir))
                &&& final(operation)@ == (OperationView {
                    status: OperationStatus::Pending,
                    waker: Some(waker),
                    ..old(operation)@
                })
                &&& final(self)@ == old(self)@
            },
    {
        match self.submit_entry(key, dir, len, capacity, waker) {
            Some(data) => {
                operation.submitted(true, waker);
                RingStep::Submit(data)
            },
            None => {
                operation.submitted(false, waker);
                RingStep::Pending(None)
            },
        }
    }

    /// Records the completion of an operation, and moves the waker of its task into `wakers` if
    /// there is one.
    fn complete(
        reactor: &mut Reactor,
        completion: Completion,
        wakers: &mut Vec<Waker>,
    )
        requires
            old(reactor).wf(),
        ensures
            final(reactor).wf(),
            final(reactor)@ == (ReactorView {
                sources: completed(old(reactor)@.sources, completion),
                ..old(reactor)@
            }),
            final(wakers)@ == old(wakers)@ + completion_wakes(old(reactor)@.sources, completion),
    {
        // Determine the operation involved in the event as well as the source.
        let (key, dir) = split_data(completion.data);
        match reactor.source_mut(key) {
            Some(source) => {
                // Indicate that the operation is complete, and wake the waker if there is one.
                source.op_mut(dir).complete(completion.result, wakers);
            },
            None => {},
        }
        assert(wakers@ =~= old(wakers)@ + completion_wakes(old(reactor)@.sources, completion));
    }

    /// Moves the tasks that wait for room in the submission queue into `wakers`.
    fn wake_waiting(&mut self, wakers: &mut Vec<Waker>)
        requires
            old(self).wf(),
        ensures
            final(self).wf(),
            final(self)@ == (UringView { submission_wait: Seq::empty(), ..old(self)@ }),
            final(wakers)@ == old(wakers)@ + old(self)@.submission_wait,
    {
        let ghost waiting = self@.submission_wait;
        loop
            invariant_except_break
                self.wf(),
                self.querying_epoll == old(self).querying_epoll,
                wakers@ + self@.submission_wait =~= old(wakers)@ + waiting,
            ensures
                self.wf(),
                self@ == (UringView { submission_wait: Seq::empty(), ..old(self)@ }),
                wakers@ == old(wakers)@ + waiting,
            decreases self@.submission_wait.len(),
        {
            let ghost left = self@.submission_wait;
            let ghost so_far = wakers@;
            match pop_waker(&mut self.submission_wait) {
                Some(waker) => {
                    wakers.push(waker);
                    assert(so_far + left =~= so_far.push(left[0]) + left.drop_first());
                },
                None => {
                    assert(left =~= Seq::<Waker>::empty());
                    assert(wakers@ + left =~= wakers@);
                    break;
                },
            }
        }
    }
}

/// How an attempt at an operation by way of the ring goes on.
pub open spec fn poll_steps<E>(
    before: SourceView,
    after: SourceView,
    dir: Dir,
    waker: Waker,
    step: RingStep<E>,
) -> bool {
    let op = before.op(dir);
    match op.status {
        OperationStatus::NotStarted => step == RingStep::<E>::Try && after == before,
        OperationStatus::Pending => step == RingStep::<E>::Pending(op.replaced_by(waker)) && after
            == before.with_op(dir, OperationView { waker: Some(waker), ..op }),
        OperationStatus::Complete(code) => step == RingStep::<E>::Complete(
            operation::result_of(code),
        ) && after == before.with_op(
            dir,
            OperationView { status: OperationStatus::NotStarted, ..op },
        ),
    }
}

/// Whether an operation that was tried at once would block.
pub open spec fn would_block<E>(tried: Result<usize, Error<E>>) -> bool {
    tried matches Err(err) && err.kind == ErrorKind::WouldBlock
}

/// How an operation that was tried at once goes on.
pub open spec fn tried_steps<E>(
    before: UringView,
    after: UringView,
    key: usize,
    dir: Dir,
    tried: Result<usize, Error<E>>,
    len: usize,
    capacity: usize,
    waker: Waker,
    step: RingStep<E>,
) -> bool {
    if !would_block(tried) {
        &&& after == before
        &&& step == RingStep::Ready(
            match tried {
                Ok(amount) => Ok::<usize, E>(amount),
                Err(err) => Err(err.error),
            },
        )
    } else if len >= capacity - 1 {
        &&& after == (UringView {
            submission_wait: before.submission_wait.push(waker),
            ..before
        })
        &&& step == RingStep::<E>::Pending(None)
    } else {
        after == before && step == RingStep::<E>::Submit(data_of(key, dir))
    }
}

/// Whether an operation remembers that it has been submitted exactly if it has.
pub open spec fn submit_recorded<E>(
    before: OperationView,
    after: OperationView,
    waker: Waker,
    step: RingStep<E>,
) -> bool {
    if step is Submit {
        after.status == OperationStatus::Pending && after.waker == Some(waker)
    } else {
        after.status == before.status && after.waker == before.waker
    }
}

/// What processing the completion queue asks for next.
#[derive(Clone, Copy, Debug, PartialEq, Eq, Structural)]
pub enum QueueStep {
    /// The poller has events: pump them without blocking.
    Pump,
    /// All completions have been processed: look for more.
    Refill,
}

/// What processing the completion queue holds.
pub struct QueueView<E> {
    /// The completions that have not been processed yet.
    pub completions: Seq<Completion>,
    /// Whether completions have been taken up since the tasks that wait for room were last woken.
    pub freed: bool,
    /// The result so far.
    pub result: Result<(), E>,
}

/// The processing of the completion queue.
#[derive(Debug)]
pub struct CompletionQueue<E> {
    completions: Vec<Completion>,
    processed: usize,
    freed: bool,
    result: Result<(), E>,
}

impl<E> View for CompletionQueue<E> {
    type V = QueueView<E>;

    closed spec fn view(&self) -> QueueView<E> {
        QueueView {
            completions: self.completions@.skip(self.processed as int),
            freed: self.freed,
            result: self.result,
        }
    }
}

impl<E> CompletionQueue<E> {
    /// No more completions have been processed than there are.
    pub closed spec fn wf(&self) -> bool {
        self.processed <= self.completions@.len()
    }

    /// Nothing has been processed.
    pub fn new() -> (queue: CompletionQueue<E>)
        ensures
            queue.wf(),
            queue@ == (QueueView {
                completions: Seq::empty(),
                freed: false,
                result: Ok::<(), E>(()),
            }),
    {
        let queue = CompletionQueue {
            completions: Vec::new(),
            processed: 0,
            freed: false,
            result: Ok(()),
        };
        assert(queue@.completions =~= Seq::<Completion>::empty());
        queue
    }

    /// Takes up the completions that the ring has reported.
    pub fn fill(&mut self, completions: Vec<Completion>)
        ensures
            final(self).wf(),
            final(self)@ == (QueueView {
                completions: completions@,
                freed: old(self)@.freed || completions@.len() > 0,
                ..old(self)@
            }),
    {
        self.freed = self.freed || completions.len() > 0;
        self.completions = completions;
        self.processed = 0;
        assert(self@.completions =~= completions@);
    }

    /// Processes completions until the poller's turn comes or all have been processed.
    ///
    /// Once all have been processed there is more room in the submission queue, so the tasks that
    /// wait for it are woken. If there were none to process, nobody is woken.
    pub fn process_queue(
        &mut self,
        uring: &mut Uring,
        reactor: &mut Reactor,
        lock: &mut ReactorLock,
    ) -> (step: QueueStep)
        requires
            old(self).wf(),
            old(uring).wf(),
            old(reactor).wf(),
            old(lock).wf(),
        ensures
            final(self).wf(),
            final(uring).wf(),
            final(reactor).wf(),
            final(lock).wf(),
            ({
                let all = old(self)@.completions;
                let count = until_epoll(all) as int;
                let ours = all.take(count);
                let sources = old(reactor)@.sources;
                let woken = old(lock)@.wakers + completions_wake(sources, ours);
                &&& count <= all.len()
                &&& final(reactor)@ == (ReactorView {
                    sources: all_completed(sources, ours),
                    ..old(reactor)@
                })
                &&& if count < all.len() {
                    &&& step == QueueStep::Pump
                    &&& final(self)@ == (QueueView {
                        completions: all.skip(count + 1),
                        ..old(self)@
                    })
                    &&& final(uring)@ == (UringView { querying_epoll: false, ..old(uring)@ })
                    &&& final(lock)@ == (LockView { wakers: woken, ..old(lock)@ })
                } else {
                    &&& step == QueueStep::Refill
                    &&& final(self)@ == (QueueView {
                        completions: Seq::empty(),
                        freed: false,
                        ..old(self)@
                    })
                    &&& if old(self)@.freed {
                        &&& final(uring)@ == (UringView {
                            submission_wait: Seq::empty(),
                            ..old(uring)@
                        })
                        &&& final(lock)@ == (LockView {
                            wakers: woken + old(uring)@.submission_wait,
                            ..old(lock)@
                        })
                    } else {
                        final(uring)@ == old(uring)@ && final(lock)@ == (LockView {
                            wakers: woken,
                            ..old(lock)@
                        })
                    }
                }
            }),
    {
        let ghost all = self@.completions;
        let ghost sources = reactor@.sources;
        let mut count: usize = 0;
        proof {
            assert(all.take(0) =~= Seq::<Completion>::empty());
            assert(all.skip(0) =~= all);
            assert(lock@.wakers + Seq::<Waker>::empty() =~= lock@.wakers);
        }
        while self.processed < self.completions.len()
            invariant
                self.wf(),
                uring.wf(),
                reactor.wf(),
                lock.wf(),
                all == old(self)@.completions,
                sources == old(reactor)@.sources,
                self.processed - count == old(self).processed,
                self.completions@ == old(self).completions@,
                self.result == old(self).result,
                self.freed == old(self).freed,
                all == self.completions@.skip(old(self).processed as int),
                count <= all.len(),
                self@.completions == all.skip(count as int),
                until_epoll(all) == count + until_epoll(all.skip(count as int)),
                uring@ == old(uring)@,
                reactor@ == (ReactorView {
                    sources: all_completed(sources, all.take(count as int)),
                    ..old(reactor)@
                }),
                lock@ == (LockView {
                    wakers: old(lock)@.wakers + completions_wake(sources, all.take(count as int)),
                    ..old(lock)@
                }),
            decreases self.completions@.len() - self.processed,
        {
            let completion = self.completions[self.processed];
            let ghost left = all.skip(count as int);
            proof {
                assert(left[0] == completion);
                assert(left.drop_first() =~= all.skip(count + 1));
                let longer = all.take(count + 1);
                assert(longer.drop_last() =~= all.take(count as int));
                assert(longer.last() == completion);
            }
            self.processed = self.processed + 1;
            assert(self@.completions =~= all.skip(count + 1));
            // If this is the key used for the poller, process its events.
            if completion.data == EPOLL_KEY {
                // We are no longer querying the poller.
                uring.querying_epoll = false;
                return QueueStep::Pump;
            }
            let ghost so_far = lock@.wakers;
            Uring::complete(reactor, completion, lock.wakers_mut());
            count = count + 1;
            assert(lock@.wakers =~= old(lock)@.wakers + completions_wake(
                sources,
                all.take(count as int),
            ));
        }
        assert(all.skip(count as int) =~= Seq::<Completion>::empty());
        assert(self@.completions =~= Seq::<Completion>::empty());
        if self.freed {
            self.freed = false;
            uring.wake_waiting(lock.wakers_mut());
        }
        QueueStep::Refill
    }

    /// The poller's events have been pumped with the given result. The first error stays.
    pub fn pumped(&mut self, result: Result<(), E>)
        requires
            old(self).wf(),
        ensures
            final(self).wf(),
            final(self)@ == (QueueView {
                result: if old(self)@.result is Ok {
                    result
                } else {
                    old(self)@.result
                },
                ..old(self)@
            }),
    {
        if self.result.is_ok() {
            self.result = result;
        }
    }

    /// Ends the processing and returns the result.
    pub fn into_result(self) -> (result: Result<(), E>)
        ensures
            result == self@.result,
    {
        self.result
    }
}

/// What to do once the ring has been waited for.
#[derive(Debug, PartialEq, Eq)]
pub enum WaitStep<E> {
    /// Read the clock to fire the timers that are ready, and then process the completion queue.
    ReadClock,
    /// Process the completion queue.
    Process,
    /// The round has ended.
    Done(Result<(), E>),
}

/// Judges what waiting for the ring gave. `empty` tells whether there are no completions.
///
/// If there are none, the timer deadline must have been hit, so timers may have to be woken.
pub fn after_wait<E>(
    waited: Result<(), Error<E>>,
    empty: bool,
    timeout: Option<Duration>,
) -> (step: WaitStep<E>)
    ensures
        step == match waited {
            Ok(_) => if empty && timeout != Some(Duration { nanos: 0 }) {
                WaitStep::ReadClock
            } else {
                WaitStep::Process
            },
            Err(err) => WaitStep::Done(
                if err.kind == ErrorKind::Interrupted {
                    Ok(())
                } else {
                    Err(err.error)
                },
            ),
        },
{
    match waited {
        Ok(()) => {
            if !empty {
                return WaitStep::Process;
            }
            match timeout {
                Some(timeout) => {
                    if timeout.nanos == 0 {
                        WaitStep::Process
                    } else {
                        WaitStep::ReadClock
                    }
                },
                None => WaitStep::ReadClock,
            }
        },
        Err(err) => {
            if err.kind == ErrorKind::Interrupted {
                WaitStep::Done(Ok(()))
            } else {
                WaitStep::Done(Err(err.error))
            }
        },
    }
}

/// Converts a duration to the seconds and nanoseconds that the ring takes as a timeout.
pub fn cvt_timeout(timeout: Duration) -> (timespec: (u64, u32))
    requires
        timeout.valid(),
    ensures
        timespec.0 == timeout.nanos / 1_000_000_000,
        timespec.1 == timeout.nanos % 1_000_000_000,
        timespec.0 * 1_000_000_000 + timespec.1 == timeout.nanos,
{
    let secs: u64 = (timeout.nanos / time::NANOS_PER_SEC) as u64;
    let nanos: u32 = (timeout.nanos % time::NANOS_PER_SEC) as u32;
    (secs, nanos)
}

/// A completion reaches the operation it belongs to and no other: the operation gets the result,
/// its task is woken, and everything else stays as it is.
pub proof fn law_completion_reaches_its_operation(
    sources: Map<usize, SourceView>,
    key: usize,
    dir: Dir,
    result: i32,
)
    requires
        sources.contains_key(key),
        is_encodable(key, dir),
    ensures
        ({
            let completion = Completion { data: data_of(key, dir), result };
            let op = sources[key].op(dir);
            &&& completed(sources, completion) == sources.insert(
                key,
                sources[key].with_op(dir, op.completed(result)),
            )
            &&& completion_wakes(sources, completion) == match op.waker {
                Some(waker) => seq![waker],
                None => Seq::empty(),
            }
        }),
{
    law_user_data_leads_back(key, dir);
}

/// There is always room for the wait for the poller: submitting an operation leaves at least one
/// space in the submission queue.
pub proof fn law_room_is_left_for_polling<E>(
    before: UringView,
    after: UringView,
    key: usize,
    dir: Dir,
    tried: Result<usize, Error<E>>,
    len: usize,
    capacity: usize,
    waker: Waker,
    step: RingStep<E>,
)
    requires
        capacity > 0,
        tried_steps(before, after, key, dir, tried, len, capacity, waker, step),
        step is Submit,
    ensures
        len + 1 < capacity,
{
}

/// An operation can be submitted exactly if its user data can tell it: the key leaves out the bit
/// for the operation, and the data does not have all bits set.
pub proof fn law_submittable_keys(key: usize, dir: Dir, fits: bool)
    requires
        call_ensures(can_submit, (key, dir), fits),
    ensures
        fits <==> key as u64 & 0x80 == 0 && !(dir == Dir::Write && key as u64
            == 0xffff_ffff_ffff_ff7f),
{
    let wide = key as u64;
    assert(wide & 0x80u64 == 0 ==> wide != u64::MAX && ((wide | 0x80u64 == u64::MAX) == (wide
        == 0xffff_ffff_ffff_ff7f))) by (bit_vector);
}

/// What is submitted tells two operations apart: if there is room for both, operations that differ
/// in their source or their direction get different user data, and none gets that of the wait for
/// the poller. The key of the source and the direction can be read off.
pub proof fn law_submissions_are_told_apart(
    uring: &mut Uring,
    other: &mut Uring,
    keys: (usize, usize),
    dirs: (Dir, Dir),
    len: usize,
    capacity: usize,
    waker: Waker,
    data: (Option<u64>, Option<u64>),
)
    requires
        old(uring).wf() && old(other).wf(),
        is_encodable(keys.0, dirs.0) && is_encodable(keys.1, dirs.1),
        capacity > 0,
        call_ensures(Uring::submit_entry, (uring, keys.0, dirs.0, len, capacity, waker), data.0),
        call_ensures(Uring::submit_entry, (other, keys.1, dirs.1, len, capacity, waker), data.1),
    ensures
        data.0 is Some <==> len + 1 < capacity,
        data.0 matches Some(submitted) ==> {
            &&& submitted & 0x7f == keys.0 as u64 & 0x7f
            &&& submitted >> 8 == keys.0 as u64 >> 8
            &&& submitted & 0x80 != 0 <==> dirs.0 == Dir::Write
            &&& submitted != u64::MAX
            &&& data.1 == Some(submitted) <==> keys.0 == keys.1 && dirs.0 == dirs.1
        },
{
    let a = keys.0 as u64;
    let b = keys.1 as u64;
    assert(a & 0x80u64 == 0 && b & 0x80u64 == 0 ==> (a | 0x80u64 == b | 0x80u64) == (a == b) && a
        | 0x80u64 != b && a != b | 0x80u64 && (a | 0x80u64) & 0x80u64 != 0 && (a | 0x80u64)
        & 0x7fu64 == a & 0x7fu64 && (a | 0x80u64) >> 8 == a >> 8) by (bit_vector);
}

/// A task that finds no room in the submission queue waits behind those that wait already, and
/// nothing else changes. One space is always left.
pub proof fn law_tasks_wait_for_room(
    uring: &mut Uring,
    key: usize,
    dir: Dir,
    len: usize,
    capacity: usize,
    waker: Waker,
    data: Option<u64>,
)
    requires
        old(uring).wf(),
        is_encodable(key, dir),
        capacity > 0,
        call_ensures(Uring::submit_entry, (uring, key, dir, len, capacity, waker), data),
    ensures
        final(uring)@.querying_epoll == old(uring)@.querying_epoll,
        old(uring)@.submission_wait.is_prefix_of(final(uring)@.submission_wait),
        match data {
            Some(_) => len + 1 < capacity && final(uring)@.submission_wait.len()
                == old(uring)@.submission_wait.len(),
            None => len + 1 >= capacity && final(uring)@.submission_wait.len()
                == old(uring)@.submission_wait.len() + 1 && final(uring)@.submission_wait.last()
                    == waker,
        },
{
}

/// The wait for the poller is submitted once: the first time, and again only after the ring has
/// reported it.
pub proof fn law_poller_is_submitted_once(
    created: Uring,
    first: &mut Uring,
    submit: bool,
    second: &mut Uring,
    again: bool,
)
    requires
        call_ensures(Uring::new, (), created),
        old(first).wf(),
        call_ensures(Uring::register_polling, (first,), submit),
        old(second)@ == final(first)@,
        old(second).wf(),
        call_ensures(Uring::register_polling, (second,), again),
    ensures
        !created@.querying_epoll && created@.submission_wait.len() == 0,
        submit <==> !old(first)@.querying_epoll,
        !again,
        final(second)@.querying_epoll,
        final(second)@.submission_wait == old(first)@.submission_wait,
{
}

/// A read whose operation is not in the ring is tried, one that is in the ring waits, and one that
/// the ring has completed gives the count of bytes that it copies, or the error. The result is given
/// once.
pub proof fn law_ring_read_gives_what_was_read<E>(
    source: &mut Source,
    buf: &mut [u8],
    waker: Waker,
    step: RingStep<E>,
)
    requires
        old(source)@.read_op.status matches OperationStatus::Complete(code)
            ==> code <= old(buf)@.len() && code <= old(source)@.read_op.buffer.len(),
        call_ensures(Uring::poll_read::<E>, (source, buf, waker), step),
    ensures
        final(buf)@.len() == old(buf)@.len(),
        final(source)@.read_op.buffer == old(source)@.read_op.buffer,
        final(source)@.write_op == old(source)@.write_op,
        final(source)@.read == old(source)@.read,
        final(source)@.write == old(source)@.write,
        final(source)@.key == old(source)@.key,
        final(source)@.raw == old(source)@.raw,
        match old(source)@.read_op.status {
            OperationStatus::NotStarted => step is Try && final(buf)@ == old(buf)@
                && final(source)@.read_op == old(source)@.read_op,
            OperationStatus::Pending => {
                &&& step is Pending
                &&& final(buf)@ == old(buf)@
                &&& final(source)@.read_op.status == OperationStatus::Pending
                &&& final(source)@.read_op.waker == Some(waker)
                &&& match step->Pending_0 {
                    Some(task) => old(source)@.read_op.waker == Some(task) && task != waker,
                    None => old(source)@.read_op.waker is None || old(source)@.read_op.waker
                        == Some(waker),
                }
            },
            OperationStatus::Complete(code) => {
                &&& step is Complete
                &&& final(source)@.read_op.status == OperationStatus::NotStarted
                &&& final(source)@.read_op.waker == old(source)@.read_op.waker
                &&& match step->Complete_0 {
                    Ok(count) => {
                        &&& count == code
                        &&& forall|i: int|
                            0 <= i < count ==> #[trigger] final(buf)@[i]
                                == old(source)@.read_op.buffer[i]
                        &&& forall|i: int|
                            count <= i < old(buf)@.len() ==> #[trigger] final(buf)@[i]
                                == old(buf)@[i]
                    },
                    Err(error) => code < 0 && (code != i32::MIN ==> error == 0 - code)
                        && final(buf)@ == old(buf)@,
                }
            },
        },
{
}

/// A write whose operation is not in the ring is tried, one that is in the ring waits, and one that
/// the ring has completed gives the count of bytes that were written, or the error, once.
pub proof fn law_ring_write_gives_what_was_written<E>(
    source: &mut Source,
    waker: Waker,
    step: RingStep<E>,
)
    requires
        call_ensures(Uring::poll_write::<E>, (source, waker), step),
    ensures
        final(source)@.write_op.buffer == old(source)@.write_op.buffer,
        final(source)@.read_op == old(source)@.read_op,
        final(source)@.read == old(source)@.read,
        final(source)@.write == old(source)@.write,
        final(source)@.key == old(source)@.key,
        final(source)@.raw == old(source)@.raw,
        match old(source)@.write_op.status {
            OperationStatus::NotStarted => step is Try && final(source)@.write_op
                == old(source)@.write_op,
            OperationStatus::Pending => {
                &&& step is Pending
                &&& final(source)@.write_op.status == OperationStatus::Pending
                &&& final(source)@.write_op.waker == Some(waker)
                &&& match step->Pending_0 {
                    Some(task) => old(source)@.write_op.waker == Some(task) && task != waker,
                    None => old(source)@.write_op.waker is None || old(source)@.write_op.waker
                        == Some(waker),
                }
            },
            OperationStatus::Complete(code) => {
                &&& step is Complete
                &&& final(source)@.write_op.status == OperationStatus::NotStarted
                &&& final(source)@.write_op.waker == old(source)@.write_op.waker
                &&& match step->Complete_0 {
                    Ok(count) => count == code,
                    Err(error) => code < 0 && (code != i32::MIN ==> error == 0 - code),
                }
            },
        },
{
}

/// A read that was tried and did not block ends with what the attempt gave, for any source, and
/// leaves no trace. One that would block is submitted if there is room and then waits for the ring
/// with a buffer that is long enough, or else waits for room.
pub proof fn law_tried_read_goes_on<E>(
    uring: &mut Uring,
    source: &mut Source,
    amount: usize,
    tried: Result<usize, Error<E>>,
    len: usize,
    capacity: usize,
    waker: Waker,
    step: RingStep<E>,
)
    requires
        old(uring).wf(),
        (tried matches Err(err) && err.kind == ErrorKind::WouldBlock) ==> is_encodable(
            old(source)@.key,
            Dir::Read,
        ) && capacity > 0,
        call_ensures(
            Uring::tried_read::<E>,
            (uring, source, amount, tried, len, capacity, waker),
            step,
        ),
    ensures
        final(uring)@.querying_epoll == old(uring)@.querying_epoll,
        final(source)@.write_op == old(source)@.write_op,
        final(source)@.read == old(source)@.read,
        final(source)@.write == old(source)@.write,
        final(source)@.key == old(source)@.key,
        final(source)@.raw == old(source)@.raw,
        match tried {
            Ok(count) => step == RingStep::Ready(Ok::<usize, E>(count)) && final(source)@
                == old(source)@ && final(uring)@ == old(uring)@,
            Err(err) => if err.kind != ErrorKind::WouldBlock {
                step == RingStep::Ready(Err::<usize, E>(err.error)) && final(source)@
                    == old(source)@ && final(uring)@ == old(uring)@
            } else {
                &&& final(source)@.read_op.buffer.len() >= amount
                &&& old(source)@.read_op.buffer.is_prefix_of(final(source)@.read_op.buffer)
                &&& if len + 1 < capacity {
                    &&& step matches RingStep::Submit(data) && data == old(source)@.key
                    &&& final(uring)@.submission_wait == old(uring)@.submission_wait
                    &&& final(source)@.read_op.status == OperationStatus::Pending
                    &&& final(source)@.read_op.waker == Some(waker)
                } else {
                    &&& step matches RingStep::Pending(replaced) && replaced is None
                    &&& final(uring)@.submission_wait == old(uring)@.submission_wait.push(waker)
                    &&& final(source)@.read_op.status == old(source)@.read_op.status
                    &&& final(source)@.read_op.waker == old(source)@.read_op.waker
                }
            },
        },
{
}

/// A write that was tried and did not block ends with what the attempt gave, for any source, and
/// leaves no trace. One that would block is submitted if there is room and then waits for the ring
/// with its bytes in the buffer, or else waits for room.
pub proof fn law_tried_write_goes_on<E>(
    uring: &mut Uring,
    source: &mut Source,
    bytes: &[u8],
    tried: Result<usize, Error<E>>,
    len: usize,
    capacity: usize,
    waker: Waker,
    step: RingStep<E>,
)
    requires
        old(uring).wf(),
        (tried matches Err(err) && err.kind == ErrorKind::WouldBlock) ==> is_encodable(
            old(source)@.key,
            Dir::Write,
        ) && capacity > 0,
        call_ensures(
            Uring::tried_write::<E>,
            (uring, source, bytes, tried, len, capacity, waker),
            step,
        ),
    ensures
        final(uring)@.querying_epoll == old(uring)@.querying_epoll,
        final(source)@.read_op == old(source)@.read_op,
        final(source)@.read == old(source)@.read,
        final(source)@.write == old(source)@.write,
        final(source)@.key == old(source)@.key,
        final(source)@.raw == old(source)@.raw,
        match tried {
            Ok(count) => step == RingStep::Ready(Ok::<usize, E>(count)) && final(source)@
                == old(source)@ && final(uring)@ == old(uring)@,
            Err(err) => if err.kind != ErrorKind::WouldBlock {
                step == RingStep::Ready(Err::<usize, E>(err.error)) && final(source)@
                    == old(source)@ && final(uring)@ == old(uring)@
            } else {
                &&& final(source)@.write_op.buffer == bytes@
                &&& if len + 1 < capacity {
                    &&& step matches RingStep::Submit(data) && data & 0x80 != 0 && data & !0x80
                        == old(source)@.key
                    &&& final(uring)@.submission_wait == old(uring)@.submission_wait
                    &&& final(source)@.write_op.status == OperationStatus::Pending
                    &&& final(source)@.write_op.waker == Some(waker)
                } else {
                    &&& step matches RingStep::Pending(replaced) && replaced is None
                    &&& final(uring)@.submission_wait == old(uring)@.submission_wait.push(waker)
                    &&& final(source)@.write_op.status == old(source)@.write_op.status
                    &&& final(source)@.write_op.waker == old(source)@.write_op.waker
                }
            },
        },
{
    let wide = old(source)@.key as u64;
    assert(wide & 0x80u64 == 0 ==> (wide | 0x80u64) & 0x80u64 != 0 && (wide | 0x80u64) & !0x80u64
        == wide) by (bit_vector);
}

/// A completed read must fit its buffers, and anything else fits.
pub proof fn law_only_completed_reads_must_fit(source: Source, len: usize, fits: bool)
    requires
        call_ensures(Uring::can_finish_read, (&source, len), fits),
    ensures
        match source@.read_op.status {
            OperationStatus::Complete(code) => fits <==> code <= len && code
                <= source@.read_op.buffer.len(),
            _ => fits,
        },
{
}

/// Completions are processed up to that of the wait for the poller, which is then pumped, or to the
/// end. Those after it stay for later, in order.
pub proof fn law_completions_are_processed_in_order<E>(
    queue: &mut CompletionQueue<E>,
    uring: &mut Uring,
    reactor: &mut Reactor,
    lock: &mut ReactorLock,
    step: QueueStep,
)
    requires
        old(queue).wf() && old(uring).wf() && old(reactor).wf() && old(lock).wf(),
        call_ensures(CompletionQueue::<E>::process_queue, (queue, uring, reactor, lock), step),
    ensures
        ({
            let all = old(queue)@.completions;
            let left = final(queue)@.completions;
            let done = all.len() - left.len();
            &&& 0 <= done
            &&& left == all.skip(done)
            &&& match step {
                QueueStep::Pump => done > 0 && all[done - 1].data == u64::MAX && (forall|i: int|
                    0 <= i < done - 1 ==> (#[trigger] all[i]).data != u64::MAX),
                QueueStep::Refill => left.len() == 0 && (forall|i: int|
                    0 <= i < all.len() ==> (#[trigger] all[i]).data != u64::MAX),
            }
        }),
        final(queue)@.result == old(queue)@.result,
        step is Pump ==> !final(uring)@.querying_epoll && final(uring)@.submission_wait
            == old(uring)@.submission_wait && final(queue)@.freed == old(queue)@.freed,
        step is Refill ==> final(uring)@.querying_epoll == old(uring)@.querying_epoll
            && !final(queue)@.freed,
        step is Refill && old(queue)@.freed ==> final(uring)@.submission_wait.len() == 0 && (
        forall|i: int|
            0 <= i < old(uring)@.submission_wait.len() ==> final(lock)@.wakers.contains(
                #[trigger] old(uring)@.submission_wait[i],
            )),
        step is Refill && !old(queue)@.freed ==> final(uring)@.submission_wait
            == old(uring)@.submission_wait,
        old(lock)@.wakers.is_prefix_of(final(lock)@.wakers),
        final(lock)@.tick == old(lock)@.tick && final(lock)@.timeout == old(lock)@.timeout
            && final(lock)@.events == old(lock)@.events,
        final(reactor)@.timers == old(reactor)@.timers,
        final(reactor)@.next_key == old(reactor)@.next_key,
{
    let all = old(queue)@.completions;
    let count = until_epoll(all) as int;
    lemma_until_epoll(all);
    if count < all.len() {
        assert(all.skip(count + 1).len() == all.len() - count - 1);
    } else {
        assert(all.skip(all.len() as int) =~= Seq::<Completion>::empty());
        if old(queue)@.freed {
            let waiting = old(uring)@.submission_wait;
            let woken = final(lock)@.wakers;
            let first = woken.len() - waiting.len();
            assert forall|i: int| 0 <= i < waiting.len() implies woken.contains(
                #[trigger] waiting[i],
            ) by {
                assert(woken[first + i] == waiting[i]);
            }
        }
    }
}

/// How many completions come before the next one of the wait for the poller.
proof fn lemma_until_epoll(completions: Seq<Completion>)
    ensures
        until_epoll(completions) <= completions.len(),
        forall|i: int|
            0 <= i < until_epoll(completions) ==> (#[trigger] completions[i]).data != EPOLL_KEY,
        until_epoll(completions) < completions.len() ==> completions[until_epoll(
            completions,
        ) as int].data == EPOLL_KEY,
    decreases completions.len(),
{
    if completions.len() > 0 && completions[0].data != EPOLL_KEY {
        let rest = completions.drop_first();
        lemma_until_epoll(rest);
        assert forall|i: int| 0 <= i < until_epoll(completions) implies (
        #[trigger] completions[i]).data != EPOLL_KEY by {
            if i > 0 {
                assert(rest[i - 1] == completions[i]);
            }
        }
    }
}

/// The ring's results reach their operations: of the completions that are processed, the last one
/// for an operation leaves its result there and nobody waiting, and whoever waited for the operation
/// is woken. An operation without a completion is as it was, and so is everything else.
pub proof fn law_results_reach_their_operations<E>(
    queue: &mut CompletionQueue<E>,
    uring: &mut Uring,
    reactor: &mut Reactor,
    lock: &mut ReactorLock,
    step: QueueStep,
    key: usize,
    dir: Dir,
)
    requires
        old(queue).wf() && old(uring).wf() && old(reactor).wf() && old(lock).wf(),
        call_ensures(CompletionQueue::<E>::process_queue, (queue, uring, reactor, lock), step),
        is_encodable(key, dir),
        old(reactor)@.sources.contains_key(key),
    ensures
        final(reactor)@.sources.dom() == old(reactor)@.sources.dom(),
        ({
            let all = old(queue)@.completions;
            let done = all.len() - final(queue)@.completions.len();
            let before = old(reactor)@.sources[key];
            let after = final(reactor)@.sources[key];
            &&& after.read == before.read && after.write == before.write && after.key == before.key
                && after.raw == before.raw
            &&& after.op(dir).buffer == before.op(dir).buffer
            &&& forall|i: int| #[trigger]
                is_last_for(all, i, done, key, dir) ==> {
                    &&& after.op(dir).status == OperationStatus::Complete(all[i].result)
                    &&& after.op(dir).waker is None
                    &&& before.op(dir).waker matches Some(waker)
                        ==> final(lock)@.wakers.contains(waker)
                }
            &&& (forall|i: int|
                0 <= i < done ==> !(#[trigger] all[i]).is_for(key, dir)) ==> after.op(dir)
                == before.op(dir)
        }),
{
    let all = old(queue)@.completions;
    let count = until_epoll(all) as int;
    let ours = all.take(count);
    let sources = old(reactor)@.sources;
    lemma_until_epoll(all);
    lemma_all_completed(sources, ours, key, dir);
    let done = all.len() - final(queue)@.completions.len();
    let after = final(reactor)@.sources[key];
    assert forall|i: int| #[trigger] is_last_for(all, i, done, key, dir) implies after.op(dir).status
        == OperationStatus::Complete(all[i].result) && after.op(dir).waker is None && (
    sources[key].op(dir).waker matches Some(waker) ==> final(lock)@.wakers.contains(waker)) by {
        assert(i < count);
        assert(ours[i] == all[i]);
        assert forall|j: int| i < j < ours.len() implies !(#[trigger] ours[j]).is_for(key, dir) by {
            assert(ours[j] == all[j]);
        }
        assert(is_last_for(ours, i, ours.len() as int, key, dir));
        if let Some(waker) = sources[key].op(dir).waker {
            let woken = completions_wake(sources, ours);
            let j = choose|j: int| 0 <= j < woken.len() && woken[j] == waker;
            assert(final(lock)@.wakers[old(lock)@.wakers.len() + j] == waker);
        }
    }
    if forall|i: int| 0 <= i < done ==> !(#[trigger] all[i]).is_for(key, dir) {
        assert forall|i: int| 0 <= i < ours.len() implies !(#[trigger] ours[i]).is_for(
            key,
            dir,
        ) by {
            assert(ours[i] == all[i]);
        }
    }
}

impl Completion {
    /// Whether the completion is that of an operation of a source.
    pub open spec fn is_for(self, key: usize, dir: Dir) -> bool {
        &&& self.data != u64::MAX
        &&& (self.data & !0x80) as usize == key
        &&& self.data & 0x80 != 0 <==> dir == Dir::Write
    }
}

/// Whether a completion is the last one of an operation among the first ones of a list.
pub open spec fn is_last_for(
    completions: Seq<Completion>,
    i: int,
    len: int,
    key: usize,
    dir: Dir,
) -> bool {
    &&& 0 <= i < len <= completions.len()
    &&& completions[i].is_for(key, dir)
    &&& forall|j: int| i < j < len ==> !(#[trigger] completions[j]).is_for(key, dir)
}

/// What completions leave of an operation, and that its task is woken.
proof fn lemma_all_completed(
    sources: Map<usize, SourceView>,
    completions: Seq<Completion>,
    key: usize,
    dir: Dir,
)
    requires
        is_encodable(key, dir),
        sources.contains_key(key),
        forall|i: int| 0 <= i < completions.len() ==> (#[trigger] completions[i]).data != EPOLL_KEY,
    ensures
        all_completed(sources, completions).dom() == sources.dom(),
        ({
            let before = sources[key];
            let after = all_completed(sources, completions)[key];
            &&& after.read == before.read && after.write == before.write && after.key == before.key
                && after.raw == before.raw
            &&& after.op(dir).buffer == before.op(dir).buffer
            &&& forall|i: int| #[trigger]
                is_last_for(completions, i, completions.len() as int, key, dir) ==> {
                    &&& after.op(dir).status == OperationStatus::Complete(completions[i].result)
                    &&& after.op(dir).waker is None
                    &&& before.op(dir).waker matches Some(waker) ==> completions_wake(
                        sources,
                        completions,
                    ).contains(waker)
                }
            &&& (forall|i: int|
                0 <= i < completions.len() ==> !(#[trigger] completions[i]).is_for(key, dir))
                ==> after.op(dir) == before.op(dir)
            &&& after.op(dir).waker == before.op(dir).waker || (before.op(
                dir,
            ).waker matches Some(waker) && completions_wake(sources, completions).contains(waker))
        }),
    decreases completions.len(),
{
    if completions.len() > 0 {
        let fewer = completions.drop_last();
        let last = completions.last();
        assert forall|i: int| 0 <= i < fewer.len() implies (#[trigger] fewer[i]).data
            != EPOLL_KEY by {
            assert(completions[i] == fewer[i]);
        }
        lemma_all_completed(sources, fewer, key, dir);
        let between = all_completed(sources, fewer);
        let before = sources[key].op(dir);
        let woken = completions_wake(sources, fewer);
        let more = completion_wakes(between, last);
        assert(completions_wake(sources, completions) == woken + more);
        assert(all_completed(sources, completions).dom() =~= sources.dom());
        assert(completions[completions.len() - 1] == last);
        let mine = key_of(last.data) == key && dir_of(last.data) == dir;
        assert(mine == last.is_for(key, dir));
        if let Some(waker) = before.waker {
            if woken.contains(waker) {
                let j = choose|j: int| 0 <= j < woken.len() && woken[j] == waker;
                assert((woken + more)[j] == waker);
            } else if mine {
                assert(more[0] == waker);
                assert((woken + more)[woken.len() as int] == waker);
            }
        }
        assert forall|i: int| #[trigger]
            is_last_for(completions, i, completions.len() as int, key, dir) implies i
            == completions.len() - 1 || (!mine && is_last_for(
            fewer,
            i,
            fewer.len() as int,
            key,
            dir,
        )) by {
            if i < completions.len() - 1 {
                assert(!completions[completions.len() - 1].is_for(key, dir));
                assert(fewer[i] == completions[i]);
                assert forall|j: int| i < j < fewer.len() implies !(#[trigger] fewer[j]).is_for(
                    key,
                    dir,
                ) by {
                    assert(fewer[j] == completions[j]);
                }
            }
        }
        if forall|i: int|
            0 <= i < completions.len() ==> !(#[trigger] completions[i]).is_for(key, dir) {
            assert forall|i: int| 0 <= i < fewer.len() implies !(#[trigger] fewer[i]).is_for(
                key,
                dir,
            ) by {
                assert(completions[i] == fewer[i]);
            }
        }
    }
}

/// A new queue holds nothing and has not failed. What the ring reports is taken up whole and in
/// order, and only a report that holds something lets tasks be woken.
pub proof fn law_reports_are_taken_up<E>(
    created: CompletionQueue<E>,
    queue: &mut CompletionQueue<E>,
    completions: Vec<Completion>,
)
    requires
        call_ensures(CompletionQueue::<E>::new, (), created),
        call_ensures(CompletionQueue::<E>::fill, (queue, completions), ()),
    ensures
        created@.completions.len() == 0 && !created@.freed && created@.result is Ok,
        final(queue)@.completions == completions@,
        final(queue)@.result == old(queue)@.result,
        completions@.len() > 0 ==> final(queue)@.freed,
        completions@.len() == 0 ==> final(queue)@.freed == old(queue)@.freed,
{
}

/// The first error that pumping gives is the result, whatever comes after it. Without an error the
/// result is a success.
pub proof fn law_first_error_is_the_result<E>(
    created: CompletionQueue<E>,
    first: &mut CompletionQueue<E>,
    second: &mut CompletionQueue<E>,
    results: (Result<(), E>, Result<(), E>),
    ended: CompletionQueue<E>,
    result: Result<(), E>,
)
    requires
        call_ensures(CompletionQueue::<E>::new, (), created),
        old(first).wf() && old(first)@ == created@,
        call_ensures(CompletionQueue::<E>::pumped, (first, results.0), ()),
        old(second).wf() && old(second)@ == final(first)@,
        call_ensures(CompletionQueue::<E>::pumped, (second, results.1), ()),
        ended@ == final(second)@,
        call_ensures(CompletionQueue::<E>::into_result, (ended,), result),
    ensures
        result is Ok <==> results.0 is Ok && results.1 is Ok,
        results.0 is Err ==> result == results.0,
        results.0 is Ok ==> result == results.1,
        final(second)@.completions == created@.completions,
        final(second)@.freed == created@.freed,
{
}

/// Once the ring has been waited for, an interrupted wait ends the round well and any other error
/// ends it with that error. A wait that blocked and gave no completions has hit the deadline of a
/// timer.
pub proof fn law_waits_for_the_ring_are_judged<E>(
    waited: Result<(), Error<E>>,
    empty: bool,
    timeout: Option<Duration>,
    step: WaitStep<E>,
)
    requires
        call_ensures(after_wait::<E>, (waited, empty, timeout), step),
    ensures
        step is ReadClock <==> waited is Ok && empty && (timeout matches Some(time)
            ==> time.nanos != 0),
        step is Done <==> waited is Err,
        waited matches Err(err) ==> {
            &&& err.kind == ErrorKind::Interrupted ==> step->Done_0 is Ok
            &&& err.kind != ErrorKind::Interrupted ==> step->Done_0 == Err::<(), E>(err.error)
        },
{
}

/// A timeout for the ring is as long as the duration, and its nanoseconds are less than a second.
pub proof fn law_ring_waits_as_long_as_asked(timeout: Duration, timespec: (u64, u32))
    requires
        timeout.valid(),
        call_ensures(cvt_timeout, (timeout,), timespec),
    ensures
        timespec.0 * 1_000_000_000 + timespec.1 == timeout.nanos,
        timespec.1 < 1_000_000_000,
{
}

/// Whether a reactor has taken up one completion: the operation that it is for has ended with the
/// result, nobody waits for it any more, and whoever did is to be woken after those in `before`.
/// Everything else is as it was, and so is all if the source of the operation is gone.
pub open spec fn takes_up(
    before: Seq<Waker>,
    after: Seq<Waker>,
    reactor: ReactorView,
    later: ReactorView,
    completion: Completion,
) -> bool {
    let key = (completion.data & !0x80) as usize;
    let dir = if completion.data & 0x80 != 0 {
        Dir::Write
    } else {
        Dir::Read
    };
    &&& later.timers == reactor.timers && later.next_key == reactor.next_key
    &&& later.sources.dom() == reactor.sources.dom()
    &&& forall|other: usize|
        other != key && reactor.sources.contains_key(other) ==> #[trigger] later.sources[other]
            == reactor.sources[other]
    &&& if reactor.sources.contains_key(key) {
        let source = reactor.sources[key];
        let op = source.op(dir);
        &&& later.sources[key] == source.with_op(
            dir,
            OperationView {
                status: OperationStatus::Complete(completion.result),
                waker: None,
                buffer: op.buffer,
            },
        )
        &&& after == match op.waker {
            Some(waker) => before.push(waker),
            None => before,
        }
    } else {
        after == before
    }
}

/// Completions are processed one by one: processing a queue takes up its first completion and then
/// goes on with the others, unless the first is that of the wait for the poller.
pub proof fn law_completions_are_processed_one_by_one<E>(
    queue: &mut CompletionQueue<E>,
    uring: &mut Uring,
    reactor: &mut Reactor,
    lock: &mut ReactorLock,
    step: QueueStep,
    rest: &mut CompletionQueue<E>,
    uring2: &mut Uring,
    reactor2: &mut Reactor,
    lock2: &mut ReactorLock,
    next: QueueStep,
)
    requires
        old(queue).wf() && old(uring).wf() && old(reactor).wf() && old(lock).wf(),
        old(rest).wf() && old(uring2).wf() && old(reactor2).wf() && old(lock2).wf(),
        call_ensures(CompletionQueue::<E>::process_queue, (queue, uring, reactor, lock), step),
        old(queue)@.completions.len() > 0,
        old(queue)@.completions[0].data != u64::MAX,
        old(rest)@.completions == old(queue)@.completions.skip(1),
        old(rest)@.freed == old(queue)@.freed && old(rest)@.result == old(queue)@.result,
        old(uring2)@ == old(uring)@,
        old(lock2)@.events == old(lock)@.events && old(lock2)@.tick == old(lock)@.tick
            && old(lock2)@.timeout == old(lock)@.timeout,
        takes_up(
            old(lock)@.wakers,
            old(lock2)@.wakers,
            old(reactor)@,
            old(reactor2)@,
            old(queue)@.completions[0],
        ),
        call_ensures(CompletionQueue::<E>::process_queue, (rest, uring2, reactor2, lock2), next),
    ensures
        step == next,
        final(queue)@ == final(rest)@,
        final(uring)@ == final(uring2)@,
        final(reactor)@ == final(reactor2)@,
        final(lock)@ == final(lock2)@,
{
    let all = old(queue)@.completions;
    let others = all.skip(1);
    let sources = old(reactor)@.sources;
    let first = all[0];
    let after = completed(sources, first);
    assert(old(reactor2)@.sources =~= after) by {
        assert(old(reactor2)@.sources.dom() =~= after.dom());
    }
    assert(all.drop_first() =~= others);
    let count = until_epoll(all) as int;
    let fewer = until_epoll(others) as int;
    assert(count == 1 + fewer);
    let ours = all.take(count);
    let theirs = others.take(fewer);
    lemma_until_epoll(others);
    assert(ours.drop_first() =~= theirs);
    assert(ours[0] == first);
    lemma_completed_first(sources, ours);
    let woken = completion_wakes(sources, first);
    assert(old(lock2)@.wakers =~= old(lock)@.wakers + woken);
    assert(old(lock)@.wakers + (woken + completions_wake(after, theirs)) =~= (old(lock)@.wakers
        + woken) + completions_wake(after, theirs));
    if count < all.len() {
        assert(all.skip(count + 1) =~= others.skip(fewer + 1));
    }
}

/// Completions can be taken up from the first one on.
proof fn lemma_completed_first(sources: Map<usize, SourceView>, completions: Seq<Completion>)
    requires
        completions.len() > 0,
    ensures
        ({
            let first = completions[0];
            let rest = completions.drop_first();
            &&& all_completed(sources, completions)
                == all_completed(completed(sources, first), rest)
            &&& completions_wake(sources, completions) == completion_wakes(sources, first)
                + completions_wake(completed(sources, first), rest)
        }),
    decreases completions.len(),
{
    let first = completions[0];
    let rest = completions.drop_first();
    let after = completed(sources, first);
    reveal_with_fuel(all_completed, 2);
    reveal_with_fuel(completions_wake, 2);
    if completions.len() == 1 {
        assert(completions.drop_last() =~= Seq::<Completion>::empty());
        assert(rest =~= Seq::<Completion>::empty());
        assert(completions.last() == first);
        let woken = completion_wakes(sources, first);
        assert(Seq::<Waker>::empty() + woken =~= woken + Seq::<Waker>::empty());
    } else {
        let fewer = completions.drop_last();
        lemma_completed_first(sources, fewer);
        assert(fewer.drop_first() =~= rest.drop_last());
        assert(fewer[0] == first);
        assert(rest.last() == completions.last());
        let woken = completion_wakes(sources, first);
        let between = completions_wake(after, rest.drop_last());
        let last = completion_wakes(all_completed(after, rest.drop_last()), rest.last());
        assert((woken + between) + last =~= woken + (between + last));
    }
}

/// Pumping leaves the completions that have not been processed, and only sets a result that was a
/// success.
pub proof fn law_pumping_leaves_the_completions<E>(
    queue: &mut CompletionQueue<E>,
    pumped: Result<(), E>,
    ended: CompletionQueue<E>,
    result: Result<(), E>,
)
    requires
        old(queue).wf(),
        call_ensures(CompletionQueue::<E>::pumped, (queue, pumped), ()),
        call_ensures(CompletionQueue::<E>::into_result, (ended,), result),
    ensures
        final(queue)@.completions == old(queue)@.completions,
        final(queue)@.freed == old(queue)@.freed,
        old(queue)@.result is Err ==> final(queue)@.result == old(queue)@.result,
        old(queue)@.result is Ok ==> final(queue)@.result == pumped,
        result == ended@.result,
{
}

/// Processing pauses at the completion of the wait for the poller, which can then be submitted again.
/// It ends when no completions are left, and the tasks that wait for room are then woken once each, in
/// their order, if completions have been taken up since they were last woken. Nothing else happens.
pub proof fn law_processing_pauses_and_ends<E>(
    queue: &mut CompletionQueue<E>,
    uring: &mut Uring,
    reactor: &mut Reactor,
    lock: &mut ReactorLock,
    step: QueueStep,
)
    requires
        old(queue).wf() && old(uring).wf() && old(reactor).wf() && old(lock).wf(),
        call_ensures(CompletionQueue::<E>::process_queue, (queue, uring, reactor, lock), step),
        old(queue)@.completions.len() > 0 ==> old(queue)@.completions[0].data == u64::MAX,
    ensures
        final(reactor)@ == old(reactor)@,
        final(queue)@.result == old(queue)@.result,
        final(lock)@.events == old(lock)@.events,
        final(lock)@.tick == old(lock)@.tick,
        final(lock)@.timeout == old(lock)@.timeout,
        if old(queue)@.completions.len() > 0 {
            &&& step is Pump
            &&& final(queue)@.completions == old(queue)@.completions.skip(1)
            &&& final(queue)@.freed == old(queue)@.freed
            &&& !final(uring)@.querying_epoll
            &&& final(uring)@.submission_wait == old(uring)@.submission_wait
            &&& final(lock)@.wakers == old(lock)@.wakers
        } else {
            &&& step is Refill
            &&& final(queue)@.completions.len() == 0 && !final(queue)@.freed
            &&& final(uring)@.querying_epoll == old(uring)@.querying_epoll
            &&& old(queue)@.freed ==> final(uring)@.submission_wait.len() == 0 && final(lock)@.wakers
                == old(lock)@.wakers + old(uring)@.submission_wait
            &&& !old(queue)@.freed ==> final(uring)@.submission_wait == old(uring)@.submission_wait
                && final(lock)@.wakers == old(lock)@.wakers
        },
{
    let none = old(queue)@.completions.take(0);
    assert(none =~= Seq::<Completion>::empty());
    assert(old(lock)@.wakers + Seq::<Waker>::empty() =~= old(lock)@.wakers);
}

} // verus!
