//! Threads that block on a future, processing I/O events when idle.
use crate::driver::{Admission, Handover, MainThreadState, StateView};
use crate::time::{self, Instant};
use vstd::prelude::*;

verus! {

/// How long a thread may poll for others, in nanoseconds, before it tries to hand off the reactor.
pub const HOGGING_NANOS: u128 = 500_000;

/// How many rounds a thread polls at least before it tries to hand off the reactor.
pub const HOGGING_ROUNDS: u32 = 2;

/// What other threads see of a thread that blocks on a future.
#[derive(Clone, Copy, Debug, PartialEq, Eq, Structural)]
pub struct BlockOn {
    /// The thread polls the reactor.
    pub is_polling: bool,
    /// The task has been woken.
    pub is_task: bool,
    /// The thread has been nominated to lead.
    pub is_nominated: bool,
}

/// What a wakeup has to notify.
#[derive(Clone, Copy, Debug, PartialEq, Eq, Structural)]
pub struct TaskWake {
    /// The reactor, which the thread may be blocked on.
    pub reactor: bool,
    /// The thread itself, which may be asleep.
    pub thread: bool,
}

/// What a thread that goes to sleep finds.
#[derive(Clone, Copy, Debug, PartialEq, Eq, Structural)]
pub enum Slept {
    /// The task has been woken.
    FullWake,
    /// The thread has been nominated.
    Nominated,
    /// Neither: the thread has to wait until it is notified, and look again.
    Wait,
}

impl BlockOn {
    /// What waking the task has to notify. A task that has been woken already needs nothing.
    pub open spec fn wake_of(self, io_polling: bool) -> TaskWake {
        TaskWake {
            reactor: !self.is_task && !io_polling && self.is_polling,
            thread: !self.is_task,
        }
    }

    /// A thread that has not been woken or nominated.
    pub fn new() -> (block_on: BlockOn)
        ensures
            block_on == (BlockOn { is_polling: false, is_task: false, is_nominated: false }),
    {
        BlockOn { is_polling: false, is_task: false, is_nominated: false }
    }

    /// Wakes the task.
    ///
    /// `io_polling` tells whether the thread that wakes is itself polling I/O. A wakeup that comes
    /// from another thread may also need to wake via the reactor.
    pub fn task_wake(&mut self, io_polling: bool) -> (wake: TaskWake)
        ensures
            *final(self) == (BlockOn { is_task: true, ..*old(self) }),
            wake == old(self).wake_of(io_polling),
    {
        if self.is_task {
            // Already woken, no-op.
            return TaskWake { reactor: false, thread: false };
        }
        self.is_task = true;
        TaskWake { reactor: !io_polling && self.is_polling, thread: true }
    }

    /// Tells the thread that it has been nominated. The thread has to be notified.
    pub fn nomination_wake(&mut self)
        ensures
            *final(self) == (BlockOn { is_nominated: true, ..*old(self) }),
    {
        self.is_nominated = true;
    }

    /// Takes the wakeup of the task, if there is one.
    pub fn take_wake(&mut self) -> (woken: bool)
        ensures
            woken == old(self).is_task,
            *final(self) == (BlockOn { is_task: false, ..*old(self) }),
    {
        let woken = self.is_task;
        self.is_task = false;
        woken
    }

    /// Records whether the thread is about to poll the reactor.
    ///
    /// Returns `false` if the task was woken before, which would not interrupt the polling.
    pub fn try_start_polling(&mut self, is_polling: bool) -> (go: bool)
        requires
            !old(self).is_polling,
        ensures
            go == !old(self).is_task,
            *final(self) == (BlockOn { is_polling, is_task: false, ..*old(self) }),
    {
        let cancel = self.is_task;
        self.is_polling = is_polling;
        self.is_task = false;
        !cancel
    }

    /// Tries to hand off the reactor to one of the waiting threads.
    ///
    /// Returns whether that has succeeded, and the thread to nominate.
    pub fn try_handoff(&mut self, main: &mut MainThreadState, parker: usize) -> (handed: (
        bool,
        Option<usize>,
    ))
        requires
            old(self).is_polling,
            old(main).wf(),
            old(main)@.state.can_hand_off(),
        ensures
            final(main).wf(),
            (final(main)@.state, handed.0, handed.1) == old(main)@.state.try_handoff(parker),
            final(main)@.thread_enabled == old(main)@.thread_enabled,
            *final(self) == (BlockOn { is_polling: !handed.0, ..*old(self) }),
    {
        let handed = main.try_handoff(parker);
        if handed.0 {
            self.is_polling = false;
        }
        handed
    }

    /// Looks for a reason not to sleep.
    pub fn sleep(&mut self) -> (slept: Slept)
        requires
            !old(self).is_polling,
        ensures
            slept == if old(self).is_task {
                Slept::FullWake
            } else if old(self).is_nominated {
                Slept::Nominated
            } else {
                Slept::Wait
            },
            *final(self) == (BlockOn { is_task: false, is_nominated: false, ..*old(self) }),
    {
        if self.is_task {
            self.is_task = false;
            self.is_nominated = false;
            return Slept::FullWake;
        }
        if self.is_nominated {
            self.is_nominated = false;
            return Slept::Nominated;
        }
        Slept::Wait
    }

    /// Gives up the lead, or stops waiting for it, so that the task can go on.
    pub fn release(&mut self, main: &mut MainThreadState, parker: usize) -> (handover: Handover)
        requires
            old(main).wf(),
            old(self).is_polling ==> old(main)@.state.can_hand_off(),
            !old(self).is_polling ==> old(main)@.state.can_wait(),
        ensures
            final(main).wf(),
            (final(main)@.state, handover) == if old(self).is_polling {
                old(main)@.state.handoff()
            } else {
                old(main)@.state.disqualify(parker)
            },
            final(main)@.thread_enabled == old(main)@.thread_enabled,
            *final(self) == (BlockOn { is_polling: false, ..*old(self) }),
    {
        let was_polling = self.is_polling;
        self.is_polling = false;
        if was_polling {
            main.handoff()
        } else {
            main.disqualify(parker)
        }
    }
}

/// What a thread that blocks on a future has to do next.
#[derive(Clone, Copy, Debug, PartialEq, Eq, Structural)]
pub enum Phase {
    /// Poll the future.
    Poll,
    /// Try to lock the reactor at once, to process the I/O events that are available.
    TryProcess,
    /// Process the I/O events that are available, with the reactor locked.
    Process,
    /// Ask for the reactor, having waited for it before or not.
    Enter { waits: bool },
    /// Start polling the reactor or waiting for it.
    Begin { leads: bool },
    /// Wait for I/O events: when the polling began, and how many rounds have passed.
    React { start: Instant, count: u32 },
    /// Try to hand off the reactor.
    TryHandoff { start: Instant, count: u32 },
    /// Sleep until the task is woken or the thread is nominated.
    Sleep,
    /// Give up the lead, or stop waiting for it.
    Leave,
}

impl Phase {
    /// What follows a poll of the future that was pending.
    pub open spec fn after_pending(woken: bool) -> Phase {
        if woken {
            Phase::TryProcess
        } else {
            Phase::Enter { waits: false }
        }
    }

    /// What follows a round of polling after which the thread goes on to lead.
    pub open spec fn after_round(start: Instant, count: u32) -> Phase {
        if count == u32::MAX {
            Phase::Leave
        } else {
            Phase::React { start, count: (count + 1) as u32 }
        }
    }

    /// What follows a round of polling that ended at `now`.
    pub open spec fn after_react(start: Instant, count: u32, woken: bool, now: Instant) -> Phase {
        if woken {
            Phase::Leave
        } else if time::time_between(start, now).nanos > HOGGING_NANOS && count > HOGGING_ROUNDS {
            Phase::TryHandoff { start, count }
        } else {
            Phase::after_round(start, count)
        }
    }

    /// What follows once a thread has said whether it polls or waits.
    pub open spec fn after_begin(leads: bool, woken: bool, now: Instant) -> Phase {
        if woken {
            Phase::Leave
        } else if leads {
            Phase::React { start: now, count: 0 }
        } else {
            Phase::Sleep
        }
    }

    /// Whether a thread has taken the lead and not given it up.
    pub open spec fn leads(self, flags: BlockOn) -> bool {
        match self {
            Phase::Begin { leads } => leads,
            Phase::React { .. } => true,
            Phase::TryHandoff { .. } => true,
            Phase::Leave => flags.is_polling,
            _ => false,
        }
    }

    /// Whether a thread waits for the lead.
    pub open spec fn waits(self, flags: BlockOn) -> bool {
        match self {
            Phase::Enter { waits } => waits,
            Phase::Begin { leads } => !leads,
            Phase::Sleep => true,
            Phase::Leave => !flags.is_polling,
            _ => false,
        }
    }

    /// The state and what to do once a thread has given up the lead or stopped waiting for it.
    pub open spec fn release(self, state: StateView, flags: BlockOn, parker: usize) -> (
        StateView,
        Handover,
    ) {
        if self.leads(flags) {
            state.handoff()
        } else if self.waits(flags) {
            state.disqualify(parker)
        } else {
            (state, Handover::Nothing)
        }
    }

    /// What follows a look for a reason not to sleep.
    pub open spec fn after_sleep(flags: BlockOn) -> Phase {
        if flags.is_task {
            Phase::Leave
        } else if flags.is_nominated {
            Phase::Enter { waits: true }
        } else {
            Phase::Sleep
        }
    }
}

/// The loop of a thread that blocks on a future.
#[derive(Debug)]
pub struct BlockOnLoop {
    /// The number of the thread.
    pub parker: usize,
    /// What the thread has to do next.
    pub phase: Phase,
    /// The mark that the thread is polling I/O, which is set with the reactor locked. Wakeups by a
    /// marked thread need not interrupt it.
    pub io_polling: bool,
}

/// Blocks the thread with the given number on a future, processing I/O events when idle.
///
/// The loop tells what to do next, and takes what came of it, until the future is ready.
pub fn block_on(parker: usize) -> (block_on: BlockOnLoop)
    ensures
        block_on == (BlockOnLoop { parker, phase: Phase::Poll, io_polling: false }),
{
    BlockOnLoop { parker, phase: Phase::Poll, io_polling: false }
}

impl BlockOnLoop {
    /// Returns the mark that the thread is polling I/O, but not necessarily blocked on it.
    pub fn io_polling(&self) -> (io_polling: bool)
        ensures
            io_polling == self.io_polling,
    {
        self.io_polling
    }

    /// The future is pending.
    pub fn pending(&mut self, block_on: &mut BlockOn)
        requires
            old(self).phase is Poll,
        ensures
            *final(self) == (BlockOnLoop {
                phase: Phase::after_pending(old(block_on).is_task),
                ..*old(self)
            }),
            *final(block_on) == (BlockOn { is_task: false, ..*old(block_on) }),
    {
        // Check if a notification was received.
        if block_on.take_wake() {
            self.phase = Phase::TryProcess;
        } else {
            self.phase = Phase::Enter { waits: false };
        }
    }

    /// The reactor has been locked at once, or could not be.
    ///
    /// If it is locked, wakers are let know that the thread is processing I/O events.
    pub fn tried_process(&mut self, locked: bool)
        requires
            old(self).phase is TryProcess,
        ensures
            *final(self) == (BlockOnLoop {
                phase: if locked {
                    Phase::Process
                } else {
                    Phase::Poll
                },
                io_polling: locked,
                ..*old(self)
            }),
    {
        self.io_polling = locked;
        self.phase = if locked {
            Phase::Process
        } else {
            Phase::Poll
        };
    }

    /// The I/O events that were available have been processed, and the reactor is unlocked.
    pub fn processed(&mut self)
        requires
            old(self).phase is Process,
        ensures
            *final(self) == (BlockOnLoop { phase: Phase::Poll, io_polling: false, ..*old(self) }),
    {
        self.io_polling = false;
        self.phase = Phase::Poll;
    }

    /// Asks for the reactor, to ensure that someone is taking care of I/O.
    ///
    /// If the thread leads, it has to lock the reactor.
    pub fn enter(&mut self, main: &mut MainThreadState) -> (admission: Admission)
        requires
            old(self).phase is Enter,
            old(main).wf(),
        ensures
            final(main).wf(),
            (final(main)@.state, admission) == old(main)@.state.get_reactor(
                old(self).parker,
                old(main)@.thread_enabled,
            ),
            final(main)@.thread_enabled == old(main)@.thread_enabled,
            *final(self) == (BlockOnLoop {
                phase: Phase::Begin { leads: admission.leads },
                ..*old(self)
            }),
    {
        let admission = main.get_reactor(self.parker);
        self.phase = Phase::Begin { leads: admission.leads };
        admission
    }

    /// Starts polling the reactor or waiting for it, unless the task has been woken.
    ///
    /// The thread is marked as polling I/O if it leads, until it leaves or hands off the reactor.
    pub fn begin(&mut self, block_on: &mut BlockOn, now: Instant)
        requires
            old(self).phase is Begin,
            !old(block_on).is_polling,
        ensures
            *final(block_on) == (BlockOn {
                is_polling: old(self).phase->leads,
                is_task: false,
                ..*old(block_on)
            }),
            *final(self) == (BlockOnLoop {
                phase: Phase::after_begin(old(self).phase->leads, old(block_on).is_task, now),
                io_polling: old(self).phase->leads,
                ..*old(self)
            }),
    {
        let leads = match self.phase {
            Phase::Begin { leads } => leads,
            _ => false,
        };
        self.io_polling = leads;
        self.phase = if !block_on.try_start_polling(leads) {
            // A notification was received before, and so will not interrupt the polling.
            Phase::Leave
        } else if leads {
            // Record the instant at which the lock was grabbed.
            Phase::React { start: now, count: 0 }
        } else {
            Phase::Sleep
        };
    }

    /// A round of polling has ended at `now`.
    pub fn reacted(&mut self, block_on: &mut BlockOn, now: Instant)
        requires
            old(self).phase is React,
        ensures
            *final(block_on) == (BlockOn { is_task: false, ..*old(block_on) }),
            *final(self) == (BlockOnLoop {
                phase: Phase::after_react(
                    old(self).phase->React_start,
                    old(self).phase->React_count,
                    old(block_on).is_task,
                    now,
                ),
                ..*old(self)
            }),
    {
        let (start, count) = match self.phase {
            Phase::React { start, count } => (start, count),
            _ => (now, 0),
        };
        // Check if a notification has been received.
        self.phase = if block_on.take_wake() {
            Phase::Leave
        } else if now.saturating_duration_since(start).nanos > HOGGING_NANOS && count
            > HOGGING_ROUNDS {
            // This thread is clearly processing I/O events for some other threads because it
            // didn't get a notification yet.
            Phase::TryHandoff { start, count }
        } else {
            next_round(start, count)
        };
    }

    /// Tries to hand off the reactor to one of the waiting threads.
    ///
    /// If that succeeds, the thread has to unlock the reactor. Returns the thread to nominate.
    pub fn try_handoff(&mut self, main: &mut MainThreadState, block_on: &mut BlockOn) -> (nominee:
        Option<usize>)
        requires
            old(self).phase is TryHandoff,
            old(block_on).is_polling,
            old(main).wf(),
            old(main)@.state.can_hand_off(),
        ensures
            final(main).wf(),
            final(main)@.thread_enabled == old(main)@.thread_enabled,
            ({
                let (state, handed, leader) = old(main)@.state.try_handoff(old(self).parker);
                &&& final(main)@.state == state
                &&& nominee == leader
                &&& *final(block_on) == (BlockOn { is_polling: !handed, ..*old(block_on) })
                &&& *final(self) == if handed {
                    BlockOnLoop { phase: Phase::Sleep, io_polling: false, ..*old(self) }
                } else {
                    BlockOnLoop {
                        phase: Phase::after_round(
                            old(self).phase->TryHandoff_start,
                            old(self).phase->TryHandoff_count,
                        ),
                        ..*old(self)
                    }
                }
            }),
    {
        let handed = block_on.try_handoff(main, self.parker);
        if handed.0 {
            self.io_polling = false;
            self.phase = Phase::Sleep;
        } else if let Phase::TryHandoff { start, count } = self.phase {
            self.phase = next_round(start, count);
        }
        handed.1
    }

    /// Looks for a reason not to sleep. If there is none, the thread has to wait until it is
    /// notified.
    pub fn sleep(&mut self, block_on: &mut BlockOn)
        requires
            old(self).phase is Sleep,
            !old(block_on).is_polling,
        ensures
            *final(block_on) == (BlockOn {
                is_task: false,
                is_nominated: false,
                ..*old(block_on)
            }),
            *final(self) == (BlockOnLoop {
                phase: Phase::after_sleep(*old(block_on)),
                ..*old(self)
            }),
    {
        match block_on.sleep() {
            Slept::FullWake => {
                self.phase = Phase::Leave;
            },
            Slept::Nominated => {
                self.phase = Phase::Enter { waits: true };
            },
            Slept::Wait => {},
        }
    }

    /// Gives up the lead, or stops waiting for it, so that the future can be polled again.
    pub fn leave(&mut self, main: &mut MainThreadState, block_on: &mut BlockOn) -> (handover:
        Handover)
        requires
            old(self).phase is Leave,
            old(main).wf(),
            old(block_on).is_polling ==> old(main)@.state.can_hand_off(),
            !old(block_on).is_polling ==> old(main)@.state.can_wait(),
        ensures
            final(main).wf(),
            (final(main)@.state, handover) == if old(block_on).is_polling {
                old(main)@.state.handoff()
            } else {
                old(main)@.state.disqualify(old(self).parker)
            },
            final(main)@.thread_enabled == old(main)@.thread_enabled,
            *final(block_on) == (BlockOn { is_polling: false, ..*old(block_on) }),
            *final(self) == (BlockOnLoop { phase: Phase::Poll, io_polling: false, ..*old(self) }),
    {
        self.io_polling = false;
        let handover = block_on.release(main, self.parker);
        self.phase = Phase::Poll;
        handover
    }

    /// Gives up the lead, or stops waiting for it, because the thread unwinds. Does nothing if the
    /// thread neither leads nor waits.
    pub fn unwind(&mut self, main: &mut MainThreadState, block_on: &mut BlockOn) -> (handover:
        Handover)
        requires
            old(main).wf(),
            old(self).phase.leads(*old(block_on)) ==> old(main)@.state.can_hand_off(),
            old(self).phase.waits(*old(block_on)) ==> old(main)@.state.can_wait(),
        ensures
            final(main).wf(),
            (final(main)@.state, handover) == old(self).phase.release(
                old(main)@.state,
                *old(block_on),
                old(self).parker,
            ),
            final(main)@.thread_enabled == old(main)@.thread_enabled,
            *final(block_on) == (BlockOn { is_polling: false, ..*old(block_on) }),
            *final(self) == (BlockOnLoop { phase: Phase::Poll, io_polling: false, ..*old(self) }),
    {
        let (leads, waits) = match self.phase {
            Phase::Enter { waits } => (false, waits),
            Phase::Begin { leads } => (leads, !leads),
            Phase::React { .. } => (true, false),
            Phase::TryHandoff { .. } => (true, false),
            Phase::Sleep => (false, true),
            Phase::Leave => (block_on.is_polling, !block_on.is_polling),
            _ => (false, false),
        };
        self.io_polling = false;
        self.phase = Phase::Poll;
        block_on.is_polling = false;
        if leads {
            main.handoff()
        } else if waits {
            main.disqualify(self.parker)
        } else {
            Handover::Nothing
        }
    }
}

/// Computes what follows a round of polling after which the thread goes on to lead.
fn next_round(start: Instant, count: u32) -> (phase: Phase)
    ensures
        phase == Phase::after_round(start, count),
{
    if count == u32::MAX {
        Phase::Leave
    } else {
        Phase::React { start, count: count + 1 }
    }
}

/// A task is woken once, however often that is asked for: the first time the thread is notified, and
/// so is the reactor if the thread polls it and the wakeup comes from one that does not poll. The
/// wakeup is there until it is taken, and then it is gone.
pub proof fn law_task_is_woken_once(
    created: BlockOn,
    first: &mut BlockOn,
    io_polling: bool,
    wake: TaskWake,
    second: &mut BlockOn,
    other_polling: bool,
    again: TaskWake,
    taken: &mut BlockOn,
    woken: bool,
    left: &mut BlockOn,
    more: bool,
)
    requires
        call_ensures(BlockOn::new, (), created),
        call_ensures(BlockOn::task_wake, (first, io_polling), wake),
        *old(second) == *final(first),
        call_ensures(BlockOn::task_wake, (second, other_polling), again),
        *old(taken) == *final(second),
        call_ensures(BlockOn::take_wake, (taken,), woken),
        *old(left) == *final(taken),
        call_ensures(BlockOn::take_wake, (left,), more),
    ensures
        !created.is_task && !created.is_polling && !created.is_nominated,
        wake.thread <==> !old(first).is_task,
        wake.reactor <==> !old(first).is_task && old(first).is_polling && !io_polling,
        !again.thread && !again.reactor,
        woken && !more,
        final(left).is_polling == old(first).is_polling,
        final(left).is_nominated == old(first).is_nominated,
{
}

/// A wakeup that is taken is one that was there, and nothing else changes. A nomination is kept with
/// the rest as it is.
pub proof fn law_wakeups_and_nominations_are_kept(
    taken: &mut BlockOn,
    woken: bool,
    nominated: &mut BlockOn,
)
    requires
        call_ensures(BlockOn::take_wake, (taken,), woken),
        call_ensures(BlockOn::nomination_wake, (nominated,), ()),
    ensures
        woken == old(taken).is_task,
        !final(taken).is_task,
        final(taken).is_polling == old(taken).is_polling,
        final(taken).is_nominated == old(taken).is_nominated,
        final(nominated).is_nominated,
        final(nominated).is_polling == old(nominated).is_polling,
        final(nominated).is_task == old(nominated).is_task,
{
}

/// A thread starts to poll or to wait unless its task was woken before, and others know which of the
/// two it does. The wakeup is taken.
pub proof fn law_polling_starts_unless_woken(flags: &mut BlockOn, is_polling: bool, go: bool)
    requires
        !old(flags).is_polling,
        call_ensures(BlockOn::try_start_polling, (flags, is_polling), go),
    ensures
        go <==> !old(flags).is_task,
        final(flags).is_polling == is_polling,
        !final(flags).is_task,
        final(flags).is_nominated == old(flags).is_nominated,
{
}

/// A thread that goes to sleep finds a wakeup of its task first, and then a nomination. It takes both.
pub proof fn law_sleeping_thread_finds_its_reason(flags: &mut BlockOn, slept: Slept)
    requires
        !old(flags).is_polling,
        call_ensures(BlockOn::sleep, (flags,), slept),
    ensures
        slept is FullWake <==> old(flags).is_task,
        slept is Nominated <==> !old(flags).is_task && old(flags).is_nominated,
        slept is Wait <==> !old(flags).is_task && !old(flags).is_nominated,
        !final(flags).is_task && !final(flags).is_nominated && !final(flags).is_polling,
{
}

/// A thread hands off the reactor and gives it up as the controller decides, and polls no more once it
/// has.
pub proof fn law_thread_gives_up_as_decided(
    handing: &mut BlockOn,
    main1: &mut MainThreadState,
    same1: &mut MainThreadState,
    handed: (bool, Option<usize>),
    decided: (bool, Option<usize>),
    leaving: &mut BlockOn,
    main2: &mut MainThreadState,
    same2: &mut MainThreadState,
    handover: Handover,
    other: Handover,
    parker: usize,
)
    requires
        old(handing).is_polling,
        old(main1).wf() && old(same1).wf() && old(main2).wf() && old(same2).wf(),
        old(main1)@.state.can_hand_off(),
        old(same1)@ == old(main1)@ && old(same2)@ == old(main2)@,
        call_ensures(BlockOn::try_handoff, (handing, main1, parker), handed),
        call_ensures(MainThreadState::try_handoff, (same1, parker), decided),
        old(leaving).is_polling ==> old(main2)@.state.can_hand_off(),
        !old(leaving).is_polling ==> old(main2)@.state.can_wait(),
        call_ensures(BlockOn::release, (leaving, main2, parker), handover),
        old(leaving).is_polling ==> call_ensures(MainThreadState::handoff, (same2,), other),
        !old(leaving).is_polling ==> call_ensures(
            MainThreadState::disqualify,
            (same2, parker),
            other,
        ),
    ensures
        handed == decided && final(main1)@ == final(same1)@,
        final(handing).is_polling == !handed.0,
        final(handing).is_task == old(handing).is_task,
        final(handing).is_nominated == old(handing).is_nominated,
        handover == other && final(main2)@ == final(same2)@,
        !final(leaving).is_polling,
        final(leaving).is_task == old(leaving).is_task,
        final(leaving).is_nominated == old(leaving).is_nominated,
{
}

/// A thread that blocks on a future polls it first, and does not handle events. After a poll that was
/// pending, it looks at the events that are available if its task has been woken, and asks for the
/// reactor if not. Either way the wakeup is taken.
pub proof fn law_blocking_begins(
    parker: usize,
    begun: BlockOnLoop,
    io_polling: bool,
    pending: &mut BlockOnLoop,
    flags: &mut BlockOn,
)
    requires
        call_ensures(block_on, (parker,), begun),
        call_ensures(BlockOnLoop::io_polling, (&begun,), io_polling),
        old(pending).phase is Poll,
        call_ensures(BlockOnLoop::pending, (pending, flags), ()),
    ensures
        begun.parker == parker && begun.phase is Poll && !io_polling && !begun.io_polling,
        final(pending).parker == old(pending).parker,
        final(pending).io_polling == old(pending).io_polling,
        old(flags).is_task ==> final(pending).phase is TryProcess,
        !old(flags).is_task ==> final(pending).phase == (Phase::Enter { waits: false }),
        !final(flags).is_task,
        final(flags).is_polling == old(flags).is_polling,
        final(flags).is_nominated == old(flags).is_nominated,
{
}

/// A thread processes the events that are available if it can lock the reactor, polls its future
/// after that or else at once, and is marked as handling events exactly while it processes them.
pub proof fn law_available_events_are_processed(
    tried: &mut BlockOnLoop,
    locked: bool,
    processed: &mut BlockOnLoop,
)
    requires
        old(tried).phase is TryProcess,
        call_ensures(BlockOnLoop::tried_process, (tried, locked), ()),
        old(processed).phase is Process,
        call_ensures(BlockOnLoop::processed, (processed,), ()),
    ensures
        locked ==> final(tried).phase is Process && final(tried).io_polling,
        !locked ==> final(tried).phase is Poll && !final(tried).io_polling,
        final(tried).parker == old(tried).parker,
        final(processed).phase is Poll && !final(processed).io_polling,
        final(processed).parker == old(processed).parker,
{
}

/// A thread asks for the reactor under its number, gets the answer of the controller, and goes on as
/// the leader or not. It then polls from now or sleeps, unless its task was woken before, in which
/// case it leaves. Others know whether it polls.
pub proof fn law_thread_begins_as_admitted(
    entered: &mut BlockOnLoop,
    main: &mut MainThreadState,
    admission: Admission,
    same: &mut MainThreadState,
    decided: Admission,
    begun: &mut BlockOnLoop,
    flags: &mut BlockOn,
    now: Instant,
)
    requires
        old(entered).phase is Enter,
        old(main).wf() && old(same).wf() && old(same)@ == old(main)@,
        call_ensures(BlockOnLoop::enter, (entered, main), admission),
        call_ensures(MainThreadState::get_reactor, (same, old(entered).parker), decided),
        *old(begun) == *final(entered) && !old(flags).is_polling,
        call_ensures(BlockOnLoop::begin, (begun, flags, now), ()),
    ensures
        admission == decided && final(main)@ == final(same)@,
        final(entered).phase == (Phase::Begin { leads: admission.leads }),
        final(entered).parker == old(entered).parker,
        final(entered).io_polling == old(entered).io_polling,
        final(begun).parker == old(entered).parker,
        final(begun).io_polling == admission.leads,
        final(flags).is_polling == admission.leads,
        !final(flags).is_task,
        final(flags).is_nominated == old(flags).is_nominated,
        old(flags).is_task ==> final(begun).phase is Leave,
        !old(flags).is_task && admission.leads ==> final(begun).phase == (Phase::React {
            start: now,
            count: 0,
        }),
        !old(flags).is_task && !admission.leads ==> final(begun).phase is Sleep,
{
}

/// After a round of polling a thread leaves if its task was woken. Otherwise it tries to hand off the
/// reactor if it has polled for more than half a millisecond and more than two rounds before, and
/// else polls again. The polling counts from when it began, and each round counts.
pub proof fn law_round_of_polling_counts(
    thread: &mut BlockOnLoop,
    flags: &mut BlockOn,
    now: Instant,
    start: Instant,
    count: u32,
)
    requires
        old(thread).phase == (Phase::React { start, count }),
        call_ensures(BlockOnLoop::reacted, (thread, flags, now), ()),
    ensures
        final(thread).parker == old(thread).parker,
        final(thread).io_polling == old(thread).io_polling,
        !final(flags).is_task,
        final(flags).is_polling == old(flags).is_polling,
        final(flags).is_nominated == old(flags).is_nominated,
        ({
            let hogs = now.nanos > start.nanos + 500_000 && count > 2;
            &&& old(flags).is_task ==> final(thread).phase is Leave
            &&& !old(flags).is_task && hogs ==> final(thread).phase == (Phase::TryHandoff {
                start,
                count,
            })
            &&& !old(flags).is_task && !hogs && count < u32::MAX ==> (
            final(thread).phase matches Phase::React { start: same, count: more } && same == start
                && more == count + 1)
            &&& !old(flags).is_task && !hogs && count == u32::MAX ==> final(thread).phase is Leave
        }),
{
}

/// A thread that tries to hand off the reactor sleeps and is no longer marked if that succeeds, and
/// polls another round if it does not. Who leads is what the controller decides.
pub proof fn law_handed_off_thread_sleeps(
    thread: &mut BlockOnLoop,
    main: &mut MainThreadState,
    flags: &mut BlockOn,
    nominee: Option<usize>,
    start: Instant,
    count: u32,
    same: &mut MainThreadState,
    decided: (bool, Option<usize>),
)
    requires
        old(thread).phase == (Phase::TryHandoff { start, count }),
        old(flags).is_polling,
        old(main).wf() && old(same).wf() && old(same)@ == old(main)@,
        old(main)@.state.can_hand_off(),
        call_ensures(BlockOnLoop::try_handoff, (thread, main, flags), nominee),
        call_ensures(MainThreadState::try_handoff, (same, old(thread).parker), decided),
    ensures
        final(main)@ == final(same)@,
        nominee == decided.1,
        final(thread).parker == old(thread).parker,
        final(flags).is_polling == !decided.0,
        final(flags).is_task == old(flags).is_task,
        final(flags).is_nominated == old(flags).is_nominated,
        decided.0 ==> final(thread).phase is Sleep && !final(thread).io_polling,
        !decided.0 ==> final(thread).io_polling == old(thread).io_polling,
        !decided.0 && count < u32::MAX ==> (final(thread).phase matches Phase::React {
            start: same,
            count: more,
        } && same == start && more == count + 1),
        !decided.0 && count == u32::MAX ==> final(thread).phase is Leave,
{
}

/// A sleeping thread leaves once its task is woken, asks for the reactor again once it is nominated,
/// and otherwise sleeps on. Both reasons are taken.
pub proof fn law_sleeping_thread_goes_on(thread: &mut BlockOnLoop, flags: &mut BlockOn)
    requires
        old(thread).phase is Sleep,
        !old(flags).is_polling,
        call_ensures(BlockOnLoop::sleep, (thread, flags), ()),
    ensures
        final(thread).parker == old(thread).parker,
        final(thread).io_polling == old(thread).io_polling,
        !final(flags).is_task && !final(flags).is_nominated && !final(flags).is_polling,
        old(flags).is_task ==> final(thread).phase is Leave,
        !old(flags).is_task && old(flags).is_nominated ==> final(thread).phase == (Phase::Enter {
            waits: true,
        }),
        !old(flags).is_task && !old(flags).is_nominated ==> final(thread).phase is Sleep,
{
}

/// A thread that leaves polls its future again and is not marked any more. It gives up the lead if it
/// polls, and otherwise stops waiting for it, as the controller decides.
pub proof fn law_leaving_thread_polls_its_future(
    thread: &mut BlockOnLoop,
    main: &mut MainThreadState,
    flags: &mut BlockOn,
    handover: Handover,
    same: &mut MainThreadState,
    decided: Handover,
)
    requires
        old(thread).phase is Leave,
        old(main).wf() && old(same).wf() && old(same)@ == old(main)@,
        old(flags).is_polling ==> old(main)@.state.can_hand_off(),
        !old(flags).is_polling ==> old(main)@.state.can_wait(),
        call_ensures(BlockOnLoop::leave, (thread, main, flags), handover),
        old(flags).is_polling ==> call_ensures(MainThreadState::handoff, (same,), decided),
        !old(flags).is_polling ==> call_ensures(
            MainThreadState::disqualify,
            (same, old(thread).parker),
            decided,
        ),
    ensures
        handover == decided && final(main)@ == final(same)@,
        final(thread).phase is Poll && !final(thread).io_polling,
        final(thread).parker == old(thread).parker,
        !final(flags).is_polling,
        final(flags).is_task == old(flags).is_task,
        final(flags).is_nominated == old(flags).is_nominated,
{
}

/// A thread that unwinds neither leads nor waits for the lead any more, wherever it was: it gives up
/// the lead from when it has it until it is given up, and stops waiting from when it waits, as the
/// controller decides, and otherwise leaves everything.
pub proof fn law_unwinding_thread_leaves_nothing(
    thread: &mut BlockOnLoop,
    main: &mut MainThreadState,
    flags: &mut BlockOn,
    handover: Handover,
    led: &mut MainThreadState,
    gave_up: Handover,
    waited: &mut MainThreadState,
    stopped: Handover,
)
    requires
        old(main).wf() && old(led).wf() && old(waited).wf(),
        old(led)@ == old(main)@ && old(waited)@ == old(main)@,
        old(thread).phase.leads(*old(flags)) ==> old(main)@.state.can_hand_off(),
        old(thread).phase.waits(*old(flags)) ==> old(main)@.state.can_wait(),
        call_ensures(BlockOnLoop::unwind, (thread, main, flags), handover),
        old(main)@.state.can_hand_off() ==> call_ensures(
            MainThreadState::handoff,
            (led,),
            gave_up,
        ),
        old(main)@.state.can_wait() ==> call_ensures(
            MainThreadState::disqualify,
            (waited, old(thread).parker),
            stopped,
        ),
    ensures
        final(thread).phase is Poll && !final(thread).io_polling,
        final(thread).parker == old(thread).parker,
        !final(flags).is_polling,
        final(flags).is_task == old(flags).is_task,
        final(flags).is_nominated == old(flags).is_nominated,
        ({
            let gives_up = handover == gave_up && final(main)@ == final(led)@;
            let stops = handover == stopped && final(main)@ == final(waited)@;
            let nothing = handover is Nothing && final(main)@ == old(main)@;
            match old(thread).phase {
                Phase::Poll => nothing,
                Phase::TryProcess => nothing,
                Phase::Process => nothing,
                Phase::Enter { waits } => if waits {
                    stops
                } else {
                    nothing
                },
                Phase::Begin { leads } => if leads {
                    gives_up
                } else {
                    stops
                },
                Phase::React { .. } => gives_up,
                Phase::TryHandoff { .. } => gives_up,
                Phase::Sleep => stops,
                Phase::Leave => if old(flags).is_polling {
                    gives_up
                } else {
                    stops
                },
            }
        }),
{
}

} // verus!
