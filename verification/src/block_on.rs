//! Blocking on a future with a parker, and the helper thread that polls when nobody else does.
use crate::reactor::poll::{LockView, Reactor, ReactorLock, ReactorView};
use crate::reactor::timer::{self, TimersView};
use crate::time::{self, Duration, Instant};
use vstd::prelude::*;

verus! {

/// How long a thread may poll, in nanoseconds, before it gives other threads a chance.
pub const HOGGING_NANOS: u128 = 500_000;

/// How often the helper thread sleeps before it blocks on the reactor.
pub const PATIENCE: u64 = 10;

/// The number of threads that currently block on a future.
#[derive(Clone, Copy, Debug, PartialEq, Eq, Structural)]
pub struct BlockOnCount {
    /// The number of threads.
    pub count: usize,
}

impl BlockOnCount {
    /// Nobody blocks.
    pub fn new() -> (count: BlockOnCount)
        ensures
            count.count == 0,
    {
        BlockOnCount { count: 0 }
    }

    /// One more thread blocks, so that the helper thread becomes less aggressive.
    pub fn enter(&mut self)
        ensures
            final(self).count == timer::wrapping_succ(old(self).count),
    {
        self.count = self.count.wrapping_add(1);
    }

    /// One thread blocks no more, because its future is ready or it unwinds.
    ///
    /// Returns whether the helper thread has to be unparked, which is always so: it may have to
    /// take over the polling.
    pub fn leave(&mut self) -> (unpark: bool)
        ensures
            unpark,
            old(self).count == timer::wrapping_succ(final(self).count),
    {
        self.count = self.count.wrapping_sub(1);
        true
    }
}

/// Leaving undoes entering: once every thread that has entered has left, nobody is counted.
pub proof fn law_leaving_undoes_entering(
    before: BlockOnCount,
    entered: BlockOnCount,
    after: BlockOnCount,
)
    requires
        entered.count == timer::wrapping_succ(before.count),
        entered.count == timer::wrapping_succ(after.count),
    ensures
        after == before,
{
}

/// What can happen to the threads that block on futures, which are told apart by numbers.
pub enum CountEvent {
    /// A thread begins to block on a future.
    Enter { call: nat },
    /// A thread ends to block on a future, because the future is ready or the thread unwinds.
    Leave { call: nat },
}

impl BlockOnCount {
    /// Whether a count follows from another by an event.
    pub open spec fn follows(self, event: CountEvent, after: BlockOnCount) -> bool {
        match event {
            CountEvent::Enter { .. } => after.count == timer::wrapping_succ(self.count),
            CountEvent::Leave { .. } => self.count == timer::wrapping_succ(after.count),
        }
    }
}

/// The threads that block on a future after events.
pub open spec fn running(events: Seq<CountEvent>) -> Set<nat>
    decreases events.len(),
{
    if events.len() == 0 {
        Set::empty()
    } else {
        match events.last() {
            CountEvent::Enter { call } => running(events.drop_last()).insert(call),
            CountEvent::Leave { call } => running(events.drop_last()).remove(call),
        }
    }
}

/// Whether every thread that begins did not block before, and every one that ends did.
pub open spec fn orderly(events: Seq<CountEvent>) -> bool
    decreases events.len(),
{
    events.len() == 0 || (orderly(events.drop_last()) && match events.last() {
        CountEvent::Enter { call } => !running(events.drop_last()).contains(call),
        CountEvent::Leave { call } => running(events.drop_last()).contains(call),
    })
}

/// The count is always the number of threads that block on a future now, as long as that is a
/// number that fits: `counts` are the counts before, between and after the events.
pub proof fn law_count_is_number_of_running(events: Seq<CountEvent>, counts: Seq<BlockOnCount>)
    requires
        orderly(events),
        counts.len() == events.len() + 1,
        counts[0].count == 0,
        forall|i: int|
            0 <= i < events.len() ==> (#[trigger] counts[i]).follows(events[i], counts[i + 1]),
    ensures
        running(events).finite(),
        counts.last().count == running(events).len() % (usize::MAX as nat + 1),
        running(events).len() <= usize::MAX ==> counts.last().count == running(events).len(),
    decreases events.len(),
{
    if events.len() > 0 {
        let fewer = events.drop_last();
        let before = counts.drop_last();
        let last = events.len() - 1;
        assert forall|i: int| 0 <= i < fewer.len() implies (#[trigger] before[i]).follows(
            fewer[i],
            before[i + 1],
        ) by {
            assert(counts[i].follows(events[i], counts[i + 1]));
        }
        law_count_is_number_of_running(fewer, before);
        assert(counts[last].follows(events[last], counts[last + 1]));
        let all = usize::MAX as int + 1;
        let number = running(fewer).len() as int;
        lemma_mod_steps(number, all);
        match events.last() {
            CountEvent::Enter { call } => {
                assert(running(events).len() == number + 1);
            },
            CountEvent::Leave { call } => {
                assert(running(events).len() == number - 1);
            },
        }
    } else {
        vstd::arithmetic::div_mod::lemma_small_mod(0, usize::MAX as nat + 1);
    }
    if running(events).len() <= usize::MAX {
        vstd::arithmetic::div_mod::lemma_small_mod(running(events).len(), usize::MAX as nat + 1);
    }
}

/// Counting up or down by one, as seen modulo `all`.
proof fn lemma_mod_steps(number: int, all: int)
    requires
        0 <= number,
        all > 1,
    ensures
        (number + 1) % all == if number % all == all - 1 {
            0
        } else {
            number % all + 1
        },
        number > 0 ==> (number - 1) % all == if number % all == 0 {
            all - 1
        } else {
            number % all - 1
        },
{
    vstd::arithmetic::div_mod::lemma_fundamental_div_mod(number, all);
    vstd::arithmetic::div_mod::lemma_mod_bound(number, all);
    let quotient = number / all;
    let rest = number % all;
    assert(all * quotient == quotient * all) by (nonlinear_arith);
    if rest == all - 1 {
        assert(number + 1 == all * (quotient + 1) + 0) by (nonlinear_arith)
            requires
                number == all * quotient + rest,
                rest == all - 1,
        ;
        vstd::arithmetic::div_mod::lemma_fundamental_div_mod_converse(
            number + 1,
            all,
            quotient + 1,
            0,
        );
    } else {
        vstd::arithmetic::div_mod::lemma_fundamental_div_mod_converse(
            number + 1,
            all,
            quotient,
            rest + 1,
        );
    }
    if rest == 0 {
        assert(number - 1 == all * (quotient - 1) + (all - 1)) by (nonlinear_arith)
            requires
                number == all * quotient + rest,
                rest == 0,
        ;
        vstd::arithmetic::div_mod::lemma_fundamental_div_mod_converse(
            number - 1,
            all,
            quotient - 1,
            all - 1,
        );
    } else {
        vstd::arithmetic::div_mod::lemma_fundamental_div_mod_converse(
            number - 1,
            all,
            quotient,
            rest - 1,
        );
    }
}

/// What a thread that blocks on a future has to do next.
#[derive(Clone, Copy, Debug, PartialEq, Eq, Structural)]
pub enum Phase {
    /// Poll the future.
    Poll,
    /// Try to lock the reactor at once, to process the I/O events that are available.
    TryProcess,
    /// Process the I/O events that are available, with the reactor locked.
    Process,
    /// Try to lock the reactor.
    TryLock,
    /// Check for a notification before waiting for I/O events; the reactor was locked at `start`.
    Arm { start: Instant },
    /// Wait for I/O events.
    React { start: Instant },
    /// Unlock the reactor, unpark the helper thread and wait for a notification.
    Yield,
    /// Wait for a notification.
    Park,
    /// The future is ready and the blocking has ended.
    Done,
}

impl Phase {
    /// What follows a poll of the future that was pending.
    pub open spec fn after_pending(notified: bool) -> Phase {
        if notified {
            Phase::TryProcess
        } else {
            Phase::TryLock
        }
    }

    /// What follows an attempt to lock the reactor to process the I/O events that are available.
    pub open spec fn after_tried_process(locked: bool) -> Phase {
        if locked {
            Phase::Process
        } else {
            Phase::Poll
        }
    }

    /// What follows an attempt to lock the reactor to wait for I/O events.
    pub open spec fn after_tried_lock(locked: bool, now: Instant) -> Phase {
        if locked {
            Phase::Arm { start: now }
        } else {
            Phase::Park
        }
    }

    /// What follows a check for a notification before waiting for I/O events.
    pub open spec fn after_armed(start: Instant, notified: bool) -> Phase {
        if notified {
            Phase::Poll
        } else {
            Phase::React { start }
        }
    }

    /// What follows a round of polling.
    pub open spec fn after_react(start: Instant, notified: bool, now: Instant) -> Phase {
        if notified {
            Phase::Poll
        } else if time::time_between(start, now).nanos > HOGGING_NANOS {
            Phase::Yield
        } else {
            Phase::Arm { start }
        }
    }

    /// Whether the thread is processing I/O events, so that its own wakeups need not interrupt it.
    pub open spec fn is_io_polling(self) -> bool {
        self is Process || self.is_io_blocked()
    }

    /// Whether the thread may be blocked on I/O, so that a wakeup has to interrupt the polling.
    pub open spec fn is_io_blocked(self) -> bool {
        self is Arm || self is React || self is Yield
    }
}

/// The loop of a thread that blocks on a future.
#[derive(Clone, Copy, Debug, PartialEq, Eq, Structural)]
pub struct BlockOnLoop {
    /// What the thread has to do next.
    pub phase: Phase,
}

/// Blocks the current thread on a future, processing I/O events when idle.
///
/// The loop tells what to do next, and takes what came of it, until the future is ready.
pub fn block_on() -> (block_on: BlockOnLoop)
    ensures
        block_on.phase == Phase::Poll,
{
    BlockOnLoop { phase: Phase::Poll }
}

impl BlockOnLoop {
    /// Returns `true` while the thread is processing I/O events.
    pub fn io_polling(&self) -> (io_polling: bool)
        ensures
            io_polling == self.phase.is_io_polling(),
    {
        match self.phase {
            Phase::Process => true,
            _ => self.io_blocked(),
        }
    }

    /// Returns `true` while the thread may be blocked on I/O.
    pub fn io_blocked(&self) -> (io_blocked: bool)
        ensures
            io_blocked == self.phase.is_io_blocked(),
    {
        match self.phase {
            Phase::Arm { .. } => true,
            Phase::React { .. } => true,
            Phase::Yield => true,
            _ => false,
        }
    }

    /// The future is ready: the blocking ends with its value.
    pub fn ready<T>(&mut self, value: T) -> (result: T)
        requires
            old(self).phase is Poll,
        ensures
            result == value,
            final(self).phase == Phase::Done,
    {
        self.phase = Phase::Done;
        value
    }

    /// The future is pending. `notified` tells whether a notification was received.
    pub fn pending(&mut self, notified: bool)
        requires
            old(self).phase is Poll,
        ensures
            final(self).phase == Phase::after_pending(notified),
    {
        self.phase = if notified {
            Phase::TryProcess
        } else {
            Phase::TryLock
        };
    }

    /// The reactor has been locked at once, or could not be.
    pub fn tried_process(&mut self, locked: bool)
        requires
            old(self).phase is TryProcess,
        ensures
            final(self).phase == Phase::after_tried_process(locked),
    {
        self.phase = if locked {
            Phase::Process
        } else {
            Phase::Poll
        };
    }

    /// The I/O events that were available have been processed.
    pub fn processed(&mut self)
        requires
            old(self).phase is Process,
        ensures
            final(self).phase == Phase::Poll,
    {
        self.phase = Phase::Poll;
    }

    /// The reactor has been locked at `now`, or could not be.
    pub fn tried_lock(&mut self, locked: bool, now: Instant)
        requires
            old(self).phase is TryLock,
        ensures
            final(self).phase == Phase::after_tried_lock(locked, now),
    {
        self.phase = if locked {
            // Record the instant at which the lock was grabbed.
            Phase::Arm { start: now }
        } else {
            // Wait for an actual notification.
            Phase::Park
        };
    }

    /// Wakers know that the thread is blocked on I/O. `notified` tells whether a notification was
    /// received before, because in that case the reactor won't receive a wakeup.
    pub fn armed(&mut self, notified: bool)
        requires
            old(self).phase is Arm,
        ensures
            final(self).phase == Phase::after_armed(old(self).phase->Arm_start, notified),
    {
        if notified {
            self.phase = Phase::Poll;
        } else if let Phase::Arm { start } = self.phase {
            self.phase = Phase::React { start };
        }
    }

    /// A round of polling has ended at `now`. `notified` tells whether a notification was received.
    pub fn reacted(&mut self, notified: bool, now: Instant)
        requires
            old(self).phase is React,
        ensures
            final(self).phase == Phase::after_react(
                old(self).phase->React_start,
                notified,
                now,
            ),
    {
        if notified {
            self.phase = Phase::Poll;
        } else if let Phase::React { start } = self.phase {
            // Check if this thread has been handling I/O events for a long time.
            self.phase = if now.saturating_duration_since(start).nanos > HOGGING_NANOS {
                // This thread is clearly processing I/O events for some other threads because it
                // didn't get a notification yet. It's best to stop hogging the reactor.
                Phase::Yield
            } else {
                Phase::Arm { start }
            };
        }
    }

    /// A notification was received.
    pub fn parked(&mut self)
        requires
            old(self).phase is Park || old(self).phase is Yield,
        ensures
            final(self).phase == Phase::Poll,
    {
        self.phase = Phase::Poll;
    }
}

/// Decides whether waking a blocked thread has to notify the reactor.
///
/// `unparked` tells whether the thread has been notified just now, `io_polling` whether the thread
/// that wakes is processing I/O events, and `io_blocked` whether the woken one may be blocked on
/// I/O.
pub fn wake(unparked: bool, io_polling: bool, io_blocked: bool) -> (notify: bool)
    ensures
        notify == (unparked && !io_polling && io_blocked),
{
    unparked && !io_polling && io_blocked
}

/// A blocked thread, its notification and the poller it may wait for.
pub struct Waiter {
    /// What the thread has to do next.
    pub phase: Phase,
    /// The thread has been notified and has not consumed the notification.
    pub token: bool,
    /// The thread is waiting for I/O events right now, and not handing them out.
    pub waiting: bool,
    /// The poller has been notified and will end the current or the next wait.
    pub notified: bool,
}

/// What can happen to a blocked thread.
pub enum WaiterEvent {
    /// The task is woken, by a thread that is polling I/O itself or not.
    Wake { io_polling: bool },
    /// The future is ready.
    Ready,
    /// The future is pending.
    Pending,
    /// The thread has tried to lock the reactor at once.
    TriedProcess { locked: bool },
    /// The available I/O events have been processed.
    Processed,
    /// The thread has tried to lock the reactor.
    TriedLock { locked: bool, now: Instant },
    /// The thread has said that it is blocked on I/O.
    Armed,
    /// The wait for I/O events ends.
    Return,
    /// The events have been handed out.
    Reacted { now: Instant },
    /// The thread, which waited for a notification, has received one.
    Parked,
}

impl Waiter {
    /// Whether an event can happen now. While a thread is about to wait for I/O events or waits for
    /// them, nobody who wakes it is polling I/O: it holds the reactor's lock itself.
    pub open spec fn can(self, event: WaiterEvent) -> bool {
        match event {
            WaiterEvent::Wake { io_polling } => io_polling ==> !(self.phase is Arm) && !(
            self.phase is React && self.waiting),
            WaiterEvent::Ready => self.phase is Poll,
            WaiterEvent::Pending => self.phase is Poll,
            WaiterEvent::TriedProcess { .. } => self.phase is TryProcess,
            WaiterEvent::Processed => self.phase is Process,
            WaiterEvent::TriedLock { .. } => self.phase is TryLock,
            WaiterEvent::Armed => self.phase is Arm,
            WaiterEvent::Return => self.phase is React && self.waiting,
            WaiterEvent::Reacted { .. } => self.phase is React && !self.waiting,
            WaiterEvent::Parked => (self.phase is Park || self.phase is Yield) && self.token,
        }
    }

    /// The thread after an event.
    pub open spec fn after(self, event: WaiterEvent) -> Waiter {
        match event {
            WaiterEvent::Wake { io_polling } => Waiter {
                token: true,
                notified: self.notified || (!self.token && !io_polling
                    && self.phase.is_io_blocked()),
                ..self
            },
            WaiterEvent::Ready => Waiter { phase: Phase::Done, ..self },
            WaiterEvent::Pending => Waiter {
                phase: Phase::after_pending(self.token),
                token: false,
                ..self
            },
            WaiterEvent::TriedProcess { locked } => Waiter {
                phase: Phase::after_tried_process(locked),
                ..self
            },
            WaiterEvent::Processed => Waiter { phase: Phase::Poll, ..self },
            WaiterEvent::TriedLock { locked, now } => Waiter {
                phase: Phase::after_tried_lock(locked, now),
                ..self
            },
            WaiterEvent::Armed => Waiter {
                phase: Phase::after_armed(self.phase->Arm_start, self.token),
                token: false,
                waiting: !self.token,
                ..self
            },
            WaiterEvent::Return => Waiter { waiting: false, notified: false, ..self },
            WaiterEvent::Reacted { now } => Waiter {
                phase: Phase::after_react(self.phase->React_start, self.token, now),
                token: false,
                ..self
            },
            WaiterEvent::Parked => Waiter { phase: Phase::Poll, token: false, ..self },
        }
    }

    /// What holds at any time: a notification that came while the thread waits for I/O events has
    /// notified the poller.
    pub open spec fn inv(self) -> bool {
        &&& self.waiting ==> self.phase is React
        &&& self.waiting && self.token ==> self.notified
    }
}

/// No wakeup is lost: whatever happens, a thread that waits for I/O events while it has been
/// notified finds the poller notified, so that the wait ends.
pub proof fn law_wakeup_interrupts_polling(waiter: Waiter, event: WaiterEvent)
    requires
        waiter.inv(),
        waiter.can(event),
    ensures
        waiter.after(event).inv(),
        waiter.after(event).waiting && waiter.after(event).token ==> waiter.after(event).notified,
{
}

impl Waiter {
    /// A thread that has just blocked on a future, which it polls first.
    pub open spec fn fresh() -> Waiter {
        Waiter { phase: Phase::Poll, token: false, waiting: false, notified: false }
    }

    /// Whether events can happen one after the other.
    pub open spec fn can_all(self, events: Seq<WaiterEvent>) -> bool
        decreases events.len(),
    {
        events.len() == 0 || (self.can_all(events.drop_last()) && self.after_all(
            events.drop_last(),
        ).can(events.last()))
    }

    /// The thread after events.
    pub open spec fn after_all(self, events: Seq<WaiterEvent>) -> Waiter
        decreases events.len(),
    {
        if events.len() == 0 {
            self
        } else {
            self.after_all(events.drop_last()).after(events.last())
        }
    }

    /// How often the events have the thread poll its future again.
    pub open spec fn polls_in(self, events: Seq<WaiterEvent>) -> nat
        decreases events.len(),
    {
        if events.len() == 0 {
            0
        } else {
            let before = self.after_all(events.drop_last());
            self.polls_in(events.drop_last()) + if !(before.phase is Poll) && before.after(
                events.last(),
            ).phase is Poll {
                1nat
            } else {
                0nat
            }
        }
    }
}

/// How often the task is woken.
pub open spec fn wakes_in(events: Seq<WaiterEvent>) -> nat
    decreases events.len(),
{
    if events.len() == 0 {
        0
    } else {
        wakes_in(events.drop_last()) + if events.last() is Wake {
            1nat
        } else {
            0nat
        }
    }
}

/// The future is polled at most once more than the task is woken: once at first, and again only
/// after a wakeup.
pub proof fn law_polls_follow_wakeups(events: Seq<WaiterEvent>)
    requires
        Waiter::fresh().can_all(events),
    ensures
        1 + Waiter::fresh().polls_in(events) <= 1 + wakes_in(events),
{
    lemma_polls_follow_wakeups(events);
}

/// Each wakeup has been used for at most one poll: those that are still due count too.
proof fn lemma_polls_follow_wakeups(events: Seq<WaiterEvent>)
    requires
        Waiter::fresh().can_all(events),
    ensures
        ({
            let after = Waiter::fresh().after_all(events);
            let due: nat = if after.phase is TryProcess || after.phase is Process {
                1
            } else {
                0
            };
            let pending: nat = if after.token {
                1
            } else {
                0
            };
            Waiter::fresh().polls_in(events) + due + pending <= wakes_in(events)
        }),
    decreases events.len(),
{
    if events.len() > 0 {
        lemma_polls_follow_wakeups(events.drop_last());
    }
}

impl Waiter {
    /// Whether the thread is bound to poll its future again: it has been notified, or has taken the
    /// notification.
    pub open spec fn is_owed(self) -> bool {
        self.token || self.phase is TryProcess || self.phase is Process
    }

    /// How many steps of its own a thread that is bound to poll its future takes at most until it
    /// does.
    pub open spec fn distance(self) -> nat {
        match self.phase {
            Phase::Poll => 3,
            Phase::TryProcess => 2,
            Phase::Process => 1,
            Phase::TryLock => 2,
            Phase::Arm { .. } => 1,
            Phase::React { .. } => if self.waiting {
                2
            } else {
                1
            },
            Phase::Yield => 1,
            Phase::Park => 1,
            Phase::Done => 0,
        }
    }
}

/// The blocking ends with the first poll that finds the future ready: after that, the thread takes
/// no step, and so polls no more and gives no other value.
pub proof fn law_blocking_ends_when_ready(waiter: Waiter, event: WaiterEvent)
    requires
        waiter.can(event),
    ensures
        event is Ready ==> waiter.phase is Poll && waiter.after(event).phase is Done,
        !(event is Ready) && !(waiter.phase is Done) ==> !(waiter.after(event).phase is Done),
        waiter.phase is Done ==> event is Wake && waiter.after(event).phase is Done,
{
}

/// A wakeup leads to a poll: a thread that has been notified stays bound to poll its future until
/// it does or the blocking ends, each step of its own brings it nearer, and it is not stuck before.
/// If it waits for I/O events, the poller has been notified, and if it waits for a notification, it
/// has one.
pub proof fn law_wakeup_leads_to_poll(waiter: Waiter, event: WaiterEvent)
    requires
        waiter.inv(),
        waiter.can(event),
    ensures
        event is Wake ==> waiter.after(event).is_owed(),
        waiter.is_owed() && (waiter.phase is Poll || !(waiter.after(event).phase is Poll)) ==> {
            &&& waiter.after(event).is_owed()
            &&& event is Wake ==> waiter.after(event).distance() == waiter.distance()
            &&& !(event is Wake) ==> waiter.after(event).distance() < waiter.distance()
        },
        waiter.is_owed() && waiter.waiting ==> waiter.notified,
        waiter.is_owed() && (waiter.phase is Park || waiter.phase is Yield) ==> waiter.can(
            WaiterEvent::Parked,
        ),
{
}

/// A thread stops hogging the reactor: once it has held the lock for more than half a millisecond
/// without a notification, it yields.
pub proof fn law_hogging_ends(start: Instant, now: Instant)
    ensures
        now.nanos > start.nanos + 500_000 <==> Phase::after_react(start, false, now) is Yield,
{
}

/// Processes the I/O events and timers that are ready, without blocking: begins a round of polling
/// with a timeout of zero.
pub fn yield_now(reactor: &mut Reactor, now: Instant) -> (lock: ReactorLock)
    requires
        old(reactor).wf(),
    ensures
        final(reactor).wf(),
        lock.wf(),
        lock@ == (LockView {
            events: Seq::empty(),
            tick: timer::wrapping_succ(old(reactor)@.timers.ticker),
            timeout: Some(Duration { nanos: 0 }),
            wakers: timer::due_wakers(old(reactor)@.timers.timers, now),
        }),
        final(reactor)@ == (ReactorView {
            timers: TimersView {
                timers: timer::pending_timers(old(reactor)@.timers.timers, now),
                ticker: lock@.tick,
                ..old(reactor)@.timers
            },
            ..old(reactor)@
        }),
{
    ReactorLock::react(reactor, Some(Duration::from_secs(0)), now)
}

/// How the helper thread gets hold of the reactor.
#[derive(Clone, Copy, Debug, PartialEq, Eq, Structural)]
pub enum Grab {
    /// It does not: someone else is polling.
    Skip,
    /// It locks the reactor if that is possible at once.
    TryLock,
    /// It locks the reactor, waiting for the lock if necessary.
    Lock,
}

/// How long the helper thread sleeps, in microseconds, after the given number of sleeps.
pub open spec fn backoff_micros(sleeps: u64) -> u64 {
    let delays: Seq<u64> = seq![50, 75, 100, 250, 500, 750, 1000, 2500, 5000];
    if sleeps < delays.len() {
        delays[sleeps as int]
    } else {
        10_000
    }
}

/// The loop of the helper thread.
#[derive(Clone, Copy, Debug, PartialEq, Eq, Structural)]
pub struct MainLoop {
    /// The last observed reactor tick.
    pub last_tick: usize,
    /// Number of sleeps since this thread has polled the reactor.
    pub sleeps: u64,
}

impl MainLoop {
    /// The loop of a thread that has just been spawned.
    pub fn new() -> (main_loop: MainLoop)
        ensures
            main_loop == (MainLoop { last_tick: 0, sleeps: 0 }),
    {
        MainLoop { last_tick: 0, sleeps: 0 }
    }

    /// Begins a turn, in which the reactor's tick is `tick`.
    pub fn turn(&mut self, tick: usize) -> (grab: Grab)
        ensures
            *final(self) == (MainLoop { last_tick: tick, ..*old(self) }),
            grab == if old(self).last_tick != tick {
                Grab::Skip
            } else if old(self).sleeps >= PATIENCE {
                Grab::Lock
            } else {
                Grab::TryLock
            },
    {
        if self.last_tick == tick {
            if self.sleeps >= PATIENCE {
                // If no new ticks have occurred for a while, stop sleeping and spinning in this
                // loop and just block on the reactor lock.
                Grab::Lock
            } else {
                Grab::TryLock
            }
        } else {
            self.last_tick = tick;
            Grab::Skip
        }
    }

    /// A round of polling has ended, and the reactor's tick is `tick`.
    pub fn reacted(&mut self, tick: usize)
        ensures
            *final(self) == (MainLoop { last_tick: tick, sleeps: 0 }),
    {
        self.last_tick = tick;
        self.sleeps = 0;
    }

    /// Returns how long to sleep: not at all if no thread blocks on a future.
    pub fn delay(&self, block_on_count: BlockOnCount) -> (delay: Option<Duration>)
        ensures
            delay == if block_on_count.count > 0 {
                Some(Duration { nanos: (backoff_micros(self.sleeps) * 1_000) as u128 })
            } else {
                None
            },
    {
        if block_on_count.count > 0 {
            // Exponential backoff from 50us to 10ms.
            let delays: [u64; 9] = [50, 75, 100, 250, 500, 750, 1000, 2500, 5000];
            let delay_us: u64 = if self.sleeps < 9 {
                delays[self.sleeps as usize]
            } else {
                10_000
            };
            assert(delays@ =~= seq![50, 75, 100, 250, 500, 750, 1000, 2500, 5000]);
            Some(Duration::from_micros(delay_us))
        } else {
            None
        }
    }

    /// The thread has slept, until it was notified or to the end. The reactor's tick is `tick`.
    pub fn slept(&mut self, notified: bool, tick: usize)
        requires
            old(self).sleeps < u64::MAX,
        ensures
            *final(self) == if notified {
                MainLoop { last_tick: tick, sleeps: 0 }
            } else {
                MainLoop { sleeps: (old(self).sleeps + 1) as u64, ..*old(self) }
            },
    {
        if notified {
            // If notified before timeout, reset the last tick and the sleep counter.
            self.last_tick = tick;
            self.sleeps = 0;
        } else {
            self.sleeps = self.sleeps + 1;
        }
    }
}

/// The helper thread backs off from 50 microseconds to 10 milliseconds, never sleeping less than
/// before.
pub proof fn law_backoff_grows(fewer: u64, more: u64)
    requires
        fewer <= more,
    ensures
        50 <= backoff_micros(fewer) <= backoff_micros(more) <= 10_000,
        backoff_micros(0) == 50,
        more >= 9 ==> backoff_micros(more) == 10_000,
{
}

/// The count begins with nobody. Entering adds one thread and leaving takes one off, so leaving
/// undoes entering, and whoever leaves has the helper thread unparked.
pub proof fn law_threads_are_counted(
    none: BlockOnCount,
    entered: &mut BlockOnCount,
    left: &mut BlockOnCount,
    unpark: bool,
    other: &mut BlockOnCount,
    also: bool,
)
    requires
        call_ensures(BlockOnCount::new, (), none),
        call_ensures(BlockOnCount::enter, (entered,), ()),
        *old(left) == *final(entered),
        call_ensures(BlockOnCount::leave, (left,), unpark),
        call_ensures(BlockOnCount::leave, (other,), also),
    ensures
        none.count == 0,
        old(entered).count < usize::MAX ==> final(entered).count == old(entered).count + 1,
        *final(left) == *old(entered),
        old(other).count > 0 ==> final(other).count == old(other).count - 1,
        unpark && also,
{
}

/// A thread that blocks on a future polls it first. Once the future is ready, the blocking ends with
/// exactly its value.
pub proof fn law_blocking_gives_the_value<T>(
    begun: BlockOnLoop,
    ended: &mut BlockOnLoop,
    value: T,
    result: T,
)
    requires
        call_ensures(block_on, (), begun),
        *old(ended) == begun,
        call_ensures(BlockOnLoop::ready::<T>, (ended, value), result),
    ensures
        begun.phase is Poll,
        result == value,
        final(ended).phase is Done,
{
}

/// After a poll that was pending, a thread that has been notified polls again, once it has processed
/// the events that are available if it can lock the reactor. One that has not been notified tries to
/// lock the reactor, to wait for events or else for a notification.
pub proof fn law_pending_thread_goes_on(
    pending: &mut BlockOnLoop,
    notified: bool,
    tried: &mut BlockOnLoop,
    locked: bool,
    processed: &mut BlockOnLoop,
    waits: &mut BlockOnLoop,
    now: Instant,
)
    requires
        old(pending).phase is Poll,
        call_ensures(BlockOnLoop::pending, (pending, notified), ()),
        old(tried).phase is TryProcess,
        call_ensures(BlockOnLoop::tried_process, (tried, locked), ()),
        old(processed).phase is Process,
        call_ensures(BlockOnLoop::processed, (processed,), ()),
        old(waits).phase is TryLock,
        call_ensures(BlockOnLoop::tried_lock, (waits, locked, now), ()),
    ensures
        notified ==> final(pending).phase is TryProcess,
        !notified ==> final(pending).phase is TryLock,
        locked ==> final(tried).phase is Process,
        !locked ==> final(tried).phase is Poll,
        final(processed).phase is Poll,
        locked ==> final(waits).phase == (Phase::Arm { start: now }),
        !locked ==> final(waits).phase is Park,
{
}

/// A thread that waits for events polls its future as soon as it is notified, before a round of
/// polling or after it. Without a notification it goes on, counting from when it locked the reactor,
/// and yields once that is more than half a millisecond ago. Whoever waits for a notification polls
/// when it comes.
pub proof fn law_waiting_thread_goes_on(
    armed: &mut BlockOnLoop,
    reacted: &mut BlockOnLoop,
    notified: bool,
    start: Instant,
    now: Instant,
    parked: &mut BlockOnLoop,
)
    requires
        old(armed).phase == (Phase::Arm { start }),
        call_ensures(BlockOnLoop::armed, (armed, notified), ()),
        old(reacted).phase == (Phase::React { start }),
        call_ensures(BlockOnLoop::reacted, (reacted, notified, now), ()),
        old(parked).phase is Park || old(parked).phase is Yield,
        call_ensures(BlockOnLoop::parked, (parked,), ()),
    ensures
        notified ==> final(armed).phase is Poll && final(reacted).phase is Poll,
        !notified ==> final(armed).phase == (Phase::React { start }),
        !notified && now.nanos > start.nanos + 500_000 ==> final(reacted).phase is Yield,
        !notified && now.nanos <= start.nanos + 500_000 ==> final(reacted).phase == (Phase::Arm {
            start,
        }),
        final(parked).phase is Poll,
{
}

/// A thread may be blocked on events from when it has locked the reactor to wait until it polls its
/// future again or has yielded, and it handles events then and while it processes those that are
/// available. A wakeup notifies the reactor exactly if it is the first one, comes from a thread that
/// does not handle events, and is for one that may be blocked on them.
pub proof fn law_wakeups_interrupt_blocked_threads(
    thread: BlockOnLoop,
    io_polling: bool,
    io_blocked: bool,
    unparked: bool,
    waker_polls: bool,
    notify: bool,
)
    requires
        call_ensures(BlockOnLoop::io_polling, (&thread,), io_polling),
        call_ensures(BlockOnLoop::io_blocked, (&thread,), io_blocked),
        call_ensures(wake, (unparked, waker_polls, io_blocked), notify),
    ensures
        match thread.phase {
            Phase::Arm { .. } => io_blocked && io_polling,
            Phase::React { .. } => io_blocked && io_polling,
            Phase::Yield => io_blocked && io_polling,
            Phase::Process => !io_blocked && io_polling,
            _ => !io_blocked && !io_polling,
        },
        !unparked ==> !notify,
        waker_polls ==> !notify,
        !io_blocked ==> !notify,
        unparked && !waker_polls && io_blocked ==> notify,
{
}

/// Yielding begins a round of polling as any other with a timeout of zero, so it does not block.
pub proof fn law_yielding_does_not_block(
    reactor: &mut Reactor,
    now: Instant,
    lock: ReactorLock,
    same: &mut Reactor,
    timeout: Duration,
    other: ReactorLock,
)
    requires
        old(reactor).wf() && old(same).wf(),
        call_ensures(yield_now, (reactor, now), lock),
        old(same)@ == old(reactor)@,
        timeout.nanos == 0,
        call_ensures(ReactorLock::react, (same, Some(timeout), now), other),
    ensures
        lock@.timeout matches Some(time) && time.nanos == 0,
        lock@.timeout == other@.timeout,
        lock@.tick == other@.tick && lock@.events == other@.events && lock@.wakers == other@.wakers,
        final(reactor)@ == final(same)@,
{
}

/// The helper thread polls only if nobody else has polled since its last turn. It is patient then,
/// and waits for the lock only after it has slept ten times without polling. A turn remembers the
/// tick and does not change how often the thread has slept.
pub proof fn law_helper_thread_is_patient(main_loop: &mut MainLoop, tick: usize, grab: Grab)
    requires
        call_ensures(MainLoop::turn, (main_loop, tick), grab),
    ensures
        final(main_loop).last_tick == tick,
        final(main_loop).sleeps == old(main_loop).sleeps,
        old(main_loop).last_tick != tick <==> grab is Skip,
        old(main_loop).last_tick == tick && old(main_loop).sleeps >= 10 <==> grab is Lock,
        old(main_loop).last_tick == tick && old(main_loop).sleeps < 10 <==> grab is TryLock,
{
}

/// How long the helper thread sleeps, in microseconds: not at all unless a thread blocks on a future,
/// and else longer and longer, from 50 microseconds to 10 milliseconds.
pub proof fn law_helper_thread_backs_off(
    main_loop: MainLoop,
    count: BlockOnCount,
    delay: Option<Duration>,
    micros: u64,
    duration: Duration,
)
    requires
        call_ensures(MainLoop::delay, (&main_loop, count), delay),
        call_ensures(Duration::from_micros, (micros,), duration),
    ensures
        delay is Some <==> count.count > 0,
        delay == Some(duration) ==> {
            let sleeps = main_loop.sleeps;
            &&& sleeps == 0 <==> micros == 50
            &&& sleeps == 1 <==> micros == 75
            &&& sleeps == 2 <==> micros == 100
            &&& sleeps == 3 <==> micros == 250
            &&& sleeps == 4 <==> micros == 500
            &&& sleeps == 5 <==> micros == 750
            &&& sleeps == 6 <==> micros == 1_000
            &&& sleeps == 7 <==> micros == 2_500
            &&& sleeps == 8 <==> micros == 5_000
            &&& sleeps >= 9 <==> micros == 10_000
        },
        delay matches Some(time) ==> 50_000 <= time.nanos <= 10_000_000 && time.nanos % 1_000 == 0,
{
}

/// The helper thread counts its sleeps from when it last polled or was notified. A sleep that ends
/// without a notification adds one, and leaves the tick that the thread remembers.
pub proof fn law_helper_thread_counts_its_sleeps(
    created: MainLoop,
    slept: &mut MainLoop,
    notified: bool,
    reacted: &mut MainLoop,
    tick: usize,
)
    requires
        call_ensures(MainLoop::new, (), created),
        old(slept).sleeps < u64::MAX,
        call_ensures(MainLoop::slept, (slept, notified, tick), ()),
        call_ensures(MainLoop::reacted, (reacted, tick), ()),
    ensures
        created.sleeps == 0 && created.last_tick == 0,
        notified ==> final(slept).sleeps == 0 && final(slept).last_tick == tick,
        !notified ==> final(slept).sleeps == old(slept).sleeps + 1 && final(slept).last_tick
            == old(slept).last_tick,
        final(reacted).sleeps == 0 && final(reacted).last_tick == tick,
{
}

} // verus!
