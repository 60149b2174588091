//! Thread parking and unparking.
//!
//! A parker waits on the reactor and wakes futures blocked on I/O or timers instead of just
//! sleeping. Executors may use this mechanism to go to sleep when idle and wake up when more work
//! is scheduled. The benefit is in that when going to sleep, futures blocked on I/O or timers will
//! often be woken and polled by the same executor thread.
use crate::reactor::timer;
use crate::time::{self, Duration, Instant};
use vstd::prelude::*;

pub mod world;

verus! {

/// The parkers that exist.
#[derive(Clone, Copy, Debug, PartialEq, Eq, Structural)]
pub struct Parkers {
    /// The number of parkers.
    pub count: usize,
    /// The number that the next parker gets.
    pub next_id: usize,
}

impl Parkers {
    /// No parker exists.
    pub fn new() -> (parkers: Parkers)
        ensures
            parkers == (Parkers { count: 0, next_id: 0 }),
    {
        Parkers { count: 0, next_id: 0 }
    }

    /// Counts a parker that is created.
    pub fn increment_parkers(&mut self)
        ensures
            *final(self) == (Parkers {
                count: timer::wrapping_succ(old(self).count),
                ..*old(self)
            }),
    {
        self.count = self.count.wrapping_add(1);
    }

    /// Uncounts a parker that is dropped.
    pub fn decrement_parkers(&mut self)
        ensures
            final(self).next_id == old(self).next_id,
            old(self).count == timer::wrapping_succ(final(self).count),
    {
        self.count = self.count.wrapping_sub(1);
    }
}

/// Waits for a notification.
#[derive(Debug, PartialEq, Eq, Structural)]
pub struct Parker {
    /// The number of the parker.
    pub id: usize,
    /// Set to `true` when the parker is polling I/O.
    pub io: bool,
}

/// Notifies a parker.
#[derive(Clone, Copy, Debug, PartialEq, Eq, Structural)]
pub struct Unparker {
    /// The number of the parker.
    pub id: usize,
}

/// Creates a parker and an associated unparker.
pub fn pair(parkers: &mut Parkers) -> (pair: (Parker, Unparker))
    ensures
        pair.0 == (Parker { id: old(parkers).next_id, io: false }),
        pair.1 == (Unparker { id: pair.0.id }),
        *final(parkers) == (Parkers {
            count: timer::wrapping_succ(old(parkers).count),
            next_id: timer::wrapping_succ(old(parkers).next_id),
        }),
{
    let parker = Parker::new(parkers);
    let unparker = parker.unparker();
    (parker, unparker)
}

impl Parker {
    /// Creates a new parker.
    pub fn new(parkers: &mut Parkers) -> (parker: Parker)
        ensures
            parker == (Parker { id: old(parkers).next_id, io: false }),
            *final(parkers) == (Parkers {
                count: timer::wrapping_succ(old(parkers).count),
                next_id: timer::wrapping_succ(old(parkers).next_id),
            }),
    {
        let id: usize = parkers.next_id;
        parkers.next_id = id.wrapping_add(1);
        parkers.increment_parkers();
        Parker { id, io: false }
    }

    /// Drops the parker.
    pub fn close(self, parkers: &mut Parkers)
        ensures
            final(parkers).next_id == old(parkers).next_id,
            old(parkers).count == timer::wrapping_succ(final(parkers).count),
    {
        parkers.decrement_parkers();
    }

    /// Blocks until notified and then goes back into unnotified state.
    pub fn park(&self) -> (park: Park)
        ensures
            park == (Park { timeout: None, phase: ParkPhase::Check }),
    {
        self.park_inner(None)
    }

    /// Blocks until notified and then goes back into unnotified state, or times out after
    /// `timeout`.
    ///
    /// Gives `true` if notified before the timeout.
    pub fn park_timeout(&self, timeout: Duration) -> (park: Park)
        ensures
            park == (Park { timeout: Some(timeout), phase: ParkPhase::Check }),
    {
        self.park_inner(Some(timeout))
    }

    /// Blocks until notified and then goes back into unnotified state, or times out at `deadline`.
    ///
    /// Gives `true` if notified before the deadline.
    pub fn park_deadline(&self, deadline: Instant, now: Instant) -> (park: Park)
        ensures
            park == (Park {
                timeout: Some(time::time_between(now, deadline)),
                phase: ParkPhase::Check,
            }),
    {
        self.park_inner(Some(deadline.saturating_duration_since(now)))
    }

    /// Begins to park.
    fn park_inner(&self, timeout: Option<Duration>) -> (park: Park)
        ensures
            park == (Park { timeout, phase: ParkPhase::Check }),
    {
        Park { timeout, phase: ParkPhase::Check }
    }

    /// Notifies the parker.
    ///
    /// `unparked` tells whether the parker was not notified before. Returns `true` if the reactor
    /// has to be notified.
    pub fn unpark(&self, unparked: bool) -> (notify: bool)
        ensures
            notify == (unparked && self.io),
    {
        unparked && self.io
    }

    /// Returns a handle for unparking.
    pub fn unparker(&self) -> (unparker: Unparker)
        ensures
            unparker == (Unparker { id: self.id }),
    {
        Unparker { id: self.id }
    }
}

impl Unparker {
    /// Notifies the associated parker.
    ///
    /// `unparked` tells whether the parker was not notified before, and `io` whether it is polling
    /// I/O. Returns `true` if the reactor has to be notified.
    pub fn unpark(&self, unparked: bool, io: bool) -> (notify: bool)
        ensures
            notify == (unparked && io),
    {
        unparked && io
    }
}

/// What a parking thread has to do next.
#[derive(Clone, Copy, Debug, PartialEq, Eq, Structural)]
pub enum ParkPhase {
    /// Check for a notification without blocking.
    Check,
    /// Process the I/O events that are available, if the reactor can be locked at once, and end
    /// with this result.
    Process { notified: bool },
    /// Compute the deadline from the current time.
    ReadClock,
    /// Try to lock the reactor.
    TryLock { deadline: Option<Instant> },
    /// Wait for a notification, or until the deadline.
    Wait { deadline: Option<Instant> },
    /// Check for a notification before waiting for I/O events.
    Arm { deadline: Option<Instant> },
    /// Wait for I/O events with the given timeout.
    React { timeout: Option<Duration>, deadline: Option<Instant> },
    /// Parking has ended: `true` if notified.
    Done { notified: bool },
}

/// What a parking thread has found out.
pub enum ParkEvent {
    /// Whether there was a notification.
    Checked { notified: bool },
    /// The available I/O events have been processed.
    Processed,
    /// The current time.
    Clock { now: Instant },
    /// Whether the reactor has been locked.
    TriedLock { locked: bool },
    /// Whether a notification was received before the deadline.
    Waited { notified: bool },
    /// Whether there was a notification before others knew of the polling, and the current time.
    Armed { notified: bool, now: Instant },
    /// Whether a notification was received while polling, and the current time.
    Reacted { notified: bool, now: Instant },
}

/// A thread that is parking.
#[derive(Clone, Copy, Debug, PartialEq, Eq, Structural)]
pub struct Park {
    /// How long the thread parks at most.
    pub timeout: Option<Duration>,
    /// What the thread has to do next.
    pub phase: ParkPhase,
}

impl Park {
    /// Whether the thread waits for such an event.
    pub open spec fn expects(self, event: ParkEvent) -> bool {
        match event {
            ParkEvent::Checked { .. } => self.phase is Check,
            ParkEvent::Processed => self.phase is Process,
            ParkEvent::Clock { .. } => self.phase is ReadClock,
            ParkEvent::TriedLock { .. } => self.phase is TryLock,
            ParkEvent::Waited { .. } => self.phase is Wait,
            ParkEvent::Armed { .. } => self.phase is Arm,
            ParkEvent::Reacted { .. } => self.phase is React,
        }
    }

    /// What the thread has to do after an event.
    pub open spec fn after(self, event: ParkEvent) -> ParkPhase {
        match (self.phase, event) {
            (ParkPhase::Check, ParkEvent::Checked { notified }) => if notified {
                ParkPhase::Process { notified: true }
            } else if self.timeout == Some(Duration { nanos: 0 }) {
                ParkPhase::Process { notified: false }
            } else {
                ParkPhase::ReadClock
            },
            (ParkPhase::Process { notified }, ParkEvent::Processed) => ParkPhase::Done { notified },
            (ParkPhase::ReadClock, ParkEvent::Clock { now }) => ParkPhase::TryLock {
                deadline: match self.timeout {
                    Some(t) => time::instant_after(now, t),
                    None => None,
                },
            },
            (ParkPhase::TryLock { deadline }, ParkEvent::TriedLock { locked }) => if locked {
                ParkPhase::Arm { deadline }
            } else {
                ParkPhase::Wait { deadline }
            },
            (ParkPhase::Wait { deadline }, ParkEvent::Waited { notified }) => ParkPhase::Done {
                notified: notified || deadline is None,
            },
            (ParkPhase::Arm { deadline }, ParkEvent::Armed { notified, now }) => if notified {
                ParkPhase::Done { notified: true }
            } else {
                ParkPhase::React {
                    timeout: match deadline {
                        Some(deadline) => Some(time::time_between(now, deadline)),
                        None => None,
                    },
                    deadline,
                }
            },
            (
                ParkPhase::React { deadline, .. },
                ParkEvent::Reacted { notified, now },
            ) => if notified {
                ParkPhase::Done { notified: true }
            } else if deadline matches Some(deadline) && now.nanos >= deadline.nanos {
                ParkPhase::Done { notified: false }
            } else {
                ParkPhase::TryLock { deadline }
            },
            _ => self.phase,
        }
    }

    /// Whether a parker says that it is polling I/O exactly while it is.
    pub open spec fn io_agrees(self, parker: Parker) -> bool {
        parker.io == (self.phase is Arm || self.phase is React)
    }

    /// There has been a check for a notification.
    pub fn checked(&mut self, notified: bool)
        requires
            old(self).expects(ParkEvent::Checked { notified }),
        ensures
            *final(self) == (Park {
                phase: old(self).after(ParkEvent::Checked { notified }),
                ..*old(self)
            }),
    {
        // If the thread was previously notified then it consumes this notification and returns
        // quickly.
        if notified {
            self.phase = ParkPhase::Process { notified: true };
            return ;
        }
        // If the timeout is zero, then there is no need to actually block.
        if let Some(timeout) = self.timeout {
            if timeout.nanos == 0 {
                self.phase = ParkPhase::Process { notified: false };
                return ;
            }
        }
        // Otherwise, it needs to coordinate going to sleep.
        self.phase = ParkPhase::ReadClock;
    }

    /// The I/O events that were available have been processed, if the reactor could be locked.
    pub fn processed(&mut self)
        requires
            old(self).expects(ParkEvent::Processed),
        ensures
            *final(self) == (Park { phase: old(self).after(ParkEvent::Processed), ..*old(self) }),
    {
        if let ParkPhase::Process { notified } = self.phase {
            self.phase = ParkPhase::Done { notified };
        }
    }

    /// The current time is `now`. If the clock does not reach to the end of the timeout, parking
    /// has no deadline.
    pub fn clock(&mut self, now: Instant)
        requires
            old(self).expects(ParkEvent::Clock { now }),
        ensures
            *final(self) == (Park {
                phase: old(self).after(ParkEvent::Clock { now }),
                ..*old(self)
            }),
    {
        let deadline = match self.timeout {
            Some(timeout) => now.checked_add(timeout),
            None => None,
        };
        self.phase = ParkPhase::TryLock { deadline };
    }

    /// There has been an attempt to lock the reactor.
    ///
    /// If it is locked, others are let know that this parker is waiting on I/O.
    pub fn tried_lock(&mut self, parker: &mut Parker, locked: bool)
        requires
            old(self).expects(ParkEvent::TriedLock { locked }),
            old(self).io_agrees(*old(parker)),
        ensures
            *final(self) == (Park {
                phase: old(self).after(ParkEvent::TriedLock { locked }),
                ..*old(self)
            }),
            final(parker).id == old(parker).id,
            final(self).io_agrees(*final(parker)),
    {
        if let ParkPhase::TryLock { deadline } = self.phase {
            if locked {
                parker.io = true;
                self.phase = ParkPhase::Arm { deadline };
            } else {
                self.phase = ParkPhase::Wait { deadline };
            }
        }
    }

    /// The thread has waited for a notification, or until the deadline. Without a deadline it can
    /// only have been notified.
    pub fn waited(&mut self, notified: bool)
        requires
            old(self).expects(ParkEvent::Waited { notified }),
        ensures
            *final(self) == (Park {
                phase: old(self).after(ParkEvent::Waited { notified }),
                ..*old(self)
            }),
    {
        if let ParkPhase::Wait { deadline } = self.phase {
            self.phase = ParkPhase::Done { notified: notified || deadline.is_none() };
        }
    }

    /// There has been a check for a notification after others were let know of the polling.
    pub fn armed(&mut self, parker: &mut Parker, notified: bool, now: Instant)
        requires
            old(self).expects(ParkEvent::Armed { notified, now }),
            old(self).io_agrees(*old(parker)),
        ensures
            *final(self) == (Park {
                phase: old(self).after(ParkEvent::Armed { notified, now }),
                ..*old(self)
            }),
            final(parker).id == old(parker).id,
            final(self).io_agrees(*final(parker)),
    {
        if let ParkPhase::Arm { deadline } = self.phase {
            if notified {
                parker.io = false;
                self.phase = ParkPhase::Done { notified: true };
            } else {
                // Wait for I/O events.
                let timeout = match deadline {
                    Some(deadline) => Some(deadline.saturating_duration_since(now)),
                    None => None,
                };
                self.phase = ParkPhase::React { timeout, deadline };
            }
        }
    }

    /// A round of polling has ended, and there has been a check for a notification.
    pub fn reacted(&mut self, parker: &mut Parker, notified: bool, now: Instant)
        requires
            old(self).expects(ParkEvent::Reacted { notified, now }),
            old(self).io_agrees(*old(parker)),
        ensures
            *final(self) == (Park {
                phase: old(self).after(ParkEvent::Reacted { notified, now }),
                ..*old(self)
            }),
            final(parker).id == old(parker).id,
            final(self).io_agrees(*final(parker)),
    {
        parker.io = false;
        if let ParkPhase::React { deadline, .. } = self.phase {
            // Check if a notification was received.
            if notified {
                self.phase = ParkPhase::Done { notified: true };
                return ;
            }
            // Check for timeout.
            if let Some(deadline) = deadline {
                if now.nanos >= deadline.nanos {
                    self.phase = ParkPhase::Done { notified: false };
                    return ;
                }
            }
            self.phase = ParkPhase::TryLock { deadline };
        }
    }

    /// Whether the phase fits the timeout: there is a deadline only if there is a timeout, which
    /// may also be too long for one, and parking can only end without a notification if there is a
    /// timeout.
    pub open spec fn wf(self) -> bool {
        match self.phase {
            ParkPhase::Process { notified } => !notified ==> self.timeout == Some(
                Duration { nanos: 0 },
            ),
            ParkPhase::TryLock { deadline } => deadline is Some ==> self.timeout is Some,
            ParkPhase::Wait { deadline } => deadline is Some ==> self.timeout is Some,
            ParkPhase::Arm { deadline } => deadline is Some ==> self.timeout is Some,
            ParkPhase::React { timeout, deadline } => (deadline is Some ==> self.timeout is Some)
                && (timeout is Some <==> deadline is Some),
            ParkPhase::Done { notified } => !notified ==> self.timeout is Some,
            _ => true,
        }
    }
}

/// Parking keeps the phase fitting the timeout, whatever happens. So parking without a timeout
/// never ends without a notification.
pub proof fn law_parking_without_timeout_ends_notified(park: Park, event: ParkEvent)
    requires
        park.wf(),
        park.expects(event),
    ensures
        (Park { phase: park.after(event), ..park }).wf(),
        park.timeout is None ==> park.after(event) != (ParkPhase::Done { notified: false }),
{
}

impl ParkPhase {
    /// Whether the thread has read the clock and goes on without a deadline, or has been notified.
    pub open spec fn is_endless(self) -> bool {
        match self {
            ParkPhase::TryLock { deadline } => deadline is None,
            ParkPhase::Wait { deadline } => deadline is None,
            ParkPhase::Arm { deadline } => deadline is None,
            ParkPhase::React { timeout, deadline } => timeout is None && deadline is None,
            ParkPhase::Done { notified } => notified,
            _ => false,
        }
    }
}

/// Parking blocks until notified if the timeout is too long for the clock, such as the longest
/// duration: it goes on without a deadline from the time it reads the clock, and only a
/// notification ends it.
pub proof fn law_endless_timeout_blocks_until_notified(park: Park, event: ParkEvent, now: Instant)
    requires
        park.expects(event),
    ensures
        time::instant_after(now, Duration { nanos: time::MAX_DURATION_NANOS }) is None,
        event == (ParkEvent::Clock { now }) && (park.timeout matches Some(t)
            && time::instant_after(now, t) is None) ==> park.after(event) == (ParkPhase::TryLock {
            deadline: None,
        }),
        park.phase.is_endless() ==> park.after(event).is_endless(),
{
}

/// Parkers have different numbers: those of any two that are created one after the other, with
/// others in between or not, differ, as long as no more are created than there are numbers.
pub proof fn law_parkers_have_different_numbers(parkers: Parkers, i: nat, j: nat)
    requires
        i < j <= usize::MAX,
    ensures
        timer::nth_after(parkers.next_id, i) != timer::nth_after(parkers.next_id, j),
{
    timer::law_numbers_differ(parkers.next_id, i, j);
}

/// Whether an event brings a notification.
pub open spec fn is_notification(event: ParkEvent) -> bool {
    match event {
        ParkEvent::Checked { notified } => notified,
        ParkEvent::Waited { notified } => notified,
        ParkEvent::Armed { notified, .. } => notified,
        ParkEvent::Reacted { notified, .. } => notified,
        _ => false,
    }
}

/// Parking consumes a notification exactly if it ends with `true`: an event that brings one decides
/// the result, and no other event does, but for a wait that can end in no other way.
pub proof fn law_result_tells_of_notification(park: Park, event: ParkEvent)
    requires
        park.wf(),
        park.expects(event),
        !(park.phase is Process),
    ensures
        is_notification(event) ==> park.after(event) == (ParkPhase::Done { notified: true })
            || park.after(event) == (ParkPhase::Process { notified: true }),
        !is_notification(event) && (park.after(event) == (ParkPhase::Done { notified: true })
            || park.after(event) == (ParkPhase::Process { notified: true })) ==> park.phase
            == (ParkPhase::Wait { deadline: None }),
{
}

/// Parking times out no earlier than asked: a round of polling that ends it without a notification
/// ends at the deadline or later, and the polling is never told to last beyond the deadline.
pub proof fn law_parking_does_not_time_out_early(
    park: Park,
    deadline: Instant,
    notified: bool,
    now: Instant,
)
    requires
        park.phase == (ParkPhase::Arm { deadline: Some(deadline) }),
    ensures
        ({
            let armed = park.after(ParkEvent::Armed { notified: false, now });
            &&& armed == (ParkPhase::React {
                timeout: Some(time::time_between(now, deadline)),
                deadline: Some(deadline),
            })
            &&& forall|later: Instant|
                (#[trigger] (Park { phase: armed, ..park }).after(
                    ParkEvent::Reacted { notified, now: later },
                )) == (ParkPhase::Done { notified: false }) <==> !notified && later.nanos
                    >= deadline.nanos
        }),
{
}

/// A zero timeout never blocks: parking then ends after one check for a notification and one look
/// at the I/O events that are available.
pub proof fn law_zero_timeout_does_not_block(notified: bool)
    ensures
        ({
            let park = Park { timeout: Some(Duration { nanos: 0 }), phase: ParkPhase::Check };
            let checked = park.after(ParkEvent::Checked { notified });
            &&& checked == (ParkPhase::Process { notified })
            &&& (Park { phase: checked, ..park }).after(ParkEvent::Processed) == (ParkPhase::Done {
                notified,
            })
        }),
{
}

impl ParkPhase {
    /// The deadline with which the thread goes on, once it has read the clock and as long as parking
    /// has not ended.
    pub open spec fn holds_deadline(self, deadline: Option<Instant>) -> bool {
        match self {
            ParkPhase::TryLock { deadline: held } => held == deadline,
            ParkPhase::Wait { deadline: held } => held == deadline,
            ParkPhase::Arm { deadline: held } => held == deadline,
            ParkPhase::React { deadline: held, .. } => held == deadline,
            ParkPhase::Done { .. } => true,
            _ => false,
        }
    }
}

/// The deadline of parking is the end of the timeout, counted from when the clock is read, if the
/// clock reaches so far. Without a timeout there is none.
pub proof fn law_deadline_is_the_end_of_the_timeout(park: &mut Park, now: Instant)
    requires
        old(park).phase is ReadClock,
        call_ensures(Park::clock, (park, now), ()),
    ensures
        final(park).timeout == old(park).timeout,
        final(park).phase matches ParkPhase::TryLock { deadline } && match old(park).timeout {
            Some(timeout) => match deadline {
                Some(end) => end.nanos == now.nanos + timeout.nanos,
                None => now.nanos + timeout.nanos > time::MAX_INSTANT_NANOS,
            },
            None => deadline is None,
        },
{
}

/// No attempt to lock the reactor, whether it succeeds or not, changes or drops the deadline. What
/// follows is a check before polling if the reactor is locked, and a wait if it is not, and exactly
/// in the first case others are let know that the parker is polling.
pub proof fn law_lock_attempt_keeps_the_deadline(
    park: &mut Park,
    parker: &mut Parker,
    locked: bool,
    deadline: Option<Instant>,
)
    requires
        old(park).phase == (ParkPhase::TryLock { deadline }),
        !old(parker).io,
        call_ensures(Park::tried_lock, (park, parker, locked), ()),
    ensures
        final(park).timeout == old(park).timeout,
        final(park).phase.holds_deadline(deadline),
        locked <==> final(park).phase is Arm,
        !locked <==> final(park).phase is Wait,
        final(parker).io == locked,
        final(parker).id == old(parker).id,
{
}

/// A wait without the reactor ends parking: with `true` if there was a notification, and with
/// `false` if there was none and the deadline ended it. Without a deadline nothing else than a
/// notification can have ended it.
pub proof fn law_wait_ends_parking(park: &mut Park, notified: bool, deadline: Option<Instant>)
    requires
        old(park).phase == (ParkPhase::Wait { deadline }),
        call_ensures(Park::waited, (park, notified), ()),
    ensures
        final(park).timeout == old(park).timeout,
        final(park).phase matches ParkPhase::Done { notified: result } && {
            &&& notified ==> result
            &&& !notified && deadline is Some ==> !result
            &&& deadline is None ==> result
        },
{
}

/// A round of polling lasts until the deadline at most, which stays as it is: the timeout is what is
/// left of the time, and none without a deadline. A notification ends parking before the round.
pub proof fn law_polling_lasts_until_the_deadline(
    park: &mut Park,
    parker: &mut Parker,
    notified: bool,
    now: Instant,
    deadline: Option<Instant>,
)
    requires
        old(park).phase == (ParkPhase::Arm { deadline }),
        old(parker).io,
        call_ensures(Park::armed, (park, parker, notified, now), ()),
    ensures
        final(park).timeout == old(park).timeout,
        final(parker).id == old(parker).id,
        notified ==> final(park).phase == (ParkPhase::Done { notified: true }) && !final(parker).io,
        !notified ==> final(parker).io && (final(park).phase matches ParkPhase::React {
            timeout,
            deadline: held,
        } && held == deadline && match (timeout, deadline) {
            (Some(left), Some(end)) => if now.nanos <= end.nanos {
                now.nanos + left.nanos == end.nanos
            } else {
                left.nanos == 0
            },
            (None, None) => true,
            _ => false,
        }),
{
}

/// After a round of polling others are let know that it is over. A notification ends parking with
/// `true`, a deadline that has come ends it with `false`, and otherwise the thread goes on with the
/// same deadline.
pub proof fn law_round_of_polling_keeps_the_deadline(
    park: &mut Park,
    parker: &mut Parker,
    notified: bool,
    now: Instant,
    timeout: Option<Duration>,
    deadline: Option<Instant>,
)
    requires
        old(park).phase == (ParkPhase::React { timeout, deadline }),
        old(parker).io,
        call_ensures(Park::reacted, (park, parker, notified, now), ()),
    ensures
        final(park).timeout == old(park).timeout,
        final(parker).id == old(parker).id,
        !final(parker).io,
        final(park).phase.holds_deadline(deadline),
        notified <==> final(park).phase == (ParkPhase::Done { notified: true }),
        (!notified && (deadline matches Some(end) && end.nanos <= now.nanos)) <==> final(park).phase
            == (ParkPhase::Done { notified: false }),
        final(park).phase is Done || final(park).phase is TryLock,
{
}

/// Before the thread blocks it looks for a notification. With one, or if there is no time to wait,
/// it only looks at the I/O events that are available and ends with what the look gave.
pub proof fn law_parking_looks_before_it_blocks(
    checked: &mut Park,
    notified: bool,
    processed: &mut Park,
)
    requires
        old(checked).phase is Check,
        call_ensures(Park::checked, (checked, notified), ()),
        *old(processed) == *final(checked),
        old(processed).phase is Process ==> call_ensures(Park::processed, (processed,), ()),
    ensures
        final(checked).timeout == old(checked).timeout,
        final(checked).phase is Process <==> notified || (old(checked).timeout matches Some(t)
            && t.nanos == 0),
        final(checked).phase is Process || final(checked).phase is ReadClock,
        final(checked).phase is Process ==> final(processed).phase == (ParkPhase::Done {
            notified,
        }) && final(processed).timeout == old(checked).timeout,
{
}

/// What a thread does that begins to park: `park` has no end, `park_timeout` ends after the timeout,
/// and `park_deadline` ends when the deadline comes, at once if it has come.
pub proof fn law_parking_begins(
    parker: Parker,
    timeout: Duration,
    deadline: Instant,
    now: Instant,
    endless: Park,
    limited: Park,
    until: Park,
)
    requires
        call_ensures(Parker::park, (&parker,), endless),
        call_ensures(Parker::park_timeout, (&parker, timeout), limited),
        call_ensures(Parker::park_deadline, (&parker, deadline, now), until),
    ensures
        endless.phase is Check && limited.phase is Check && until.phase is Check,
        endless.timeout is None,
        limited.timeout == Some(timeout),
        until.timeout matches Some(left) && (if now.nanos <= deadline.nanos {
            now.nanos + left.nanos == deadline.nanos
        } else {
            left.nanos == 0
        }),
{
}

/// Whatever happens, from when the clock is read at `now` a thread that parks for a time goes on with
/// exactly the deadline that lies the time after `now`, until parking ends. So does one that parks
/// without a timeout, which has none.
pub proof fn law_parking_keeps_its_deadline(
    park: Park,
    now: Instant,
    events: Seq<ParkEvent>,
    deadline: Option<Instant>,
)
    requires
        park.phase is ReadClock,
        match park.timeout {
            Some(timeout) => if now.nanos + timeout.nanos <= time::MAX_INSTANT_NANOS {
                deadline matches Some(end) && end.nanos == now.nanos + timeout.nanos
            } else {
                deadline is None
            },
            None => deadline is None,
        },
        events.len() > 0 && events[0] == (ParkEvent::Clock { now }),
        park.follows(events),
    ensures
        park.after_all(events).holds_deadline(deadline),
    decreases events.len(),
{
    let fewer = events.drop_last();
    reveal_with_fuel(Park::after_all, 2);
    if fewer.len() > 0 {
        assert(fewer[0] == events[0]);
        law_parking_keeps_its_deadline(park, now, fewer, deadline);
    } else {
        assert(events.last() == events[0]);
    }
}

impl Park {
    /// What the thread has to do after events.
    pub open spec fn after_all(self, events: Seq<ParkEvent>) -> ParkPhase
        decreases events.len(),
    {
        if events.len() == 0 {
            self.phase
        } else {
            (Park { phase: self.after_all(events.drop_last()), ..self }).after(events.last())
        }
    }

    /// Whether the thread waits for each of the events in turn.
    pub open spec fn follows(self, events: Seq<ParkEvent>) -> bool
        decreases events.len(),
    {
        events.len() > 0 ==> {
            &&& self.follows(events.drop_last())
            &&& (Park { phase: self.after_all(events.drop_last()), ..self }).expects(events.last())
        }
    }
}

/// A thread that waits without the reactor because it could not lock it waits until the deadline that
/// it had when it read the clock, and without a notification parking has then timed out.
pub proof fn law_parking_times_out_without_the_reactor(
    clock: &mut Park,
    now: Instant,
    tried: &mut Park,
    parker: &mut Parker,
    waited: &mut Park,
    timeout: Duration,
)
    requires
        old(clock).phase is ReadClock && old(clock).timeout == Some(timeout),
        now.nanos + timeout.nanos <= time::MAX_INSTANT_NANOS,
        call_ensures(Park::clock, (clock, now), ()),
        *old(tried) == *final(clock) && !old(parker).io,
        call_ensures(Park::tried_lock, (tried, parker, false), ()),
        *old(waited) == *final(tried),
        call_ensures(Park::waited, (waited, false), ()),
    ensures
        old(waited).phase matches ParkPhase::Wait { deadline } && (deadline matches Some(end)
            && end.nanos == now.nanos + timeout.nanos),
        final(waited).phase == (ParkPhase::Done { notified: false }),
{
}

/// Creating a parker counts it, dropping it uncounts it, and neither disturbs the numbers: the first
/// parker has number zero, each has the number after the one before, and an unparker has that of its
/// parker. A new parker does not poll.
pub proof fn law_parkers_are_counted(
    none: Parkers,
    created: &mut Parkers,
    parker: Parker,
    unparker: Unparker,
    paired: &mut Parkers,
    pair: (Parker, Unparker),
    dropped: &mut Parkers,
)
    requires
        call_ensures(Parkers::new, (), none),
        call_ensures(Parker::new, (created,), parker),
        call_ensures(Parker::unparker, (&parker,), unparker),
        *old(paired) == *final(created),
        call_ensures(self::pair, (paired,), pair),
        *old(dropped) == *final(created),
        call_ensures(Parker::close, (parker, dropped), ()),
    ensures
        none.count == 0 && none.next_id == 0,
        parker.id == old(created).next_id && !parker.io,
        unparker.id == parker.id,
        pair.0.id != parker.id,
        parker.id < usize::MAX ==> pair.0.id == parker.id + 1,
        !pair.0.io && pair.1.id == pair.0.id,
        old(created).count < usize::MAX ==> final(created).count == old(created).count + 1,
        old(paired).count < usize::MAX ==> final(paired).count == old(paired).count + 1,
        pair.0.id < usize::MAX ==> final(paired).next_id == pair.0.id + 1,
        final(dropped).count == old(created).count,
        final(dropped).next_id == final(created).next_id,
{
}

/// Counting a parker and uncounting one undo each other, and neither touches the numbers.
pub proof fn law_counting_is_undone(up: &mut Parkers, down: &mut Parkers)
    requires
        call_ensures(Parkers::increment_parkers, (up,), ()),
        *old(down) == *final(up),
        call_ensures(Parkers::decrement_parkers, (down,), ()),
    ensures
        old(up).count < usize::MAX ==> final(up).count == old(up).count + 1,
        *final(down) == *old(up),
        final(up).next_id == old(up).next_id,
{
}

/// The reactor has to be notified exactly for a parker that is polling I/O and was not notified
/// before, whether the parker itself or its unparker notifies it.
pub proof fn law_polling_parkers_are_notified(
    parker: Parker,
    unparker: Unparker,
    unparked: bool,
    notify: (bool, bool),
)
    requires
        call_ensures(Parker::unpark, (&parker, unparked), notify.0),
        call_ensures(Unparker::unpark, (&unparker, unparked, parker.io), notify.1),
    ensures
        notify.0 == notify.1,
        !unparked ==> !notify.0,
        !parker.io ==> !notify.0,
        unparked && parker.io ==> notify.0,
{
}

} // verus!
