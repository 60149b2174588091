//! All parkers together: that a handle notifies its own parker and no other, and that a parked
//! thread that is notified stops parking.
use crate::parking::{Park, ParkEvent, ParkPhase, Parker, Parkers, Unparker};
use crate::reactor::timer;
use crate::time::{Duration, Instant};
use vstd::prelude::*;

verus! {

/// A parker and the thread that parks with it.
pub struct Waiter {
    /// The parker.
    pub parker: Parker,
    /// The parking, which may have ended, if the thread has ever parked.
    pub park: Option<Park>,
    /// The parker has been notified and the notification has not been consumed.
    pub token: bool,
    /// The thread is waiting for I/O events right now.
    pub waiting: bool,
}

/// The parkers that exist.
pub struct World {
    /// The number of parkers and the number that the next one gets.
    pub parkers: Parkers,
    /// The parkers by their numbers.
    pub waiters: Map<usize, Waiter>,
    /// The poller has been notified, and will end the current or the next wait for I/O events.
    pub notified: bool,
}

impl Waiter {
    /// What the thread has to do next. One that has never parked is like one that has stopped.
    pub open spec fn phase(self) -> ParkPhase {
        match self.park {
            Some(park) => park.phase,
            None => ParkPhase::Done { notified: false },
        }
    }

    /// Whether the thread holds the reactor's lock to wait for I/O events.
    pub open spec fn locks(self) -> bool {
        self.phase() is Arm || (self.phase() is React && self.waiting)
    }

    /// What holds of a parker at any time: it says that it polls I/O exactly while it does, and the
    /// thread does not wait through a notification that would not interrupt it.
    pub open spec fn inv(self, notified: bool) -> bool {
        &&& self.parker.io == (self.phase() is Arm || self.phase() is React)
        &&& self.waiting ==> self.phase() is React
        &&& self.waiting && self.token ==> notified
    }

    /// The parker and its thread after the thread has found something out.
    pub open spec fn after_step(self, event: ParkEvent) -> Waiter {
        match self.park {
            Some(park) => {
                let phase = park.after(event);
                Waiter {
                    park: Some(Park { phase, ..park }),
                    parker: Parker { io: phase is Arm || phase is React, ..self.parker },
                    ..self
                }
            },
            None => self,
        }
    }

    /// Whether the parking is bound to end with a notification: there is one, and the parking has
    /// not timed out yet, or it has been consumed.
    pub open spec fn is_owed(self) -> bool {
        ||| self.token && !(self.phase() is Done) && self.phase() != (ParkPhase::Process {
            notified: false,
        })
        ||| self.phase() == (ParkPhase::Process { notified: true })
    }

    /// How many steps of its own a thread that is bound to stop parking takes at most until it does.
    pub open spec fn distance(self) -> nat {
        match self.phase() {
            ParkPhase::Check => 2,
            ParkPhase::Process { .. } => 1,
            ParkPhase::ReadClock => 3,
            ParkPhase::TryLock { .. } => 2,
            ParkPhase::Wait { .. } => 1,
            ParkPhase::Arm { .. } => 1,
            ParkPhase::React { .. } => if self.waiting {
                2
            } else {
                1
            },
            ParkPhase::Done { .. } => 0,
        }
    }

    /// Whether there is no notification, and the last parking did not end with one.
    pub open spec fn is_unnotified(self) -> bool {
        &&& !self.token
        &&& self.phase() != (ParkPhase::Process { notified: true })
        &&& self.phase() != (ParkPhase::Done { notified: true })
    }
}

/// What can happen to the parkers.
pub enum ParkerEvent {
    /// A parker is created.
    Create,
    /// A parker is dropped.
    Close { parker: usize },
    /// A parker is notified by way of a handle.
    Unpark { handle: Unparker },
    /// A thread begins to park.
    Begin { parker: usize, timeout: Option<Duration> },
    /// A parking thread has checked for a notification.
    Checked { parker: usize },
    /// A parking thread has processed the I/O events that were available.
    Processed { parker: usize },
    /// A parking thread has read the clock.
    Clock { parker: usize, now: Instant },
    /// A parking thread has tried to lock the reactor.
    TriedLock { parker: usize, locked: bool },
    /// A parking thread has waited for a notification or until the deadline.
    Waited { parker: usize },
    /// A parking thread has checked for a notification and may wait for I/O events.
    Armed { parker: usize, now: Instant },
    /// A parking thread has received I/O events or a notification.
    Return { parker: usize },
    /// A parking thread has handed out the I/O events and checked for a notification.
    Reacted { parker: usize, now: Instant },
    /// Another thread locks the reactor and waits for I/O events, which may use up the notification
    /// of the poller.
    OtherPolls,
}

impl ParkerEvent {
    /// Whether the event is a step of the thread that parks with the given parker.
    pub open spec fn is_step_of(self, number: usize) -> bool {
        match self {
            ParkerEvent::Checked { parker } => parker == number,
            ParkerEvent::Processed { parker } => parker == number,
            ParkerEvent::Clock { parker, .. } => parker == number,
            ParkerEvent::TriedLock { parker, .. } => parker == number,
            ParkerEvent::Waited { parker } => parker == number,
            ParkerEvent::Armed { parker, .. } => parker == number,
            ParkerEvent::Return { parker } => parker == number,
            ParkerEvent::Reacted { parker, .. } => parker == number,
            _ => false,
        }
    }
}

impl World {
    /// No parker exists.
    pub open spec fn fresh() -> World {
        World {
            parkers: Parkers { count: 0, next_id: 0 },
            waiters: Map::empty(),
            notified: false,
        }
    }

    /// Whether a parker with the given number exists.
    pub open spec fn has(self, parker: usize) -> bool {
        self.waiters.contains_key(parker)
    }

    /// Whether the thread of a parker holds the reactor's lock.
    pub open spec fn locks(self, parker: usize) -> bool {
        self.has(parker) && self.waiters[parker].locks()
    }

    /// What holds of the parkers at any time.
    pub open spec fn inv(self) -> bool {
        &&& forall|p: usize| #[trigger]
            self.has(p) ==> self.waiters[p].inv(self.notified) && self.waiters[p].parker.id == p
                && p < self.parkers.next_id
        &&& forall|p: usize, q: usize| #[trigger]
            self.locks(p) && #[trigger] self.locks(q) ==> p == q
    }

    /// Whether an event can happen now. The reactor's lock excludes the others, and numbers must not
    /// have been used up. A thread that waits without a deadline goes on only when it is notified.
    pub open spec fn can(self, event: ParkerEvent) -> bool {
        match event {
            ParkerEvent::Create => self.parkers.next_id < usize::MAX,
            ParkerEvent::Close { parker } => self.has(parker)
                && self.waiters[parker].phase() is Done,
            ParkerEvent::Unpark { .. } => true,
            ParkerEvent::Begin { parker, .. } => self.has(parker)
                && self.waiters[parker].phase() is Done,
            ParkerEvent::Checked { parker } => self.has(parker)
                && self.waiters[parker].phase() is Check,
            ParkerEvent::Processed { parker } => self.has(parker)
                && self.waiters[parker].phase() is Process,
            ParkerEvent::Clock { parker, .. } => self.has(parker)
                && self.waiters[parker].phase() is ReadClock,
            ParkerEvent::TriedLock { parker, locked } => self.has(parker)
                && self.waiters[parker].phase() is TryLock && (locked ==> forall|q: usize|
                !#[trigger] self.locks(q)),
            ParkerEvent::Waited { parker } => self.has(parker) && (
            self.waiters[parker].phase() matches ParkPhase::Wait { deadline } && (deadline is Some
                || self.waiters[parker].token)),
            ParkerEvent::Armed { parker, .. } => self.has(parker)
                && self.waiters[parker].phase() is Arm,
            ParkerEvent::Return { parker } => self.has(parker) && self.waiters[parker].waiting,
            ParkerEvent::Reacted { parker, .. } => self.has(parker)
                && self.waiters[parker].phase() is React && !self.waiters[parker].waiting,
            ParkerEvent::OtherPolls => forall|q: usize| !#[trigger] self.locks(q),
        }
    }

    /// The world with one parker changed.
    pub open spec fn with(self, parker: usize, waiter: Waiter) -> World {
        World { waiters: self.waiters.insert(parker, waiter), ..self }
    }

    /// The world after an event.
    pub open spec fn after(self, event: ParkerEvent) -> World {
        match event {
            ParkerEvent::Create => World {
                parkers: Parkers {
                    count: timer::wrapping_succ(self.parkers.count),
                    next_id: timer::wrapping_succ(self.parkers.next_id),
                },
                ..self.with(
                    self.parkers.next_id,
                    Waiter {
                        parker: Parker { id: self.parkers.next_id, io: false },
                        park: None,
                        token: false,
                        waiting: false,
                    },
                )
            },
            ParkerEvent::Close { parker } => World {
                parkers: Parkers {
                    count: if self.parkers.count == 0 {
                        usize::MAX
                    } else {
                        (self.parkers.count - 1) as usize
                    },
                    ..self.parkers
                },
                waiters: self.waiters.remove(parker),
                ..self
            },
            ParkerEvent::Unpark { handle } => if self.has(handle.id) {
                let waiter = self.waiters[handle.id];
                World {
                    notified: self.notified || (!waiter.token && waiter.parker.io),
                    ..self
                }.with(handle.id, Waiter { token: true, ..waiter })
            } else {
                self
            },
            ParkerEvent::Begin { parker, timeout } => self.with(
                parker,
                Waiter {
                    park: Some(Park { timeout, phase: ParkPhase::Check }),
                    ..self.waiters[parker]
                },
            ),
            ParkerEvent::Checked { parker } => {
                let waiter = self.waiters[parker];
                self.with(
                    parker,
                    Waiter {
                        token: false,
                        ..waiter.after_step(ParkEvent::Checked { notified: waiter.token })
                    },
                )
            },
            ParkerEvent::Processed { parker } => self.with(
                parker,
                self.waiters[parker].after_step(ParkEvent::Processed),
            ),
            ParkerEvent::Clock { parker, now } => self.with(
                parker,
                self.waiters[parker].after_step(ParkEvent::Clock { now }),
            ),
            ParkerEvent::TriedLock { parker, locked } => self.with(
                parker,
                self.waiters[parker].after_step(ParkEvent::TriedLock { locked }),
            ),
            ParkerEvent::Waited { parker } => {
                let waiter = self.waiters[parker];
                self.with(
                    parker,
                    Waiter {
                        token: false,
                        ..waiter.after_step(ParkEvent::Waited { notified: waiter.token })
                    },
                )
            },
            ParkerEvent::Armed { parker, now } => {
                let waiter = self.waiters[parker];
                self.with(
                    parker,
                    Waiter {
                        token: false,
                        waiting: !waiter.token,
                        ..waiter.after_step(ParkEvent::Armed { notified: waiter.token, now })
                    },
                )
            },
            ParkerEvent::Return { parker } => World { notified: false, ..self }.with(
                parker,
                Waiter { waiting: false, ..self.waiters[parker] },
            ),
            ParkerEvent::Reacted { parker, now } => {
                let waiter = self.waiters[parker];
                self.with(
                    parker,
                    Waiter {
                        token: false,
                        ..waiter.after_step(ParkEvent::Reacted { notified: waiter.token, now })
                    },
                )
            },
            ParkerEvent::OtherPolls => World { notified: false, ..self },
        }
    }

    /// Whether events can happen one after the other.
    pub open spec fn can_all(self, events: Seq<ParkerEvent>) -> bool
        decreases events.len(),
    {
        events.len() == 0 || (self.can(events[0]) && self.after(events[0]).can_all(
            events.drop_first(),
        ))
    }

    /// The world after events.
    pub open spec fn after_all(self, events: Seq<ParkerEvent>) -> World
        decreases events.len(),
    {
        if events.len() == 0 {
            self
        } else {
            self.after(events[0]).after_all(events.drop_first())
        }
    }

    /// Whether the parking of a thread ends with a notification after one of the events.
    pub open spec fn ends_in(self, events: Seq<ParkerEvent>, parker: usize) -> bool
        decreases events.len(),
    {
        events.len() > 0 && (self.after(events[0]).ends_notified(parker) || self.after(
            events[0],
        ).ends_in(events.drop_first(), parker))
    }

    /// Whether the parking of a thread has ended with a notification.
    pub open spec fn ends_notified(self, parker: usize) -> bool {
        self.has(parker) && self.waiters[parker].phase() == (ParkPhase::Done { notified: true })
    }

    /// The next step of a parking thread, which reads `now` if it looks at the clock.
    pub open spec fn next_step(self, parker: usize, now: Instant) -> ParkerEvent {
        match self.waiters[parker].phase() {
            ParkPhase::Check => ParkerEvent::Checked { parker },
            ParkPhase::Process { .. } => ParkerEvent::Processed { parker },
            ParkPhase::ReadClock => ParkerEvent::Clock { parker, now },
            ParkPhase::TryLock { .. } => ParkerEvent::TriedLock { parker, locked: false },
            ParkPhase::Wait { .. } => ParkerEvent::Waited { parker },
            ParkPhase::Arm { .. } => ParkerEvent::Armed { parker, now },
            _ => if self.waiters[parker].waiting {
                ParkerEvent::Return { parker }
            } else {
                ParkerEvent::Reacted { parker, now }
            },
        }
    }
}

/// How many of the events are steps of the thread that parks with the given parker.
pub open spec fn steps_of(events: Seq<ParkerEvent>, parker: usize) -> nat
    decreases events.len(),
{
    if events.len() == 0 {
        0
    } else {
        let rest = steps_of(events.drop_first(), parker);
        if events[0].is_step_of(parker) {
            rest + 1
        } else {
            rest
        }
    }
}

/// Whatever happens to the parkers keeps their invariant.
pub proof fn law_parkers_stay_in_order(world: World, event: ParkerEvent)
    requires
        world.inv(),
        world.can(event),
    ensures
        world.after(event).inv(),
{
    let after = world.after(event);
    assert forall|p: usize| #[trigger] after.has(p) implies after.waiters[p].inv(after.notified)
        && after.waiters[p].parker.id == p && p < after.parkers.next_id by {
        assert(world.has(p) || (event is Create && p == world.parkers.next_id));
        match event {
            ParkerEvent::Return { parker } => {
                assert(world.has(parker));
                assert(world.locks(parker));
                assert(p != parker ==> !world.locks(p));
            },
            ParkerEvent::OtherPolls => {
                assert(!world.locks(p));
            },
            _ => {},
        }
    }
    assert forall|p: usize, q: usize| #[trigger]
        after.locks(p) && #[trigger] after.locks(q) implies p == q by {
        assert(after.has(p) && after.has(q));
        assert(world.has(p) ==> world.locks(p) == world.waiters[p].locks());
        assert(world.has(q) ==> world.locks(q) == world.waiters[q].locks());
    }
}

/// The parkers are always in order: they are while there are none, and whatever happens keeps them
/// so.
pub proof fn law_parkers_are_always_in_order(events: Seq<ParkerEvent>)
    requires
        World::fresh().can_all(events),
    ensures
        World::fresh().after_all(events).inv(),
{
    lemma_stay_in_order(World::fresh(), events);
}

/// Parkers that are in order stay so whatever happens.
proof fn lemma_stay_in_order(world: World, events: Seq<ParkerEvent>)
    requires
        world.inv(),
        world.can_all(events),
    ensures
        world.after_all(events).inv(),
    decreases events.len(),
{
    if events.len() > 0 {
        law_parkers_stay_in_order(world, events[0]);
        lemma_stay_in_order(world.after(events[0]), events.drop_first());
    }
}

/// A new parker has a number that no other parker has, and later ones get larger numbers, so that no
/// handle of another is one of its own.
pub proof fn law_new_parker_has_its_own_number(world: World, parker: usize)
    requires
        world.inv(),
        world.can(ParkerEvent::Create),
    ensures
        !world.has(world.parkers.next_id),
        world.after(ParkerEvent::Create).has(world.parkers.next_id),
        world.has(parker) ==> parker < world.parkers.next_id,
        world.parkers.next_id < world.after(ParkerEvent::Create).parkers.next_id,
{
}

/// A handle notifies its own parker and no other: the parker with its number has a notification,
/// and any other is as it was.
pub proof fn law_handle_notifies_its_own_parker(world: World, handle: Unparker, other: usize)
    ensures
        ({
            let after = world.after(ParkerEvent::Unpark { handle });
            &&& world.has(handle.id) ==> after.waiters[handle.id] == (Waiter {
                token: true,
                ..world.waiters[handle.id]
            })
            &&& other != handle.id ==> after.has(other) == world.has(other) && (world.has(other)
                ==> after.waiters[other] == world.waiters[other])
        }),
{
}

/// Nobody else's handle ends a parking: as long as a parker is not notified by way of a handle of
/// its own, no parking with it ends with a notification, whatever happens to other parkers.
pub proof fn law_only_own_handles_end_parking(
    world: World,
    parker: usize,
    events: Seq<ParkerEvent>,
)
    requires
        world.inv(),
        world.can_all(events),
        parker < world.parkers.next_id,
        world.has(parker) ==> world.waiters[parker].is_unnotified(),
        !events.contains(ParkerEvent::Unpark { handle: Unparker { id: parker } }),
    ensures
        !world.ends_in(events, parker),
        ({
            let after = world.after_all(events);
            after.has(parker) ==> after.waiters[parker].is_unnotified()
        }),
    decreases events.len(),
{
    if events.len() > 0 {
        let rest = events.drop_first();
        assert(events.contains(events[0]));
        if rest.contains(ParkerEvent::Unpark { handle: Unparker { id: parker } }) {
            let i = choose|i: int|
                0 <= i < rest.len() && rest[i] == (ParkerEvent::Unpark {
                    handle: Unparker { id: parker },
                });
            assert(events[i + 1] == rest[i]);
        }
        let after = world.after(events[0]);
        if let ParkerEvent::Unpark { handle } = events[0] {
            assert(handle == (Unparker { id: handle.id }));
        }
        assert(after.has(parker) ==> world.has(parker));
        assert(after.has(parker) ==> after.waiters[parker].is_unnotified());
        law_parkers_stay_in_order(world, events[0]);
        law_only_own_handles_end_parking(after, parker, rest);
    }
}

/// What happens makes no thread forget that it is bound to stop parking, and each step of its own
/// brings it nearer.
proof fn lemma_owed_thread_goes_on(world: World, event: ParkerEvent, parker: usize)
    requires
        world.inv(),
        world.can(event),
        world.has(parker),
        world.waiters[parker].is_owed(),
        !world.after(event).ends_notified(parker),
    ensures
        ({
            let before = world.waiters[parker];
            let after = world.after(event).waiters[parker];
            &&& world.after(event).has(parker)
            &&& after.is_owed()
            &&& after.distance() <= before.distance()
            &&& event.is_step_of(parker) ==> after.distance() < before.distance()
        }),
{
    assert(world.waiters[parker].inv(world.notified));
}

/// A thread that is bound to stop parking does so within as many steps of its own as it is away
/// from that.
proof fn lemma_owed_thread_ends(world: World, events: Seq<ParkerEvent>, parker: usize)
    requires
        world.inv(),
        world.can_all(events),
        world.has(parker),
        world.waiters[parker].is_owed(),
        steps_of(events, parker) >= world.waiters[parker].distance(),
    ensures
        world.ends_in(events, parker),
    decreases events.len(),
{
    if events.len() > 0 && !world.after(events[0]).ends_notified(parker) {
        lemma_owed_thread_goes_on(world, events[0], parker);
        law_parkers_stay_in_order(world, events[0]);
        lemma_owed_thread_ends(world.after(events[0]), events.drop_first(), parker);
    }
}

/// A notification ends the parking: once its parker is notified, a thread that parks and has not
/// timed out stops parking with `true`, within three steps of its own and whatever else happens in
/// between.
pub proof fn law_notified_parking_ends(
    world: World,
    handle: Unparker,
    events: Seq<ParkerEvent>,
)
    requires
        world.inv(),
        world.has(handle.id),
        !(world.waiters[handle.id].phase() is Done),
        world.waiters[handle.id].phase() != (ParkPhase::Process { notified: false }),
        world.after(ParkerEvent::Unpark { handle }).can_all(events),
        steps_of(events, handle.id) >= 3,
    ensures
        world.after(ParkerEvent::Unpark { handle }).ends_in(events, handle.id),
{
    let event = ParkerEvent::Unpark { handle };
    law_parkers_stay_in_order(world, event);
    lemma_owed_thread_ends(world.after(event), events, handle.id);
}

/// A notification that comes before the parking ends it at once, and one that comes too late is
/// kept for the next parking.
pub proof fn law_notification_is_kept(world: World, parker: usize, timeout: Option<Duration>)
    requires
        world.inv(),
        world.has(parker),
        world.waiters[parker].token,
        world.waiters[parker].phase() is Done || world.waiters[parker].phase()
            == (ParkPhase::Process { notified: false }),
    ensures
        world.waiters[parker].phase() is Done ==> {
            let begun = world.after(ParkerEvent::Begin { parker, timeout });
            let checked = begun.after(ParkerEvent::Checked { parker });
            checked.waiters[parker].phase() == (ParkPhase::Process { notified: true })
                && !checked.waiters[parker].token && checked.after(
                ParkerEvent::Processed { parker },
            ).ends_notified(parker)
        },
        !(world.waiters[parker].phase() is Done) ==> world.after(
            ParkerEvent::Processed { parker },
        ).waiters[parker].token,
{
}

/// A thread whose parker has been notified is never stuck before it stops parking: if it waits for
/// I/O events, the poller has been notified, and it can always take its next step.
pub proof fn law_notified_thread_is_not_stuck(world: World, parker: usize, now: Instant)
    requires
        world.inv(),
        world.has(parker),
        world.waiters[parker].is_owed(),
    ensures
        world.waiters[parker].waiting ==> world.notified,
        world.next_step(parker, now).is_step_of(parker),
        world.can(world.next_step(parker, now)),
{
}

} // verus!
