//! All timers of a reactor together: that each registration in the reactor belongs to one timer,
//! and that no timer has more than one.
use crate::reactor::timer::{TimersEvent, TimersView};
use crate::reactor::timer_map::TimerKey;
use crate::task::{Poll, Waker};
use crate::time::{Duration, Instant};
use crate::timer::{self, TimerView};
use vstd::prelude::*;

verus! {

/// A reactor and its timers.
pub struct World {
    /// The reactor.
    pub reactor: TimersView,
    /// The timers by their numbers.
    pub timers: Map<nat, TimerView>,
    /// The latest time at which the reactor has fired timers, if it ever has.
    pub fired: Option<Instant>,
}

/// What can happen to the timers.
pub enum TimerEvent {
    /// A timer is created that fires at `first`, if ever, and then periodically.
    Create { timer: nat, first: Option<Instant>, period: Duration },
    /// A task polls a timer.
    Poll { timer: nat, now: Instant, waker: Waker },
    /// A timer is set to fire at `start` and then periodically.
    Reset { timer: nat, start: Instant, period: Duration },
    /// A timer is set to never fire.
    Stop { timer: nat },
    /// A timer is dropped.
    Close { timer: nat },
    /// The reactor fires the timers that are due.
    Fire { now: Instant },
}

impl World {
    /// A reactor that has just been created.
    pub open spec fn fresh() -> World {
        World {
            reactor: TimersView {
                timers: Map::empty(),
                ticker: 0,
                next_id: 1,
                notified: false,
            },
            timers: Map::empty(),
            fired: None,
        }
    }

    /// Whether there is a timer with the given number.
    pub open spec fn has(self, timer: nat) -> bool {
        self.timers.contains_key(timer)
    }

    /// Whether a registration is that of the given timer.
    pub open spec fn owns(self, timer: nat, key: TimerKey) -> bool {
        self.has(timer) && self.timers[timer].key() == Some(key)
    }

    /// Whether timers that were due at an instant have been fired.
    pub open spec fn has_fired(self, at: Instant) -> bool {
        self.fired matches Some(fired) && at.nanos <= fired.nanos
    }

    /// Whether a timer that should be registered is, with the task that polled it last. It is not
    /// only if it has been fired.
    pub open spec fn is_kept(self, timer: TimerView) -> bool {
        match (timer.next, timer.id_and_waker) {
            (Some(at), Some((id, waker))) => if self.reactor.timers.contains_key((at, id)) {
                self.reactor.timers[(at, id)] == waker
            } else {
                self.has_fired(at)
            },
            _ => true,
        }
    }

    /// What holds of the reactor and the timers at any time.
    pub open spec fn inv(self) -> bool {
        &&& forall|t: nat| #[trigger] self.has(t) ==> self.is_kept(self.timers[t])
        &&& forall|t: nat| #[trigger]
            self.has(t) ==> (self.timers[t].id_and_waker matches Some((id, waker)) ==> id
                < self.reactor.next_id)
        &&& forall|t: nat, u: nat| #[trigger]
            self.has(t) && #[trigger] self.has(u) && t != u ==> (
            self.timers[t].id_and_waker matches Some((a, v)) ==> (
            self.timers[u].id_and_waker matches Some((b, w)) ==> a != b))
        &&& forall|key: TimerKey| #[trigger]
            self.reactor.timers.contains_key(key) ==> exists|t: nat| #[trigger] self.owns(t, key)
    }

    /// Whether an event can happen now. Identifiers must not have been used up.
    pub open spec fn can(self, event: TimerEvent) -> bool {
        match event {
            TimerEvent::Create { timer, .. } => !self.has(timer),
            TimerEvent::Poll { timer, .. } => self.has(timer) && self.reactor.next_id < usize::MAX,
            TimerEvent::Reset { timer, .. } => self.has(timer) && self.reactor.next_id < usize::MAX,
            TimerEvent::Stop { timer } => self.has(timer),
            TimerEvent::Close { timer } => self.has(timer),
            TimerEvent::Fire { .. } => true,
        }
    }

    /// The world with a timer and the reactor changed.
    pub open spec fn with(self, timer: nat, changed: TimerView, reactor: TimersView) -> World {
        World { reactor, timers: self.timers.insert(timer, changed), ..self }
    }

    /// The world after an event.
    pub open spec fn after(self, event: TimerEvent) -> World {
        match event {
            TimerEvent::Create { timer, first, period } => self.with(
                timer,
                TimerView::starting(first, period),
                self.reactor,
            ),
            TimerEvent::Poll { timer, now, waker } => {
                let (polled, reactor, poll) = self.timers[timer].polled(self.reactor, now, waker);
                self.with(timer, polled, reactor)
            },
            TimerEvent::Reset { timer, start, period } => {
                let (set, reactor) = self.timers[timer].set(self.reactor, start, period);
                self.with(timer, set, reactor)
            },
            TimerEvent::Stop { timer } => {
                let (unset, reactor) = self.timers[timer].unset(self.reactor);
                self.with(timer, unset, reactor)
            },
            TimerEvent::Close { timer } => World {
                reactor: timer::without_timer(self.reactor, self.timers[timer].key()),
                timers: self.timers.remove(timer),
                ..self
            },
            TimerEvent::Fire { now } => World {
                reactor: self.reactor.after(TimersEvent::Fire { now }),
                fired: if self.has_fired(now) {
                    self.fired
                } else {
                    Some(now)
                },
                ..self
            },
        }
    }

    /// Whether events can happen one after the other.
    pub open spec fn can_all(self, events: Seq<TimerEvent>) -> bool
        decreases events.len(),
    {
        events.len() == 0 || (self.can(events[0]) && self.after(events[0]).can_all(
            events.drop_first(),
        ))
    }

    /// The world after events.
    pub open spec fn after_all(self, events: Seq<TimerEvent>) -> World
        decreases events.len(),
    {
        if events.len() == 0 {
            self
        } else {
            self.after(events[0]).after_all(events.drop_first())
        }
    }
}

/// Whatever happens to the timers keeps their invariant.
pub proof fn law_timers_stay_in_order(world: World, event: TimerEvent)
    requires
        world.inv(),
        world.can(event),
    ensures
        world.after(event).inv(),
{
    let after = world.after(event);
    assert forall|t: nat| #[trigger] after.has(t) implies after.is_kept(after.timers[t]) by {
        lemma_kept(world, event, t);
    }
    assert forall|t: nat| #[trigger] after.has(t) implies (
    after.timers[t].id_and_waker matches Some((id, waker)) ==> id < after.reactor.next_id) by {
        lemma_id(world, event, t);
    }
    assert forall|t: nat, u: nat| #[trigger]
        after.has(t) && #[trigger] after.has(u) && t != u implies (
    after.timers[t].id_and_waker matches Some((a, v)) ==> (
    after.timers[u].id_and_waker matches Some((b, w)) ==> a != b)) by {
        lemma_id(world, event, t);
        lemma_id(world, event, u);
    }
    assert forall|key: TimerKey| #[trigger] after.reactor.timers.contains_key(key) implies exists|
        t: nat,
    | #[trigger] after.owns(t, key) by {
        lemma_owned(world, event, key);
    }
}

/// Whatever happens, a timer keeps its identifier or gets the next one, which no other timer has.
proof fn lemma_id(world: World, event: TimerEvent, t: nat)
    requires
        world.inv(),
        world.can(event),
        world.after(event).has(t),
    ensures
        ({
            let after = world.after(event);
            &&& after.reactor.next_id >= world.reactor.next_id
            &&& after.timers[t].id_and_waker matches Some((id, waker)) ==> {
                ||| world.has(t) && id < world.reactor.next_id && (
                world.timers[t].id_and_waker matches Some((had, w)) && had == id)
                ||| id == world.reactor.next_id && after.reactor.next_id == id + 1 && (match event {
                    TimerEvent::Poll { timer, .. } => timer == t,
                    TimerEvent::Reset { timer, .. } => timer == t,
                    _ => false,
                })
            }
        }),
{
    match event {
        TimerEvent::Create { timer, .. } => {
            assert(t == timer || world.has(t));
        },
        _ => {
            assert(world.has(t));
        },
    }
}

/// Whatever happens keeps a timer registered unless it is fired.
proof fn lemma_kept(world: World, event: TimerEvent, t: nat)
    requires
        world.inv(),
        world.can(event),
        world.after(event).has(t),
    ensures
        world.after(event).is_kept(world.after(event).timers[t]),
{
    assert(world.has(t) || event is Create);
    match event {
        TimerEvent::Poll { timer, .. } => {
            assert(world.has(timer));
        },
        TimerEvent::Reset { timer, .. } => {
            assert(world.has(timer));
        },
        TimerEvent::Stop { timer } => {
            assert(world.has(timer));
        },
        TimerEvent::Close { timer } => {
            assert(world.has(timer));
        },
        _ => {},
    }
}

/// Whatever happens, a registration belongs to a timer.
proof fn lemma_owned(world: World, event: TimerEvent, key: TimerKey)
    requires
        world.inv(),
        world.can(event),
        world.after(event).reactor.timers.contains_key(key),
    ensures
        exists|t: nat| #[trigger] world.after(event).owns(t, key),
{
    let after = world.after(event);
    if world.reactor.timers.contains_key(key) {
        let t = choose|t: nat| #[trigger] world.owns(t, key);
        assert(world.has(t));
        match event {
            TimerEvent::Poll { timer, .. } => {
                assert(world.has(timer));
                assert(after.owns(t, key) || after.owns(timer, key));
            },
            TimerEvent::Reset { timer, .. } => {
                assert(world.has(timer));
                assert(after.owns(t, key) || after.owns(timer, key));
            },
            _ => {
                assert(after.owns(t, key));
            },
        }
    } else {
        match event {
            TimerEvent::Poll { timer, .. } => {
                assert(after.owns(timer, key));
            },
            TimerEvent::Reset { timer, .. } => {
                assert(after.owns(timer, key));
            },
            _ => {},
        }
    }
}

/// The timers of a reactor that has just been created are in order, and stay so whatever happens.
pub proof fn law_timers_are_always_in_order(events: Seq<TimerEvent>)
    requires
        World::fresh().can_all(events),
    ensures
        World::fresh().after_all(events).inv(),
{
    lemma_stay_in_order(World::fresh(), events);
}

/// Timers that are in order stay so whatever happens.
proof fn lemma_stay_in_order(world: World, events: Seq<TimerEvent>)
    requires
        world.inv(),
        world.can_all(events),
    ensures
        world.after_all(events).inv(),
    decreases events.len(),
{
    if events.len() > 0 {
        law_timers_stay_in_order(world, events[0]);
        lemma_stay_in_order(world.after(events[0]), events.drop_first());
    }
}

/// Each registration belongs to exactly one timer.
pub proof fn law_registration_belongs_to_one_timer(world: World, key: TimerKey, t: nat, u: nat)
    requires
        world.inv(),
    ensures
        world.reactor.timers.contains_key(key) ==> exists|t: nat| #[trigger] world.owns(t, key),
        world.owns(t, key) && world.owns(u, key) ==> t == u,
{
    assert(world.has(t) == world.timers.contains_key(t));
    assert(world.has(u) == world.timers.contains_key(u));
}

/// A timer that has been polled stays registered until its instant has come: firing timers, and
/// whatever happens to other timers, does not change that.
pub proof fn law_timers_stay_registered(world: World, t: nat, now: Instant)
    requires
        world.inv(),
        world.has(t),
        world.fired matches Some(fired) ==> fired.nanos <= now.nanos,
    ensures
        world.timers[t].is_registered_or_due(world.reactor, now),
{
}

/// The last waker counts: a timer that is pending after a poll and will fire is registered exactly
/// once, for its instant and with the waker of the task that polled it, and any other registration
/// belongs to another timer. The poll must not have read the clock before timers were last fired.
pub proof fn law_pending_timer_is_registered_once(
    world: World,
    t: nat,
    at: Instant,
    now: Instant,
    waker: Waker,
)
    requires
        world.inv(),
        world.can(TimerEvent::Poll { timer: t, now, waker }),
        world.fired matches Some(fired) ==> fired.nanos <= now.nanos,
        world.timers[t].next == Some(at),
        now.nanos < at.nanos,
    ensures
        world.timers[t].polled(world.reactor, now, waker).2 == Poll::<Option<Instant>>::Pending,
        ({
            let after = world.after(TimerEvent::Poll { timer: t, now, waker });
            exists|id: usize|
                {
                    &&& #[trigger] after.owns(t, (at, id))
                    &&& after.reactor.timers.contains_key((at, id))
                    &&& after.reactor.timers[(at, id)] == waker
                    &&& forall|key: TimerKey| #[trigger]
                        after.reactor.timers.contains_key(key) && key != (at, id) ==> key.1 != id
                            && exists|u: nat| u != t && #[trigger] after.owns(u, key)
                }
        }),
{
    let event = TimerEvent::Poll { timer: t, now, waker };
    let after = world.after(event);
    law_timers_stay_in_order(world, event);
    assert(world.has(t));
    assert(after.has(t));
    timer::law_last_waker_is_registered(world.timers[t], world.reactor, now, waker);
    let key = after.timers[t].key().unwrap();
    assert(after.owns(t, (at, key.1)));
    assert forall|other: TimerKey| #[trigger]
        after.reactor.timers.contains_key(other) && other != (at, key.1) implies other.1 != key.1
        && exists|u: nat| u != t && #[trigger] after.owns(u, other) by {
        let u = choose|u: nat| #[trigger] after.owns(u, other);
        assert(after.has(u));
        assert(u != t);
    }
}

} // verus!
