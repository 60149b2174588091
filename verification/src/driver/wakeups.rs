//! Threads that block on a future and those that wake them: that a task that is woken is polled
//! again, and that no thread waits through a wakeup.
use crate::driver::block_on::Phase;
use crate::driver::world::{self, DriverEvent, Thread, World};
use crate::time::Instant;
use vstd::prelude::*;

verus! {

/// A wakeup of the task is not slept through: the thread finds it before it sleeps, starts polling
/// or goes on polling.
pub proof fn law_wakeup_is_not_slept_through(
    thread: Thread,
    leads: bool,
    start: Instant,
    count: u32,
    now: Instant,
)
    requires
        thread.flags.is_task,
    ensures
        Phase::after_sleep(thread.flags) is Leave,
        Phase::after_begin(leads, thread.flags.is_task, now) is Leave,
        Phase::after_react(start, count, thread.flags.is_task, now) is Leave,
{
}

impl World {
    /// Whether an event has a blocked thread poll its future again, or ends the blocking.
    pub open spec fn polls(self, event: DriverEvent, parker: usize) -> bool {
        ||| event == (DriverEvent::Finish { parker })
        ||| event == (DriverEvent::Unwind { parker })
        ||| self.has_thread(parker) && !(self.threads[parker].phase is Poll) && self.after(
            event,
        ).threads[parker].phase is Poll
    }

    /// Whether one of the events has a blocked thread poll its future again, or ends the blocking.
    pub open spec fn polls_in(self, events: Seq<DriverEvent>, parker: usize) -> bool
        decreases events.len(),
    {
        events.len() > 0 && (self.polls(events[0], parker) || self.after(events[0]).polls_in(
            events.drop_first(),
            parker,
        ))
    }

    /// The next step of a blocked thread, which reads `now` if it looks at the clock.
    pub open spec fn next_step(self, parker: usize, now: Instant) -> DriverEvent {
        let thread = self.threads[parker];
        match thread.phase {
            Phase::Poll => DriverEvent::Pending { parker },
            Phase::TryProcess => DriverEvent::TriedProcess { parker, locked: false },
            Phase::Process => DriverEvent::Processed { parker },
            Phase::Enter { .. } => DriverEvent::Enter { parker },
            Phase::Begin { .. } => DriverEvent::Begin { parker, now },
            Phase::React { .. } => if thread.blocked {
                DriverEvent::Return { parker }
            } else {
                DriverEvent::Reacted { parker, now }
            },
            Phase::TryHandoff { .. } => DriverEvent::TryHandoff { parker },
            Phase::Sleep => DriverEvent::Sleep { parker },
            Phase::Leave => DriverEvent::Leave { parker },
        }
    }
}

/// How many of the events are steps of the given blocked thread itself.
pub open spec fn steps_of(events: Seq<DriverEvent>, parker: usize) -> nat
    decreases events.len(),
{
    if events.len() == 0 {
        0
    } else {
        let rest = steps_of(events.drop_first(), parker);
        if events[0].is_step_of(parker) {
            rest + 1
        } else {
            rest
        }
    }
}

/// What others do makes no thread forget that it is bound to poll its future.
proof fn lemma_owed_thread_stays_owed(world: World, event: DriverEvent, parker: usize)
    requires
        world.inv(),
        world.can(event),
        world.has_thread(parker),
        world.threads[parker].is_owed(),
        !event.is_step_of(parker),
    ensures
        ({
            let before = world.threads[parker];
            let after = world.after(event).threads[parker];
            &&& world.after(event).has_thread(parker)
            &&& after.is_owed()
            &&& after.distance() <= before.distance()
        }),
{
    let before = world.threads[parker];
    let after = world.after(event).threads[parker];
    assert(world.after(event).has_thread(parker));
    assert(after.phase == before.phase);
    assert(before.flags.is_task ==> after.flags.is_task);
    assert(after.blocked ==> before.blocked);
}

/// Each step of its own brings a thread that is bound to poll its future nearer to that.
proof fn lemma_owed_thread_goes_on(world: World, event: DriverEvent, parker: usize)
    requires
        world.inv(),
        world.can(event),
        world.has_thread(parker),
        world.threads[parker].is_owed(),
        event.is_step_of(parker),
        !world.polls(event, parker),
    ensures
        ({
            let before = world.threads[parker];
            let after = world.after(event).threads[parker];
            &&& world.after(event).has_thread(parker)
            &&& after.is_owed()
            &&& after.distance() < before.distance()
        }),
{
    let before = world.threads[parker];
    assert(before.inv(world.notified));
    match event {
        DriverEvent::TryHandoff { .. } => {
            let after = world.after(event).threads[parker];
            assert(after.flags.is_task);
            assert(after.phase is Sleep || after.phase is React || after.phase is Leave);
        },
        _ => {},
    }
}

/// A thread that is bound to poll its future does so within as many steps of its own as it is away
/// from that.
proof fn lemma_owed_thread_polls(world: World, events: Seq<DriverEvent>, parker: usize)
    requires
        world.inv(),
        world.can_all(events),
        world.has_thread(parker),
        world.threads[parker].is_owed(),
        steps_of(events, parker) >= world.threads[parker].distance(),
    ensures
        world.polls_in(events, parker),
    decreases events.len(),
{
    if events.len() > 0 && !world.polls(events[0], parker) {
        if events[0].is_step_of(parker) {
            lemma_owed_thread_goes_on(world, events[0], parker);
        } else {
            lemma_owed_thread_stays_owed(world, events[0], parker);
        }
        world::law_driver_stays_in_order(world, events[0]);
        lemma_owed_thread_polls(world.after(events[0]), events.drop_first(), parker);
    }
}

/// A wakeup leads to a poll: whenever the task of a blocked thread is woken, by whomever and
/// whatever the thread is doing, it polls its future again within four steps of its own, whatever
/// else happens in between, unless the future is found ready or the thread unwinds before.
pub proof fn law_wakeup_leads_to_poll(
    world: World,
    parker: usize,
    by: Option<usize>,
    events: Seq<DriverEvent>,
)
    requires
        world.inv(),
        world.can(DriverEvent::Wake { parker, by }),
        world.after(DriverEvent::Wake { parker, by }).can_all(events),
        steps_of(events, parker) >= 4,
    ensures
        world.after(DriverEvent::Wake { parker, by }).polls_in(events, parker),
{
    let event = DriverEvent::Wake { parker, by };
    world::law_driver_stays_in_order(world, event);
    lemma_owed_thread_polls(world.after(event), events, parker);
}

/// A thread whose task has been woken is never stuck before it polls its future again: if it waits
/// for I/O events, the poller has been notified, it does not sleep, and it can take its next step.
/// At most it has to wait for the reactor's lock, until a thread that processes the events that are
/// available, and does not block, gives it back.
pub proof fn law_woken_thread_is_not_stuck(world: World, parker: usize, other: usize, now: Instant)
    requires
        world.inv(),
        world.has_thread(parker),
        world.threads[parker].is_owed(),
    ensures
        world.threads[parker].blocked ==> world.threads[parker].phase is React && world.notified,
        world.next_step(parker, now).is_step_of(parker),
        world.can(world.next_step(parker, now)) || world.threads[parker].phase == (Phase::Begin {
            leads: true,
        }),
        world.threads[parker].phase == (Phase::Begin { leads: true }) && !(
        world.main.state is DedicatedReactor) && world.locks(other)
            ==> world.threads[other].phase is Process,
{
    if world.threads[parker].phase == (Phase::Begin { leads: true }) && !(
    world.main.state is DedicatedReactor) && world.locks(other) {
        assert(world.leads(parker));
        world::law_one_thread_leads(world, parker, other, 0);
    }
}

} // verus!
