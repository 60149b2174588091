//! All threads of the driver together: that exactly one of them leads, and that the lead is never
//! lost among those that wait for it.
use crate::driver::block_on::{BlockOn, Phase};
use crate::driver::main_loop::{self, MainLoop, MainStep};
use crate::driver::{self, Handover, MainThreadView, StateView, ThreadAction};
use crate::time::Instant;
use vstd::prelude::*;

verus! {

/// A thread that blocks on a future.
pub struct Thread {
    /// What the thread has to do next.
    pub phase: Phase,
    /// What other threads see of it.
    pub flags: BlockOn,
    /// The mark that the thread is polling I/O.
    pub io_polling: bool,
    /// The thread is blocked right now: it waits for I/O events, and is not handing them out, or it
    /// sleeps until it is notified.
    pub blocked: bool,
}

/// The controller and the threads.
pub struct World {
    /// The controller.
    pub main: MainThreadView,
    /// The loops of the main threads that run, by their numbers. A thread that has exited is not
    /// among them.
    pub mains: Map<nat, MainLoop>,
    /// How many main threads have been spawned.
    pub spawned: nat,
    /// The poller has been notified, and will end the current or the next wait for I/O events.
    pub notified: bool,
    /// The blocked threads by their numbers.
    pub threads: Map<usize, Thread>,
}

impl Thread {
    /// A thread that has just blocked on a future.
    pub open spec fn fresh() -> Thread {
        Thread {
            phase: Phase::Poll,
            flags: BlockOn { is_polling: false, is_task: false, is_nominated: false },
            io_polling: false,
            blocked: false,
        }
    }

    /// Whether the thread has taken the lead and not given it up.
    pub open spec fn leads(self) -> bool {
        self.phase.leads(self.flags)
    }

    /// Whether the thread waits for the lead.
    pub open spec fn waits(self) -> bool {
        self.phase.waits(self.flags)
    }

    /// Whether the thread holds the reactor's lock while it hands out events or waits for them.
    pub open spec fn locks(self) -> bool {
        self.phase is Process || self.phase is React || self.phase is TryHandoff
    }

    /// Whether the thread runs code that may wake tasks: a future, or the wakers of events that it
    /// hands out.
    pub open spec fn runs_wakers(self) -> bool {
        self.phase is Poll || self.phase is Process || (self.phase is React && !self.blocked)
    }

    /// What holds of a thread at any time: it says that it polls exactly while it does, and it is
    /// not blocked through a wakeup or a nomination that would not interrupt it.
    pub open spec fn inv(self, notified: bool) -> bool {
        &&& match self.phase {
            Phase::React { .. } => self.flags.is_polling,
            Phase::TryHandoff { .. } => self.flags.is_polling,
            Phase::Leave => true,
            _ => !self.flags.is_polling,
        }
        &&& self.io_polling == (self.flags.is_polling || self.phase is Process)
        &&& self.blocked ==> self.phase is React || self.phase is Sleep
        &&& self.blocked && self.phase is Sleep ==> !self.flags.is_task && !self.flags.is_nominated
        &&& (self.blocked && self.phase is React) || self.phase is TryHandoff ==> (
        self.flags.is_task ==> notified)
    }

    /// Whether the thread is bound to poll its future again: the task has been woken, or the
    /// wakeup has been taken.
    pub open spec fn is_owed(self) -> bool {
        self.flags.is_task || self.phase is TryProcess || self.phase is Process
            || self.phase is Leave
    }

    /// How many steps of its own a thread that is bound to poll its future takes at most until it
    /// does.
    pub open spec fn distance(self) -> nat {
        match self.phase {
            Phase::Poll => 3,
            Phase::TryProcess => 2,
            Phase::Process => 1,
            Phase::Enter { .. } => 3,
            Phase::Begin { .. } => 2,
            Phase::React { .. } => if self.blocked {
                3
            } else {
                2
            },
            Phase::TryHandoff { .. } => 4,
            Phase::Sleep => 2,
            Phase::Leave => 1,
        }
    }
}

impl World {
    /// A driver that has just been created.
    pub open spec fn fresh() -> World {
        World {
            main: MainThreadView { thread_enabled: true, state: StateView::Inactive },
            mains: Map::empty(),
            spawned: 0,
            notified: false,
            threads: Map::empty(),
        }
    }

    /// Whether there is a blocked thread with the given number.
    pub open spec fn has_thread(self, parker: usize) -> bool {
        self.threads.contains_key(parker)
    }

    /// Whether a main thread with the given number runs.
    pub open spec fn has_main(self, main: nat) -> bool {
        self.mains.contains_key(main)
    }

    /// Whether a thread leads.
    pub open spec fn leads(self, parker: usize) -> bool {
        self.threads.contains_key(parker) && self.threads[parker].leads()
    }

    /// Whether a main thread runs and leads.
    pub open spec fn main_leads(self, main: nat) -> bool {
        self.mains.contains_key(main) && self.mains[main].is_polling
    }

    /// Whether a thread waits for the lead.
    pub open spec fn waits(self, parker: usize) -> bool {
        self.threads.contains_key(parker) && self.threads[parker].waits()
    }

    /// Whether a blocked thread holds the reactor's lock.
    pub open spec fn locks(self, parker: usize) -> bool {
        self.threads.contains_key(parker) && self.threads[parker].locks()
    }

    /// Whether a blocked thread can lock the reactor, as far as the others are concerned.
    pub open spec fn can_lock(self, parker: usize) -> bool {
        forall|q: usize| #[trigger] self.locks(q) ==> q == parker
    }

    /// Whether nobody leads.
    pub open spec fn nobody_leads(self) -> bool {
        &&& forall|m: nat| !#[trigger] self.main_leads(m)
        &&& forall|p: usize| !#[trigger] self.leads(p)
    }

    /// Whether exactly one thread leads, among the main threads that run and the blocked ones.
    pub open spec fn one_leads(self) -> bool {
        ||| exists|m: nat| #[trigger] self.main_leads_alone(m)
        ||| exists|p: usize| #[trigger] self.leads_alone(p)
    }

    /// Whether a main thread is the only thread that leads.
    pub open spec fn main_leads_alone(self, main: nat) -> bool {
        &&& self.main_leads(main)
        &&& forall|m: nat| #[trigger] self.main_leads(m) ==> m == main
        &&& forall|p: usize| !#[trigger] self.leads(p)
    }

    /// Whether a blocked thread is the only thread that leads.
    pub open spec fn leads_alone(self, parker: usize) -> bool {
        &&& self.leads(parker)
        &&& forall|q: usize| #[trigger] self.leads(q) ==> q == parker
        &&& forall|m: nat| !#[trigger] self.main_leads(m)
    }

    /// Whether the controller's list holds exactly the threads that wait, besides the nominee.
    pub open spec fn lists_waiting(self, wakers: Seq<usize>, nominee: Option<usize>) -> bool {
        &&& wakers.no_duplicates()
        &&& nominee matches Some(leader) ==> !wakers.contains(leader)
        &&& forall|p: usize| #[trigger]
            self.waits(p) <==> wakers.contains(p) || nominee == Some(p)
    }

    /// Whether a nominated thread knows of it before it sleeps.
    pub open spec fn is_told(self, leader: usize) -> bool {
        let thread = self.threads[leader];
        thread.phase is Sleep || thread.phase is Begin ==> thread.flags.is_nominated
    }

    /// What holds of who leads and who waits.
    pub open spec fn roles(self) -> bool {
        match self.main.state {
            StateView::Inactive => self.nobody_leads() && self.lists_waiting(Seq::empty(), None),
            StateView::Idle => self.nobody_leads() && self.lists_waiting(Seq::empty(), None),
            StateView::DedicatedReactor => true,
            StateView::Polling { wakers } => self.one_leads() && self.lists_waiting(wakers, None),
            StateView::Handoff { leader, wakers } => {
                &&& self.nobody_leads()
                &&& self.lists_waiting(wakers, Some(leader))
                &&& self.is_told(leader)
            },
        }
    }

    /// What holds of the main threads: none runs before the driver has been started, and one runs
    /// as long as it is enabled. The dedicated reactor stays enabled.
    pub open spec fn mains_run(self) -> bool {
        &&& forall|m: nat| #[trigger] self.has_main(m) ==> m < self.spawned && !(
        self.main.state is Inactive)
        &&& self.main.thread_enabled && !(self.main.state is Inactive) ==> exists|m: nat| #[trigger]
            self.has_main(m)
        &&& self.main.state is DedicatedReactor ==> self.main.thread_enabled
    }

    /// What holds of each blocked thread, and that at most one of them holds the reactor's lock.
    pub open spec fn threads_agree(self) -> bool {
        &&& forall|p: usize| #[trigger]
            self.has_thread(p) ==> self.threads[p].inv(self.notified)
        &&& forall|p: usize, q: usize| #[trigger]
            self.locks(p) && #[trigger] self.locks(q) ==> p == q
    }

    /// What holds of the controller and the threads at any time.
    pub open spec fn inv(self) -> bool {
        &&& self.threads_agree()
        &&& self.mains_run()
        &&& self.roles()
    }

    /// The world with one thread changed.
    pub open spec fn with_thread(self, parker: usize, thread: Thread) -> World {
        World { threads: self.threads.insert(parker, thread), ..self }
    }

    /// The world with the controller's state changed.
    pub open spec fn with_state(self, state: StateView) -> World {
        World { main: MainThreadView { state, ..self.main }, ..self }
    }

    /// The world with one more main thread, if one has to be spawned.
    pub open spec fn with_spawned(self, spawn: bool) -> World {
        if spawn {
            World {
                mains: self.mains.insert(
                    self.spawned,
                    MainLoop { is_polling: false, last_tick: 0 },
                ),
                spawned: self.spawned + 1,
                ..self
            }
        } else {
            self
        }
    }

    /// The world once a thread has been told that it is nominated, if there is one. That rouses it
    /// if it sleeps.
    pub open spec fn nominated(self, nominee: Option<usize>) -> World {
        match nominee {
            Some(leader) => {
                let thread = self.threads[leader];
                self.with_thread(
                    leader,
                    Thread {
                        flags: BlockOn { is_nominated: true, ..thread.flags },
                        blocked: thread.blocked && !(thread.phase is Sleep),
                        ..thread
                    },
                )
            },
            None => self,
        }
    }

    /// The controller's state and what to do once a thread has given up the lead or stopped waiting
    /// for it.
    pub open spec fn release_of(self, parker: usize) -> (StateView, Handover) {
        let thread = self.threads[parker];
        thread.phase.release(self.main.state, thread.flags, parker)
    }

    /// The world once a thread has given up the lead or stopped waiting for it.
    pub open spec fn released(self, parker: usize) -> World {
        let thread = self.threads[parker];
        let (state, handover) = self.release_of(parker);
        self.with_state(state).with_thread(
            parker,
            Thread {
                phase: Phase::Poll,
                flags: BlockOn { is_polling: false, ..thread.flags },
                io_polling: false,
                blocked: false,
            },
        ).nominated(nominee_of(handover))
    }
}

/// The thread to nominate when the lead is handed over.
pub open spec fn nominee_of(handover: Handover) -> Option<usize> {
    match handover {
        Handover::Nominate(leader) => Some(leader),
        _ => None,
    }
}

/// The thread to nominate after a turn of a main thread.
pub open spec fn nominee_of_turn(step: MainStep) -> Option<usize> {
    match step {
        MainStep::Nominate(leader) => Some(leader),
        MainStep::Exit(handover) => nominee_of(handover),
        _ => None,
    }
}

/// What can happen to the driver.
pub enum DriverEvent {
    /// A thread blocks on a future.
    Block { parker: usize },
    /// The future of a blocked thread is ready.
    Finish { parker: usize },
    /// A blocked thread unwinds.
    Unwind { parker: usize },
    /// The task of a blocked thread is woken, by a blocked thread or by another.
    Wake { parker: usize, by: Option<usize> },
    /// The future of a blocked thread is pending.
    Pending { parker: usize },
    /// A blocked thread has tried to lock the reactor at once.
    TriedProcess { parker: usize, locked: bool },
    /// A blocked thread has processed the I/O events that were available.
    Processed { parker: usize },
    /// A blocked thread asks for the reactor.
    Enter { parker: usize },
    /// A blocked thread starts polling or waiting. If it leads, it has locked the reactor.
    Begin { parker: usize, now: Instant },
    /// A blocked thread has received I/O events or a notification, or is roused.
    Return { parker: usize },
    /// A blocked thread has handed out the I/O events.
    Reacted { parker: usize, now: Instant },
    /// A blocked thread tries to hand off the reactor.
    TryHandoff { parker: usize },
    /// A blocked thread looks for a reason not to sleep.
    Sleep { parker: usize },
    /// A blocked thread gives up the lead or stops waiting.
    Leave { parker: usize },
    /// A thread that does not block on a future locks the reactor and waits for I/O events, which
    /// may use up the notification of the poller.
    OtherPolls,
    /// A main thread takes a turn.
    MainTurn { main: nat, tick: usize },
    /// A main thread has polled the reactor.
    MainReacted { main: nat, tick: usize },
    /// The driver is started.
    Start,
    /// The main thread is disabled.
    Disable,
    /// The main thread is enabled.
    Enable,
    /// The main thread is given the reactor for itself.
    Dedicate,
}

impl DriverEvent {
    /// Whether the event is a step of the given blocked thread itself.
    pub open spec fn is_step_of(self, thread: usize) -> bool {
        match self {
            DriverEvent::Finish { parker } => parker == thread,
            DriverEvent::Unwind { parker } => parker == thread,
            DriverEvent::Pending { parker } => parker == thread,
            DriverEvent::TriedProcess { parker, .. } => parker == thread,
            DriverEvent::Processed { parker } => parker == thread,
            DriverEvent::Enter { parker } => parker == thread,
            DriverEvent::Begin { parker, .. } => parker == thread,
            DriverEvent::Return { parker } => parker == thread,
            DriverEvent::Reacted { parker, .. } => parker == thread,
            DriverEvent::TryHandoff { parker } => parker == thread,
            DriverEvent::Sleep { parker } => parker == thread,
            DriverEvent::Leave { parker } => parker == thread,
            _ => false,
        }
    }
}

impl World {
    /// Whether an event can happen now. The reactor's lock excludes the others.
    pub open spec fn can(self, event: DriverEvent) -> bool {
        match event {
            DriverEvent::Block { parker } => !self.has_thread(parker),
            DriverEvent::Finish { parker } => self.has_thread(parker)
                && self.threads[parker].phase is Poll,
            DriverEvent::Unwind { parker } => self.has_thread(parker),
            DriverEvent::Wake { parker, by } => self.has_thread(parker) && (by matches Some(waker)
                ==> self.has_thread(waker) && self.threads[waker].runs_wakers()),
            DriverEvent::Pending { parker } => self.has_thread(parker)
                && self.threads[parker].phase is Poll,
            DriverEvent::TriedProcess { parker, locked } => self.has_thread(parker)
                && self.threads[parker].phase is TryProcess && (locked ==> self.can_lock(parker)),
            DriverEvent::Processed { parker } => self.has_thread(parker)
                && self.threads[parker].phase is Process,
            DriverEvent::Enter { parker } => self.has_thread(parker)
                && self.threads[parker].phase is Enter,
            DriverEvent::Begin { parker, .. } => self.has_thread(parker)
                && self.threads[parker].phase is Begin && (self.threads[parker].phase->leads
                ==> self.can_lock(parker)),
            DriverEvent::Return { parker } => self.has_thread(parker)
                && self.threads[parker].blocked,
            DriverEvent::Reacted { parker, .. } => self.has_thread(parker)
                && self.threads[parker].phase is React && !self.threads[parker].blocked,
            DriverEvent::TryHandoff { parker } => self.has_thread(parker)
                && self.threads[parker].phase is TryHandoff,
            DriverEvent::Sleep { parker } => self.has_thread(parker)
                && self.threads[parker].phase is Sleep && !self.threads[parker].blocked,
            DriverEvent::Leave { parker } => self.has_thread(parker)
                && self.threads[parker].phase is Leave,
            DriverEvent::OtherPolls => forall|q: usize| !#[trigger] self.locks(q),
            DriverEvent::MainTurn { main, .. } => self.has_main(main),
            DriverEvent::MainReacted { main, .. } => self.has_main(main),
            _ => true,
        }
    }

    /// The world after an event.
    pub open spec fn after(self, event: DriverEvent) -> World {
        match event {
            DriverEvent::Block { parker } => self.with_thread(parker, Thread::fresh()),
            DriverEvent::Finish { parker } => World { threads: self.threads.remove(parker), ..self },
            DriverEvent::Unwind { parker } => {
                let released = self.released(parker);
                World { threads: released.threads.remove(parker), ..released }
            },
            DriverEvent::Wake { parker, by } => {
                let thread = self.threads[parker];
                let wake = thread.flags.wake_of(
                    by matches Some(waker) && self.threads[waker].io_polling,
                );
                World { notified: self.notified || wake.reactor, ..self }.with_thread(
                    parker,
                    Thread {
                        flags: BlockOn { is_task: true, ..thread.flags },
                        blocked: thread.blocked && !(thread.phase is Sleep && wake.thread),
                        ..thread
                    },
                )
            },
            DriverEvent::Pending { parker } => {
                let thread = self.threads[parker];
                self.with_thread(
                    parker,
                    Thread {
                        phase: Phase::after_pending(thread.flags.is_task),
                        flags: BlockOn { is_task: false, ..thread.flags },
                        ..thread
                    },
                )
            },
            DriverEvent::TriedProcess { parker, locked } => self.with_thread(
                parker,
                Thread {
                    phase: if locked {
                        Phase::Process
                    } else {
                        Phase::Poll
                    },
                    io_polling: locked,
                    ..self.threads[parker]
                },
            ),
            DriverEvent::Processed { parker } => World { notified: false, ..self }.with_thread(
                parker,
                Thread { phase: Phase::Poll, io_polling: false, ..self.threads[parker] },
            ),
            DriverEvent::Enter { parker } => {
                let (state, admission) = self.main.state.get_reactor(
                    parker,
                    self.main.thread_enabled,
                );
                self.with_state(state).with_spawned(admission.spawn).with_thread(
                    parker,
                    Thread {
                        phase: Phase::Begin { leads: admission.leads },
                        ..self.threads[parker]
                    },
                )
            },
            DriverEvent::Begin { parker, now } => {
                let flags = self.threads[parker].flags;
                let leads = self.threads[parker].phase->leads;
                let phase = Phase::after_begin(leads, flags.is_task, now);
                self.with_thread(
                    parker,
                    Thread {
                        phase,
                        flags: BlockOn { is_polling: leads, is_task: false, ..flags },
                        io_polling: leads,
                        blocked: phase is React,
                    },
                )
            },
            DriverEvent::Return { parker } => World {
                notified: self.notified && !(self.threads[parker].phase is React),
                ..self
            }.with_thread(parker, Thread { blocked: false, ..self.threads[parker] }),
            DriverEvent::Reacted { parker, now } => {
                let thread = self.threads[parker];
                let phase = Phase::after_react(
                    thread.phase->React_start,
                    thread.phase->React_count,
                    thread.flags.is_task,
                    now,
                );
                self.with_thread(
                    parker,
                    Thread {
                        phase,
                        flags: BlockOn { is_task: false, ..thread.flags },
                        blocked: phase is React,
                        ..thread
                    },
                )
            },
            DriverEvent::TryHandoff { parker } => {
                let thread = self.threads[parker];
                let (state, handed, nominee) = self.main.state.try_handoff(parker);
                let phase = if handed {
                    Phase::Sleep
                } else {
                    Phase::after_round(
                        thread.phase->TryHandoff_start,
                        thread.phase->TryHandoff_count,
                    )
                };
                self.with_state(state).with_thread(
                    parker,
                    Thread {
                        phase,
                        flags: BlockOn { is_polling: !handed, ..thread.flags },
                        io_polling: !handed,
                        blocked: phase is React,
                    },
                ).nominated(nominee)
            },
            DriverEvent::Sleep { parker } => {
                let thread = self.threads[parker];
                let phase = Phase::after_sleep(thread.flags);
                self.with_thread(
                    parker,
                    Thread {
                        phase,
                        flags: BlockOn { is_task: false, is_nominated: false, ..thread.flags },
                        blocked: phase is Sleep,
                        ..thread
                    },
                )
            },
            DriverEvent::Leave { parker } => self.released(parker),
            DriverEvent::OtherPolls => World { notified: false, ..self },
            DriverEvent::MainTurn { main, tick } => {
                let (state, after, step) = main_loop::main_turn(self.main, self.mains[main], tick);
                World {
                    mains: if step is Exit {
                        self.mains.remove(main)
                    } else {
                        self.mains.insert(main, after)
                    },
                    ..self.with_state(state)
                }.nominated(nominee_of_turn(step))
            },
            DriverEvent::MainReacted { main, tick } => World {
                mains: self.mains.insert(main, MainLoop { last_tick: tick, ..self.mains[main] }),
                ..self
            },
            DriverEvent::Start => {
                let (main, spawn) = self.main.started();
                World { main, ..self }.with_spawned(spawn)
            },
            DriverEvent::Disable => World { main: self.main.disabled().0, ..self },
            DriverEvent::Enable => {
                let (main, spawn) = self.main.enabled();
                World { main, ..self }.with_spawned(spawn)
            },
            DriverEvent::Dedicate => {
                let (main, action) = self.main.dedicated();
                World { main, ..self }.with_spawned(action == ThreadAction::Spawn)
            },
        }
    }

    /// Whether events can happen one after the other.
    pub open spec fn can_all(self, events: Seq<DriverEvent>) -> bool
        decreases events.len(),
    {
        events.len() == 0 || (self.can(events[0]) && self.after(events[0]).can_all(
            events.drop_first(),
        ))
    }

    /// The world after events.
    pub open spec fn after_all(self, events: Seq<DriverEvent>) -> World
        decreases events.len(),
    {
        if events.len() == 0 {
            self
        } else {
            self.after(events[0]).after_all(events.drop_first())
        }
    }
}

/// What taking a thread out of a list leaves.
proof fn lemma_without(wakers: Seq<usize>, parker: usize)
    ensures
        forall|p: usize| #[trigger]
            driver::without(wakers, parker).contains(p) <==> wakers.contains(p) && p != parker,
        wakers.no_duplicates() ==> driver::without(wakers, parker).no_duplicates(),
    decreases wakers.len(),
{
    reveal(Seq::filter);
    let kept = driver::without(wakers, parker);
    if wakers.len() > 0 {
        let rest = wakers.drop_last();
        lemma_without(rest, parker);
        let fewer = driver::without(rest, parker);
        let last = wakers.last();
        assert forall|p: usize| #[trigger] kept.contains(p) <==> wakers.contains(p) && p
            != parker by {
            lemma_drop_last_contains(wakers, p);
            if last != parker {
                assert(kept == fewer.push(last));
                assert(kept.drop_last() =~= fewer);
                lemma_drop_last_contains(kept, p);
            }
        }
        if wakers.no_duplicates() {
            assert forall|i: int, j: int|
                0 <= i < kept.len() && 0 <= j < kept.len() && i != j implies kept[i]
                != kept[j] by {
                if last != parker {
                    if i == kept.len() - 1 {
                        assert(fewer.contains(fewer[j]));
                        assert(rest.contains(fewer[j]));
                    } else if j == kept.len() - 1 {
                        assert(fewer.contains(fewer[i]));
                        assert(rest.contains(fewer[i]));
                    }
                }
            }
        }
    } else {
        assert(kept =~= wakers);
    }
}

/// A list holds its last element and what the rest of it holds.
proof fn lemma_drop_last_contains(wakers: Seq<usize>, p: usize)
    requires
        wakers.len() > 0,
    ensures
        wakers.contains(p) <==> wakers.drop_last().contains(p) || p == wakers.last(),
{
    let rest = wakers.drop_last();
    if rest.contains(p) {
        let i = choose|i: int| 0 <= i < rest.len() && rest[i] == p;
        assert(wakers[i] == p);
    }
    if wakers.contains(p) && p != wakers.last() {
        let i = choose|i: int| 0 <= i < wakers.len() && wakers[i] == p;
        assert(rest[i] == p);
    }
    if p == wakers.last() {
        assert(wakers[wakers.len() - 1] == p);
    }
}

/// A list with one more element holds that element and what it held before.
proof fn lemma_push_contains(wakers: Seq<usize>, parker: usize, p: usize)
    ensures
        wakers.push(parker).contains(p) <==> wakers.contains(p) || p == parker,
{
    let longer = wakers.push(parker);
    assert(longer.drop_last() =~= wakers);
    lemma_drop_last_contains(longer, p);
}

/// What a list holds once a thread has been moved to its end.
proof fn lemma_requeued(wakers: Seq<usize>, parker: usize)
    ensures
        forall|p: usize| #[trigger]
            driver::without(wakers, parker).push(parker).contains(p) <==> wakers.contains(p) || p
                == parker,
        wakers.no_duplicates() ==> driver::without(wakers, parker).push(parker).no_duplicates(),
{
    lemma_without(wakers, parker);
    let kept = driver::without(wakers, parker);
    assert forall|p: usize| #[trigger] kept.push(parker).contains(p) <==> wakers.contains(p) || p
        == parker by {
        lemma_push_contains(kept, parker, p);
    }
    if wakers.no_duplicates() {
        lemma_pushed_no_duplicates(kept, parker);
    }
}

/// Adding a thread that is not in a list creates no duplicates.
proof fn lemma_pushed_no_duplicates(wakers: Seq<usize>, parker: usize)
    requires
        wakers.no_duplicates(),
        !wakers.contains(parker),
    ensures
        wakers.push(parker).no_duplicates(),
{
    let longer = wakers.push(parker);
    assert forall|i: int, j: int|
        0 <= i < longer.len() && 0 <= j < longer.len() && i != j implies longer[i] != longer[j] by {
        if i == longer.len() - 1 {
            assert(wakers.contains(wakers[j]));
        } else if j == longer.len() - 1 {
            assert(wakers.contains(wakers[i]));
        }
    }
}

/// The last thread of a list without duplicates is not among the others.
proof fn lemma_last_is_nominated(wakers: Seq<usize>)
    requires
        wakers.len() > 0,
        wakers.no_duplicates(),
    ensures
        wakers.drop_last().no_duplicates(),
        !wakers.drop_last().contains(wakers.last()),
{
    let rest = wakers.drop_last();
    if rest.contains(wakers.last()) {
        let i = choose|i: int| 0 <= i < rest.len() && rest[i] == wakers.last();
        assert(wakers[i] == wakers[wakers.len() - 1]);
    }
}

/// Whatever happens to the driver keeps its invariant.
pub proof fn law_driver_stays_in_order(world: World, event: DriverEvent)
    requires
        world.inv(),
        world.can(event),
    ensures
        world.after(event).inv(),
{
    lemma_roles_stay(world, event);
    lemma_threads_stay(world, event);
    lemma_mains_stay(world, event);
}

/// A driver that has just been created is in order, and stays so whatever happens.
pub proof fn law_driver_is_always_in_order(events: Seq<DriverEvent>)
    requires
        World::fresh().can_all(events),
    ensures
        World::fresh().after_all(events).inv(),
{
    lemma_stays_in_order(World::fresh(), events);
}

/// A driver that is in order stays so whatever happens.
proof fn lemma_stays_in_order(world: World, events: Seq<DriverEvent>)
    requires
        world.inv(),
        world.can_all(events),
    ensures
        world.after_all(events).inv(),
    decreases events.len(),
{
    if events.len() > 0 {
        law_driver_stays_in_order(world, events[0]);
        lemma_stays_in_order(world.after(events[0]), events.drop_first());
    }
}

/// Whatever happens keeps main threads running.
proof fn lemma_mains_stay(world: World, event: DriverEvent)
    requires
        world.inv(),
        world.can(event),
    ensures
        world.after(event).mains_run(),
{
    let after = world.after(event);
    if world.main.thread_enabled && !(world.main.state is Inactive) {
        let m = choose|m: nat| #[trigger] world.has_main(m);
        assert(after.has_main(m) || !after.main.thread_enabled);
    }
    assert(after.spawned > world.spawned ==> after.has_main(world.spawned));
    assert forall|m: nat| #[trigger] after.has_main(m) implies m < after.spawned && !(
    after.main.state is Inactive) by {
        assert(world.has_main(m) || m == world.spawned);
    }
}

/// A thread that is nominated waits for the lead.
proof fn lemma_nominee_waits(world: World, event: DriverEvent, leader: usize)
    requires
        world.inv(),
        world.can(event),
        match event {
            DriverEvent::TryHandoff { parker } => world.main.state.try_handoff(parker).2 == Some(
                leader,
            ),
            DriverEvent::Leave { parker } => nominee_of(world.release_of(parker).1) == Some(leader),
            DriverEvent::Unwind { parker } => nominee_of(world.release_of(parker).1) == Some(
                leader,
            ),
            DriverEvent::MainTurn { main, tick } => nominee_of_turn(
                main_loop::main_turn(world.main, world.mains[main], tick).2,
            ) == Some(leader),
            _ => false,
        },
    ensures
        world.waits(leader),
{
    match world.main.state {
        StateView::Polling { wakers } => {
            assert(wakers.contains(wakers.last()));
        },
        StateView::Handoff { wakers, .. } => {
            assert(wakers.contains(wakers.last()));
        },
        _ => {},
    }
}

/// Whatever happens keeps the threads agreeing with what they do.
proof fn lemma_threads_stay(world: World, event: DriverEvent)
    requires
        world.inv(),
        world.can(event),
    ensures
        world.after(event).threads_agree(),
{
    let after = world.after(event);
    let nominee = match event {
        DriverEvent::TryHandoff { parker } => world.main.state.try_handoff(parker).2,
        DriverEvent::Leave { parker } => nominee_of(world.release_of(parker).1),
        DriverEvent::Unwind { parker } => nominee_of(world.release_of(parker).1),
        DriverEvent::MainTurn { main, tick } => nominee_of_turn(
            main_loop::main_turn(world.main, world.mains[main], tick).2,
        ),
        _ => None,
    };
    if let Some(leader) = nominee {
        lemma_nominee_waits(world, event, leader);
        assert(world.has_thread(leader));
    }
    assert forall|p: usize| #[trigger] after.has_thread(p) implies after.threads[p].inv(
        after.notified,
    ) by {
        assert(world.has_thread(p) || event == (DriverEvent::Block { parker: p }));
        match event {
            DriverEvent::Wake { parker, by } => {
                if let Some(waker) = by {
                    assert(world.has_thread(waker));
                    assert(world.locks(waker) == world.threads[waker].locks());
                    assert(world.locks(parker) == world.threads[parker].locks());
                }
            },
            DriverEvent::Processed { parker } => {
                assert(world.locks(parker));
                assert(p != parker ==> !world.locks(p));
            },
            DriverEvent::Return { parker } => {
                assert(world.has_thread(parker));
                assert(world.threads[parker].phase is React ==> world.locks(parker));
                assert(p != parker && world.threads[parker].phase is React ==> !world.locks(p));
            },
            DriverEvent::OtherPolls => {
                assert(!world.locks(p));
            },
            _ => {},
        }
    }
    assert forall|p: usize, q: usize| #[trigger]
        after.locks(p) && #[trigger] after.locks(q) implies p == q by {
        assert(after.has_thread(p) && after.has_thread(q));
        assert(world.locks(p) == (world.has_thread(p) && world.threads[p].locks()));
        assert(world.locks(q) == (world.has_thread(q) && world.threads[q].locks()));
    }
}

/// Whatever happens keeps the roles of the threads in order.
proof fn lemma_roles_stay(world: World, event: DriverEvent)
    requires
        world.inv(),
        world.can(event),
    ensures
        world.after(event).roles(),
{
    let after = world.after(event);
    match event {
        DriverEvent::Enter { parker } => {
            lemma_enter(world, parker);
        },
        DriverEvent::TryHandoff { parker } => {
            lemma_try_handoff(world, parker);
        },
        DriverEvent::Leave { parker } => {
            lemma_released(world, parker);
        },
        DriverEvent::Unwind { parker } => {
            lemma_released(world, parker);
            lemma_same_roles(world.released(parker), after, parker);
        },
        DriverEvent::MainTurn { main, tick } => {
            lemma_main_turn(world, main, tick);
        },
        DriverEvent::Block { parker } => {
            lemma_same_roles(world, after, parker);
        },
        DriverEvent::Finish { parker } => {
            lemma_same_roles(world, after, parker);
        },
        DriverEvent::Wake { parker, .. } => {
            lemma_same_roles(world, after, parker);
        },
        DriverEvent::Pending { parker } => {
            lemma_same_roles(world, after, parker);
        },
        DriverEvent::TriedProcess { parker, .. } => {
            lemma_same_roles(world, after, parker);
        },
        DriverEvent::Processed { parker } => {
            lemma_same_roles(world, after, parker);
        },
        DriverEvent::Begin { parker, .. } => {
            lemma_same_roles(world, after, parker);
        },
        DriverEvent::Return { parker } => {
            lemma_same_roles(world, after, parker);
        },
        DriverEvent::Reacted { parker, .. } => {
            lemma_same_roles(world, after, parker);
        },
        DriverEvent::Sleep { parker } => {
            lemma_same_roles(world, after, parker);
        },
        _ => {
            assert forall|p: usize| #[trigger] after.leads(p) == world.leads(p) by {}
            assert forall|p: usize| #[trigger] after.waits(p) == world.waits(p) by {}
            assert forall|m: nat| #[trigger] after.main_leads(m) == world.main_leads(m) by {
                assert(!world.has_main(world.spawned));
            }
            lemma_roles_decide(world, after);
        },
    }
}

/// Worlds in which the same threads lead and wait are equally in order.
proof fn lemma_roles_decide(before: World, after: World)
    requires
        before.roles(),
        after.main.state == before.main.state || (before.main.state is Inactive
            && after.main.state is Idle) || after.main.state is DedicatedReactor,
        forall|m: nat| #[trigger] after.main_leads(m) == before.main_leads(m),
        forall|p: usize| #[trigger] after.leads(p) == before.leads(p),
        forall|p: usize| #[trigger] after.waits(p) == before.waits(p),
        before.main.state matches StateView::Handoff { leader, .. } ==> after.is_told(leader),
    ensures
        after.roles(),
{
    if before.one_leads() {
        lemma_one_still_leads(before, after);
    }
}

/// If the same threads lead, exactly one still does.
proof fn lemma_one_still_leads(before: World, after: World)
    requires
        before.one_leads(),
        forall|m: nat| #[trigger] after.main_leads(m) == before.main_leads(m),
        forall|p: usize| #[trigger] after.leads(p) == before.leads(p),
    ensures
        after.one_leads(),
{
    if exists|m: nat| #[trigger] before.main_leads_alone(m) {
        let m = choose|m: nat| #[trigger] before.main_leads_alone(m);
        assert(after.main_leads_alone(m));
    } else {
        let p = choose|p: usize| #[trigger] before.leads_alone(p);
        assert(after.leads_alone(p));
    }
}

/// If a blocked thread leads, it is the only one, unless the main thread has the reactor.
proof fn lemma_leads_alone(world: World, parker: usize)
    requires
        world.roles(),
        world.leads(parker),
        !(world.main.state is DedicatedReactor),
    ensures
        world.main.state is Polling,
        world.leads_alone(parker),
{
    if !(exists|m: nat| #[trigger] world.main_leads_alone(m)) {
        let p = choose|p: usize| #[trigger] world.leads_alone(p);
        assert(p == parker);
    }
}

/// A step in which one thread keeps its role keeps the roles in order.
proof fn lemma_same_roles(before: World, after: World, parker: usize)
    requires
        before.roles(),
        after.main == before.main,
        after.mains == before.mains,
        after.leads(parker) == before.leads(parker),
        after.waits(parker) == before.waits(parker),
        forall|p: usize|
            p != parker ==> #[trigger] after.threads.contains_key(p) == before.threads.contains_key(
                p,
            ),
        forall|p: usize|
            p != parker && #[trigger] before.threads.contains_key(p) ==> after.threads[p]
                == before.threads[p],
        before.waits(parker) && before.is_told(parker) ==> after.is_told(parker),
    ensures
        after.roles(),
{
    assert forall|p: usize| #[trigger] after.leads(p) == before.leads(p) by {
        assert(p != parker ==> after.threads.contains_key(p) == before.threads.contains_key(p));
    }
    assert forall|p: usize| #[trigger] after.waits(p) == before.waits(p) by {
        assert(p != parker ==> after.threads.contains_key(p) == before.threads.contains_key(p));
    }
    assert forall|m: nat| #[trigger] after.main_leads(m) == before.main_leads(m) by {}
    if let StateView::Handoff { leader, .. } = before.main.state {
        assert(before.waits(leader));
    }
    lemma_roles_decide(before, after);
}

/// Asking for the reactor keeps the roles in order.
proof fn lemma_enter(before: World, parker: usize)
    requires
        before.inv(),
        before.can(DriverEvent::Enter { parker }),
    ensures
        before.after(DriverEvent::Enter { parker }).roles(),
{
    let after = before.after(DriverEvent::Enter { parker });
    assert forall|p: usize| p != parker implies #[trigger] after.leads(p) == before.leads(p) by {}
    assert forall|p: usize| p != parker implies #[trigger] after.waits(p) == before.waits(p) by {}
    assert forall|m: nat| #[trigger] after.main_leads(m) == before.main_leads(m) by {
        assert(!before.has_main(before.spawned));
    }
    match before.main.state {
        StateView::Polling { wakers } => {
            lemma_without(wakers, parker);
            lemma_requeued(wakers, parker);
            lemma_one_still_leads(before, after);
        },
        StateView::Handoff { leader, wakers } => {
            if leader == parker {
                assert(after.leads_alone(parker));
            } else {
                lemma_requeued(wakers, parker);
                assert(after.threads[leader] == before.threads[leader]);
            }
        },
        StateView::DedicatedReactor => {},
        _ => {
            assert(after.leads_alone(parker));
        },
    }
}

/// Trying to hand off the reactor keeps the roles in order.
proof fn lemma_try_handoff(before: World, parker: usize)
    requires
        before.inv(),
        before.can(DriverEvent::TryHandoff { parker }),
    ensures
        before.after(DriverEvent::TryHandoff { parker }).roles(),
{
    let after = before.after(DriverEvent::TryHandoff { parker });
    assert(before.leads(parker));
    assert forall|m: nat| #[trigger] after.main_leads(m) == before.main_leads(m) by {}
    if !(before.main.state is DedicatedReactor) {
        lemma_leads_alone(before, parker);
        let wakers = before.main.state->Polling_wakers;
        assert(!before.waits(parker));
        if wakers.len() > 0 {
            let leader = wakers.last();
            assert(wakers.contains(leader));
            assert(before.waits(leader));
            let rest = wakers.drop_last();
            let list = rest.push(parker);
            lemma_last_is_nominated(wakers);
            assert(!rest.contains(parker)) by {
                lemma_drop_last_contains(wakers, parker);
            }
            lemma_pushed_no_duplicates(rest, parker);
            assert forall|p: usize| !#[trigger] after.leads(p) by {
                if p != parker && before.leads(p) {
                    assert(p == parker);
                }
            }
            assert forall|p: usize| #[trigger] after.waits(p) <==> list.contains(p) || Some(leader)
                == Some(p) by {
                lemma_push_contains(rest, parker, p);
                lemma_drop_last_contains(wakers, p);
                assert(before.waits(p) <==> wakers.contains(p));
            }
            assert(!list.contains(leader)) by {
                lemma_push_contains(rest, parker, leader);
            }
            assert(after.lists_waiting(list, Some(leader)));
        } else {
            assert forall|p: usize| #[trigger] after.leads(p) == before.leads(p) by {}
            assert forall|p: usize| #[trigger] after.waits(p) == before.waits(p) by {}
            lemma_roles_decide(before, after);
        }
    }
}

/// Giving up the lead, or ceasing to wait for it, keeps the roles in order.
proof fn lemma_released(before: World, parker: usize)
    requires
        before.roles(),
        before.has_thread(parker),
    ensures
        before.released(parker).roles(),
        before.released(parker).has_thread(parker),
        before.released(parker).threads[parker].phase is Poll,
        !before.released(parker).leads(parker),
        !before.released(parker).waits(parker),
{
    let after = before.released(parker);
    let thread = before.threads[parker];
    assert forall|m: nat| #[trigger] after.main_leads(m) == before.main_leads(m) by {}
    if thread.leads() {
        assert(before.leads(parker));
        if !(before.main.state is DedicatedReactor) {
            lemma_leads_alone(before, parker);
            let wakers = before.main.state->Polling_wakers;
            assert(!before.waits(parker));
            if wakers.len() > 0 {
                assert(wakers.contains(wakers.last()));
                assert(before.waits(wakers.last()));
            }
            assert forall|p: usize| !#[trigger] after.leads(p) by {
                if p != parker && before.leads(p) {
                    assert(p == parker);
                }
            }
            if wakers.len() > 0 {
                lemma_nominate_last(before, after, wakers, parker);
            } else {
                assert forall|p: usize| #[trigger] after.waits(p) <==> Seq::<
                    usize,
                >::empty().contains(p) by {
                    assert(before.waits(p) <==> wakers.contains(p));
                }
            }
        }
    } else if thread.waits() {
        assert(before.waits(parker));
        match before.main.state {
            StateView::Polling { wakers } => {
                lemma_without(wakers, parker);
                assert forall|p: usize| #[trigger] after.leads(p) == before.leads(p) by {}
                lemma_one_still_leads(before, after);
                let list = driver::without(wakers, parker);
                assert forall|p: usize| #[trigger] after.waits(p) <==> list.contains(p) by {
                    assert(before.waits(p) <==> wakers.contains(p));
                }
            },
            StateView::Handoff { leader, wakers } => {
                if wakers.len() > 0 {
                    assert(wakers.contains(wakers.last()));
                    assert(before.waits(wakers.last()));
                }
                assert forall|p: usize| !#[trigger] after.leads(p) by {
                    assert(!before.leads(p));
                }
                if leader == parker {
                    if wakers.len() > 0 {
                        lemma_nominate_last(before, after, wakers, parker);
                    } else {
                        assert forall|p: usize| #[trigger] after.waits(p) <==> Seq::<
                            usize,
                        >::empty().contains(p) by {
                            assert(before.waits(p) <==> wakers.contains(p) || p == leader);
                        }
                    }
                } else {
                    lemma_without(wakers, parker);
                    let list = driver::without(wakers, parker);
                    assert forall|p: usize| #[trigger] after.waits(p) <==> list.contains(p) || Some(
                        leader,
                    ) == Some(p) by {
                        assert(before.waits(p) <==> wakers.contains(p) || p == leader);
                    }
                    assert(after.threads[leader] == before.threads[leader]);
                }
            },
            StateView::DedicatedReactor => {},
            _ => {
                assert(!Seq::<usize>::empty().contains(parker));
                assert(false);
            },
        }
    } else {
        lemma_same_roles(before, after, parker);
    }
}

/// Nominating the last of the waiting threads, when a thread that is not in the list ceases to
/// lead or wait.
proof fn lemma_nominate_last(before: World, after: World, wakers: Seq<usize>, parker: usize)
    requires
        wakers.len() > 0,
        wakers.no_duplicates(),
        !wakers.contains(parker),
        forall|p: usize| p != parker ==> (#[trigger] before.waits(p) <==> wakers.contains(p)),
        before.has_thread(parker),
        after == before.released(parker),
        after.main.state == (StateView::Handoff {
            leader: wakers.last(),
            wakers: wakers.drop_last(),
        }),
        nominee_of(before.release_of(parker).1) == Some(wakers.last()),
        after.nobody_leads(),
    ensures
        after.roles(),
{
    let leader = wakers.last();
    let list = wakers.drop_last();
    assert(wakers.contains(leader));
    assert(before.waits(leader));
    lemma_last_is_nominated(wakers);
    assert forall|p: usize| #[trigger] after.waits(p) <==> list.contains(p) || Some(leader) == Some(
        p,
    ) by {
        lemma_drop_last_contains(wakers, p);
        if p != parker {
            assert(before.waits(p) <==> wakers.contains(p));
        }
    }
    assert(after.lists_waiting(list, Some(leader)));
    assert(after.is_told(leader));
}

/// A turn of a main thread keeps the roles in order.
proof fn lemma_main_turn(before: World, main: nat, tick: usize)
    requires
        before.inv(),
        before.can(DriverEvent::MainTurn { main, tick }),
    ensures
        before.after(DriverEvent::MainTurn { main, tick }).roles(),
{
    let after = before.after(DriverEvent::MainTurn { main, tick });
    let main_loop = before.mains[main];
    match before.main.state {
        StateView::Polling { wakers } if main_loop.is_polling && (wakers.len() > 0
            || !before.main.thread_enabled) => {
            // The main thread gives up the lead.
            assert(before.main_leads(main));
            let alone = choose|m: nat| #[trigger] before.main_leads_alone(m);
            assert(before.main_leads_alone(alone));
            assert(alone == main);
            if wakers.len() > 0 {
                assert(wakers.contains(wakers.last()));
                assert(before.waits(wakers.last()));
                lemma_last_is_nominated(wakers);
            }
            assert forall|p: usize| !#[trigger] after.leads(p) by {
                assert(!before.leads(p));
            }
            assert forall|m: nat| !#[trigger] after.main_leads(m) by {
                assert(before.main_leads(m) ==> m == main);
            }
            if wakers.len() > 0 {
                let leader = wakers.last();
                let list = wakers.drop_last();
                assert forall|p: usize| #[trigger] after.waits(p) <==> list.contains(p) || Some(
                    leader,
                ) == Some(p) by {
                    lemma_drop_last_contains(wakers, p);
                    assert(before.waits(p) <==> wakers.contains(p));
                }
                assert(after.lists_waiting(list, Some(leader)));
            } else {
                assert forall|p: usize| #[trigger] after.waits(p) <==> Seq::<
                    usize,
                >::empty().contains(p) by {
                    assert(before.waits(p) <==> wakers.contains(p));
                }
            }
        },
        StateView::Idle if before.main.thread_enabled && main_loop.last_tick == tick => {
            assert forall|p: usize| #[trigger] after.leads(p) == before.leads(p) by {}
            assert forall|p: usize| #[trigger] after.waits(p) == before.waits(p) by {}
            assert forall|m: nat| #[trigger] after.main_leads(m) <==> m == main by {
                assert(!before.main_leads(m));
            }
            assert(after.main_leads_alone(main));
        },
        _ => {
            assert forall|p: usize| #[trigger] after.leads(p) == before.leads(p) by {}
            assert forall|p: usize| #[trigger] after.waits(p) == before.waits(p) by {}
            if !(before.main.state is DedicatedReactor) {
                assert forall|m: nat| #[trigger] after.main_leads(m) == before.main_leads(m) by {
                    assert(before.main_leads(main) == main_loop.is_polling);
                }
                lemma_roles_decide(before, after);
            }
        },
    }
}

/// The driver never reaches an invalid state: whenever a thread is to hand off the reactor, start
/// polling, sleep, leave or unwind, the controller and the thread are such that it can. A main
/// thread only runs once the driver has been started.
pub proof fn law_no_invalid_state(world: World, parker: usize, main: nat)
    requires
        world.inv(),
    ensures
        world.has_thread(parker) ==> ({
            let thread = world.threads[parker];
            &&& thread.phase is Begin ==> !thread.flags.is_polling
            &&& thread.phase is Sleep ==> !thread.flags.is_polling
            &&& thread.phase is TryHandoff ==> thread.flags.is_polling
            &&& thread.leads() ==> world.main.state.can_hand_off()
            &&& thread.waits() ==> world.main.state.can_wait()
        }),
        world.has_main(main) ==> !(world.main.state is Inactive),
{
    if world.has_thread(parker) {
        let thread = world.threads[parker];
        if thread.leads() {
            assert(world.leads(parker));
        }
        if thread.waits() {
            assert(world.waits(parker));
            assert(!Seq::<usize>::empty().contains(parker));
        }
    }
}

/// At most one thread leads, unless the main thread has been given the reactor for itself.
pub proof fn law_one_thread_leads(world: World, a: usize, b: usize, main: nat)
    requires
        world.inv(),
        !(world.main.state is DedicatedReactor),
        world.leads(a),
    ensures
        world.leads(b) ==> a == b,
        !world.main_leads(main),
{
    lemma_leads_alone(world, a);
}

/// Whoever waits for the lead is served: unless the main thread has been given the reactor for
/// itself, either a thread that runs leads and has the waiting thread on the list, or a thread is
/// nominated.
pub proof fn law_waiting_threads_are_served(world: World, parker: usize)
    requires
        world.inv(),
        !(world.main.state is DedicatedReactor),
        world.waits(parker),
    ensures
        match world.main.state {
            StateView::Polling { wakers } => wakers.contains(parker) && ((exists|m: nat|
                #[trigger]
                world.has_main(m) && world.mains[m].is_polling) || (exists|p: usize| #[trigger]
                world.leads(p))),
            StateView::Handoff { leader, wakers } => world.waits(leader) && (parker == leader
                || wakers.contains(parker)),
            _ => false,
        },
{
    assert(!Seq::<usize>::empty().contains(parker));
    match world.main.state {
        StateView::Handoff { leader, wakers } => {
            assert(Some(leader) == Some(leader));
            assert(world.waits(leader));
        },
        StateView::Polling { wakers } => {
            if exists|m: nat| #[trigger] world.main_leads_alone(m) {
                let m = choose|m: nat| #[trigger] world.main_leads_alone(m);
                assert(world.has_main(m));
            } else {
                let p = choose|p: usize| #[trigger] world.leads_alone(p);
                assert(world.leads(p));
            }
        },
        _ => {},
    }
}

/// A disabled main thread that leads gives up the lead when it exits: the reactor is then free for
/// the taking, or the thread that asked for it last is nominated.
pub proof fn law_disabled_thread_gives_up_the_lead(world: World, main: nat, tick: usize)
    requires
        world.inv(),
        !world.main.thread_enabled,
        world.main_leads(main),
    ensures
        ({
            let after = world.after(DriverEvent::MainTurn { main, tick });
            &&& !after.has_main(main)
            &&& after.nobody_leads()
            &&& world.main.state matches StateView::Polling { wakers } && if wakers.len() > 0 {
                after.main.state == (StateView::Handoff {
                    leader: wakers.last(),
                    wakers: wakers.drop_last(),
                }) && after.threads[wakers.last()].flags.is_nominated
            } else {
                after.main.state == StateView::Idle
            }
        }),
{
    law_driver_stays_in_order(world, DriverEvent::MainTurn { main, tick });
}

/// A nomination is not slept through: a nominated thread that is about to sleep finds a reason not
/// to, and none is asleep.
pub proof fn law_nomination_is_not_slept_through(world: World, wakers: Seq<usize>, leader: usize)
    requires
        world.inv(),
        world.main.state == (StateView::Handoff { leader, wakers }),
        world.threads[leader].phase is Sleep,
    ensures
        !world.threads[leader].blocked,
        !(Phase::after_sleep(world.threads[leader].flags) is Sleep),
{
    assert(Some(leader) == Some(leader));
    assert(world.waits(leader));
    assert(world.has_thread(leader));
}

/// Whether one of the events uses the driver: it is started, given to the main thread, or a blocked
/// thread asks for the reactor.
pub open spec fn uses_driver(events: Seq<DriverEvent>) -> bool
    decreases events.len(),
{
    events.len() > 0 && (events[0] is Start || events[0] is Dedicate || events[0] is Enter
        || uses_driver(events.drop_first()))
}

/// How many main threads have been spawned, as long as none was disabled: none before the driver is
/// first used, and one from then on.
proof fn lemma_spawned(world: World, events: Seq<DriverEvent>)
    requires
        world.main.thread_enabled,
        !events.contains(DriverEvent::Disable),
    ensures
        ({
            let after = world.after_all(events);
            &&& after.main.thread_enabled
            &&& after.spawned == world.spawned + if world.main.state is Inactive
                && !(after.main.state is Inactive) {
                1nat
            } else {
                0nat
            }
            &&& after.main.state is Inactive <==> world.main.state is Inactive && !uses_driver(
                events,
            )
        }),
    decreases events.len(),
{
    if events.len() > 0 {
        let rest = events.drop_first();
        assert(events.contains(events[0]));
        if rest.contains(DriverEvent::Disable) {
            let i = choose|i: int| 0 <= i < rest.len() && rest[i] == DriverEvent::Disable;
            assert(events[i + 1] == DriverEvent::Disable);
        }
        lemma_spawned(world.after(events[0]), rest);
    }
}

/// The first use of the driver spawns exactly one main thread, and no later use spawns another, as
/// long as the thread is not disabled.
pub proof fn law_thread_is_spawned_once(events: Seq<DriverEvent>)
    requires
        !events.contains(DriverEvent::Disable),
    ensures
        World::fresh().after_all(events).spawned == if uses_driver(events) {
            1nat
        } else {
            0nat
        },
{
    lemma_spawned(World::fresh(), events);
}

/// A main thread runs as long as it is enabled, once the driver has been used.
pub proof fn law_enabled_thread_runs(world: World)
    requires
        world.inv(),
        world.main.thread_enabled,
        !(world.main.state is Inactive),
    ensures
        exists|m: nat| #[trigger] world.has_main(m),
{
}

} // verus!
