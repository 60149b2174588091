//! The controller of the "async-io" thread, which decides who polls the reactor.
//!
//! Threads that block on a future take turns at polling. One of them leads, the others wait and are
//! nominated when the leader is done. The "async-io" thread leads if nobody else does, or always if
//! it has been given the reactor for itself.
use vstd::prelude::*;

pub mod block_on;
pub mod main_loop;
pub mod wakeups;
pub mod world;

verus! {

/// Who is responsible for polling.
pub enum StateView {
    /// Currently disabled and not yet initialized.
    Inactive,
    /// The reactor lock is free for the taking.
    Idle,
    /// The main thread will always handle the reactor.
    DedicatedReactor,
    /// The reactor lock is taken by the thread that set the state to this value.
    Polling { wakers: Seq<usize> },
    /// The reactor lock should be taken by the leader.
    Handoff { leader: usize, wakers: Seq<usize> },
}

/// What the controller holds.
pub struct MainThreadView {
    /// Whether the "async-io" thread is enabled.
    pub thread_enabled: bool,
    /// Who is responsible for polling.
    pub state: StateView,
}

impl MainThreadView {
    /// The controller once the driver has been started, and whether the main thread has to be
    /// spawned.
    pub open spec fn started(self) -> (MainThreadView, bool) {
        if self.state is Inactive {
            (MainThreadView { state: StateView::Idle, ..self }, self.thread_enabled)
        } else {
            (self, false)
        }
    }

    /// The controller once the main thread has been disabled, and whether the reactor and the
    /// thread have to be notified. The dedicated reactor cannot be disabled.
    pub open spec fn disabled(self) -> (MainThreadView, bool) {
        if self.state is DedicatedReactor {
            (self, false)
        } else {
            (
                MainThreadView { thread_enabled: false, ..self },
                self.thread_enabled && !(self.state is Inactive),
            )
        }
    }

    /// The controller once the main thread has been enabled, and whether it has to be spawned.
    pub open spec fn enabled(self) -> (MainThreadView, bool) {
        (
            MainThreadView { thread_enabled: true, ..self },
            !self.thread_enabled && !(self.state is Inactive),
        )
    }

    /// The controller once the main thread has been given the reactor for itself, and what has to
    /// be done so that it runs.
    pub open spec fn dedicated(self) -> (MainThreadView, ThreadAction) {
        (
            MainThreadView { thread_enabled: true, state: StateView::DedicatedReactor },
            match self.state {
                StateView::DedicatedReactor => ThreadAction::Nothing,
                StateView::Inactive => ThreadAction::Spawn,
                _ => if self.thread_enabled {
                    ThreadAction::Notify
                } else {
                    ThreadAction::Spawn
                },
            },
        )
    }
}

/// Who is responsible for polling. Blocked threads are told apart by their numbers.
#[derive(Debug)]
enum State {
    Inactive,
    Idle,
    DedicatedReactor,
    Polling { wakers: Vec<usize> },
    Handoff { leader: usize, wakers: Vec<usize> },
}

impl State {
    spec fn model(&self) -> StateView {
        match *self {
            State::Inactive => StateView::Inactive,
            State::Idle => StateView::Idle,
            State::DedicatedReactor => StateView::DedicatedReactor,
            State::Polling { wakers } => StateView::Polling { wakers: wakers@ },
            State::Handoff { leader, wakers } => StateView::Handoff { leader, wakers: wakers@ },
        }
    }
}

/// The waiting threads without one of them.
pub open spec fn without(wakers: Seq<usize>, parker: usize) -> Seq<usize> {
    wakers.filter(|w: usize| w != parker)
}

/// What becomes of the lead when it is given up.
#[derive(Clone, Copy, Debug, PartialEq, Eq, Structural)]
pub enum Handover {
    /// This thread is nominated and has to be told so.
    Nominate(usize),
    /// Nobody waits: the main thread has to be notified.
    NotifyMain,
    /// The lead stays where it is.
    Nothing,
}

/// What has to be done so that the main thread runs.
#[derive(Clone, Copy, Debug, PartialEq, Eq, Structural)]
pub enum ThreadAction {
    /// The thread has to be spawned.
    Spawn,
    /// The thread has to be notified.
    Notify,
    /// There is nothing to do.
    Nothing,
}

/// The answer to a thread that asks for the reactor.
#[derive(Clone, Copy, Debug, PartialEq, Eq, Structural)]
pub struct Admission {
    /// The thread is the leader and may lock the reactor; otherwise it has to wait.
    pub leads: bool,
    /// The main thread has to be spawned.
    pub spawn: bool,
}

impl StateView {
    /// The state and the answer once a thread has asked for the reactor.
    pub open spec fn get_reactor(self, parker: usize, enabled: bool) -> (StateView, Admission) {
        match self {
            StateView::DedicatedReactor => (self, Admission { leads: false, spawn: false }),
            StateView::Idle => (
                StateView::Polling { wakers: Seq::empty() },
                Admission { leads: true, spawn: false },
            ),
            StateView::Inactive => (
                StateView::Polling { wakers: Seq::empty() },
                Admission { leads: true, spawn: enabled },
            ),
            StateView::Handoff { leader, wakers } => if leader == parker {
                (StateView::Polling { wakers }, Admission { leads: true, spawn: false })
            } else {
                (
                    StateView::Handoff { leader, wakers: without(wakers, parker).push(parker) },
                    Admission { leads: false, spawn: false },
                )
            },
            StateView::Polling { wakers } => (
                StateView::Polling { wakers: without(wakers, parker).push(parker) },
                Admission { leads: false, spawn: false },
            ),
        }
    }

    /// Whether the lead can be given up in this state.
    pub open spec fn can_hand_off(self) -> bool {
        self is Polling || self is DedicatedReactor
    }

    /// The state and what to do once the leader has given up the lead.
    pub open spec fn handoff(self) -> (StateView, Handover) {
        match self {
            StateView::Polling { wakers } => if wakers.len() > 0 {
                (
                    StateView::Handoff { leader: wakers.last(), wakers: wakers.drop_last() },
                    Handover::Nominate(wakers.last()),
                )
            } else {
                (StateView::Idle, Handover::NotifyMain)
            },
            _ => (self, Handover::Nothing),
        }
    }

    /// The state once the leader has tried to give up the lead, whether it has, and the thread
    /// that is nominated in its place.
    pub open spec fn try_handoff(self, parker: usize) -> (StateView, bool, Option<usize>) {
        match self {
            StateView::Polling { wakers } => if wakers.len() > 0 {
                (
                    StateView::Handoff {
                        leader: wakers.last(),
                        wakers: wakers.drop_last().push(parker),
                    },
                    true,
                    Some(wakers.last()),
                )
            } else {
                (self, false, None)
            },
            StateView::DedicatedReactor => (self, true, None),
            _ => (self, false, None),
        }
    }

    /// Whether threads can be waiting in this state.
    pub open spec fn can_wait(self) -> bool {
        self is Polling || self is Handoff || self is DedicatedReactor
    }

    /// The state and what to do once a thread has stopped waiting.
    pub open spec fn disqualify(self, parker: usize) -> (StateView, Handover) {
        match self {
            StateView::Handoff { leader, wakers } => if leader == parker {
                if wakers.len() > 0 {
                    (
                        StateView::Handoff { leader: wakers.last(), wakers: wakers.drop_last() },
                        Handover::Nominate(wakers.last()),
                    )
                } else {
                    (StateView::Idle, Handover::NotifyMain)
                }
            } else {
                (
                    StateView::Handoff { leader, wakers: without(wakers, parker) },
                    Handover::Nothing,
                )
            },
            StateView::Polling { wakers } => (
                StateView::Polling { wakers: without(wakers, parker) },
                Handover::Nothing,
            ),
            _ => (self, Handover::Nothing),
        }
    }
}

/// Controller for the "async-io" thread.
#[derive(Debug)]
pub struct MainThreadState {
    thread_enabled: bool,
    state: State,
}

impl View for MainThreadState {
    type V = MainThreadView;

    closed spec fn view(&self) -> MainThreadView {
        MainThreadView { thread_enabled: self.thread_enabled, state: self.state.model() }
    }
}

/// Takes a thread out of the list of those that wait.
fn retain_others(wakers: &mut Vec<usize>, parker: usize)
    ensures
        final(wakers)@ == without(old(wakers)@, parker),
{
    let mut kept: Vec<usize> = Vec::new();
    let mut i: usize = 0;
    proof {
        reveal(Seq::filter);
        assert(without(wakers@.take(0), parker) =~= Seq::<usize>::empty());
    }
    while i < wakers.len()
        invariant
            i <= wakers@.len(),
            *wakers == *old(wakers),
            kept@ == without(wakers@.take(i as int), parker),
        decreases wakers@.len() - i,
    {
        proof {
            reveal(Seq::filter);
            assert(wakers@.take(i + 1).drop_last() =~= wakers@.take(i as int));
        }
        if wakers[i] != parker {
            kept.push(wakers[i]);
        }
        i = i + 1;
    }
    assert(wakers@.take(i as int) =~= wakers@);
    *wakers = kept;
}

/// Takes all threads out of the list of those that wait.
fn take_all(wakers: &mut Vec<usize>) -> (taken: Vec<usize>)
    ensures
        taken@ == old(wakers)@,
        final(wakers)@ == Seq::<usize>::empty(),
{
    let mut taken: Vec<usize> = Vec::new();
    std::mem::swap(&mut taken, wakers);
    taken
}

impl MainThreadState {
    /// The dedicated reactor cannot be disabled.
    pub closed spec fn wf(&self) -> bool {
        self.state is DedicatedReactor ==> self.thread_enabled
    }

    /// An enabled thread that has not been started.
    pub fn new() -> (main: MainThreadState)
        ensures
            main.wf(),
            main@ == (MainThreadView { thread_enabled: true, state: StateView::Inactive }),
    {
        MainThreadState { thread_enabled: true, state: State::Inactive }
    }

    /// Returns `true` if the "async-io" thread is enabled.
    pub fn thread_enabled(&self) -> (enabled: bool)
        ensures
            enabled == self@.thread_enabled,
    {
        self.thread_enabled
    }

    /// Starts the driver. Returns `true` if the main thread has to be spawned.
    pub fn start(&mut self) -> (spawn: bool)
        requires
            old(self).wf(),
        ensures
            final(self).wf(),
            (final(self)@, spawn) == old(self)@.started(),
    {
        match self.state {
            State::Inactive => {
                self.state = State::Idle;
                self.thread_enabled
            },
            _ => false,
        }
    }

    /// Disables the main thread. Returns `true` if the reactor and the thread have to be notified
    /// so that it stops.
    pub fn disable(&mut self) -> (notify: bool)
        requires
            old(self).wf(),
        ensures
            final(self).wf(),
            (final(self)@, notify) == old(self)@.disabled(),
    {
        if self.thread_enabled {
            let notify = match self.state {
                State::Inactive => false,
                State::DedicatedReactor => {
                    // The dedicated reactor cannot be disabled.
                    return false;
                },
                _ => true,
            };
            self.thread_enabled = false;
            notify
        } else {
            false
        }
    }

    /// Enables the main thread. Returns `true` if it has to be spawned.
    pub fn enable(&mut self) -> (spawn: bool)
        requires
            old(self).wf(),
        ensures
            final(self).wf(),
            (final(self)@, spawn) == old(self)@.enabled(),
    {
        if self.thread_enabled {
            false
        } else {
            self.thread_enabled = true;
            match self.state {
                State::Inactive => false,
                _ => true,
            }
        }
    }

    /// Gives the reactor to the main thread for itself.
    pub fn start_dedicated(&mut self) -> (action: ThreadAction)
        requires
            old(self).wf(),
        ensures
            final(self).wf(),
            (final(self)@, action) == old(self)@.dedicated(),
    {
        let action = match self.state {
            State::DedicatedReactor => {
                return ThreadAction::Nothing;
            },
            State::Inactive => ThreadAction::Spawn,
            _ => {
                if self.thread_enabled {
                    ThreadAction::Notify
                } else {
                    ThreadAction::Spawn
                }
            },
        };
        self.thread_enabled = true;
        self.state = State::DedicatedReactor;
        action
    }

    /// Tries to become the leader and get the reactor.
    ///
    /// If the caller leads, it may lock the reactor: nobody else is allowed to hold that lock for
    /// long. If it does not, it was added to a list of waiting pollers, and in the future may be
    /// nominated to become the leader, unless the main thread has the reactor for itself.
    pub fn get_reactor(&mut self, parker: usize) -> (admission: Admission)
        requires
            old(self).wf(),
        ensures
            final(self).wf(),
            (final(self)@.state, admission) == old(self)@.state.get_reactor(
                parker,
                old(self)@.thread_enabled,
            ),
            final(self)@.thread_enabled == old(self)@.thread_enabled,
    {
        match &mut self.state {
            State::DedicatedReactor => Admission { leads: false, spawn: false },
            State::Idle => {
                self.state = State::Polling { wakers: Vec::new() };
                Admission { leads: true, spawn: false }
            },
            State::Inactive => {
                // Same as above, but kick off the main thread if enabled.
                self.state = State::Polling { wakers: Vec::new() };
                Admission { leads: true, spawn: self.thread_enabled }
            },
            State::Handoff { leader, wakers } => {
                if *leader == parker {
                    // Complete the handoff.
                    let wakers = take_all(wakers);
                    self.state = State::Polling { wakers };
                    Admission { leads: true, spawn: false }
                } else {
                    // Another thread is responsible for running the reactor. Add our parker to
                    // the end of the list because it was most recently active.
                    retain_others(wakers, parker);
                    wakers.push(parker);
                    Admission { leads: false, spawn: false }
                }
            },
            State::Polling { wakers } => {
                retain_others(wakers, parker);
                wakers.push(parker);
                Admission { leads: false, spawn: false }
            },
        }
    }

    /// Unconditionally nominates another thread as the leader, falling back to the main thread if
    /// no blocked threads are available.
    ///
    /// The caller must be the current leader.
    pub fn handoff(&mut self) -> (handover: Handover)
        requires
            old(self).wf(),
            old(self)@.state.can_hand_off(),
        ensures
            final(self).wf(),
            (final(self)@.state, handover) == old(self)@.state.handoff(),
            final(self)@.thread_enabled == old(self)@.thread_enabled,
    {
        match &mut self.state {
            State::Polling { wakers } => {
                // The last thread in the list was the most recently active, and so will respond
                // fastest.
                match wakers.pop() {
                    Some(leader) => {
                        let wakers = take_all(wakers);
                        self.state = State::Handoff { leader, wakers };
                        Handover::Nominate(leader)
                    },
                    None => {
                        // Back to the main thread, if any.
                        self.state = State::Idle;
                        Handover::NotifyMain
                    },
                }
            },
            _ => Handover::Nothing,
        }
    }

    /// Tries to nominate another thread as the leader.
    ///
    /// The caller must be the current leader. If the first result is `false`, it remains the
    /// leader. If it is `true`, the caller is demoted to a waiter, but may still be nominated as a
    /// replacement leader if no other threads are active. The second result is the thread that
    /// has been nominated.
    pub fn try_handoff(&mut self, parker: usize) -> (handed: (bool, Option<usize>))
        requires
            old(self).wf(),
            old(self)@.state.can_hand_off(),
        ensures
            final(self).wf(),
            (final(self)@.state, handed.0, handed.1) == old(self)@.state.try_handoff(parker),
            final(self)@.thread_enabled == old(self)@.thread_enabled,
    {
        match &mut self.state {
            State::Polling { wakers } => {
                // The last thread in the list is most likely to be responsive.
                match wakers.pop() {
                    Some(leader) => {
                        wakers.push(parker);
                        let wakers = take_all(wakers);
                        self.state = State::Handoff { leader, wakers };
                        (true, Some(leader))
                    },
                    None => (false, None),
                }
            },
            State::DedicatedReactor => (true, None),
            _ => (false, None),
        }
    }

    /// Unconditionally removes the given thread from the list of waiting threads.
    pub fn disqualify(&mut self, parker: usize) -> (handover: Handover)
        requires
            old(self).wf(),
            old(self)@.state.can_wait(),
        ensures
            final(self).wf(),
            (final(self)@.state, handover) == old(self)@.state.disqualify(parker),
            final(self)@.thread_enabled == old(self)@.thread_enabled,
    {
        match &mut self.state {
            State::Handoff { leader, wakers } => {
                if *leader == parker {
                    // This thread was nominated as the leader but got a task wakeup before it
                    // could lead. Either find a new leader or mark the lock as free.
                    match wakers.pop() {
                        Some(new_leader) => {
                            *leader = new_leader;
                            Handover::Nominate(new_leader)
                        },
                        None => {
                            self.state = State::Idle;
                            Handover::NotifyMain
                        },
                    }
                } else {
                    retain_others(wakers, parker);
                    Handover::Nothing
                }
            },
            State::Polling { wakers } => {
                // Normal case: it was waiting, now it is not.
                retain_others(wakers, parker);
                Handover::Nothing
            },
            _ => Handover::Nothing,
        }
    }
}

/// Disables the "async-io" thread.
///
/// Returns `true` if the reactor and the thread have to be notified. This will signal the thread to
/// stop if it is running, but does not wait for it to terminate.
///
/// Note: if this thread is disabled, any future not run by blocking on it may block forever even if
/// I/O is available.
pub fn disable_park_thread(main: &mut MainThreadState) -> (notify: bool)
    requires
        old(main).wf(),
    ensures
        final(main).wf(),
        (final(main)@, notify) == old(main)@.disabled(),
{
    main.disable()
}

/// Enables the "async-io" thread.
///
/// Returns `true` if the thread has to be spawned: this will start the thread if there are any I/O
/// objects that might need waking.
pub fn enable_park_thread(main: &mut MainThreadState) -> (spawn: bool)
    requires
        old(main).wf(),
    ensures
        final(main).wf(),
        (final(main)@, spawn) == old(main)@.enabled(),
{
    main.enable()
}

/// Starts the "async-io" thread and gives it exclusive ownership of the reactor.
///
/// This can be more efficient if many threads block on futures, but normally just causes extra
/// wakeups as the I/O is redirected between threads.
pub fn start_dedicated_thread(main: &mut MainThreadState) -> (action: ThreadAction)
    requires
        old(main).wf(),
    ensures
        final(main).wf(),
        (final(main)@, action) == old(main)@.dedicated(),
{
    main.start_dedicated()
}

/// Initializes the "async-io" thread. Returns `true` if it has to be spawned.
pub fn init(main: &mut MainThreadState) -> (spawn: bool)
    requires
        old(main).wf(),
    ensures
        final(main).wf(),
        (final(main)@, spawn) == old(main)@.started(),
{
    main.start()
}

/// The threads that wait in a state, the one that was active most recently last.
pub open spec fn waiting_in(state: StateView) -> Seq<usize> {
    match state {
        StateView::Polling { wakers } => wakers,
        StateView::Handoff { wakers, .. } => wakers,
        _ => Seq::empty(),
    }
}

/// The thread that has been nominated, if there is one.
pub open spec fn nominated_in(state: StateView) -> Option<usize> {
    match state {
        StateView::Handoff { leader, .. } => Some(leader),
        _ => None,
    }
}

/// A new controller is for an enabled thread that has not been started, and tells that it is enabled.
/// Starting it once has the thread spawned if it is enabled, and never again, and changes nothing but
/// that it has been started.
pub proof fn law_thread_is_started_once(
    created: MainThreadState,
    enabled: bool,
    first: &mut MainThreadState,
    spawn: bool,
    second: &mut MainThreadState,
    again: bool,
    other: &mut MainThreadState,
    same: bool,
)
    requires
        call_ensures(MainThreadState::new, (), created),
        call_ensures(MainThreadState::thread_enabled, (&created,), enabled),
        old(first).wf() && old(second).wf() && old(other).wf(),
        call_ensures(MainThreadState::start, (first,), spawn),
        old(second)@ == final(first)@,
        call_ensures(MainThreadState::start, (second,), again),
        old(other)@ == old(first)@,
        call_ensures(init, (other,), same),
    ensures
        enabled && created@.thread_enabled && created@.state is Inactive,
        spawn <==> old(first)@.state is Inactive && old(first)@.thread_enabled,
        old(first)@.state is Inactive ==> final(first)@.state is Idle,
        !(old(first)@.state is Inactive) ==> final(first)@.state == old(first)@.state,
        final(first)@.thread_enabled == old(first)@.thread_enabled,
        !again && final(second)@ == final(first)@,
        same == spawn && final(other)@ == final(first)@,
{
}

/// Disabling the thread has it stopped if it runs, and enabling it has it spawned if it does not run,
/// but neither before it has been started. Who polls does not change. A thread that has the reactor
/// for itself stays enabled.
pub proof fn law_thread_is_stopped_and_spawned(
    disabled: &mut MainThreadState,
    notify: bool,
    enabled: &mut MainThreadState,
    spawn: bool,
    disabled2: &mut MainThreadState,
    notify2: bool,
    enabled2: &mut MainThreadState,
    spawn2: bool,
)
    requires
        old(disabled).wf() && old(enabled).wf() && old(disabled2).wf() && old(enabled2).wf(),
        call_ensures(MainThreadState::disable, (disabled,), notify),
        call_ensures(MainThreadState::enable, (enabled,), spawn),
        old(disabled2)@ == old(disabled)@ && old(enabled2)@ == old(enabled)@,
        call_ensures(disable_park_thread, (disabled2,), notify2),
        call_ensures(enable_park_thread, (enabled2,), spawn2),
    ensures
        final(disabled)@.state == old(disabled)@.state,
        final(disabled)@.thread_enabled ==> old(disabled)@.state is DedicatedReactor,
        old(disabled)@.state is DedicatedReactor ==> final(disabled)@.thread_enabled
            == old(disabled)@.thread_enabled,
        notify <==> old(disabled)@.thread_enabled && !final(disabled)@.thread_enabled
            && !(old(disabled)@.state is Inactive),
        final(enabled)@.state == old(enabled)@.state,
        final(enabled)@.thread_enabled,
        spawn <==> !old(enabled)@.thread_enabled && !(old(enabled)@.state is Inactive),
        notify2 == notify && final(disabled2)@ == final(disabled)@,
        spawn2 == spawn && final(enabled2)@ == final(enabled)@,
{
}

/// Giving the reactor to the main thread leaves it enabled and in charge for good. It is spawned
/// exactly if it does not run, and notified exactly if it runs and was not in charge.
pub proof fn law_dedicated_thread_is_in_charge(
    main: &mut MainThreadState,
    action: ThreadAction,
    other: &mut MainThreadState,
    same: ThreadAction,
)
    requires
        old(main).wf() && old(other).wf(),
        call_ensures(MainThreadState::start_dedicated, (main,), action),
        old(other)@ == old(main)@,
        call_ensures(start_dedicated_thread, (other,), same),
    ensures
        final(main)@.state is DedicatedReactor && final(main)@.thread_enabled,
        action is Nothing <==> old(main)@.state is DedicatedReactor,
        action is Spawn <==> old(main)@.state is Inactive || (!old(main)@.thread_enabled
            && !(old(main)@.state is DedicatedReactor)),
        same == action && final(other)@ == final(main)@,
{
}

/// A thread that asks for the reactor leads if nobody does or if it has been nominated, and those that
/// wait go on waiting. The first one ever has the main thread spawned if that is enabled.
pub proof fn law_reactor_is_given_to_one(
    main: &mut MainThreadState,
    parker: usize,
    admission: Admission,
)
    requires
        old(main).wf(),
        call_ensures(MainThreadState::get_reactor, (main, parker), admission),
    ensures
        final(main)@.thread_enabled == old(main)@.thread_enabled,
        admission.leads <==> old(main)@.state is Idle || old(main)@.state is Inactive
            || nominated_in(old(main)@.state) == Some(parker),
        admission.leads ==> final(main)@.state is Polling && waiting_in(final(main)@.state)
            == waiting_in(old(main)@.state),
        admission.spawn <==> old(main)@.state is Inactive && old(main)@.thread_enabled,
        old(main)@.state is DedicatedReactor ==> final(main)@.state is DedicatedReactor,
        !admission.leads && old(main)@.state is Polling ==> final(main)@.state is Polling,
        !admission.leads && old(main)@.state is Handoff ==> final(main)@.state is Handoff
            && nominated_in(final(main)@.state) == nominated_in(old(main)@.state),
{
}

/// A thread that asks for the reactor and does not lead waits for it, behind all others: one that did
/// not wait comes last, and one that did moves from its place to the end. The others keep their order.
pub proof fn law_asking_thread_waits_last(
    main: &mut MainThreadState,
    parker: usize,
    admission: Admission,
    place: int,
)
    requires
        old(main).wf(),
        call_ensures(MainThreadState::get_reactor, (main, parker), admission),
        !admission.leads && !(old(main)@.state is DedicatedReactor),
        waiting_in(old(main)@.state).no_duplicates(),
    ensures
        ({
            let before = waiting_in(old(main)@.state);
            let after = waiting_in(final(main)@.state);
            &&& !before.contains(parker) ==> after == before.push(parker)
            &&& 0 <= place < before.len() && before[place] == parker ==> after == before.remove(
                place,
            ).push(parker)
            &&& after.no_duplicates()
        }),
{
    let before = waiting_in(old(main)@.state);
    lemma_without(before, parker);
    lemma_without_place(before, parker, place);
    let after = waiting_in(final(main)@.state);
    let others = without(before, parker);
    assert(after == others.push(parker));
    assert(!others.contains(parker)) by {
        if others.contains(parker) {
            assert(before.contains(parker));
            let i = choose|i: int| 0 <= i < before.len() && before[i] == parker;
            lemma_without_place(before, parker, i);
            let j = choose|j: int| 0 <= j < others.len() && others[j] == parker;
            if j < i {
                assert(before[j] == parker);
            } else {
                assert(before[j + 1] == parker);
            }
        }
    }
    if before.contains(parker) {
        let i = choose|i: int| 0 <= i < before.len() && before[i] == parker;
        lemma_without_place(before, parker, i);
    }
    assert forall|i: int, j: int| 0 <= i < after.len() && 0 <= j < after.len() && i != j implies
        after[i] != after[j] by {
        if i == others.len() {
            assert(others.contains(others[j]));
        } else if j == others.len() {
            assert(others.contains(others[i]));
        } else {
            assert(others[i] != others[j]);
        }
    }
}

/// Taking a thread that is not there out of a list leaves the list.
proof fn lemma_without(wakers: Seq<usize>, parker: usize)
    requires
        wakers.no_duplicates(),
    ensures
        !wakers.contains(parker) ==> without(wakers, parker) == wakers,
        forall|w: usize| #[trigger] without(wakers, parker).contains(w) ==> wakers.contains(w),
    decreases wakers.len(),
{
    reveal(Seq::filter);
    if wakers.len() > 0 {
        let fewer = wakers.drop_last();
        lemma_without(fewer, parker);
        assert(fewer.push(wakers.last()) =~= wakers);
        let rest = without(fewer, parker);
        let all = without(wakers, parker);
        assert forall|w: usize| #[trigger] all.contains(w) implies wakers.contains(w) by {
            let i = choose|i: int| 0 <= i < all.len() && all[i] == w;
            if i < rest.len() {
                assert(rest[i] == w);
                assert(rest.contains(w));
                assert(fewer.contains(w));
                let j = choose|j: int| 0 <= j < fewer.len() && fewer[j] == w;
                assert(wakers[j] == w);
            } else {
                assert(wakers[wakers.len() - 1] == w);
            }
        }
        if !wakers.contains(parker) {
            assert(wakers[wakers.len() - 1] != parker);
            if fewer.contains(parker) {
                let j = choose|j: int| 0 <= j < fewer.len() && fewer[j] == parker;
                assert(wakers[j] == parker);
            }
        }
    } else {
        assert(without(wakers, parker) =~= wakers);
    }
}

/// Taking a thread that is there once out of a list takes out its place.
proof fn lemma_without_place(wakers: Seq<usize>, parker: usize, place: int)
    requires
        wakers.no_duplicates(),
    ensures
        0 <= place < wakers.len() && wakers[place] == parker ==> without(wakers, parker)
            == wakers.remove(place),
    decreases wakers.len(),
{
    reveal(Seq::filter);
    if 0 <= place < wakers.len() && wakers[place] == parker {
        let fewer = wakers.drop_last();
        if place == wakers.len() - 1 {
            if fewer.contains(parker) {
                let j = choose|j: int| 0 <= j < fewer.len() && fewer[j] == parker;
                assert(wakers[j] == wakers[place]);
            }
            lemma_without(fewer, parker);
            assert(wakers.remove(place) =~= fewer);
        } else {
            lemma_without_place(fewer, parker, place);
            assert(wakers[wakers.len() - 1] != parker);
            assert(wakers.remove(place) =~= fewer.remove(place).push(wakers.last()));
        }
    }
}

/// A leader that gives up the lead has the thread nominated that was active most recently, which then
/// waits no more. If nobody waits, nobody leads and the main thread has to look after the reactor.
pub proof fn law_lead_goes_to_the_most_recent(main: &mut MainThreadState, handover: Handover)
    requires
        old(main).wf(),
        old(main)@.state is Polling || old(main)@.state is DedicatedReactor,
        call_ensures(MainThreadState::handoff, (main,), handover),
    ensures
        final(main)@.thread_enabled == old(main)@.thread_enabled,
        old(main)@.state is DedicatedReactor ==> handover is Nothing && final(main)@.state
            is DedicatedReactor,
        old(main)@.state is Polling ==> match handover {
            Handover::Nominate(leader) => final(main)@.state is Handoff && nominated_in(
                final(main)@.state,
            ) == Some(leader) && waiting_in(old(main)@.state) == waiting_in(
                final(main)@.state,
            ).push(leader),
            Handover::NotifyMain => waiting_in(old(main)@.state).len() == 0 && final(main)@.state
                is Idle,
            Handover::Nothing => false,
        },
{
}

/// A leader that tries to give up the lead keeps it exactly if nobody waits for it. Otherwise the
/// thread that was active most recently is nominated and the leader waits in its place, or the main
/// thread has the reactor for itself.
pub proof fn law_lead_is_given_up_if_someone_waits(
    main: &mut MainThreadState,
    parker: usize,
    handed: (bool, Option<usize>),
)
    requires
        old(main).wf(),
        old(main)@.state is Polling || old(main)@.state is DedicatedReactor,
        call_ensures(MainThreadState::try_handoff, (main, parker), handed),
    ensures
        final(main)@.thread_enabled == old(main)@.thread_enabled,
        !handed.0 <==> old(main)@.state is Polling && waiting_in(old(main)@.state).len() == 0,
        !handed.0 ==> handed.1 is None && final(main)@.state is Polling && waiting_in(
            final(main)@.state,
        ).len() == 0,
        old(main)@.state is DedicatedReactor ==> handed.1 is None && final(main)@.state
            is DedicatedReactor,
        handed.0 && old(main)@.state is Polling ==> {
            let before = waiting_in(old(main)@.state);
            let after = waiting_in(final(main)@.state);
            &&& handed.1 == Some(before[before.len() - 1])
            &&& final(main)@.state is Handoff && nominated_in(final(main)@.state) == handed.1
            &&& after == before.update(before.len() - 1, parker)
        },
{
}

/// A thread that stops waiting is neither waiting nor nominated any more, and all others are where
/// they were. If it was nominated, the one active most recently is nominated in its place, or if
/// nobody waits the main thread has to look after the reactor.
pub proof fn law_stopped_thread_waits_no_more(
    main: &mut MainThreadState,
    parker: usize,
    handover: Handover,
    place: int,
)
    requires
        old(main).wf(),
        old(main)@.state is Polling || old(main)@.state is Handoff || old(main)@.state
            is DedicatedReactor,
        call_ensures(MainThreadState::disqualify, (main, parker), handover),
        waiting_in(old(main)@.state).no_duplicates(),
    ensures
        final(main)@.thread_enabled == old(main)@.thread_enabled,
        old(main)@.state is DedicatedReactor ==> handover is Nothing && final(main)@.state
            is DedicatedReactor,
        nominated_in(old(main)@.state) == Some(parker) ==> match handover {
            Handover::Nominate(leader) => nominated_in(final(main)@.state) == Some(leader)
                && waiting_in(old(main)@.state) == waiting_in(final(main)@.state).push(leader),
            Handover::NotifyMain => waiting_in(old(main)@.state).len() == 0 && final(main)@.state
                is Idle,
            Handover::Nothing => false,
        },
        nominated_in(old(main)@.state) != Some(parker) ==> {
            let before = waiting_in(old(main)@.state);
            let after = waiting_in(final(main)@.state);
            &&& handover is Nothing
            &&& old(main)@.state is Polling ==> final(main)@.state is Polling
            &&& old(main)@.state is Handoff ==> final(main)@.state is Handoff
            &&& nominated_in(final(main)@.state) == nominated_in(old(main)@.state)
            &&& !before.contains(parker) ==> after == before
            &&& 0 <= place < before.len() && before[place] == parker ==> after == before.remove(
                place,
            )
        },
{
    lemma_without(waiting_in(old(main)@.state), parker);
    lemma_without_place(waiting_in(old(main)@.state), parker, place);
}

} // verus!
