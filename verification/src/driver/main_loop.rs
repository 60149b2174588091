//! The loop of the "async-io" thread.
use crate::driver::{Handover, MainThreadState, MainThreadView, State, StateView};
use crate::time::Duration;
use vstd::prelude::*;

verus! {

/// How long, in milliseconds, the main thread gives a blocked thread to start polling or to advance
/// the tick counter before it takes over.
pub const TAKEOVER_MILLIS: u64 = 10;

/// What the main thread has to do next.
#[derive(Clone, Copy, Debug, PartialEq, Eq, Structural)]
pub enum MainStep {
    /// Lock the reactor and poll it forever.
    Dedicate,
    /// Sleep for the given time without holding the lock.
    Sleep(Duration),
    /// Lock the reactor and wait for I/O events without holding the lock.
    React,
    /// Tell the thread that it has been nominated, and go on.
    Nominate(usize),
    /// Wait until notified.
    Wait,
    /// The thread is disabled: exit, once the lead has been given up.
    Exit(Handover),
}

/// The loop of the main thread.
#[derive(Clone, Copy, Debug, PartialEq, Eq, Structural)]
pub struct MainLoop {
    /// The main thread leads.
    pub is_polling: bool,
    /// The last observed reactor tick.
    pub last_tick: usize,
}

/// The controller, the loop and what to do next after one turn of the main thread, which observes
/// the reactor's tick `tick`.
pub open spec fn main_turn(main: MainThreadView, main_loop: MainLoop, tick: usize) -> (
    StateView,
    MainLoop,
    MainStep,
) {
    if !main.thread_enabled {
        if main_loop.is_polling {
            let (state, handover) = main.state.handoff();
            (state, MainLoop { is_polling: false, ..main_loop }, MainStep::Exit(handover))
        } else {
            (main.state, main_loop, MainStep::Exit(Handover::Nothing))
        }
    } else {
        match main.state {
            StateView::DedicatedReactor => (main.state, main_loop, MainStep::Dedicate),
            StateView::Idle => if main_loop.last_tick == tick {
                (
                    StateView::Polling { wakers: Seq::empty() },
                    MainLoop { is_polling: true, ..main_loop },
                    MainStep::React,
                )
            } else {
                (
                    main.state,
                    MainLoop { last_tick: tick, ..main_loop },
                    MainStep::Sleep(Duration { nanos: 10_000_000 }),
                )
            },
            StateView::Polling { wakers } => if main_loop.is_polling {
                if wakers.len() > 0 {
                    (
                        StateView::Handoff { leader: wakers.last(), wakers: wakers.drop_last() },
                        MainLoop { is_polling: false, ..main_loop },
                        MainStep::Nominate(wakers.last()),
                    )
                } else {
                    (main.state, main_loop, MainStep::React)
                }
            } else {
                (main.state, main_loop, MainStep::Wait)
            },
            _ => (main.state, main_loop, MainStep::Wait),
        }
    }
}

impl MainLoop {
    /// The loop of a thread that has just been spawned.
    pub fn new() -> (main_loop: MainLoop)
        ensures
            main_loop == (MainLoop { is_polling: false, last_tick: 0 }),
    {
        MainLoop { is_polling: false, last_tick: 0 }
    }

    /// Takes one turn of the main loop, with the controller locked.
    ///
    /// A disabled thread that leads gives up the lead before it exits, so that the threads that
    /// block on futures go on without it.
    pub fn turn(&mut self, main: &mut MainThreadState, tick: usize) -> (step: MainStep)
        requires
            old(main).wf(),
            !(old(main)@.state is Inactive),
        ensures
            final(main).wf(),
            (final(main)@.state, *final(self), step) == main_turn(old(main)@, *old(self), tick),
            final(main)@.thread_enabled == old(main)@.thread_enabled,
    {
        if !main.thread_enabled {
            if !self.is_polling {
                return MainStep::Exit(Handover::Nothing);
            }
            // Nobody would poll if the lead went with this thread: hand it over.
            self.is_polling = false;
            return match main.state {
                State::Polling { .. } => MainStep::Exit(main.handoff()),
                _ => MainStep::Exit(Handover::Nothing),
            };
        }
        match &mut main.state {
            State::DedicatedReactor => MainStep::Dedicate,
            State::Idle => {
                if self.last_tick == tick {
                    // No evidence of anyone polling: we should start.
                    main.state = State::Polling { wakers: Vec::new() };
                    self.is_polling = true;
                    MainStep::React
                } else {
                    // Someone else advanced the tick counter.
                    self.last_tick = tick;
                    MainStep::Sleep(Duration::from_millis(TAKEOVER_MILLIS))
                }
            },
            State::Polling { wakers } => {
                if self.is_polling {
                    match wakers.pop() {
                        Some(leader) => {
                            self.is_polling = false;
                            let wakers = crate::driver::take_all(wakers);
                            main.state = State::Handoff { leader, wakers };
                            MainStep::Nominate(leader)
                        },
                        // Nobody waits: the main thread should poll.
                        None => MainStep::React,
                    }
                } else {
                    MainStep::Wait
                }
            },
            State::Handoff { .. } => MainStep::Wait,
            State::Inactive => MainStep::Wait,
        }
    }

    /// A round of polling has ended, and the reactor's tick is `tick`.
    pub fn reacted(&mut self, tick: usize)
        ensures
            *final(self) == (MainLoop { last_tick: tick, ..*old(self) }),
    {
        self.last_tick = tick;
    }
}

/// A new main thread does not lead. After a round of polling it remembers the tick and leads as
/// before.
pub proof fn law_main_thread_remembers_the_tick(
    created: MainLoop,
    reacted: &mut MainLoop,
    tick: usize,
)
    requires
        call_ensures(MainLoop::new, (), created),
        call_ensures(MainLoop::reacted, (reacted, tick), ()),
    ensures
        !created.is_polling && created.last_tick == 0,
        final(reacted).last_tick == tick,
        final(reacted).is_polling == old(reacted).is_polling,
{
}

/// A disabled main thread exits, and if it leads it gives up the lead first, as any leader does.
pub proof fn law_disabled_thread_exits(
    main_loop: &mut MainLoop,
    main: &mut MainThreadState,
    tick: usize,
    step: MainStep,
    same: &mut MainThreadState,
    handover: Handover,
)
    requires
        old(main).wf() && old(same).wf(),
        !(old(main)@.state is Inactive),
        call_ensures(MainLoop::turn, (main_loop, main, tick), step),
        old(same)@ == old(main)@,
        old(same)@.state is Polling ==> call_ensures(MainThreadState::handoff, (same,), handover),
    ensures
        step is Exit <==> !old(main)@.thread_enabled,
        final(main)@.thread_enabled == old(main)@.thread_enabled,
        step is Exit ==> !final(main_loop).is_polling && final(main_loop).last_tick
            == old(main_loop).last_tick,
        step is Exit && old(main_loop).is_polling && old(main)@.state is Polling ==> step
            == MainStep::Exit(handover) && final(main)@ == final(same)@,
        step is Exit && !(old(main_loop).is_polling && old(main)@.state is Polling) ==> step
            == MainStep::Exit(Handover::Nothing) && final(main)@ == old(main)@,
{
}

/// An enabled main thread polls for good if it has the reactor for itself. Otherwise it polls only if
/// nobody else does: it takes the lead if that is free and nobody has polled since it last looked,
/// after it has given others ten milliseconds, and keeps it only while nobody else waits for it.
pub proof fn law_main_thread_polls_if_nobody_does(
    main_loop: &mut MainLoop,
    main: &mut MainThreadState,
    tick: usize,
    step: MainStep,
)
    requires
        old(main).wf(),
        !(old(main)@.state is Inactive),
        old(main)@.thread_enabled,
        call_ensures(MainLoop::turn, (main_loop, main, tick), step),
    ensures
        ({
            let before = old(main)@.state;
            let after = final(main)@.state;
            let led = old(main_loop).is_polling;
            let leads = final(main_loop).is_polling;
            let waited = crate::driver::waiting_in(before);
            let waits = crate::driver::waiting_in(after);
            &&& step is Dedicate <==> before is DedicatedReactor
            &&& step is React <==> (before is Idle && old(main_loop).last_tick == tick) || (before
                is Polling && led && waited.len() == 0)
            &&& step is React ==> leads && after is Polling && waits.len() == 0
                && final(main_loop).last_tick == old(main_loop).last_tick
            &&& step is Sleep <==> before is Idle && old(main_loop).last_tick != tick
            &&& step matches MainStep::Sleep(time) ==> time.nanos == 10_000_000 && after is Idle
                && leads == led && final(main_loop).last_tick == tick
            &&& step is Nominate <==> before is Polling && led && waited.len() > 0
            &&& step matches MainStep::Nominate(leader) ==> !leads && after is Handoff
                && crate::driver::nominated_in(after) == Some(leader) && waited
                    == waits.push(leader)
                && final(main_loop).last_tick == old(main_loop).last_tick
            &&& step is Wait <==> before is Handoff || (before is Polling && !led)
            &&& step is Wait || step is Dedicate ==> after == before && *final(main_loop)
                == *old(main_loop)
        }),
{
}

} // verus!
