//! The driver: who polls the reactor, and when threads that block on futures wake up.
use async_io::driver::block_on::{block_on, BlockOn, BlockOnLoop, Phase, TaskWake};
use async_io::driver::main_loop::{MainLoop, MainStep};
use async_io::driver::{
    disable_park_thread, enable_park_thread, init, start_dedicated_thread, Admission, Handover,
    MainThreadState, ThreadAction,
};
use async_io::time::{Duration, Instant};

fn at(nanos: u128) -> Instant {
    Instant { nanos }
}

/// A thread that blocks on a future.
struct Thread {
    run: BlockOnLoop,
    flags: BlockOn,
}

impl Thread {
    fn new(parker: usize) -> Thread {
        Thread { run: block_on(parker), flags: BlockOn::new() }
    }

    /// Goes from polling the future to asking for the reactor.
    fn enter(&mut self, main: &mut MainThreadState) -> Admission {
        if self.run.phase == Phase::Poll {
            self.run.pending(&mut self.flags);
        }
        let admission = self.run.enter(main);
        self.run.begin(&mut self.flags, at(0));
        admission
    }

    /// Polls the reactor until the thread tries to hand it off.
    fn hog(&mut self) {
        while !matches!(self.run.phase, Phase::TryHandoff { .. }) {
            self.run.reacted(&mut self.flags, at(500_001));
        }
    }
}

const LEADS: Admission = Admission { leads: true, spawn: false };
const WAITS: Admission = Admission { leads: false, spawn: false };

fn started() -> MainThreadState {
    let mut main = MainThreadState::new();
    assert!(init(&mut main));
    main
}

#[test]
fn yielding() {
    // A future that wakes itself each time it is polled, and is ready after a number of polls.
    for i in 0..100 {
        let mut thread = Thread::new(0);
        let mut left = i;
        while left > 0 {
            left -= 1;
            let wake = thread.flags.task_wake(thread.run.io_polling());
            assert_eq!(wake, TaskWake { reactor: false, thread: true });
            thread.run.pending(&mut thread.flags);
            // The thread never goes to sleep.
            assert_eq!(thread.run.phase, Phase::TryProcess);
            assert!(!thread.run.io_polling());
            // Every other time, the reactor is locked by somebody else.
            let locked = left % 2 == 0;
            thread.run.tried_process(locked);
            assert_eq!(thread.run.io_polling(), locked);
            if locked {
                assert_eq!(thread.run.phase, Phase::Process);
                thread.run.processed();
            }
            assert_eq!(thread.run.phase, Phase::Poll);
            assert!(!thread.run.io_polling());
        }
    }
}

#[test]
fn thread_is_started_once() {
    let mut main = MainThreadState::new();
    assert!(main.thread_enabled());
    assert!(init(&mut main));
    assert!(!init(&mut main));
    // Neither does any later use.
    assert_eq!(main.get_reactor(1), LEADS);
    assert!(!enable_park_thread(&mut main));
    assert_eq!(start_dedicated_thread(&mut main), ThreadAction::Notify);
    assert!(!init(&mut main));
}

#[test]
fn disabled_thread_is_not_started() {
    let mut main = MainThreadState::new();
    // Nothing runs yet, so nothing has to be notified.
    assert!(!disable_park_thread(&mut main));
    assert!(!init(&mut main));
    // Enabling it starts it now.
    assert!(enable_park_thread(&mut main));
    assert!(main.thread_enabled());
    assert!(!enable_park_thread(&mut main));
    // Disabling it stops it.
    assert!(disable_park_thread(&mut main));
    assert!(!disable_park_thread(&mut main));
    assert_eq!(MainLoop::new().turn(&mut main, 0), MainStep::Exit(Handover::Nothing));
}

#[test]
fn enabling_before_the_start_spawns_nothing() {
    let mut main = MainThreadState::new();
    assert!(!disable_park_thread(&mut main));
    assert!(!enable_park_thread(&mut main));
    assert!(init(&mut main));
}

#[test]
fn dedicated_thread_stays() {
    let mut main = MainThreadState::new();
    assert_eq!(start_dedicated_thread(&mut main), ThreadAction::Spawn);
    assert_eq!(start_dedicated_thread(&mut main), ThreadAction::Nothing);
    assert!(!disable_park_thread(&mut main));
    assert!(main.thread_enabled());
    assert_eq!(MainLoop::new().turn(&mut main, 5), MainStep::Dedicate);
    // Nobody else gets the reactor.
    assert_eq!(main.get_reactor(1), WAITS);
    assert_eq!(main.handoff(), Handover::Nothing);
    assert_eq!(main.try_handoff(1), (true, None));
    assert_eq!(main.disqualify(1), Handover::Nothing);
}

#[test]
fn dedicating_a_started_driver() {
    let mut main = started();
    assert_eq!(start_dedicated_thread(&mut main), ThreadAction::Notify);
    let mut main = started();
    assert!(disable_park_thread(&mut main));
    assert_eq!(start_dedicated_thread(&mut main), ThreadAction::Spawn);
}

#[test]
fn first_thread_leads_and_others_wait() {
    let mut main = MainThreadState::new();
    let mut first = Thread::new(1);
    let mut second = Thread::new(2);
    let mut third = Thread::new(3);
    // The first thread kicks off the main thread.
    assert_eq!(first.enter(&mut main), Admission { leads: true, spawn: true });
    assert_eq!(first.run.phase, Phase::React { start: at(0), count: 0 });
    assert!(first.flags.is_polling);
    assert_eq!(second.enter(&mut main), WAITS);
    assert_eq!(third.enter(&mut main), WAITS);
    assert_eq!(second.run.phase, Phase::Sleep);

    // The task of the first thread is woken: it hands over to the most recently active thread.
    assert_eq!(first.flags.task_wake(false), TaskWake { reactor: true, thread: true });
    assert_eq!(first.flags.task_wake(false), TaskWake { reactor: false, thread: false });
    first.run.reacted(&mut first.flags, at(1));
    assert_eq!(first.run.phase, Phase::Leave);
    assert_eq!(first.run.leave(&mut main, &mut first.flags), Handover::Nominate(3));
    assert_eq!(first.run.phase, Phase::Poll);
    third.flags.nomination_wake();
    third.run.sleep(&mut third.flags);
    assert_eq!(third.run.phase, Phase::Enter { waits: true });
    assert_eq!(third.enter(&mut main), LEADS);

    // The second thread stops waiting, so nobody is left to take over but the main thread.
    second.flags.task_wake(false);
    second.run.sleep(&mut second.flags);
    assert_eq!(second.run.phase, Phase::Leave);
    assert_eq!(second.run.leave(&mut main, &mut second.flags), Handover::Nothing);
    third.flags.task_wake(false);
    third.run.reacted(&mut third.flags, at(2));
    assert_eq!(third.run.leave(&mut main, &mut third.flags), Handover::NotifyMain);
    assert_eq!(main.get_reactor(9), LEADS);
}

#[test]
fn nominee_that_is_woken_passes_the_lead_on() {
    let mut main = started();
    let mut leader = Thread::new(1);
    let mut first = Thread::new(2);
    let mut second = Thread::new(3);
    assert_eq!(leader.enter(&mut main), LEADS);
    assert_eq!(first.enter(&mut main), WAITS);
    assert_eq!(second.enter(&mut main), WAITS);
    leader.flags.task_wake(false);
    leader.run.reacted(&mut leader.flags, at(1));
    assert_eq!(leader.run.leave(&mut main, &mut leader.flags), Handover::Nominate(3));
    second.flags.nomination_wake();
    // The task is woken before the nominated thread leads.
    second.flags.task_wake(false);
    second.run.sleep(&mut second.flags);
    assert_eq!(second.run.phase, Phase::Leave);
    assert!(!second.flags.is_nominated);
    assert_eq!(second.run.leave(&mut main, &mut second.flags), Handover::Nominate(2));
    first.flags.nomination_wake();
    first.run.sleep(&mut first.flags);
    assert_eq!(first.enter(&mut main), LEADS);
    first.flags.task_wake(false);
    first.run.reacted(&mut first.flags, at(2));
    assert_eq!(first.run.leave(&mut main, &mut first.flags), Handover::NotifyMain);
}

#[test]
fn hogging_thread_hands_off() {
    let mut main = started();
    let mut leader = Thread::new(1);
    assert_eq!(leader.enter(&mut main), LEADS);
    // Half a millisecond and three rounds are not enough, nor are many rounds in less time.
    for _ in 0..3 {
        leader.run.reacted(&mut leader.flags, at(500_001));
    }
    assert_eq!(leader.run.phase, Phase::React { start: at(0), count: 3 });
    leader.run.reacted(&mut leader.flags, at(500_000));
    assert_eq!(leader.run.phase, Phase::React { start: at(0), count: 4 });
    leader.run.reacted(&mut leader.flags, at(500_001));
    assert_eq!(leader.run.phase, Phase::TryHandoff { start: at(0), count: 4 });
    // Nobody waits: it goes on leading.
    assert_eq!(leader.run.try_handoff(&mut main, &mut leader.flags), None);
    assert_eq!(leader.run.phase, Phase::React { start: at(0), count: 5 });
    assert!(leader.flags.is_polling);

    let mut other = Thread::new(2);
    assert_eq!(other.enter(&mut main), WAITS);
    leader.hog();
    assert_eq!(leader.run.try_handoff(&mut main, &mut leader.flags), Some(2));
    assert_eq!(leader.run.phase, Phase::Sleep);
    assert!(!leader.flags.is_polling);
    other.flags.nomination_wake();
    other.run.sleep(&mut other.flags);
    assert_eq!(other.enter(&mut main), LEADS);

    // The first thread now waits, and gets the lead back.
    leader.run.sleep(&mut leader.flags);
    assert_eq!(leader.run.phase, Phase::Sleep);
    other.hog();
    assert_eq!(other.run.try_handoff(&mut main, &mut other.flags), Some(1));
}

#[test]
fn wakeup_before_polling_is_not_missed() {
    let mut main = started();
    let mut thread = Thread::new(1);
    thread.run.pending(&mut thread.flags);
    assert_eq!(thread.run.enter(&mut main), LEADS);
    // The wakeup comes before the thread has said that it polls, so the reactor is not notified.
    assert_eq!(thread.flags.task_wake(false), TaskWake { reactor: false, thread: true });
    thread.run.begin(&mut thread.flags, at(0));
    assert_eq!(thread.run.phase, Phase::Leave);
    assert!(thread.flags.is_polling);
    // The mark stays until the thread leaves.
    assert!(thread.run.io_polling());
    assert_eq!(thread.run.leave(&mut main, &mut thread.flags), Handover::NotifyMain);
    assert!(!thread.flags.is_polling);
    assert!(!thread.run.io_polling());
}

#[test]
fn disabled_thread_hands_over_to_a_waiting_thread() {
    let mut main = started();
    let mut main_loop = MainLoop::new();
    assert_eq!(main_loop.turn(&mut main, 0), MainStep::React);
    // Two threads wait for the lead while the main thread polls.
    let mut first = Thread::new(1);
    let mut second = Thread::new(2);
    assert_eq!(first.enter(&mut main), WAITS);
    assert_eq!(second.enter(&mut main), WAITS);
    assert!(disable_park_thread(&mut main));
    main_loop.reacted(1);
    assert_eq!(main_loop.turn(&mut main, 1), MainStep::Exit(Handover::Nominate(2)));
    assert!(!main_loop.is_polling);
    second.flags.nomination_wake();
    second.run.sleep(&mut second.flags);
    assert_eq!(second.enter(&mut main), LEADS);
    // Without the main thread the lead goes on among the blocked threads.
    second.flags.task_wake(false);
    second.run.reacted(&mut second.flags, at(1));
    assert_eq!(second.run.leave(&mut main, &mut second.flags), Handover::Nominate(1));
}

#[test]
fn disabled_thread_frees_the_reactor() {
    let mut main = started();
    let mut main_loop = MainLoop::new();
    assert_eq!(main_loop.turn(&mut main, 0), MainStep::React);
    assert!(disable_park_thread(&mut main));
    assert_eq!(main_loop.turn(&mut main, 1), MainStep::Exit(Handover::NotifyMain));
    // A thread that asks for the reactor now gets it.
    assert_eq!(main.get_reactor(1), LEADS);
    assert_eq!(main.handoff(), Handover::NotifyMain);
    // A thread that is spawned again takes over.
    assert!(enable_park_thread(&mut main));
    assert_eq!(MainLoop::new().turn(&mut main, 0), MainStep::React);
}

#[test]
fn disabled_thread_that_does_not_lead_leaves_the_lead_alone() {
    let mut main = started();
    let mut main_loop = MainLoop::new();
    assert_eq!(main.get_reactor(1), LEADS);
    assert_eq!(main_loop.turn(&mut main, 0), MainStep::Wait);
    assert!(disable_park_thread(&mut main));
    assert_eq!(main_loop.turn(&mut main, 0), MainStep::Exit(Handover::Nothing));
    assert_eq!(main.get_reactor(2), WAITS);
    assert_eq!(main.handoff(), Handover::Nominate(2));
}

#[test]
fn thread_that_unwinds_gives_up_what_it_holds() {
    let mut main = started();
    let mut leader = Thread::new(1);
    let mut waiting = Thread::new(2);
    let mut asking = Thread::new(3);
    assert_eq!(leader.enter(&mut main), LEADS);
    assert_eq!(waiting.enter(&mut main), WAITS);
    assert_eq!(asking.enter(&mut main), WAITS);
    // A waiting thread leaves the list, and the leader hands over.
    assert_eq!(asking.run.unwind(&mut main, &mut asking.flags), Handover::Nothing);
    assert_eq!(leader.run.unwind(&mut main, &mut leader.flags), Handover::Nominate(2));
    assert!(!leader.flags.is_polling && !leader.run.io_polling());
    // The nominated thread passes the lead on.
    assert_eq!(waiting.run.unwind(&mut main, &mut waiting.flags), Handover::NotifyMain);
    // A thread that polls its future holds nothing.
    let mut polling = Thread::new(4);
    assert_eq!(polling.run.unwind(&mut main, &mut polling.flags), Handover::Nothing);
    // A thread that leads but has not started polling hands over as well.
    let mut early = Thread::new(5);
    early.run.pending(&mut early.flags);
    assert_eq!(early.run.enter(&mut main), LEADS);
    assert_eq!(early.run.unwind(&mut main, &mut early.flags), Handover::NotifyMain);
    assert_eq!(main.get_reactor(6), LEADS);
}

#[test]
fn wakeup_of_a_sleeping_thread_leads_to_a_poll() {
    let mut main = started();
    let mut leader = Thread::new(1);
    let mut thread = Thread::new(2);
    assert_eq!(leader.enter(&mut main), LEADS);
    assert_eq!(thread.enter(&mut main), WAITS);
    thread.run.sleep(&mut thread.flags);
    assert_eq!(thread.run.phase, Phase::Sleep);
    // The leader hands out events and wakes the task.
    let wake = thread.flags.task_wake(leader.run.io_polling());
    assert_eq!(wake, TaskWake { reactor: false, thread: true });
    let mut steps = 0;
    while thread.run.phase != Phase::Poll {
        steps += 1;
        match thread.run.phase {
            Phase::Sleep => thread.run.sleep(&mut thread.flags),
            _ => assert_eq!(thread.run.leave(&mut main, &mut thread.flags), Handover::Nothing),
        }
    }
    assert_eq!(steps, 2);
}

#[test]
fn own_wakeups_do_not_notify_the_reactor() {
    let mut main = started();
    let mut thread = Thread::new(1);
    assert_eq!(thread.enter(&mut main), LEADS);
    assert!(thread.run.io_polling());
    let wake = thread.flags.task_wake(thread.run.io_polling());
    assert_eq!(wake, TaskWake { reactor: false, thread: true });
}

#[test]
fn rounds_come_to_an_end() {
    let mut thread = Thread::new(1);
    thread.flags.is_polling = true;
    thread.run.phase = Phase::React { start: at(0), count: u32::MAX };
    thread.run.reacted(&mut thread.flags, at(0));
    assert_eq!(thread.run.phase, Phase::Leave);
}

#[test]
fn waiting_again_moves_to_the_end() {
    let mut main = started();
    assert_eq!(main.get_reactor(1), LEADS);
    assert_eq!(main.get_reactor(2), WAITS);
    assert_eq!(main.get_reactor(3), WAITS);
    assert_eq!(main.get_reactor(2), WAITS);
    assert_eq!(main.handoff(), Handover::Nominate(2));
    assert_eq!(main.get_reactor(4), WAITS);
    assert_eq!(main.disqualify(2), Handover::Nominate(4));
    assert_eq!(main.disqualify(3), Handover::Nothing);
    assert_eq!(main.disqualify(4), Handover::NotifyMain);
}

#[test]
fn main_thread_polls_when_nobody_else_does() {
    let mut main = started();
    let mut main_loop = MainLoop::new();
    // Someone has advanced the ticks: give it time.
    assert_eq!(main_loop.turn(&mut main, 3), MainStep::Sleep(Duration::from_millis(10)));
    // No evidence of anyone polling.
    assert_eq!(main_loop.turn(&mut main, 3), MainStep::React);
    main_loop.reacted(4);
    assert_eq!(main_loop, MainLoop { is_polling: true, last_tick: 4 });
    assert_eq!(main_loop.turn(&mut main, 4), MainStep::React);
    // A thread asks for the reactor and is nominated.
    assert_eq!(main.get_reactor(8), WAITS);
    assert_eq!(main_loop.turn(&mut main, 4), MainStep::Nominate(8));
    assert_eq!(main_loop.turn(&mut main, 4), MainStep::Wait);
    assert_eq!(main.get_reactor(8), LEADS);
    assert_eq!(main_loop.turn(&mut main, 4), MainStep::Wait);
    assert_eq!(main.handoff(), Handover::NotifyMain);
    assert_eq!(main_loop.turn(&mut main, 4), MainStep::React);
}
