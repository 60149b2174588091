//! Parking and unparking.
use async_io::parking::{pair, Park, ParkPhase, Parker, Parkers, Unparker};
use async_io::time::{duration_max, Duration, Instant, MAX_INSTANT_NANOS};

fn at(nanos: u128) -> Instant {
    Instant { nanos }
}

/// A parked thread that has locked the reactor and is waiting for events.
fn polling(parker: &mut Parker, timeout: Option<Duration>, now: Instant) -> Park {
    let mut park = match timeout {
        Some(timeout) => parker.park_timeout(timeout),
        None => parker.park(),
    };
    park.checked(false);
    assert_eq!(park.phase, ParkPhase::ReadClock);
    park.clock(now);
    park.tried_lock(parker, true);
    assert!(parker.io);
    park.armed(parker, false, now);
    park
}

#[test]
fn parkers_are_counted() {
    let mut parkers = Parkers::new();
    let (parker, unparker) = pair(&mut parkers);
    assert_eq!((parker.id, unparker), (0, Unparker { id: 0 }));
    let other = Parker::new(&mut parkers);
    assert_eq!(other.unparker(), Unparker { id: 1 });
    assert_eq!(parkers.count, 2);
    parker.close(&mut parkers);
    other.close(&mut parkers);
    assert_eq!(parkers.count, 0);
    assert_eq!(Parker::new(&mut parkers).id, 2);
}

#[test]
fn handles_belong_to_one_parker() {
    let mut parkers = Parkers::new();
    let (p, handle) = pair(&mut parkers);
    let mut others = Vec::new();
    for _ in 0..100 {
        others.push(Parker::new(&mut parkers));
    }
    // Every handle of a parker, and every copy of it, is the same, and no other parker has it.
    let copy = handle;
    assert_eq!(p.unparker(), copy);
    for (i, q) in others.iter().enumerate() {
        assert_ne!(q.unparker(), handle);
        assert!(others[..i].iter().all(|r| r.unparker() != q.unparker()));
    }
    // A number is not given to a new parker when its parker is gone.
    p.close(&mut parkers);
    assert_ne!(Parker::new(&mut parkers).unparker(), handle);
}

#[test]
fn notification_ends_the_parking_in_any_phase() {
    let mut parkers = Parkers::new();
    let mut parker = Parker::new(&mut parkers);
    // How many steps the thread takes before it is notified.
    for before in 0..6 {
        let mut park = parker.park_timeout(Duration::from_secs(1));
        let mut steps = 0;
        let mut token = false;
        let mut left = 3;
        while !matches!(park.phase, ParkPhase::Done { .. }) {
            if steps == before {
                token = true;
            }
            if token {
                assert!(left > 0);
                left -= 1;
            }
            match park.phase {
                ParkPhase::Check => park.checked(std::mem::take(&mut token)),
                ParkPhase::Process { .. } => park.processed(),
                ParkPhase::ReadClock => park.clock(at(0)),
                ParkPhase::TryLock { .. } => park.tried_lock(&mut parker, before % 2 == 0),
                ParkPhase::Wait { .. } => {
                    // The thread waits until it is notified.
                    steps = steps.max(before);
                    park.waited(true);
                }
                ParkPhase::Arm { .. } => {
                    park.armed(&mut parker, std::mem::take(&mut token), at(0))
                }
                _ => park.reacted(&mut parker, std::mem::take(&mut token), at(1)),
            }
            steps += 1;
        }
        assert_eq!(park.phase, ParkPhase::Done { notified: true });
        assert!(!parker.io);
    }
}

#[test]
fn notified_parker_wakes_up_immediately() {
    let mut parkers = Parkers::new();
    let parker = Parker::new(&mut parkers);
    // Nobody polls, so the reactor need not be notified.
    assert!(!parker.unpark(true));
    let mut park = parker.park();
    park.checked(true);
    assert_eq!(park.phase, ParkPhase::Process { notified: true });
    park.processed();
    assert_eq!(park.phase, ParkPhase::Done { notified: true });
}

#[test]
fn zero_timeout_does_not_block() {
    let mut parkers = Parkers::new();
    let parker = Parker::new(&mut parkers);
    let mut park = parker.park_timeout(Duration::from_secs(0));
    park.checked(false);
    assert_eq!(park.phase, ParkPhase::Process { notified: false });
    park.processed();
    assert_eq!(park.phase, ParkPhase::Done { notified: false });
    // A deadline in the past is a timeout of zero.
    assert_eq!(parker.park_deadline(at(3), at(8)).timeout, Some(Duration::from_secs(0)));
    assert_eq!(parker.park_deadline(at(8), at(3)).timeout, Some(Duration::from_nanos(5)));
}

#[test]
fn unparking_interrupts_the_polling() {
    let mut parkers = Parkers::new();
    let mut parker = Parker::new(&mut parkers);
    let unparker = parker.unparker();
    let mut park = polling(&mut parker, None, at(0));
    assert_eq!(park.phase, ParkPhase::React { timeout: None, deadline: None });
    assert!(parker.unpark(true));
    assert!(!parker.unpark(false));
    assert!(unparker.unpark(true, parker.io));
    assert!(!unparker.unpark(false, parker.io));
    park.reacted(&mut parker, true, at(1));
    assert_eq!(park.phase, ParkPhase::Done { notified: true });
    assert!(!parker.io);
    assert!(!unparker.unpark(true, parker.io));
}

#[test]
fn notification_before_polling_is_not_missed() {
    let mut parkers = Parkers::new();
    let mut parker = Parker::new(&mut parkers);
    let mut park = parker.park();
    park.checked(false);
    park.clock(at(0));
    park.tried_lock(&mut parker, true);
    park.armed(&mut parker, true, at(0));
    assert_eq!(park.phase, ParkPhase::Done { notified: true });
    assert!(!parker.io);
}

#[test]
fn parking_times_out_at_the_deadline() {
    let mut parkers = Parkers::new();
    let mut parker = Parker::new(&mut parkers);
    let timeout = Duration::from_millis(500);
    let mut park = polling(&mut parker, Some(timeout), at(100));
    let deadline = at(100 + timeout.nanos);
    assert_eq!(
        park.phase,
        ParkPhase::React { timeout: Some(timeout), deadline: Some(deadline) }
    );
    // Events before the deadline do not end the parking.
    park.reacted(&mut parker, false, at(deadline.nanos - 1));
    assert_eq!(park.phase, ParkPhase::TryLock { deadline: Some(deadline) });
    park.tried_lock(&mut parker, true);
    park.armed(&mut parker, false, at(deadline.nanos - 1));
    assert_eq!(
        park.phase,
        ParkPhase::React { timeout: Some(Duration::from_nanos(1)), deadline: Some(deadline) }
    );
    park.reacted(&mut parker, false, deadline);
    assert_eq!(park.phase, ParkPhase::Done { notified: false });
    assert!(!parker.io);
}

#[test]
fn longest_timeout_waits_for_a_notification() {
    let mut parkers = Parkers::new();
    let mut parker = Parker::new(&mut parkers);
    let mut park = polling(&mut parker, Some(duration_max()), at(100));
    assert_eq!(park.phase, ParkPhase::React { timeout: None, deadline: None });
    park.reacted(&mut parker, false, at(MAX_INSTANT_NANOS));
    assert_eq!(park.phase, ParkPhase::TryLock { deadline: None });
    park.tried_lock(&mut parker, false);
    assert_eq!(park.phase, ParkPhase::Wait { deadline: None });
    park.waited(true);
    assert_eq!(park.phase, ParkPhase::Done { notified: true });
    // The last instant of the clock is still a deadline.
    let timeout = Duration { nanos: MAX_INSTANT_NANOS - 100 };
    let park = polling(&mut parker, Some(timeout), at(100));
    let deadline = Some(at(MAX_INSTANT_NANOS));
    assert_eq!(park.phase, ParkPhase::React { timeout: Some(timeout), deadline });
}

#[test]
fn parking_without_the_reactor() {
    let mut parkers = Parkers::new();
    let mut parker = Parker::new(&mut parkers);
    let mut park = parker.park();
    park.checked(false);
    park.clock(at(0));
    park.tried_lock(&mut parker, false);
    assert_eq!(park.phase, ParkPhase::Wait { deadline: None });
    park.waited(true);
    assert_eq!(park.phase, ParkPhase::Done { notified: true });

    let mut park = parker.park_timeout(Duration::from_nanos(9));
    park.checked(false);
    park.clock(at(1));
    park.tried_lock(&mut parker, false);
    assert_eq!(park.phase, ParkPhase::Wait { deadline: Some(at(10)) });
    let mut notified = park;
    park.waited(false);
    assert_eq!(park.phase, ParkPhase::Done { notified: false });
    notified.waited(true);
    assert_eq!(notified.phase, ParkPhase::Done { notified: true });
}
