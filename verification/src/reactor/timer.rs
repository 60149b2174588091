//! The part of the reactor that processes timers.
use crate::reactor::queue::{self, bounded_ops, capacity_of_ops, pop_op, push_op, TimerOp};
use crate::reactor::timer_map::{self, TimerEntry, TimerKey, TimerMap};
use crate::task::Waker;
use crate::time::{self, Duration, Instant};
use concurrent_queue::ConcurrentQueue;
use vstd::prelude::*;

verus! {

/// How many timer operations are queued before they are applied.
pub const TIMER_OPS_CAPACITY: usize = 1000;

/// The number after `n`, starting again from zero after the largest one.
pub open spec fn wrapping_succ(n: usize) -> usize {
    if n == usize::MAX {
        0
    } else {
        (n + 1) as usize
    }
}

/// The number that comes `count` steps after `first`.
pub open spec fn nth_after(first: usize, count: nat) -> usize
    decreases count,
{
    if count == 0 {
        first
    } else {
        wrapping_succ(nth_after(first, (count - 1) as nat))
    }
}

/// Numbers given out one after the other begin to repeat only after all of them have been given
/// out.
pub proof fn law_numbers_differ(first: usize, i: nat, j: nat)
    requires
        i <= usize::MAX,
        j <= usize::MAX,
    ensures
        nth_after(first, i) == nth_after(first, j) <==> i == j,
        first + i <= usize::MAX ==> nth_after(first, i) == first + i,
{
    lemma_nth_after(first, i);
    lemma_nth_after(first, j);
}

/// The number that comes some steps after another, computed at once.
proof fn lemma_nth_after(first: usize, count: nat)
    requires
        count <= usize::MAX,
    ensures
        nth_after(first, count) == if first + count <= usize::MAX {
            first + count
        } else {
            first + count - usize::MAX - 1
        },
    decreases count,
{
    if count > 0 {
        lemma_nth_after(first, (count - 1) as nat);
    }
}

/// The tasks whose timers are due at `now`, in firing order.
pub open spec fn due_wakers(timers: Map<TimerKey, Waker>, now: Instant) -> Seq<Waker> {
    timer_map::firing_order(timers).filter(|entry: TimerEntry| timer_map::is_due(entry, now)).map_values(
        |entry: TimerEntry| entry.waker,
    )
}

/// The timers that are not due at `now`.
pub open spec fn pending_timers(timers: Map<TimerKey, Waker>, now: Instant) -> Map<
    TimerKey,
    Waker,
> {
    Map::new(
        |key: TimerKey| timers.contains_key(key) && now.nanos < key.0.nanos,
        |key: TimerKey| timers[key],
    )
}

/// How long after `now` the first timer fires: zero if it is due already, `None` if there is no
/// timer.
pub open spec fn until_first(timers: Map<TimerKey, Waker>, now: Instant) -> Option<Duration> {
    let order = timer_map::firing_order(timers);
    if order.len() == 0 {
        None
    } else {
        Some(time::time_between(now, order[0].when))
    }
}

/// The shorter of two timeouts, where `None` stands for no timeout.
pub open spec fn shorter_timeout(a: Option<Duration>, b: Option<Duration>) -> Option<Duration> {
    match (a, b) {
        (None, None) => None,
        (Some(t), None) => Some(t),
        (None, Some(t)) => Some(t),
        (Some(t), Some(u)) => Some(if t.nanos <= u.nanos { t } else { u }),
    }
}

/// Computes the shorter of two timeouts.
pub fn min_timeout(a: Option<Duration>, b: Option<Duration>) -> (shorter: Option<Duration>)
    ensures
        shorter == shorter_timeout(a, b),
{
    match (a, b) {
        (None, None) => None,
        (Some(t), None) => Some(t),
        (None, Some(t)) => Some(t),
        (Some(t), Some(u)) => Some(t.min(u)),
    }
}

/// What a reactor for timers holds.
pub struct TimersView {
    /// The registered timers and the tasks that await them, with all queued operations applied.
    pub timers: Map<TimerKey, Waker>,
    /// The number of polling rounds begun so far.
    pub ticker: usize,
    /// The identifier that the next timer gets.
    pub next_id: usize,
    /// Whether the thread that polls has to be notified.
    pub notified: bool,
}

/// What can happen to the timers of a reactor.
pub enum TimersEvent {
    /// A timer is registered.
    Insert { at: Instant, waker: Waker },
    /// A timer is deregistered.
    Remove { at: Instant, id: usize },
    /// The timers that are ready are processed.
    Fire { now: Instant },
    /// A round of polling begins.
    Bump,
    /// The thread that polls has to be notified.
    Notify,
    /// The notification is taken.
    TakeNotification,
}

impl TimersView {
    /// The reactor after an event.
    pub open spec fn after(self, event: TimersEvent) -> TimersView {
        match event {
            TimersEvent::Insert { at, waker } => TimersView {
                timers: self.timers.insert((at, self.next_id), waker),
                next_id: wrapping_succ(self.next_id),
                notified: true,
                ..self
            },
            TimersEvent::Remove { at, id } => TimersView {
                timers: self.timers.remove((at, id)),
                ..self
            },
            TimersEvent::Fire { now } => TimersView {
                timers: pending_timers(self.timers, now),
                ..self
            },
            TimersEvent::Bump => TimersView { ticker: wrapping_succ(self.ticker), ..self },
            TimersEvent::Notify => TimersView { notified: true, ..self },
            TimersEvent::TakeNotification => TimersView { notified: false, ..self },
        }
    }

    /// The reactor after events.
    pub open spec fn after_all(self, events: Seq<TimersEvent>) -> TimersView
        decreases events.len(),
    {
        if events.len() == 0 {
            self
        } else {
            self.after_all(events.drop_last()).after(events.last())
        }
    }

    /// The identifiers that the timers get which the events register, in their order.
    pub open spec fn ids_in(self, events: Seq<TimersEvent>) -> Seq<usize>
        decreases events.len(),
    {
        if events.len() == 0 {
            Seq::empty()
        } else {
            let ids = self.ids_in(events.drop_last());
            if events.last() is Insert {
                ids.push(self.after_all(events.drop_last()).next_id)
            } else {
                ids
            }
        }
    }
}

/// A reactor that is capable of processing timers.
pub struct Reactor {
    /// An ordered map of registered timers.
    timers: TimerMap,
    /// A queue of timer operations (insert and remove).
    timer_ops: ConcurrentQueue<TimerOp>,
    /// Ticker bumped before polling.
    ticker: usize,
    /// Generates timer identifiers.
    next_id: usize,
    /// Set when the thread that polls has to be notified.
    notified: bool,
}

impl View for Reactor {
    type V = TimersView;

    closed spec fn view(&self) -> TimersView {
        TimersView {
            timers: queue::apply_ops(timer_map::as_map(self.timers@), queue::queued_ops(self.timer_ops)),
            ticker: self.ticker,
            next_id: self.next_id,
            notified: self.notified,
        }
    }
}

impl Reactor {
    /// The timers are in order and the queue is open and within its capacity.
    pub closed spec fn wf(&self) -> bool {
        &&& self.timers.wf()
        &&& !queue::ops_closed(self.timer_ops)
        &&& queue::ops_capacity(self.timer_ops) matches Some(cap)
        &&& cap > 0
        &&& queue::queued_ops(self.timer_ops).len() <= cap
    }

    /// Whether no operation is waiting in the queue.
    closed spec fn drained(&self) -> bool {
        queue::queued_ops(self.timer_ops).len() == 0
    }

    /// Creates a reactor without timers.
    pub fn new() -> (reactor: Reactor)
        ensures
            reactor.wf(),
            reactor@ == (TimersView {
                timers: Map::<TimerKey, Waker>::empty(),
                ticker: 0,
                next_id: 1,
                notified: false,
            }),
    {
        Reactor {
            timers: TimerMap::new(),
            timer_ops: bounded_ops(TIMER_OPS_CAPACITY),
            ticker: 0,
            next_id: 1,
            notified: false,
        }
    }

    /// Returns the current ticker.
    pub fn ticker(&self) -> (ticker: usize)
        ensures
            ticker == self@.ticker,
    {
        self.ticker
    }

    /// Bumps the current ticker and returns the new value.
    pub fn bump_ticker(&mut self) -> (tick: usize)
        requires
            old(self).wf(),
        ensures
            final(self).wf(),
            tick == wrapping_succ(old(self)@.ticker),
            final(self)@ == old(self)@.after(TimersEvent::Bump),
    {
        self.ticker = self.ticker.wrapping_add(1);
        self.ticker
    }

    /// Registers a timer in the reactor.
    ///
    /// Returns the inserted timer's identifier.
    pub fn insert_timer(&mut self, at: Instant, waker: Waker) -> (id: usize)
        requires
            old(self).wf(),
        ensures
            final(self).wf(),
            id == old(self)@.next_id,
            final(self)@ == old(self)@.after(TimersEvent::Insert { at, waker }),
    {
        let id: usize = self.next_id;
        self.next_id = id.wrapping_add(1);
        self.push(TimerOp::Insert(at, id, waker));
        self.notify();
        id
    }

    /// Deregisters a timer from the reactor.
    pub fn remove_timer(&mut self, at: Instant, id: usize)
        requires
            old(self).wf(),
        ensures
            final(self).wf(),
            final(self)@ == old(self)@.after(TimersEvent::Remove { at, id }),
    {
        self.push(TimerOp::Remove(at, id));
    }

    /// Pushes an operation into the queue, applying those that fill it if it is full.
    fn push(&mut self, op: TimerOp)
        requires
            old(self).wf(),
        ensures
            final(self).wf(),
            final(self)@ == (TimersView {
                timers: queue::apply_op(old(self)@.timers, op),
                ..old(self)@
            }),
    {
        let ghost before = self@;
        loop
            invariant_except_break
                self.wf(),
                self@ == before,
            ensures
                self.wf(),
                self@ == (TimersView {
                    timers: queue::apply_op(before.timers, op),
                    ..before
                }),
            decreases queue::queued_ops(self.timer_ops).len(),
        {
            let ghost ops = queue::queued_ops(self.timer_ops);
            let pushed = push_op(&mut self.timer_ops, op);
            if pushed.is_ok() {
                assert(ops.push(op).drop_last() =~= ops);
                break;
            }
            // If the queue is full, drain it and try again.
            self.process_timer_ops();
        }
    }

    /// Notifies the thread blocked on the reactor.
    pub fn notify(&mut self)
        requires
            old(self).wf(),
        ensures
            final(self).wf(),
            final(self)@ == old(self)@.after(TimersEvent::Notify),
    {
        self.notified = true;
    }

    /// Takes the pending notification, if there is one.
    pub fn take_notification(&mut self) -> (notified: bool)
        requires
            old(self).wf(),
        ensures
            final(self).wf(),
            notified == old(self)@.notified,
            final(self)@ == old(self)@.after(TimersEvent::TakeNotification),
    {
        let notified = self.notified;
        self.notified = false;
        notified
    }

    /// Processes ready timers and extends the list of wakers to wake.
    ///
    /// Returns the duration until the next timer before this method was called.
    pub fn process_timers(&mut self, now: Instant, wakers: &mut Vec<Waker>) -> (until: Option<
        Duration,
    >)
        requires
            old(self).wf(),
        ensures
            final(self).wf(),
            until == until_first(old(self)@.timers, now),
            final(wakers)@ == old(wakers)@ + due_wakers(old(self)@.timers, now),
            final(self)@ == old(self)@.after(TimersEvent::Fire { now }),
    {
        self.process_timer_ops();
        let ghost all = self.timers@;
        let first = self.timers.first();
        let ready = self.timers.take_due(now);
        proof {
            lemma_processed(all, ready@, self.timers@, now);
        }
        extend_wakers(wakers, &ready);
        match first {
            Some(at) => Some(at.saturating_duration_since(now)),
            None => None,
        }
    }

    /// Processes queued timer operations.
    fn process_timer_ops(&mut self)
        requires
            old(self).wf(),
        ensures
            final(self).wf(),
            final(self).drained(),
            final(self)@ == old(self)@,
    {
        let mut left: usize = match capacity_of_ops(&self.timer_ops) {
            Some(cap) => cap,
            None => 0,
        };
        // Process only as much as fits into the queue, or else this loop could in theory run
        // forever.
        while left > 0
            invariant
                self.wf(),
                self@ == old(self)@,
                queue::queued_ops(self.timer_ops).len() <= left,
            decreases left,
        {
            let ghost ops = queue::queued_ops(self.timer_ops);
            let ghost map = timer_map::as_map(self.timers@);
            match pop_op(&mut self.timer_ops) {
                Some(TimerOp::Insert(at, id, waker)) => {
                    self.timers.insert(at, id, waker);
                },
                Some(TimerOp::Remove(at, id)) => {
                    self.timers.remove(at, id);
                },
                None => {
                    return ;
                },
            }
            proof {
                queue::lemma_apply_first(map, ops);
            }
            left = left - 1;
        }
    }

    /// Determines the timeout for waiting: until the next timer, but no longer than `timeout`.
    ///
    /// Processes ready timers and extends the list of wakers to wake.
    pub fn timeout_duration(
        &mut self,
        now: Instant,
        timeout: Option<Duration>,
        wakers: &mut Vec<Waker>,
    ) -> (shorter: Option<Duration>)
        requires
            old(self).wf(),
        ensures
            final(self).wf(),
            shorter == shorter_timeout(until_first(old(self)@.timers, now), timeout),
            final(wakers)@ == old(wakers)@ + due_wakers(old(self)@.timers, now),
            final(self)@ == old(self)@.after(TimersEvent::Fire { now }),
    {
        let next_ready_timer = self.process_timers(now, wakers);
        min_timeout(next_ready_timer, timeout)
    }
}

/// What a lock on a reactor for timers holds.
pub struct LockView {
    /// How long to wait.
    pub timeout: Option<Duration>,
    /// The tasks to wake when the round has ended.
    pub wakers: Seq<Waker>,
}

/// A lock on a reactor for timers: the exclusive right to wait for them, and what a round of waiting
/// gathers.
#[derive(Debug)]
pub struct ReactorLock {
    timeout: Option<Duration>,
    wakers: Vec<Waker>,
}

impl View for ReactorLock {
    type V = LockView;

    closed spec fn view(&self) -> LockView {
        LockView { timeout: self.timeout, wakers: self.wakers@ }
    }
}

impl ReactorLock {
    /// Processes timers, and begins to wait until the next timer is ready.
    pub fn react(reactor: &mut Reactor, timeout: Option<Duration>, now: Instant) -> (lock:
        ReactorLock)
        requires
            old(reactor).wf(),
        ensures
            final(reactor).wf(),
            lock@ == (LockView {
                timeout: shorter_timeout(until_first(old(reactor)@.timers, now), timeout),
                wakers: due_wakers(old(reactor)@.timers, now),
            }),
            final(reactor)@ == (TimersView {
                timers: pending_timers(old(reactor)@.timers, now),
                ticker: wrapping_succ(old(reactor)@.ticker),
                ..old(reactor)@
            }),
    {
        // Process the upcoming timers and determine the timeout duration.
        let mut wakers: Vec<Waker> = Vec::new();
        let timeout = reactor.timeout_duration(now, timeout, &mut wakers);
        // Bump the ticker.
        let _ = reactor.bump_ticker();
        assert(wakers@ =~= due_wakers(old(reactor)@.timers, now));
        ReactorLock { timeout, wakers }
    }

    /// Returns how long to wait: until a notification if there is no timeout.
    pub fn timeout(&self) -> (timeout: Option<Duration>)
        ensures
            timeout == self@.timeout,
    {
        self.timeout
    }

    /// Decides whether more timers may have to be processed, which is so if the timeout was hit.
    pub fn hit_timeout(&self, notified: bool) -> (hit: bool)
        ensures
            hit == (self@.timeout is Some && !notified),
    {
        self.timeout.is_some() && !notified
    }

    /// Fires the timers that are ready now that the timeout was hit.
    pub fn fire_timers(&mut self, reactor: &mut Reactor, now: Instant)
        requires
            old(reactor).wf(),
        ensures
            final(reactor).wf(),
            final(self)@ == (LockView {
                wakers: old(self)@.wakers + due_wakers(old(reactor)@.timers, now),
                ..old(self)@
            }),
            final(reactor)@ == (TimersView {
                timers: pending_timers(old(reactor)@.timers, now),
                ..old(reactor)@
            }),
    {
        let _ = reactor.process_timers(now, &mut self.wakers);
    }

    /// Ends the round and returns the tasks to wake.
    pub fn into_wakers(self) -> (wakers: Vec<Waker>)
        ensures
            wakers@ == self@.wakers,
    {
        self.wakers
    }
}

/// Adds the tasks of the given timers to a list of wakers.
fn extend_wakers(wakers: &mut Vec<Waker>, ready: &Vec<TimerEntry>)
    ensures
        final(wakers)@ == old(wakers)@ + ready@.map_values(|entry: TimerEntry| entry.waker),
{
    let ghost woken = ready@.map_values(|entry: TimerEntry| entry.waker);
    let mut i: usize = 0;
    while i < ready.len()
        invariant
            i <= ready@.len(),
            woken == ready@.map_values(|entry: TimerEntry| entry.waker),
            wakers@ == old(wakers)@ + woken.take(i as int),
        decreases ready@.len() - i,
    {
        wakers.push(ready[i].waker);
        i = i + 1;
        assert(old(wakers)@ + woken.take(i as int) =~= (old(wakers)@ + woken.take(i - 1)).push(
            woken[i - 1],
        ));
    }
    assert(woken.take(i as int) =~= woken);
}

/// What splitting entries in order at `now` says about the map that they make.
proof fn lemma_processed(
    all: Seq<TimerEntry>,
    due: Seq<TimerEntry>,
    rest: Seq<TimerEntry>,
    now: Instant,
)
    requires
        timer_map::in_order(all),
        all == due + rest,
        forall|i: int| 0 <= i < due.len() ==> timer_map::is_due(#[trigger] due[i], now),
        forall|i: int| 0 <= i < rest.len() ==> !timer_map::is_due(#[trigger] rest[i], now),
    ensures
        due_wakers(timer_map::as_map(all), now) == due.map_values(|entry: TimerEntry| entry.waker),
        timer_map::as_map(rest) == pending_timers(timer_map::as_map(all), now),
        until_first(timer_map::as_map(all), now) == if all.len() == 0 {
            None
        } else {
            Some(time::time_between(now, all[0].when))
        },
{
    timer_map::lemma_firing_order(all);
    lemma_split_due(due, rest, now);
}

/// Splitting entries in order where they cease to be due picks out the due and the pending ones.
proof fn lemma_split_due(due: Seq<TimerEntry>, rest: Seq<TimerEntry>, now: Instant)
    requires
        timer_map::in_order(due + rest),
        forall|i: int| 0 <= i < due.len() ==> timer_map::is_due(#[trigger] due[i], now),
        forall|i: int| 0 <= i < rest.len() ==> !timer_map::is_due(#[trigger] rest[i], now),
    ensures
        (due + rest).filter(|entry: TimerEntry| timer_map::is_due(entry, now)) == due,
        timer_map::as_map(rest) == pending_timers(timer_map::as_map(due + rest), now),
{
    let all = due + rest;
    let pred = |entry: TimerEntry| timer_map::is_due(entry, now);
    Seq::filter_distributes_over_add(due, rest, pred);
    lemma_filter_all(due, pred);
    lemma_filter_none(rest, pred);
    assert(due + Seq::<TimerEntry>::empty() =~= due);
    assert(timer_map::in_order(rest)) by {
        assert forall|i: int, j: int|
            #![trigger rest[i], rest[j]]
            0 <= i < j < rest.len() implies timer_map::fires_before(
            rest[i].key(),
            rest[j].key(),
        ) by {
            assert(rest[i] == all[i + due.len()] && rest[j] == all[j + due.len()]);
        }
    }
    let pending = pending_timers(timer_map::as_map(all), now);
    assert forall|key: TimerKey| timer_map::as_map(rest).contains_key(key)
        == pending.contains_key(key) by {
        if timer_map::has_key(rest, key) {
            let i = choose|i: int| 0 <= i < rest.len() && (#[trigger] rest[i]).key() == key;
            assert(all[i + due.len()].key() == key);
            assert(timer_map::has_key(all, key));
        }
        if timer_map::has_key(all, key) && now.nanos < key.0.nanos {
            let i = choose|i: int| 0 <= i < all.len() && (#[trigger] all[i]).key() == key;
            if i < due.len() {
                assert(timer_map::is_due(due[i], now));
            }
            assert(rest[i - due.len()].key() == key);
            assert(timer_map::has_key(rest, key));
        }
    }
    assert forall|key: TimerKey| timer_map::as_map(rest).contains_key(key) implies timer_map::as_map(rest)[key]
        == pending[key] by {
        assert(timer_map::has_key(rest, key));
        let i = choose|i: int| 0 <= i < rest.len() && (#[trigger] rest[i]).key() == key;
        timer_map::lemma_entry_in_map(rest, i);
        timer_map::lemma_entry_in_map(all, i + due.len());
    }
    assert(timer_map::as_map(rest) =~= pending);
}

/// Filtering keeps everything if everything satisfies the predicate.
proof fn lemma_filter_all(entries: Seq<TimerEntry>, pred: spec_fn(TimerEntry) -> bool)
    requires
        forall|i: int| 0 <= i < entries.len() ==> pred(#[trigger] entries[i]),
    ensures
        entries.filter(pred) == entries,
    decreases entries.len(),
{
    reveal(Seq::filter);
    if entries.len() > 0 {
        lemma_filter_all(entries.drop_last(), pred);
        assert(entries.drop_last().push(entries.last()) =~= entries);
    } else {
        assert(entries.filter(pred) =~= entries);
    }
}

/// Filtering keeps nothing if nothing satisfies the predicate.
proof fn lemma_filter_none(entries: Seq<TimerEntry>, pred: spec_fn(TimerEntry) -> bool)
    requires
        forall|i: int| 0 <= i < entries.len() ==> !pred(#[trigger] entries[i]),
    ensures
        entries.filter(pred) == Seq::<TimerEntry>::empty(),
    decreases entries.len(),
{
    reveal(Seq::filter);
    if entries.len() > 0 {
        lemma_filter_none(entries.drop_last(), pred);
    }
}

/// How many timers, counted from the first in firing order, are due.
proof fn lemma_due_prefix(order: Seq<TimerEntry>, now: Instant) -> (count: int)
    requires
        timer_map::in_order(order),
    ensures
        0 <= count <= order.len(),
        forall|i: int| 0 <= i < count ==> timer_map::is_due(#[trigger] order[i], now),
        forall|i: int| count <= i < order.len() ==> !timer_map::is_due(#[trigger] order[i], now),
    decreases order.len(),
{
    if order.len() == 0 {
        0
    } else if timer_map::is_due(order[0], now) {
        let rest = order.drop_first();
        assert forall|i: int, j: int|
            #![trigger rest[i], rest[j]]
            0 <= i < j < rest.len() implies timer_map::fires_before(rest[i].key(), rest[j].key()) by {
            assert(rest[i] == order[i + 1] && rest[j] == order[j + 1]);
        }
        let count = lemma_due_prefix(rest, now);
        assert forall|i: int| 0 <= i < count + 1 implies timer_map::is_due(
            #[trigger] order[i],
            now,
        ) by {
            if i > 0 {
                assert(timer_map::is_due(rest[i - 1], now));
            }
        }
        assert forall|i: int| count + 1 <= i < order.len() implies !timer_map::is_due(
            #[trigger] order[i],
            now,
        ) by {
            assert(!timer_map::is_due(rest[i - 1], now));
        }
        count + 1
    } else {
        assert forall|i: int| 0 <= i < order.len() implies !timer_map::is_due(
            #[trigger] order[i],
            now,
        ) by {
            if i > 0 {
                assert(timer_map::fires_before(order[0].key(), order[i].key()));
            }
        }
        0
    }
}

/// A reactor holds finitely many timers.
pub proof fn law_timers_are_finite(reactor: Reactor)
    requires
        reactor.wf(),
    ensures
        reactor@.timers.dom().finite(),
{
    timer_map::lemma_map_is_finite(reactor.timers@);
    queue::lemma_apply_is_finite(
        timer_map::as_map(reactor.timers@),
        queue::queued_ops(reactor.timer_ops),
    );
}

/// Timers fire in order: the firing order holds every timer once, earlier ones first, and the
/// tasks woken at `now` are those of its first timers, up to the last that is due.
pub proof fn law_timers_fire_in_order(timers: Map<TimerKey, Waker>, now: Instant)
    requires
        timers.dom().finite(),
    ensures
        ({
            let order = timer_map::firing_order(timers);
            let count = due_wakers(timers, now).len() as int;
            &&& timer_map::in_order(order)
            &&& timer_map::as_map(order) == timers
            &&& count <= order.len()
            &&& forall|i: int| 0 <= i < count ==> timer_map::is_due(#[trigger] order[i], now)
            &&& forall|i: int|
                count <= i < order.len() ==> !timer_map::is_due(#[trigger] order[i], now)
            &&& due_wakers(timers, now) == order.take(count).map_values(
                |entry: TimerEntry| entry.waker,
            )
        }),
{
    timer_map::lemma_has_firing_order(timers);
    let order = timer_map::firing_order(timers);
    let count = lemma_due_prefix(order, now);
    let due = order.take(count);
    let rest = order.skip(count);
    assert(due + rest =~= order);
    assert forall|i: int| 0 <= i < rest.len() implies !timer_map::is_due(
        #[trigger] rest[i],
        now,
    ) by {
        assert(rest[i] == order[i + count]);
    }
    lemma_processed(order, due, rest, now);
}

/// A timer that is due wakes its task, and one that is not due stays as it is: no timer fires
/// early, and none is lost.
pub proof fn law_due_timers_wake_their_tasks(
    timers: Map<TimerKey, Waker>,
    now: Instant,
    key: TimerKey,
)
    requires
        timers.dom().finite(),
        timers.contains_key(key),
    ensures
        key.0.nanos <= now.nanos ==> due_wakers(timers, now).contains(timers[key])
            && !pending_timers(timers, now).contains_key(key),
        key.0.nanos > now.nanos ==> pending_timers(timers, now).contains_key(key)
            && pending_timers(timers, now)[key] == timers[key],
{
    law_timers_fire_in_order(timers, now);
    let order = timer_map::firing_order(timers);
    let woken = due_wakers(timers, now);
    assert(timer_map::has_key(order, key));
    let i = choose|i: int| 0 <= i < order.len() && (#[trigger] order[i]).key() == key;
    timer_map::lemma_entry_in_map(order, i);
    if key.0.nanos <= now.nanos {
        assert(timer_map::is_due(order[i], now));
        assert(woken[i] == order[i].waker);
    }
}

/// Only tasks with a timer that is due are woken.
pub proof fn law_only_due_timers_wake(timers: Map<TimerKey, Waker>, now: Instant, waker: Waker)
    requires
        timers.dom().finite(),
        due_wakers(timers, now).contains(waker),
    ensures
        exists|key: TimerKey| #[trigger]
            timers.contains_key(key) && timers[key] == waker && key.0.nanos <= now.nanos,
{
    law_timers_fire_in_order(timers, now);
    let order = timer_map::firing_order(timers);
    let woken = due_wakers(timers, now);
    let i = choose|i: int| 0 <= i < woken.len() && woken[i] == waker;
    timer_map::lemma_entry_in_map(order, i);
    assert(timer_map::is_due(order[i], now));
    assert(timers.contains_key(order[i].key()) && timers[order[i].key()] == waker);
}

/// Polling does not oversleep: the timeout reaches no further than to the next timer, and is no
/// longer than the one asked for. Without either there is no timeout.
pub proof fn law_polling_does_not_oversleep(
    timers: Map<TimerKey, Waker>,
    now: Instant,
    timeout: Option<Duration>,
)
    requires
        timers.dom().finite(),
    ensures
        ({
            let prepared = shorter_timeout(until_first(timers, now), timeout);
            &&& forall|key: TimerKey| #[trigger]
                timers.contains_key(key) ==> (prepared matches Some(t) && t.nanos
                    <= time::time_between(now, key.0).nanos)
            &&& timeout matches Some(limit) ==> (prepared matches Some(t) && t.nanos
                <= limit.nanos)
            &&& prepared is None <==> timers.dom().len() == 0 && timeout is None
        }),
{
    timer_map::lemma_has_firing_order(timers);
    let order = timer_map::firing_order(timers);
    let prepared = shorter_timeout(until_first(timers, now), timeout);
    assert forall|key: TimerKey| #[trigger] timers.contains_key(key) implies (prepared matches Some(
        t,
    ) && t.nanos <= time::time_between(now, key.0).nanos) by {
        assert(timer_map::has_key(order, key));
        let i = choose|i: int| 0 <= i < order.len() && (#[trigger] order[i]).key() == key;
        if i > 0 {
            assert(timer_map::fires_before(order[0].key(), order[i].key()));
        }
    }
    if order.len() == 0 {
        assert forall|key: TimerKey| !timers.contains_key(key) by {
            assert(!timer_map::has_key(order, key));
        }
        assert(timers.dom() =~= Set::empty());
    } else {
        timer_map::lemma_entry_in_map(order, 0);
        assert(timers.contains_key(order[0].key()));
        assert(timers.dom().contains(order[0].key()));
    }
}

/// Identifiers tell timers apart that fire at the same time: two timers inserted one after the other
/// are both there.
pub proof fn law_simultaneous_timers_are_told_apart(
    timers: Map<TimerKey, Waker>,
    at: Instant,
    id: usize,
    first: Waker,
    second: Waker,
)
    ensures
        ({
            let both = timers.insert((at, id), first).insert((at, wrapping_succ(id)), second);
            &&& both.contains_key((at, id)) && both[(at, id)] == first
            &&& both.contains_key((at, wrapping_succ(id))) && both[(at, wrapping_succ(id))]
                == second
        }),
{
}

/// Identifiers tell all timers apart: whatever happens to a reactor, any two timers that are
/// registered get different identifiers, as long as no more are registered than there are
/// identifiers. Those of a new reactor, which begin with one, are then never zero.
pub proof fn law_timers_get_different_ids(reactor: TimersView, events: Seq<TimersEvent>)
    requires
        reactor.ids_in(events).len() <= usize::MAX,
    ensures
        reactor.ids_in(events).no_duplicates(),
        reactor.next_id == 1 ==> forall|i: int|
            0 <= i < reactor.ids_in(events).len() ==> #[trigger] reactor.ids_in(events)[i] == i + 1,
{
    let ids = reactor.ids_in(events);
    lemma_ids_in_order(reactor, events);
    assert forall|i: int, j: int| 0 <= i < ids.len() && 0 <= j < ids.len() && i != j implies ids[i]
        != ids[j] by {
        law_numbers_differ(reactor.next_id, i as nat, j as nat);
    }
    if reactor.next_id == 1 {
        assert forall|i: int| 0 <= i < ids.len() implies #[trigger] ids[i] == i + 1 by {
            law_numbers_differ(reactor.next_id, i as nat, i as nat);
        }
    }
}

/// Identifiers are given out one after the other.
proof fn lemma_ids_in_order(reactor: TimersView, events: Seq<TimersEvent>)
    ensures
        forall|i: int|
            0 <= i < reactor.ids_in(events).len() ==> #[trigger] reactor.ids_in(events)[i]
                == nth_after(reactor.next_id, i as nat),
        reactor.after_all(events).next_id == nth_after(
            reactor.next_id,
            reactor.ids_in(events).len(),
        ),
    decreases events.len(),
{
    if events.len() > 0 {
        lemma_ids_in_order(reactor, events.drop_last());
    }
}

/// A timer that has been registered stays as it is, whatever else happens, until it is deregistered
/// or fires, as long as no more timers are registered than there are identifiers.
pub proof fn law_registered_timer_stays(
    reactor: TimersView,
    at: Instant,
    waker: Waker,
    events: Seq<TimersEvent>,
)
    requires
        !events.contains(TimersEvent::Remove { at, id: reactor.next_id }),
        forall|i: int|
            0 <= i < events.len() ==> ((#[trigger] events[i]) matches TimersEvent::Fire { now }
                ==> now.nanos < at.nanos),
        reactor.after(TimersEvent::Insert { at, waker }).ids_in(events).len() < usize::MAX,
    ensures
        ({
            let later = reactor.after(TimersEvent::Insert { at, waker }).after_all(events);
            &&& later.timers.contains_key((at, reactor.next_id))
            &&& later.timers[(at, reactor.next_id)] == waker
        }),
    decreases events.len(),
{
    let inserted = reactor.after(TimersEvent::Insert { at, waker });
    if events.len() > 0 {
        let fewer = events.drop_last();
        assert forall|i: int| 0 <= i < fewer.len() implies ((
        #[trigger] fewer[i]) matches TimersEvent::Fire { now } ==> now.nanos < at.nanos) by {
            assert(events[i] == fewer[i]);
        }
        if fewer.contains(TimersEvent::Remove { at, id: reactor.next_id }) {
            let i = choose|i: int|
                0 <= i < fewer.len() && fewer[i] == (TimersEvent::Remove {
                    at,
                    id: reactor.next_id,
                });
            assert(events[i] == fewer[i]);
        }
        law_registered_timer_stays(reactor, at, waker, fewer);
        assert(events[events.len() - 1] == events.last());
        assert(events.contains(events.last()));
        if events.last() is Insert {
            let count = inserted.ids_in(fewer).len();
            lemma_ids_in_order(inserted, fewer);
            lemma_nth_shift(reactor.next_id, count);
            law_numbers_differ(reactor.next_id, 0, count + 1);
        }
    }
}

/// The numbers after the next one are those after this one, one step on.
proof fn lemma_nth_shift(first: usize, count: nat)
    ensures
        nth_after(wrapping_succ(first), count) == nth_after(first, count + 1),
    decreases count,
{
    if count > 0 {
        lemma_nth_shift(first, (count - 1) as nat);
    }
    reveal_with_fuel(nth_after, 2);
}

/// Removing a timer undoes inserting it.
pub proof fn law_removing_undoes_inserting(
    timers: Map<TimerKey, Waker>,
    key: TimerKey,
    waker: Waker,
)
    requires
        !timers.contains_key(key),
    ensures
        timers.insert(key, waker).remove(key) == timers,
{
    assert(timers.insert(key, waker).remove(key) =~= timers);
}

/// A new reactor has no timers and has not polled, and nobody has to be notified.
pub proof fn law_new_reactor_is_empty(reactor: Reactor, ticker: usize, key: TimerKey)
    requires
        call_ensures(Reactor::new, (), reactor),
        call_ensures(Reactor::ticker, (&reactor,), ticker),
    ensures
        !reactor@.timers.contains_key(key),
        ticker == 0,
        reactor@.next_id == 1,
        !reactor@.notified,
{
}

/// Each round of polling has a new tick, one more than the last until they begin again, and changes
/// nothing else. The ticker tells the tick of the last round.
pub proof fn law_rounds_have_new_ticks(
    before: Reactor,
    last: usize,
    reactor: &mut Reactor,
    tick: usize,
    after: Reactor,
    current: usize,
)
    requires
        old(reactor).wf(),
        before@ == old(reactor)@,
        call_ensures(Reactor::ticker, (&before,), last),
        call_ensures(Reactor::bump_ticker, (reactor,), tick),
        after@ == final(reactor)@,
        call_ensures(Reactor::ticker, (&after,), current),
    ensures
        tick == current && tick != last,
        last < usize::MAX ==> tick == last + 1,
        last == usize::MAX ==> tick == 0,
        final(reactor)@.ticker == tick,
        final(reactor)@.timers == old(reactor)@.timers,
        final(reactor)@.next_id == old(reactor)@.next_id,
        final(reactor)@.notified == old(reactor)@.notified,
{
}

/// A timer that is registered is there under the identifier that it gets, with its task, and the
/// thread that polls is notified of it. All other timers stay, and the next timer gets another
/// identifier, even for the same instant.
pub proof fn law_inserted_timer_is_there(
    reactor: &mut Reactor,
    at: Instant,
    waker: Waker,
    id: usize,
    later: &mut Reactor,
    next: Instant,
    second: Waker,
    next_id: usize,
    other: TimerKey,
)
    requires
        old(reactor).wf() && old(later).wf(),
        call_ensures(Reactor::insert_timer, (reactor, at, waker), id),
        old(later)@ == final(reactor)@,
        call_ensures(Reactor::insert_timer, (later, next, second), next_id),
    ensures
        id == old(reactor)@.next_id,
        id != next_id,
        id < usize::MAX ==> next_id == id + 1,
        final(reactor)@.notified,
        final(reactor)@.ticker == old(reactor)@.ticker,
        final(reactor)@.timers.contains_key((at, id)),
        final(reactor)@.timers[(at, id)] == waker,
        other != (at, id) ==> final(reactor)@.timers.contains_key(other)
            == old(reactor)@.timers.contains_key(other)
                && (old(reactor)@.timers.contains_key(other) ==> final(reactor)@.timers[other]
                    == old(reactor)@.timers[other]),
        final(later)@.timers.contains_key((at, id)) && final(later)@.timers[(at, id)] == waker,
        final(later)@.timers.contains_key((next, next_id)) && final(later)@.timers[(next, next_id)]
            == second,
{
}

/// A timer that is deregistered is gone, all others stay, and nothing else changes.
pub proof fn law_removed_timer_is_gone(
    reactor: &mut Reactor,
    at: Instant,
    id: usize,
    other: TimerKey,
)
    requires
        old(reactor).wf(),
        call_ensures(Reactor::remove_timer, (reactor, at, id), ()),
    ensures
        !final(reactor)@.timers.contains_key((at, id)),
        other != (at, id) ==> final(reactor)@.timers.contains_key(other)
            == old(reactor)@.timers.contains_key(other)
                && (old(reactor)@.timers.contains_key(other) ==> final(reactor)@.timers[other]
                    == old(reactor)@.timers[other]),
        final(reactor)@.next_id == old(reactor)@.next_id,
        final(reactor)@.ticker == old(reactor)@.ticker,
        final(reactor)@.notified == old(reactor)@.notified,
{
}

/// A notification is there until it is taken, however often the reactor was notified, and then it is
/// gone. Nothing else changes.
pub proof fn law_notification_is_taken_once(
    notified: &mut Reactor,
    taken: &mut Reactor,
    first: bool,
    again: &mut Reactor,
    second: bool,
)
    requires
        old(notified).wf() && old(taken).wf() && old(again).wf(),
        call_ensures(Reactor::notify, (notified,), ()),
        old(taken)@ == final(notified)@,
        call_ensures(Reactor::take_notification, (taken,), first),
        old(again)@ == final(taken)@,
        call_ensures(Reactor::take_notification, (again,), second),
    ensures
        first && !second,
        final(notified)@.notified && !final(again)@.notified,
        final(again)@.timers == old(notified)@.timers,
        final(again)@.next_id == old(notified)@.next_id,
        final(again)@.ticker == old(notified)@.ticker,
{
}

/// The notification that is taken is the one that is there.
pub proof fn law_taking_tells_of_the_notification(reactor: &mut Reactor, taken: bool)
    requires
        old(reactor).wf(),
        call_ensures(Reactor::take_notification, (reactor,), taken),
    ensures
        taken == old(reactor)@.notified,
{
}

/// Processing timers fires exactly those that are due: the instant of a timer decides whether it
/// goes and its task is woken, or it stays as it is. As many tasks are woken as timers go.
pub proof fn law_processing_fires_what_is_due(
    reactor: &mut Reactor,
    now: Instant,
    wakers: &mut Vec<Waker>,
    until: Option<Duration>,
    key: TimerKey,
)
    requires
        old(reactor).wf(),
        call_ensures(Reactor::process_timers, (reactor, now, wakers), until),
    ensures
        final(reactor)@.timers.contains_key(key) <==> old(reactor)@.timers.contains_key(key)
            && key.0.nanos > now.nanos,
        final(reactor)@.timers.contains_key(key) ==> final(reactor)@.timers[key]
            == old(reactor)@.timers[key],
        old(reactor)@.timers.contains_key(key) && key.0.nanos <= now.nanos ==> exists|i: int|
            old(wakers)@.len() <= i < final(wakers)@.len() && #[trigger] final(wakers)@[i]
                == old(reactor)@.timers[key],
        old(wakers)@.is_prefix_of(final(wakers)@),
        final(wakers)@.len() - old(wakers)@.len()
            == old(reactor)@.timers.dom().len() - final(reactor)@.timers.dom().len(),
        final(reactor)@.ticker == old(reactor)@.ticker,
        final(reactor)@.next_id == old(reactor)@.next_id,
        final(reactor)@.notified == old(reactor)@.notified,
{
    let timers = old(reactor)@.timers;
    law_timers_are_finite(*old(reactor));
    lemma_due_count(timers, now);
    if timers.contains_key(key) {
        law_due_timers_wake_their_tasks(timers, now, key);
        let due = due_wakers(timers, now);
        if key.0.nanos <= now.nanos {
            let i = choose|i: int| 0 <= i < due.len() && due[i] == timers[key];
            assert(final(wakers)@[old(wakers)@.len() + i] == timers[key]);
        }
    }
}

/// As many tasks are woken as timers are due.
proof fn lemma_due_count(timers: Map<TimerKey, Waker>, now: Instant)
    requires
        timers.dom().finite(),
    ensures
        due_wakers(timers, now).len() + pending_timers(timers, now).dom().len()
            == timers.dom().len(),
{
    law_timers_fire_in_order(timers, now);
    let order = timer_map::firing_order(timers);
    let count = due_wakers(timers, now).len() as int;
    let due = order.take(count);
    let rest = order.skip(count);
    assert(due + rest =~= order);
    assert forall|i: int| 0 <= i < rest.len() implies !timer_map::is_due(
        #[trigger] rest[i],
        now,
    ) by {
        assert(rest[i] == order[i + count]);
    }
    lemma_processed(order, due, rest, now);
    assert forall|i: int, j: int|
        #![trigger rest[i], rest[j]]
        0 <= i < j < rest.len() implies timer_map::fires_before(rest[i].key(), rest[j].key()) by {
        assert(rest[i] == order[i + count] && rest[j] == order[j + count]);
    }
    timer_map::lemma_map_len(order);
    timer_map::lemma_map_len(rest);
}

/// Timers that are due fire in turn: the task of the earlier one is woken before that of the later
/// one, and for the same instant the one registered first comes first.
pub proof fn law_due_timers_fire_in_turn(
    reactor: &mut Reactor,
    now: Instant,
    wakers: &mut Vec<Waker>,
    until: Option<Duration>,
    first: TimerKey,
    second: TimerKey,
)
    requires
        old(reactor).wf(),
        call_ensures(Reactor::process_timers, (reactor, now, wakers), until),
        old(reactor)@.timers.contains_key(first) && old(reactor)@.timers.contains_key(second),
        first.0.nanos < second.0.nanos || (first.0.nanos == second.0.nanos && first.1 < second.1),
        second.0.nanos <= now.nanos,
    ensures
        exists|i: int, j: int|
            old(wakers)@.len() <= i < j < final(wakers)@.len() && #[trigger] final(wakers)@[i]
                == old(reactor)@.timers[first] && #[trigger] final(wakers)@[j]
                    == old(reactor)@.timers[second],
{
    let timers = old(reactor)@.timers;
    law_timers_are_finite(*old(reactor));
    law_timers_fire_in_order(timers, now);
    let order = timer_map::firing_order(timers);
    let due = due_wakers(timers, now);
    assert(timer_map::has_key(order, first) && timer_map::has_key(order, second));
    let i = choose|i: int| 0 <= i < order.len() && (#[trigger] order[i]).key() == first;
    let j = choose|j: int| 0 <= j < order.len() && (#[trigger] order[j]).key() == second;
    timer_map::lemma_entry_in_map(order, i);
    timer_map::lemma_entry_in_map(order, j);
    if j <= i {
        if j < i {
            assert(timer_map::fires_before(order[j].key(), order[i].key()));
        }
        assert(false);
    }
    assert(timer_map::is_due(order[i], now) && timer_map::is_due(order[j], now));
    let had = old(wakers)@.len() as int;
    assert(final(wakers)@[had + i] == timers[first]);
    assert(final(wakers)@[had + j] == timers[second]);
}

/// The time until the next timer is no longer than that until any timer, one of them fires then, and
/// there is none exactly if there are no timers. It is zero if a timer is due.
pub proof fn law_time_until_the_next_timer(
    reactor: &mut Reactor,
    now: Instant,
    wakers: &mut Vec<Waker>,
    until: Option<Duration>,
    key: TimerKey,
)
    requires
        old(reactor).wf(),
        call_ensures(Reactor::process_timers, (reactor, now, wakers), until),
    ensures
        old(reactor)@.timers.contains_key(key) ==> (until matches Some(time) && (if key.0.nanos
            <= now.nanos {
            time.nanos == 0
        } else {
            now.nanos + time.nanos <= key.0.nanos
        })),
        until matches Some(time) ==> exists|key: TimerKey| #[trigger]
            old(reactor)@.timers.contains_key(key) && (if key.0.nanos <= now.nanos {
                time.nanos == 0
            } else {
                now.nanos + time.nanos == key.0.nanos
            }),
{
    let timers = old(reactor)@.timers;
    law_timers_are_finite(*old(reactor));
    law_polling_does_not_oversleep(timers, now, None);
    timer_map::lemma_has_firing_order(timers);
    let order = timer_map::firing_order(timers);
    if until is Some {
        timer_map::lemma_entry_in_map(order, 0);
        assert(timers.contains_key(order[0].key()));
    }
}

/// The shorter of two timeouts is one of them and no longer than either, and there is none exactly
/// if neither of them is one.
pub proof fn law_shorter_timeout(
    a: Option<Duration>,
    b: Option<Duration>,
    shorter: Option<Duration>,
)
    requires
        call_ensures(min_timeout, (a, b), shorter),
    ensures
        shorter == a || shorter == b,
        shorter is None <==> a is None && b is None,
        shorter matches Some(t) ==> (a matches Some(other) ==> t.nanos <= other.nanos) && (
        b matches Some(other) ==> t.nanos <= other.nanos),
{
}

/// The timeout for waiting is the shorter of the time until the next timer and the one asked for,
/// and computing it does what processing the timers does.
pub proof fn law_waiting_stops_for_the_next_timer(
    reactor: &mut Reactor,
    now: Instant,
    timeout: Option<Duration>,
    wakers: &mut Vec<Waker>,
    prepared: Option<Duration>,
    same: &mut Reactor,
    others: &mut Vec<Waker>,
    until: Option<Duration>,
    shorter: Option<Duration>,
)
    requires
        old(reactor).wf() && old(same).wf(),
        call_ensures(Reactor::timeout_duration, (reactor, now, timeout, wakers), prepared),
        old(same)@ == old(reactor)@ && old(others)@ == old(wakers)@,
        call_ensures(Reactor::process_timers, (same, now, others), until),
        call_ensures(min_timeout, (until, timeout), shorter),
    ensures
        prepared == shorter,
        final(same)@ == final(reactor)@,
        final(others)@ == final(wakers)@,
{
}

/// A round of waiting begins with processing the timers and a new tick. It lasts until the next timer
/// or as long as asked, whichever is shorter, and keeps the tasks of the timers that fired.
pub proof fn law_round_of_waiting_begins(
    reactor: &mut Reactor,
    timeout: Option<Duration>,
    now: Instant,
    lock: ReactorLock,
    asked: Option<Duration>,
    same: &mut Reactor,
    wakers: &mut Vec<Waker>,
    prepared: Option<Duration>,
    later: &mut Reactor,
    tick: usize,
)
    requires
        old(reactor).wf() && old(same).wf() && old(later).wf(),
        call_ensures(ReactorLock::react, (reactor, timeout, now), lock),
        call_ensures(ReactorLock::timeout, (&lock,), asked),
        old(same)@ == old(reactor)@ && old(wakers)@.len() == 0,
        call_ensures(Reactor::timeout_duration, (same, now, timeout, wakers), prepared),
        old(later)@ == final(same)@,
        call_ensures(Reactor::bump_ticker, (later,), tick),
    ensures
        asked == prepared,
        lock@.timeout == prepared,
        lock@.wakers == final(wakers)@,
        final(reactor)@ == final(later)@,
{
    assert(old(wakers)@ + due_wakers(old(same)@.timers, now) =~= due_wakers(
        old(same)@.timers,
        now,
    ));
}

/// More timers may be due after a round exactly if it had a timeout and nothing else ended it. They
/// fire as if they were processed, after those that fired before, and the round ends with the tasks
/// of all of them.
pub proof fn law_round_of_waiting_ends(
    lock: ReactorLock,
    notified: bool,
    hit: bool,
    fired: &mut ReactorLock,
    reactor: &mut Reactor,
    now: Instant,
    same: &mut Reactor,
    wakers: &mut Vec<Waker>,
    until: Option<Duration>,
    woken: Vec<Waker>,
)
    requires
        old(reactor).wf() && old(same).wf(),
        call_ensures(ReactorLock::hit_timeout, (&lock, notified), hit),
        call_ensures(ReactorLock::fire_timers, (fired, reactor, now), ()),
        old(same)@ == old(reactor)@ && old(wakers)@ == old(fired)@.wakers,
        call_ensures(Reactor::process_timers, (same, now, wakers), until),
        call_ensures(ReactorLock::into_wakers, (lock,), woken),
    ensures
        notified ==> !hit,
        lock@.timeout is None ==> !hit,
        !notified && lock@.timeout is Some ==> hit,
        final(fired)@.wakers == final(wakers)@,
        final(fired)@.timeout == old(fired)@.timeout,
        final(reactor)@ == final(same)@,
        woken@ == lock@.wakers,
{
}

} // verus!
