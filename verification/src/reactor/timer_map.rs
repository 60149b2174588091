//! Registered timers, in the order in which they fire.
use crate::time::Instant;
use crate::task::Waker;
use vstd::prelude::*;

verus! {

/// A registered timer.
#[derive(Clone, Copy, Debug, PartialEq, Eq, Structural)]
pub struct TimerEntry {
    /// When the timer fires.
    pub when: Instant,
    /// Distinguishes timers that fire at the same time.
    pub id: usize,
    /// The task awaiting the timer.
    pub waker: Waker,
}

/// What identifies a registered timer: when it fires and its identifier.
pub type TimerKey = (Instant, usize);

impl TimerEntry {
    /// The key under which the timer is registered.
    pub open spec fn key(self) -> TimerKey {
        (self.when, self.id)
    }
}

/// Whether timer `a` fires before timer `b`; identifiers settle ties.
pub open spec fn fires_before(a: TimerKey, b: TimerKey) -> bool {
    a.0.nanos < b.0.nanos || (a.0.nanos == b.0.nanos && a.1 < b.1)
}

/// Whether the entries stand in firing order, with no key twice.
pub open spec fn in_order(entries: Seq<TimerEntry>) -> bool {
    forall|i: int, j: int|
        #![trigger entries[i], entries[j]]
        0 <= i < j < entries.len() ==> fires_before(entries[i].key(), entries[j].key())
}

/// Whether some entry has the given key.
pub open spec fn has_key(entries: Seq<TimerEntry>, key: TimerKey) -> bool {
    exists|i: int| 0 <= i < entries.len() && (#[trigger] entries[i]).key() == key
}

/// The task registered under each key.
pub open spec fn as_map(entries: Seq<TimerEntry>) -> Map<TimerKey, Waker> {
    Map::new(
        |key: TimerKey| has_key(entries, key),
        |key: TimerKey|
            entries[choose|i: int|
                0 <= i < entries.len() && (#[trigger] entries[i]).key() == key].waker,
    )
}

/// The timers of a map in the order in which they fire.
pub open spec fn firing_order(timers: Map<TimerKey, Waker>) -> Seq<TimerEntry> {
    choose|entries: Seq<TimerEntry>| in_order(entries) && #[trigger] as_map(entries) == timers
}

/// Whether the timer of an entry is due at `now`: a timer set for exactly `now` is.
pub open spec fn is_due(entry: TimerEntry, now: Instant) -> bool {
    entry.when.nanos <= now.nanos
}

/// The entry at an index is what the map holds under its key.
pub proof fn lemma_entry_in_map(entries: Seq<TimerEntry>, i: int)
    requires
        in_order(entries),
        0 <= i < entries.len(),
    ensures
        as_map(entries).contains_key(entries[i].key()),
        as_map(entries)[entries[i].key()] == entries[i].waker,
{
    let key = entries[i].key();
    assert(has_key(entries, key));
    let j = choose|j: int| 0 <= j < entries.len() && (#[trigger] entries[j]).key() == key;
    assert(entries[j].key() == key);
    if i < j {
        assert(fires_before(entries[i].key(), entries[j].key()));
    } else if j < i {
        assert(fires_before(entries[j].key(), entries[i].key()));
    }
}

/// Entries in order that make the same map are the same entries.
pub proof fn lemma_order_unique(a: Seq<TimerEntry>, b: Seq<TimerEntry>)
    requires
        in_order(a),
        in_order(b),
        as_map(a) == as_map(b),
    ensures
        a == b,
    decreases a.len(),
{
    if a.len() == 0 {
        if b.len() > 0 {
            lemma_entry_in_map(b, 0);
            assert(as_map(a).contains_key(b[0].key()));
            assert(has_key(a, b[0].key()));
        }
        assert(a =~= b);
    } else {
        let a_last = a.last();
        lemma_entry_in_map(a, a.len() - 1);
        assert(as_map(b).contains_key(a_last.key()));
        assert(has_key(b, a_last.key()));
        let j = choose|j: int| 0 <= j < b.len() && (#[trigger] b[j]).key() == a_last.key();
        lemma_entry_in_map(b, b.len() - 1);
        assert(has_key(a, b.last().key()));
        let k = choose|k: int| 0 <= k < a.len() && (#[trigger] a[k]).key() == b.last().key();
        if j < b.len() - 1 {
            assert(fires_before(b[j].key(), b[b.len() - 1].key()));
            if k < a.len() - 1 {
                assert(fires_before(a[k].key(), a[a.len() - 1].key()));
            }
            assert(false);
        }
        assert(b.last().key() == a_last.key());
        lemma_entry_in_map(b, b.len() - 1);
        assert(b.last() == a_last);
        let a0 = a.drop_last();
        let b0 = b.drop_last();
        lemma_drop_last_map(a);
        lemma_drop_last_map(b);
        lemma_order_unique(a0, b0);
        assert(a =~= a0.push(a_last));
        assert(b =~= b0.push(a_last));
    }
}

/// Dropping the last entry removes its key from the map.
proof fn lemma_drop_last_map(entries: Seq<TimerEntry>)
    requires
        in_order(entries),
        entries.len() > 0,
    ensures
        in_order(entries.drop_last()),
        as_map(entries.drop_last()) == as_map(entries).remove(entries.last().key()),
{
    let rest = entries.drop_last();
    let removed = as_map(entries).remove(entries.last().key());
    assert(in_order(rest)) by {
        assert forall|i: int, j: int|
            #![trigger rest[i], rest[j]]
            0 <= i < j < rest.len() implies fires_before(rest[i].key(), rest[j].key()) by {
            assert(rest[i] == entries[i] && rest[j] == entries[j]);
        }
    }
    assert forall|key: TimerKey| as_map(rest).contains_key(key) == removed.contains_key(key) by {
        if as_map(rest).contains_key(key) {
            assert(has_key(rest, key));
            let i = choose|i: int| 0 <= i < rest.len() && (#[trigger] rest[i]).key() == key;
            assert(entries[i].key() == key);
            assert(has_key(entries, key));
            assert(fires_before(entries[i].key(), entries[entries.len() - 1].key()));
        }
        if removed.contains_key(key) {
            assert(has_key(entries, key));
            let i = choose|i: int| 0 <= i < entries.len() && (#[trigger] entries[i]).key() == key;
            assert(i != entries.len() - 1);
            assert(rest[i].key() == key);
            assert(has_key(rest, key));
        }
    }
    assert forall|key: TimerKey| as_map(rest).contains_key(key) implies as_map(rest)[key]
        == removed[key] by {
        assert(has_key(rest, key));
        let i = choose|i: int| 0 <= i < rest.len() && (#[trigger] rest[i]).key() == key;
        lemma_entry_in_map(rest, i);
        lemma_entry_in_map(entries, i);
        assert(rest[i] == entries[i]);
    }
    assert(as_map(rest) =~= removed);
}

/// Entries in order are the firing order of the map they make.
pub proof fn lemma_firing_order(entries: Seq<TimerEntry>)
    requires
        in_order(entries),
    ensures
        firing_order(as_map(entries)) == entries,
{
    let chosen = firing_order(as_map(entries));
    assert(in_order(chosen) && as_map(chosen) == as_map(entries));
    lemma_order_unique(chosen, entries);
}

/// An ordered map of registered timers.
#[derive(Debug)]
pub struct TimerMap {
    entries: Vec<TimerEntry>,
}

impl View for TimerMap {
    type V = Seq<TimerEntry>;

    closed spec fn view(&self) -> Seq<TimerEntry> {
        self.entries@
    }
}

impl TimerMap {
    /// The entries stand in firing order, with no key twice.
    pub open spec fn wf(&self) -> bool {
        in_order(self@)
    }

    /// Creates an empty map.
    pub fn new() -> (map: TimerMap)
        ensures
            map.wf(),
            map@ == Seq::<TimerEntry>::empty(),
            as_map(map@) == Map::<TimerKey, Waker>::empty(),
    {
        let map = TimerMap { entries: Vec::new() };
        assert(as_map(map@) =~= Map::<TimerKey, Waker>::empty());
        map
    }

    /// Returns the number of entries that fire before the given key.
    fn position(&self, when: Instant, id: usize) -> (pos: usize)
        requires
            self.wf(),
        ensures
            pos <= self@.len(),
            forall|i: int| 0 <= i < pos ==> fires_before((#[trigger] self@[i]).key(), (when, id)),
            forall|i: int|
                pos <= i < self@.len() ==> !fires_before((#[trigger] self@[i]).key(), (when, id)),
    {
        let mut low: usize = 0;
        let mut high: usize = self.entries.len();
        while low < high
            invariant
                self.wf(),
                low <= high <= self@.len(),
                self@ == self.entries@,
                forall|i: int|
                    0 <= i < low ==> fires_before((#[trigger] self@[i]).key(), (when, id)),
                forall|i: int|
                    high <= i < self@.len() ==> !fires_before(
                        (#[trigger] self@[i]).key(),
                        (when, id),
                    ),
            decreases high - low,
        {
            let mid: usize = low + (high - low) / 2;
            let entry = self.entries[mid];
            if entry.when.nanos < when.nanos || (entry.when.nanos == when.nanos && entry.id < id) {
                assert forall|i: int| 0 <= i < mid + 1 implies fires_before(
                    (#[trigger] self@[i]).key(),
                    (when, id),
                ) by {
                    if i < mid {
                        assert(fires_before(self@[i].key(), self@[mid as int].key()));
                    }
                }
                low = mid + 1;
            } else {
                assert forall|i: int| mid <= i < self@.len() implies !fires_before(
                    (#[trigger] self@[i]).key(),
                    (when, id),
                ) by {
                    if mid < i {
                        assert(fires_before(self@[mid as int].key(), self@[i].key()));
                    }
                }
                high = mid;
            }
        }
        low
    }

    /// Registers a task under a key, in place of the one registered there before.
    pub fn insert(&mut self, when: Instant, id: usize, waker: Waker)
        requires
            old(self).wf(),
        ensures
            final(self).wf(),
            as_map(final(self)@) == as_map(old(self)@).insert((when, id), waker),
    {
        let pos: usize = self.position(when, id);
        let entry = TimerEntry { when, id, waker };
        let ghost before = self@;
        if pos < self.entries.len() && self.entries[pos].when.nanos == when.nanos
            && self.entries[pos].id == id {
            self.entries.set(pos, entry);
        } else {
            self.entries.insert(pos, entry);
        }
        proof {
            lemma_inserted(before, self@, pos as int, entry);
        }
    }

    /// Removes the entry with the given key, if there is one.
    pub fn remove(&mut self, when: Instant, id: usize)
        requires
            old(self).wf(),
        ensures
            final(self).wf(),
            as_map(final(self)@) == as_map(old(self)@).remove((when, id)),
    {
        let pos: usize = self.position(when, id);
        let ghost before = self@;
        if pos < self.entries.len() && self.entries[pos].when.nanos == when.nanos
            && self.entries[pos].id == id {
            let _ = self.entries.remove(pos);
        }
        proof {
            lemma_removed(before, self@, pos as int, (when, id));
        }
    }

    /// Takes out the entries that are due at `now`, in firing order.
    pub fn take_due(&mut self, now: Instant) -> (due: Vec<TimerEntry>)
        requires
            old(self).wf(),
        ensures
            final(self).wf(),
            old(self)@ == due@ + final(self)@,
            forall|i: int| 0 <= i < due@.len() ==> is_due(#[trigger] due@[i], now),
            forall|i: int| 0 <= i < final(self)@.len() ==> !is_due(#[trigger] final(self)@[i], now),
    {
        let ghost before = self@;
        let mut count: usize = 0;
        while count < self.entries.len() && self.entries[count].when.nanos <= now.nanos
            invariant
                self.wf(),
                self@ == self.entries@,
                self@ == before,
                count <= self@.len(),
                forall|i: int| 0 <= i < count ==> is_due(#[trigger] self@[i], now),
            decreases self@.len() - count,
        {
            count = count + 1;
        }
        let pending = self.entries.split_off(count);
        let mut due = pending;
        std::mem::swap(&mut due, &mut self.entries);
        proof {
            let rest = self@;
            assert(before =~= due@ + rest);
            assert forall|i: int, j: int|
                #![trigger rest[i], rest[j]]
                0 <= i < j < rest.len() implies fires_before(rest[i].key(), rest[j].key()) by {
                assert(rest[i] == before[i + count] && rest[j] == before[j + count]);
            }
            assert forall|i: int| 0 <= i < rest.len() implies !is_due(#[trigger] rest[i], now) by {
                assert(rest[i] == before[i + count]);
                assert(!is_due(before[count as int], now));
                if i > 0 {
                    assert(fires_before(before[count as int].key(), before[i + count].key()));
                }
            }
        }
        due
    }

    /// When the first timer fires.
    pub fn first(&self) -> (first: Option<Instant>)
        ensures
            first == if self@.len() == 0 {
                None
            } else {
                Some(self@[0].when)
            },
    {
        if self.entries.len() == 0 {
            None
        } else {
            Some(self.entries[0].when)
        }
    }
}

/// Putting an entry at its place in firing order inserts it into the map.
proof fn lemma_inserted(
    before: Seq<TimerEntry>,
    after: Seq<TimerEntry>,
    pos: int,
    entry: TimerEntry,
)
    requires
        in_order(before),
        0 <= pos <= before.len(),
        forall|i: int| 0 <= i < pos ==> fires_before((#[trigger] before[i]).key(), entry.key()),
        forall|i: int|
            pos <= i < before.len() ==> !fires_before((#[trigger] before[i]).key(), entry.key()),
        if pos < before.len() && before[pos].key() == entry.key() {
            after == before.update(pos, entry)
        } else {
            after == before.insert(pos, entry)
        },
    ensures
        in_order(after),
        as_map(after) == as_map(before).insert(entry.key(), entry.waker),
{
    let replaced = pos < before.len() && before[pos].key() == entry.key();
    // Where each entry of `after` stood in `before`; the new one has no such place.
    let origin = |i: int| if replaced || i < pos { i } else { i - 1 };
    assert forall|i: int| 0 <= i < after.len() && i != pos implies #[trigger] after[i]
        == before[origin(i)] by {}
    assert(after[pos] == entry);
    assert forall|i: int, j: int|
        #![trigger after[i], after[j]]
        0 <= i < j < after.len() implies fires_before(after[i].key(), after[j].key()) by {
        if i != pos && j != pos {
            assert(fires_before(before[origin(i)].key(), before[origin(j)].key()));
        } else if i == pos {
            let o = origin(j);
            assert(after[j] == before[o]);
            assert(!fires_before(before[o].key(), entry.key()));
            if replaced {
                assert(fires_before(before[pos].key(), before[o].key()));
            } else if o > pos {
                assert(fires_before(before[pos].key(), before[o].key()));
                assert(!fires_before(before[pos].key(), entry.key()));
            }
        } else {
            assert(after[i] == before[i]);
        }
    }
    let inserted = as_map(before).insert(entry.key(), entry.waker);
    assert forall|key: TimerKey| as_map(after).contains_key(key) == inserted.contains_key(key) by {
        if has_key(after, key) && key != entry.key() {
            let i = choose|i: int| 0 <= i < after.len() && (#[trigger] after[i]).key() == key;
            assert(before[origin(i)].key() == key);
            assert(has_key(before, key));
        }
        if has_key(before, key) && key != entry.key() {
            let i = choose|i: int| 0 <= i < before.len() && (#[trigger] before[i]).key() == key;
            let j = if replaced || i < pos { i } else { i + 1 };
            assert(after[j] == before[i]);
            assert(has_key(after, key));
        }
        if key == entry.key() {
            assert(after[pos].key() == key);
            assert(has_key(after, key));
        }
    }
    assert forall|key: TimerKey| as_map(after).contains_key(key) implies as_map(after)[key]
        == inserted[key] by {
        assert(has_key(after, key));
        let i = choose|i: int| 0 <= i < after.len() && (#[trigger] after[i]).key() == key;
        lemma_entry_in_map(after, i);
        if i == pos {
            assert(key == entry.key());
        } else {
            if i < pos {
                assert(fires_before(after[i].key(), after[pos].key()));
            } else {
                assert(fires_before(after[pos].key(), after[i].key()));
            }
            lemma_entry_in_map(before, origin(i));
        }
    }
    assert(as_map(after) =~= inserted);
}

/// Taking out the entry with a key removes the key from the map.
proof fn lemma_removed(before: Seq<TimerEntry>, after: Seq<TimerEntry>, pos: int, key: TimerKey)
    requires
        in_order(before),
        0 <= pos <= before.len(),
        forall|i: int| 0 <= i < pos ==> fires_before((#[trigger] before[i]).key(), key),
        forall|i: int| pos <= i < before.len() ==> !fires_before((#[trigger] before[i]).key(), key),
        if pos < before.len() && before[pos].key() == key {
            after == before.remove(pos)
        } else {
            after == before
        },
    ensures
        in_order(after),
        as_map(after) == as_map(before).remove(key),
{
    let found = pos < before.len() && before[pos].key() == key;
    let origin = |i: int| if !found || i < pos { i } else { i + 1 };
    assert forall|i: int| 0 <= i < after.len() implies #[trigger] after[i] == before[origin(i)] by {
    }
    assert forall|i: int, j: int|
        #![trigger after[i], after[j]]
        0 <= i < j < after.len() implies fires_before(after[i].key(), after[j].key()) by {
        assert(fires_before(before[origin(i)].key(), before[origin(j)].key()));
    }
    // No other entry has the key.
    assert forall|i: int| 0 <= i < before.len() && i != pos implies (#[trigger] before[i]).key()
        != key by {
        if i > pos {
            assert(!fires_before(before[pos].key(), key));
            assert(fires_before(before[pos].key(), before[i].key()));
        }
    }
    let removed = as_map(before).remove(key);
    assert forall|k: TimerKey| as_map(after).contains_key(k) == removed.contains_key(k) by {
        if has_key(after, k) {
            let i = choose|i: int| 0 <= i < after.len() && (#[trigger] after[i]).key() == k;
            assert(before[origin(i)].key() == k);
            assert(has_key(before, k));
        }
        if has_key(before, k) && k != key {
            let i = choose|i: int| 0 <= i < before.len() && (#[trigger] before[i]).key() == k;
            let j = if !found || i < pos { i } else { i - 1 };
            assert(after[j] == before[i]);
            assert(has_key(after, k));
        }
    }
    assert forall|k: TimerKey| as_map(after).contains_key(k) implies as_map(after)[k]
        == removed[k] by {
        assert(has_key(after, k));
        let i = choose|i: int| 0 <= i < after.len() && (#[trigger] after[i]).key() == k;
        lemma_entry_in_map(after, i);
        lemma_entry_in_map(before, origin(i));
    }
    assert(as_map(after) =~= removed);
}

/// The place in firing order at which an entry with the given key belongs.
proof fn lemma_place(entries: Seq<TimerEntry>, key: TimerKey) -> (pos: int)
    requires
        in_order(entries),
    ensures
        0 <= pos <= entries.len(),
        forall|i: int| 0 <= i < pos ==> fires_before((#[trigger] entries[i]).key(), key),
        forall|i: int|
            pos <= i < entries.len() ==> !fires_before((#[trigger] entries[i]).key(), key),
    decreases entries.len(),
{
    if entries.len() == 0 {
        0
    } else if fires_before(entries.last().key(), key) {
        assert forall|i: int| 0 <= i < entries.len() implies fires_before(
            (#[trigger] entries[i]).key(),
            key,
        ) by {
            if i < entries.len() - 1 {
                assert(fires_before(entries[i].key(), entries[entries.len() - 1].key()));
            }
        }
        entries.len() as int
    } else {
        let rest = entries.drop_last();
        lemma_drop_last_map(entries);
        let pos = lemma_place(rest, key);
        assert forall|i: int| 0 <= i < pos implies fires_before(
            (#[trigger] entries[i]).key(),
            key,
        ) by {
            assert(fires_before(rest[i].key(), key));
        }
        assert forall|i: int| pos <= i < entries.len() implies !fires_before(
            (#[trigger] entries[i]).key(),
            key,
        ) by {
            if i < entries.len() - 1 {
                assert(!fires_before(rest[i].key(), key));
            }
        }
        pos
    }
}

/// Every finite map of timers has a firing order.
pub proof fn lemma_has_firing_order(timers: Map<TimerKey, Waker>)
    requires
        timers.dom().finite(),
    ensures
        in_order(firing_order(timers)),
        as_map(firing_order(timers)) == timers,
    decreases timers.dom().len(),
{
    if timers.dom().len() == 0 {
        let none = Seq::<TimerEntry>::empty();
        assert(timers.dom() =~= Set::empty());
        assert(as_map(none) =~= timers);
        lemma_firing_order(none);
    } else {
        let key = timers.dom().choose();
        assert(timers.contains_key(key));
        let others = timers.remove(key);
        assert(others.dom() =~= timers.dom().remove(key));
        lemma_has_firing_order(others);
        let before = firing_order(others);
        let entry = TimerEntry { when: key.0, id: key.1, waker: timers[key] };
        let pos = lemma_place(before, key);
        if pos < before.len() && before[pos].key() == key {
            lemma_entry_in_map(before, pos);
        }
        let after = before.insert(pos, entry);
        lemma_inserted(before, after, pos, entry);
        assert(others.insert(key, timers[key]) =~= timers);
        lemma_firing_order(after);
    }
}

/// Entries make a finite map.
pub proof fn lemma_map_is_finite(entries: Seq<TimerEntry>)
    requires
        in_order(entries),
    ensures
        as_map(entries).dom().finite(),
    decreases entries.len(),
{
    if entries.len() == 0 {
        assert(as_map(entries).dom() =~= Set::empty());
    } else {
        lemma_drop_last_map(entries);
        lemma_map_is_finite(entries.drop_last());
        lemma_entry_in_map(entries, entries.len() - 1);
        assert(as_map(entries).dom() =~= as_map(entries.drop_last()).dom().insert(
            entries.last().key(),
        ));
    }
}

/// Whether the entries stand in the order in which they fire, and those for the same instant in the
/// order of their identifiers.
pub open spec fn fire_in_turn(entries: Seq<TimerEntry>) -> bool {
    forall|i: int, j: int|
        #![trigger entries[i], entries[j]]
        0 <= i < j < entries.len() ==> entries[i].when.nanos < entries[j].when.nanos || (
        entries[i].when.nanos == entries[j].when.nanos && entries[i].id < entries[j].id)
}

/// There are as many entries as there are keys.
pub proof fn lemma_map_len(entries: Seq<TimerEntry>)
    requires
        in_order(entries),
    ensures
        as_map(entries).dom().len() == entries.len(),
        as_map(entries).dom().finite(),
    decreases entries.len(),
{
    lemma_map_is_finite(entries);
    if entries.len() == 0 {
        assert(as_map(entries).dom() =~= Set::empty());
    } else {
        let rest = entries.drop_last();
        let key = entries.last().key();
        lemma_drop_last_map(entries);
        lemma_map_len(rest);
        lemma_entry_in_map(entries, entries.len() - 1);
        assert(as_map(rest).dom() =~= as_map(entries).dom().remove(key));
    }
}

/// Inserting puts the task under its key, in place of one that was there, and leaves all other
/// entries. The entries stay in the order in which they fire.
pub proof fn law_inserted_entry_is_there(
    map: &mut TimerMap,
    when: Instant,
    id: usize,
    waker: Waker,
    other: TimerEntry,
)
    requires
        old(map).wf(),
        call_ensures(TimerMap::insert, (map, when, id, waker), ()),
    ensures
        fire_in_turn(final(map)@),
        final(map)@.contains(TimerEntry { when, id, waker }),
        other.when == when && other.id == id && final(map)@.contains(other) ==> other.waker
            == waker,
        other.when != when || other.id != id ==> (final(map)@.contains(other)
            <==> old(map)@.contains(other)),
{
    lemma_contains(final(map)@, TimerEntry { when, id, waker });
    lemma_contains(final(map)@, other);
    lemma_contains(old(map)@, other);
}

/// Removing takes out the entry with the key, and leaves all others in their order.
pub proof fn law_removed_entry_is_gone(
    map: &mut TimerMap,
    when: Instant,
    id: usize,
    other: TimerEntry,
)
    requires
        old(map).wf(),
        call_ensures(TimerMap::remove, (map, when, id), ()),
    ensures
        fire_in_turn(final(map)@),
        other.when == when && other.id == id ==> !final(map)@.contains(other),
        other.when != when || other.id != id ==> (final(map)@.contains(other)
            <==> old(map)@.contains(other)),
{
    lemma_contains(final(map)@, other);
    lemma_contains(old(map)@, other);
}

/// An entry is among others if the map that they make has its task under its key.
proof fn lemma_contains(entries: Seq<TimerEntry>, entry: TimerEntry)
    requires
        in_order(entries),
    ensures
        entries.contains(entry) <==> as_map(entries).contains_key(entry.key()) && as_map(
            entries,
        )[entry.key()] == entry.waker,
{
    if entries.contains(entry) {
        let i = choose|i: int| 0 <= i < entries.len() && entries[i] == entry;
        lemma_entry_in_map(entries, i);
    }
    if as_map(entries).contains_key(entry.key()) && as_map(entries)[entry.key()] == entry.waker {
        let i = choose|i: int|
            0 <= i < entries.len() && (#[trigger] entries[i]).key() == entry.key();
        lemma_entry_in_map(entries, i);
        assert(entries[i] == entry);
    }
}

/// The entries that are due are taken out, all of them and no others, in the order in which they
/// fire. One for exactly now is due.
pub proof fn law_due_entries_are_taken(
    map: &mut TimerMap,
    now: Instant,
    due: Vec<TimerEntry>,
    i: int,
)
    requires
        old(map).wf(),
        call_ensures(TimerMap::take_due, (map, now), due),
    ensures
        due@.len() + final(map)@.len() == old(map)@.len(),
        0 <= i < due@.len() ==> due@[i] == old(map)@[i] && due@[i].when.nanos <= now.nanos,
        0 <= i < final(map)@.len() ==> final(map)@[i] == old(map)@[due@.len() + i]
            && final(map)@[i].when.nanos > now.nanos,
        fire_in_turn(due@) && fire_in_turn(final(map)@),
{
    let all = old(map)@;
    let taken = due@;
    assert(forall|k: int| 0 <= k < taken.len() ==> #[trigger] taken[k] == all[k]);
    if 0 <= i < due@.len() {
        assert(is_due(due@[i], now));
    }
    if 0 <= i < final(map)@.len() {
        assert(!is_due(final(map)@[i], now));
    }
}

/// A new map is empty. The first timer is the one that fires before all others, and there is none
/// exactly if the map is empty.
pub proof fn law_first_timer_fires_first(
    created: TimerMap,
    map: TimerMap,
    first: Option<Instant>,
    i: int,
)
    requires
        call_ensures(TimerMap::new, (), created),
        map.wf(),
        call_ensures(TimerMap::first, (&map,), first),
    ensures
        created@.len() == 0,
        first is None <==> map@.len() == 0,
        first matches Some(at) ==> {
            &&& 0 <= i < map@.len() ==> at.nanos <= map@[i].when.nanos
            &&& exists|j: int| 0 <= j < map@.len() && (#[trigger] map@[j]).when == at
        },
{
    if 0 < i < map@.len() {
        assert(fires_before(map@[0].key(), map@[i].key()));
    }
}

} // verus!
