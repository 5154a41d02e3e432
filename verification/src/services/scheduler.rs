//! The trigger scheduling engine.
//!
//! A [`Scheduler`] owns the queue of schedule entries.  Callers add, remove
//! and reschedule entries, ask how long to sleep until the next entry is
//! due, and take the due entries out in firing order.  The engine neither
//! reads a clock nor sleeps nor delivers anything: the caller passes the
//! current time in and acts on what comes back.

use crate::db::models::Reminder;
use crate::services::heap::{
    heap_clear, heap_items, heap_len, heap_new, heap_peek, heap_pop, heap_push,
    heap_retain_others, is_least, key_le, ScheduleKey,
};
use crate::services::order::{
    due_keys, key_due, keys_of, keys_sorted, keys_without, least_key, lemma_due_split,
    lemma_fired_are_the_due, lemma_identity_split, lemma_insert_contains,
    lemma_least_key_unique, lemma_remove_present, lemma_without_contains, next_trigger,
    pending_keys, valid_key, KIND_REMINDER, KIND_TIMER,
};
use crate::time::{SleepDuration, Timestamp, NANOS_PER_SEC};
use min_heap::MinHeap;
use vstd::multiset::Multiset;
use vstd::prelude::*;
use vstd::std_specs::convert::FromSpecImpl;

verus! {

/// Seconds to sleep when nothing is scheduled.
pub const IDLE_SLEEP_SECS: u64 = 3600;

/// The kinds of schedulable thing.
#[derive(Debug, Clone, Copy, PartialEq, Eq, Structural)]
pub enum ScheduleItemType {
    Reminder,
    Timer,
}

/// Names one schedulable item: its kind and its numeric id within that
/// kind.
#[derive(Debug, Clone, Copy, PartialEq, Eq, Structural)]
pub struct ScheduleItemIdentifier {
    pub item_type: ScheduleItemType,
    pub item_id: i32,
}

/// One entry of the schedule: which item fires, and when.
#[derive(Debug, Clone, Copy, PartialEq, Eq, Structural)]
pub struct ScheduleItem {
    pub identifier: ScheduleItemIdentifier,
    pub trigger_time: Timestamp,
}

impl ScheduleItemType {
    /// The code that stands for this kind in a key.
    pub open spec fn spec_code(&self) -> u8 {
        match *self {
            ScheduleItemType::Reminder => KIND_REMINDER,
            ScheduleItemType::Timer => KIND_TIMER,
        }
    }

    /// The code that stands for this kind in a key.
    #[verifier::when_used_as_spec(spec_code)]
    pub fn code(&self) -> (c: u8)
        ensures
            c == self.code(),
    {
        match *self {
            ScheduleItemType::Reminder => KIND_REMINDER,
            ScheduleItemType::Timer => KIND_TIMER,
        }
    }

    /// The kind a code stands for, if any.
    pub fn from_code(code: u8) -> (r: Option<ScheduleItemType>)
        ensures
            code > KIND_TIMER ==> r is None,
            code <= KIND_TIMER ==> r is Some && r->Some_0.code() == code,
    {
        if code == KIND_REMINDER {
            Some(ScheduleItemType::Reminder)
        } else if code == KIND_TIMER {
            Some(ScheduleItemType::Timer)
        } else {
            None
        }
    }
}

impl ScheduleItem {
    /// The key under which the queue stores this entry.
    pub open spec fn spec_key(&self) -> ScheduleKey {
        (
            self.trigger_time.secs(),
            self.trigger_time.subsec_nanos(),
            self.identifier.item_id,
            self.identifier.item_type.code(),
        )
    }

    /// The key under which the queue stores this entry.
    #[verifier::when_used_as_spec(spec_key)]
    pub fn key(&self) -> (k: ScheduleKey)
        ensures
            k == self.key(),
            valid_key(k),
    {
        (
            self.trigger_time.secs(),
            self.trigger_time.subsec_nanos(),
            self.identifier.item_id,
            self.identifier.item_type.code(),
        )
    }

    /// The entry a key stands for; `None` for a tuple that is no valid
    /// key.
    pub fn from_key(k: ScheduleKey) -> (r: Option<ScheduleItem>)
        ensures
            !valid_key(k) ==> r is None,
            valid_key(k) ==> r is Some && r->Some_0.key() == k,
    {
        match (Timestamp::new(k.0, k.1), ScheduleItemType::from_code(k.3)) {
            (Some(trigger_time), Some(item_type)) => Some(
                ScheduleItem {
                    identifier: ScheduleItemIdentifier { item_type, item_id: k.2 },
                    trigger_time,
                },
            ),
            _ => None,
        }
    }

    /// Entries with the same key are the same entry.
    pub proof fn lemma_key_identifies(a: ScheduleItem, b: ScheduleItem)
        requires
            a.key() == b.key(),
        ensures
            a == b,
    {
        Timestamp::lemma_parts_identify(a.trigger_time, b.trigger_time);
    }
}

/// The name under which a stored reminder is scheduled.
pub open spec fn reminder_identifier(reminder: Reminder) -> ScheduleItemIdentifier {
    ScheduleItemIdentifier { item_type: ScheduleItemType::Reminder, item_id: reminder.id }
}

/// The entry that makes a stored reminder fire at its trigger time.
pub open spec fn reminder_item(reminder: Reminder) -> ScheduleItem {
    ScheduleItem {
        identifier: reminder_identifier(reminder),
        trigger_time: reminder.trigger_time,
    }
}

impl ScheduleItemIdentifier {
    /// The name under which a stored reminder is scheduled.
    pub fn of_reminder(reminder: &Reminder) -> (identifier: ScheduleItemIdentifier)
        ensures
            identifier == reminder_identifier(*reminder),
    {
        ScheduleItemIdentifier { item_type: ScheduleItemType::Reminder, item_id: reminder.id }
    }
}

impl From<Reminder> for ScheduleItemIdentifier {
    fn from(reminder: Reminder) -> (identifier: ScheduleItemIdentifier) {
        ScheduleItemIdentifier::of_reminder(&reminder)
    }
}

impl FromSpecImpl<Reminder> for ScheduleItemIdentifier {
    open spec fn obeys_from_spec() -> bool {
        true
    }

    open spec fn from_spec(reminder: Reminder) -> ScheduleItemIdentifier {
        reminder_identifier(reminder)
    }
}

impl ScheduleItem {
    /// The entry that makes a stored reminder fire at its trigger time.
    pub fn of_reminder(reminder: &Reminder) -> (item: ScheduleItem)
        ensures
            item == reminder_item(*reminder),
    {
        ScheduleItem {
            identifier: ScheduleItemIdentifier {
                item_type: ScheduleItemType::Reminder,
                item_id: reminder.id,
            },
            trigger_time: reminder.trigger_time,
        }
    }
}

impl From<Reminder> for ScheduleItem {
    fn from(reminder: Reminder) -> (item: ScheduleItem) {
        ScheduleItem::of_reminder(&reminder)
    }
}

impl FromSpecImpl<Reminder> for ScheduleItem {
    open spec fn obeys_from_spec() -> bool {
        true
    }

    open spec fn from_spec(reminder: Reminder) -> ScheduleItem {
        reminder_item(reminder)
    }
}

/// What the control loop hands to the event sink when an entry fires.
#[derive(Debug, Clone, Copy, PartialEq, Eq)]
pub struct TriggerEvent {
    pub name: &'static str,
    pub item_id: i32,
}

/// Name of the event that announces a fired entry of the given kind.
pub open spec fn event_name(item_type: ScheduleItemType) -> Seq<char> {
    match item_type {
        ScheduleItemType::Reminder => "reminder_triggered"@,
        ScheduleItemType::Timer => "timer_completed"@,
    }
}

/// The keys of a sequence of entries, in the same order.
pub open spec fn item_keys(items: Seq<ScheduleItem>) -> Seq<ScheduleKey> {
    items.map_values(|item: ScheduleItem| item.key())
}

/// `a` fires no later than `b`: its trigger time is earlier, or the times
/// are equal and its item id is not greater.
pub open spec fn fires_no_later(a: ScheduleItem, b: ScheduleItem) -> bool {
    a.trigger_time.at_or_before(b.trigger_time) && (b.trigger_time.at_or_before(a.trigger_time)
        ==> a.identifier.item_id <= b.identifier.item_id)
}

/// The entries are in firing order: none is followed by one that fires
/// before it.
pub open spec fn in_firing_order(items: Seq<ScheduleItem>) -> bool {
    forall|i: int, j: int|
        0 <= i < j < items.len() ==> fires_no_later(#[trigger] items[i], #[trigger] items[j])
}

/// Seconds and nanoseconds of an instant that may be absent.
pub open spec fn time_parts(t: Option<Timestamp>) -> Option<(i64, u32)> {
    match t {
        Some(t) => Some((t.secs(), t.subsec_nanos())),
        None => None,
    }
}

/// How long the control loop may sleep at `now`, in nanoseconds: the idle
/// ceiling when nothing is scheduled, nothing when the earliest entry is
/// due, else the time left until the earliest entry.
pub open spec fn sleep_nanos(m: Multiset<ScheduleKey>, now: Timestamp) -> int {
    if m.len() == 0 {
        IDLE_SLEEP_SECS * 1_000_000_000
    } else if key_due(least_key(m), now) {
        0
    } else {
        (least_key(m).0 - now.secs()) * 1_000_000_000 + (least_key(m).1 - now.subsec_nanos())
    }
}

/// The entries of the stored reminders whose trigger time is strictly
/// after `now`, in the order of the reminders.
pub open spec fn future_items(reminders: Seq<Reminder>, now: Timestamp) -> Seq<ScheduleItem> {
    reminders.filter(|reminder: Reminder| reminder.trigger_time.after(now)).map_values(
        |reminder: Reminder| reminder_item(reminder),
    )
}

/// The queue of schedule entries.
///
/// Its view is the multiset of the keys of the entries it holds.
pub struct Scheduler {
    heap: MinHeap<ScheduleKey>,
}

impl View for Scheduler {
    type V = Multiset<ScheduleKey>;

    closed spec fn view(&self) -> Multiset<ScheduleKey> {
        heap_items(self.heap)
    }
}

impl Scheduler {
    /// Every key in the queue stands for an entry.  [`Scheduler::new`]
    /// establishes this and every method keeps it.
    pub closed spec fn well_formed(&self) -> bool {
        forall|k: ScheduleKey| #[trigger] heap_items(self.heap).contains(k) ==> valid_key(k)
    }

    /// An empty schedule.
    pub fn new() -> (scheduler: Scheduler)
        ensures
            scheduler.well_formed(),
            scheduler@ == Multiset::<ScheduleKey>::empty(),
    {
        Scheduler { heap: heap_new() }
    }

    /// Adds one entry.  An entry that is already there is added once more.
    pub fn add_item(&mut self, item: ScheduleItem)
        requires
            old(self).well_formed(),
        ensures
            final(self).well_formed(),
            final(self)@ == old(self)@.insert(item.key()),
    {
        proof {
            lemma_insert_contains(self@, item.key());
        }
        heap_push(&mut self.heap, item.key());
    }

    /// Removes every entry of the named item.  Nothing happens when there
    /// is none.
    pub fn remove_item(&mut self, identifier: ScheduleItemIdentifier)
        requires
            old(self).well_formed(),
        ensures
            final(self).well_formed(),
            final(self)@ == keys_without(
                old(self)@,
                identifier.item_id,
                identifier.item_type.code(),
            ),
            final(self)@.len() == old(self)@.len() - keys_of(
                old(self)@,
                identifier.item_id,
                identifier.item_type.code(),
            ).len(),
    {
        proof {
            lemma_identity_split(self@, identifier.item_id, identifier.item_type.code());
            lemma_without_contains(self@, identifier.item_id, identifier.item_type.code());
        }
        heap_retain_others(&mut self.heap, identifier.item_id, identifier.item_type.code());
    }

    /// Replaces the entries of the named item by `new_item`.
    pub fn update_item(&mut self, identifier: ScheduleItemIdentifier, new_item: ScheduleItem)
        requires
            old(self).well_formed(),
        ensures
            final(self).well_formed(),
            final(self)@ == keys_without(
                old(self)@,
                identifier.item_id,
                identifier.item_type.code(),
            ).insert(new_item.key()),
    {
        proof {
            let kept = keys_without(self@, identifier.item_id, identifier.item_type.code());
            lemma_without_contains(self@, identifier.item_id, identifier.item_type.code());
            lemma_insert_contains(kept, new_item.key());
        }
        heap_retain_others(&mut self.heap, identifier.item_id, identifier.item_type.code());
        heap_push(&mut self.heap, new_item.key());
    }

    /// The number of entries and the earliest trigger time among them.
    pub fn get_schedule_status(&self) -> (status: (usize, Option<Timestamp>))
        requires
            self.well_formed(),
        ensures
            status.0 == self@.len(),
            time_parts(status.1) == next_trigger(self@),
    {
        let count: usize = heap_len(&self.heap);
        let next_trigger = match heap_peek(&self.heap) {
            Some(k) => {
                proof {
                    lemma_least_key_unique(k, self@);
                }
                Timestamp::new(k.0, k.1)
            },
            None => None,
        };
        (count, next_trigger)
    }

    /// How long the control loop may sleep at `now` before it looks at the
    /// schedule again.
    pub fn next_sleep(&self, now: Timestamp) -> (d: SleepDuration)
        requires
            self.well_formed(),
        ensures
            d.nanos < NANOS_PER_SEC,
            d.total_nanos() == sleep_nanos(self@, now),
    {
        match heap_peek(&self.heap) {
            None => SleepDuration::from_secs(IDLE_SLEEP_SECS),
            Some(k) => {
                proof {
                    lemma_least_key_unique(k, self@);
                }
                match Timestamp::new(k.0, k.1) {
                    Some(trigger_time) => trigger_time.saturating_duration_since(&now),
                    None => SleepDuration::zero(),
                }
            },
        }
    }

    /// Takes the earliest entry out if it is due at `now`.
    ///
    /// Returns `None`, and leaves the schedule as it is, exactly when no
    /// entry is due.
    pub fn pop_due(&mut self, now: Timestamp) -> (r: Option<ScheduleItem>)
        requires
            old(self).well_formed(),
        ensures
            final(self).well_formed(),
            match r {
                Some(item) => is_least(item.key(), old(self)@) && key_due(item.key(), now)
                    && final(self)@ == old(self)@.remove(item.key()),
                None => final(self)@ == old(self)@ && due_keys(old(self)@, now).len() == 0,
            },
    {
        match heap_peek(&self.heap) {
            None => {
                proof {
                    assert(due_keys(self@, now) =~= Multiset::empty());
                }
                None
            },
            Some(k) => {
                if k.0 < now.secs() || (k.0 == now.secs() && k.1 <= now.subsec_nanos()) {
                    match heap_pop(&mut self.heap) {
                        Some(popped) => {
                            proof {
                                lemma_least_key_unique(k, old(self)@);
                                lemma_least_key_unique(popped, old(self)@);
                                lemma_remove_present(old(self)@, popped);
                            }
                            ScheduleItem::from_key(popped)
                        },
                        None => None,
                    }
                } else {
                    proof {
                        assert forall|j: ScheduleKey| due_keys(self@, now).count(j) == 0 by {
                            if self@.contains(j) {
                                assert(key_le(k, j));
                            }
                        }
                        assert(due_keys(self@, now) =~= Multiset::empty());
                    }
                    None
                }
            },
        }
    }

    /// Replaces the whole schedule by the stored reminders that lie in the
    /// future.
    ///
    /// Takes the outcome of fetching the enabled reminders from the store.
    /// A failed fetch is handed back and leaves the schedule untouched.
    /// After a successful one the schedule holds, for each fetched reminder
    /// whose trigger time is strictly after `now`, its entry, and nothing
    /// that was there before; the number of entries loaded is returned.
    pub fn reload_from_db<E>(&mut self, fetched: Result<Vec<Reminder>, E>, now: Timestamp) -> (r:
        Result<usize, E>)
        requires
            old(self).well_formed(),
        ensures
            final(self).well_formed(),
            match fetched {
                Ok(reminders) => r == Ok::<usize, E>(
                    future_items(reminders@, now).len() as usize,
                ) && final(self)@ == item_keys(future_items(reminders@, now)).to_multiset(),
                Err(e) => r == Err::<usize, E>(e) && final(self)@ == old(self)@,
            },
    {
        let active_reminders = match fetched {
            Ok(reminders) => reminders,
            Err(e) => {
                return Err(e);
            },
        };
        let mut schedule_items: Vec<ScheduleItem> = Vec::new();
        let mut i: usize = 0;
        proof {
            assert(active_reminders@.take(0) =~= Seq::<Reminder>::empty());
            assert(future_items(active_reminders@.take(0), now) =~= Seq::<ScheduleItem>::empty())
                by {
                reveal(Seq::filter);
            }
        }
        while i < active_reminders.len()
            invariant
                i <= active_reminders.len(),
                schedule_items@ == future_items(active_reminders@.take(i as int), now),
                schedule_items@.len() <= i,
            decreases active_reminders.len() - i,
        {
            let reminder = &active_reminders[i];
            proof {
                let seen = active_reminders@.take(i as int);
                seen.lemma_filter_push(
                    *reminder,
                    |reminder: Reminder| reminder.trigger_time.after(now),
                );
                assert(active_reminders@.take(i + 1) =~= seen.push(*reminder));
                assert(future_items(seen.push(*reminder), now) =~= if reminder.trigger_time.after(
                    now,
                ) {
                    future_items(seen, now).push(reminder_item(*reminder))
                } else {
                    future_items(seen, now)
                });
            }
            if reminder.trigger_time > now {
                schedule_items.push(ScheduleItem::of_reminder(reminder));
            }
            i += 1;
        }
        proof {
            assert(active_reminders@.take(i as int) =~= active_reminders@);
        }
        let count: usize = schedule_items.len();

        heap_clear(&mut self.heap);
        let mut j: usize = 0;
        proof {
            broadcast use vstd::seq_lib::group_to_multiset_ensures;

            assert(item_keys(schedule_items@.take(0)) =~= Seq::<ScheduleKey>::empty());
            assert(item_keys(schedule_items@.take(0)).to_multiset().len() == 0);
            assert(self@ =~= item_keys(schedule_items@.take(0)).to_multiset());
        }
        while j < schedule_items.len()
            invariant
                j <= schedule_items.len(),
                self.well_formed(),
                self@ == item_keys(schedule_items@.take(j as int)).to_multiset(),
            decreases schedule_items.len() - j,
        {
            let item = schedule_items[j];
            proof {
                broadcast use vstd::seq_lib::group_to_multiset_ensures;

                let loaded = schedule_items@.take(j as int);
                assert(schedule_items@.take(j + 1) =~= loaded.push(item));
                assert(item_keys(loaded.push(item)) =~= item_keys(loaded).push(item.key()));
                lemma_insert_contains(self@, item.key());
            }
            self.add_item(item);
            j += 1;
        }
        proof {
            assert(schedule_items@.take(j as int) =~= schedule_items@);
        }
        Ok(count)
    }

    /// Takes every entry that is due at `now` out of the schedule and
    /// returns them in firing order.
    ///
    /// Each due entry comes out exactly once, as often as it was added; the
    /// entries that are not yet due stay.
    pub fn trigger_due_items(&mut self, now: Timestamp) -> (fired: Vec<ScheduleItem>)
        requires
            old(self).well_formed(),
        ensures
            final(self).well_formed(),
            item_keys(fired@).to_multiset() == due_keys(old(self)@, now),
            keys_sorted(item_keys(fired@)),
            in_firing_order(fired@),
            final(self)@ == pending_keys(old(self)@, now),
            final(self)@.len() + fired@.len() == old(self)@.len(),
    {
        let mut fired: Vec<ScheduleItem> = Vec::new();
        let ghost start = self@;
        proof {
            broadcast use vstd::seq_lib::group_to_multiset_ensures;

            assert(item_keys(fired@) =~= Seq::<ScheduleKey>::empty());
            assert(item_keys(fired@).to_multiset().len() == 0);
            assert(start =~= item_keys(fired@).to_multiset().add(self@));
        }
        loop
            invariant
                self.well_formed(),
                keys_sorted(item_keys(fired@)),
                forall|i: int| 0 <= i < fired@.len() ==> key_due(#[trigger] fired@[i].key(), now),
                forall|i: int, k: ScheduleKey|
                    0 <= i < fired@.len() && #[trigger] self@.contains(k) ==> key_le(
                        #[trigger] fired@[i].key(),
                        k,
                    ),
                start == item_keys(fired@).to_multiset().add(self@),
            ensures
                due_keys(self@, now).len() == 0,
            decreases self@.len(),
        {
            let ghost before = self@;
            let ghost fired_before = fired@;
            match self.pop_due(now) {
                None => {
                    break ;
                },
                Some(item) => {
                    fired.push(item);
                    proof {
                        broadcast use vstd::seq_lib::group_to_multiset_ensures;

                        lemma_remove_present(before, item.key());
                        assert(item_keys(fired@) =~= item_keys(fired_before).push(item.key()));
                        assert(item_keys(fired@).to_multiset() =~= item_keys(
                            fired_before,
                        ).to_multiset().insert(item.key()));
                        assert(start =~= item_keys(fired@).to_multiset().add(self@));
                    }
                },
            }
        }
        proof {
            broadcast use vstd::seq_lib::group_to_multiset_ensures;

            lemma_fired_are_the_due(start, item_keys(fired@), self@, now);
            lemma_sorted_keys_fire_in_order(fired@);
            lemma_due_split(start, now);
        }
        fired
    }
}

/// Entries whose keys are sorted are in firing order.
pub proof fn lemma_sorted_keys_fire_in_order(items: Seq<ScheduleItem>)
    requires
        keys_sorted(item_keys(items)),
    ensures
        in_firing_order(items),
{
    assert forall|i: int, j: int| 0 <= i < j < items.len() implies fires_no_later(
        #[trigger] items[i],
        #[trigger] items[j],
    ) by {
        assert(key_le(item_keys(items)[i], item_keys(items)[j]));
    }
}

/// The event that announces a fired entry.
pub fn trigger_item(item: &ScheduleItem) -> (event: TriggerEvent)
    ensures
        event.name@ == event_name(item.identifier.item_type),
        event.item_id == item.identifier.item_id,
{
    match item.identifier.item_type {
        ScheduleItemType::Reminder => TriggerEvent {
            name: "reminder_triggered",
            item_id: item.identifier.item_id,
        },
        ScheduleItemType::Timer => TriggerEvent {
            name: "timer_completed",
            item_id: item.identifier.item_id,
        },
    }
}

} // verus!
