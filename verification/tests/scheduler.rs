use floaty::db::models::Reminder;
use floaty::services::scheduler::{
    trigger_item, ScheduleItem, ScheduleItemIdentifier, ScheduleItemType, Scheduler,
    IDLE_SLEEP_SECS,
};
use floaty::time::{SleepDuration, Timestamp};

const NOW: i64 = 1_700_000_000;

fn at(secs: i64) -> Timestamp {
    Timestamp::from_secs(secs)
}

fn name(item_type: ScheduleItemType, item_id: i32) -> ScheduleItemIdentifier {
    ScheduleItemIdentifier { item_type, item_id }
}

fn entry(item_type: ScheduleItemType, item_id: i32, secs: i64) -> ScheduleItem {
    ScheduleItem { identifier: name(item_type, item_id), trigger_time: at(secs) }
}

fn ids(items: &[ScheduleItem]) -> Vec<i32> {
    items.iter().map(|item| item.identifier.item_id).collect()
}

fn stored(id: i32, trigger_secs: i64) -> Reminder {
    Reminder {
        id,
        title: format!("reminder {}", id),
        body: None,
        trigger_time: at(trigger_secs),
        is_recurring: 0,
        recurrence_rule: None,
        is_active: 1,
        created_at: at(NOW - 60),
    }
}

#[test]
fn empty_schedule_has_no_next_trigger() {
    let scheduler = Scheduler::new();
    assert_eq!(scheduler.get_schedule_status(), (0, None));
}

#[test]
fn empty_schedule_sleeps_for_the_idle_ceiling() {
    let scheduler = Scheduler::new();
    assert_eq!(IDLE_SLEEP_SECS, 3600);
    assert_eq!(scheduler.next_sleep(at(NOW)), SleepDuration { secs: 3600, nanos: 0 });
}

#[test]
fn empty_schedule_fires_nothing() {
    let mut scheduler = Scheduler::new();
    assert_eq!(scheduler.pop_due(at(NOW)), None);
    assert!(scheduler.trigger_due_items(at(NOW)).is_empty());
    assert_eq!(scheduler.get_schedule_status(), (0, None));
}

#[test]
fn added_reminder_shows_in_status_and_fires_once() {
    let mut scheduler = Scheduler::new();
    let item = entry(ScheduleItemType::Reminder, 1, NOW + 5);
    scheduler.add_item(item);
    assert_eq!(scheduler.get_schedule_status(), (1, Some(at(NOW + 5))));

    assert!(scheduler.trigger_due_items(at(NOW + 4)).is_empty());
    assert_eq!(scheduler.trigger_due_items(at(NOW + 5)), vec![item]);
    assert!(scheduler.trigger_due_items(at(NOW + 6)).is_empty());
    assert_eq!(scheduler.get_schedule_status(), (0, None));
}

#[test]
fn timers_fire_earliest_first() {
    let mut scheduler = Scheduler::new();
    scheduler.add_item(entry(ScheduleItemType::Timer, 2, NOW + 10));
    scheduler.add_item(entry(ScheduleItemType::Timer, 3, NOW + 2));
    let fired = scheduler.trigger_due_items(at(NOW + 10));
    assert_eq!(ids(&fired), vec![3, 2]);
}

#[test]
fn update_moves_the_reminder_to_its_new_time() {
    let mut scheduler = Scheduler::new();
    let identifier = name(ScheduleItemType::Reminder, 1);
    scheduler.add_item(entry(ScheduleItemType::Reminder, 1, NOW + 100));
    assert_eq!(scheduler.next_sleep(at(NOW)), SleepDuration { secs: 100, nanos: 0 });

    let sooner = entry(ScheduleItemType::Reminder, 1, NOW + 1);
    scheduler.update_item(identifier, sooner);
    assert_eq!(scheduler.get_schedule_status(), (1, Some(at(NOW + 1))));
    assert_eq!(scheduler.next_sleep(at(NOW)), SleepDuration { secs: 1, nanos: 0 });
    assert_eq!(scheduler.trigger_due_items(at(NOW + 1)), vec![sooner]);
    assert!(scheduler.trigger_due_items(at(NOW + 100)).is_empty());
}

#[test]
fn equal_trigger_times_fire_by_ascending_id() {
    let mut scheduler = Scheduler::new();
    scheduler.add_item(entry(ScheduleItemType::Reminder, 5, NOW + 7));
    scheduler.add_item(entry(ScheduleItemType::Reminder, 2, NOW + 7));
    let fired = scheduler.trigger_due_items(at(NOW + 7));
    assert_eq!(ids(&fired), vec![2, 5]);
}

#[test]
fn reload_keeps_only_the_future_reminder() {
    let mut scheduler = Scheduler::new();
    let fetched: Result<Vec<Reminder>, String> =
        Ok(vec![stored(1, NOW - 30), stored(2, NOW + 30)]);
    assert_eq!(scheduler.reload_from_db(fetched, at(NOW)), Ok(1));
    assert_eq!(scheduler.get_schedule_status(), (1, Some(at(NOW + 30))));
    let fired = scheduler.trigger_due_items(at(NOW + 30));
    assert_eq!(fired, vec![entry(ScheduleItemType::Reminder, 2, NOW + 30)]);
}

#[test]
fn reload_drops_a_reminder_that_is_due_right_now() {
    let mut scheduler = Scheduler::new();
    let fetched: Result<Vec<Reminder>, String> = Ok(vec![stored(1, NOW)]);
    assert_eq!(scheduler.reload_from_db(fetched, at(NOW)), Ok(0));
    assert_eq!(scheduler.get_schedule_status(), (0, None));
}

#[test]
fn reload_replaces_what_was_scheduled() {
    let mut scheduler = Scheduler::new();
    scheduler.add_item(entry(ScheduleItemType::Reminder, 9, NOW + 1));
    scheduler.add_item(entry(ScheduleItemType::Timer, 4, NOW + 2));
    let fetched: Result<Vec<Reminder>, String> =
        Ok(vec![stored(7, NOW + 50), stored(8, NOW + 40), stored(7, NOW + 50)]);
    assert_eq!(scheduler.reload_from_db(fetched, at(NOW)), Ok(3));
    assert_eq!(scheduler.get_schedule_status(), (3, Some(at(NOW + 40))));
    let fired = scheduler.trigger_due_items(at(NOW + 100));
    assert_eq!(ids(&fired), vec![8, 7, 7]);
    assert!(fired.iter().all(|item| item.identifier.item_type == ScheduleItemType::Reminder));
}

#[test]
fn failed_fetch_leaves_the_schedule_untouched() {
    let mut scheduler = Scheduler::new();
    let item = entry(ScheduleItemType::Reminder, 9, NOW + 1);
    scheduler.add_item(item);
    let fetched: Result<Vec<Reminder>, String> = Err(String::from("pool closed"));
    assert_eq!(scheduler.reload_from_db(fetched, at(NOW)), Err(String::from("pool closed")));
    assert_eq!(scheduler.get_schedule_status(), (1, Some(at(NOW + 1))));
    assert_eq!(scheduler.trigger_due_items(at(NOW + 1)), vec![item]);
}

#[test]
fn removed_entry_never_fires() {
    let mut scheduler = Scheduler::new();
    scheduler.add_item(entry(ScheduleItemType::Reminder, 1, NOW + 5));
    scheduler.add_item(entry(ScheduleItemType::Reminder, 2, NOW + 6));
    scheduler.remove_item(name(ScheduleItemType::Reminder, 1));
    let fired = scheduler.trigger_due_items(at(NOW + 1_000));
    assert_eq!(ids(&fired), vec![2]);
}

#[test]
fn remove_lowers_the_count_by_the_matching_entries() {
    let mut scheduler = Scheduler::new();
    scheduler.add_item(entry(ScheduleItemType::Reminder, 1, NOW + 5));
    scheduler.add_item(entry(ScheduleItemType::Reminder, 1, NOW + 9));
    scheduler.add_item(entry(ScheduleItemType::Reminder, 1, NOW + 9));
    scheduler.add_item(entry(ScheduleItemType::Reminder, 2, NOW + 6));
    assert_eq!(scheduler.get_schedule_status().0, 4);
    scheduler.remove_item(name(ScheduleItemType::Reminder, 1));
    assert_eq!(scheduler.get_schedule_status(), (1, Some(at(NOW + 6))));
}

#[test]
fn removing_twice_is_removing_once() {
    let mut scheduler = Scheduler::new();
    scheduler.add_item(entry(ScheduleItemType::Reminder, 1, NOW + 5));
    scheduler.add_item(entry(ScheduleItemType::Timer, 3, NOW + 8));
    scheduler.remove_item(name(ScheduleItemType::Reminder, 1));
    let once = scheduler.get_schedule_status();
    scheduler.remove_item(name(ScheduleItemType::Reminder, 1));
    assert_eq!(scheduler.get_schedule_status(), once);
    assert_eq!(once, (1, Some(at(NOW + 8))));
}

#[test]
fn removing_an_absent_item_changes_nothing() {
    let mut scheduler = Scheduler::new();
    scheduler.remove_item(name(ScheduleItemType::Timer, 42));
    assert_eq!(scheduler.get_schedule_status(), (0, None));
    scheduler.add_item(entry(ScheduleItemType::Timer, 3, NOW + 8));
    scheduler.remove_item(name(ScheduleItemType::Timer, 42));
    assert_eq!(scheduler.get_schedule_status(), (1, Some(at(NOW + 8))));
}

#[test]
fn same_id_of_another_kind_is_another_item() {
    let mut scheduler = Scheduler::new();
    let reminder = entry(ScheduleItemType::Reminder, 7, NOW + 5);
    let timer = entry(ScheduleItemType::Timer, 7, NOW + 5);
    scheduler.add_item(timer);
    scheduler.add_item(reminder);
    scheduler.remove_item(name(ScheduleItemType::Reminder, 7));
    assert_eq!(scheduler.trigger_due_items(at(NOW + 5)), vec![timer]);
}

#[test]
fn entry_added_twice_fires_twice() {
    let mut scheduler = Scheduler::new();
    let item = entry(ScheduleItemType::Reminder, 1, NOW + 5);
    scheduler.add_item(item);
    scheduler.add_item(item);
    assert_eq!(scheduler.get_schedule_status().0, 2);
    assert_eq!(scheduler.trigger_due_items(at(NOW + 5)), vec![item, item]);
}

#[test]
fn update_of_an_unscheduled_item_adds_it() {
    let mut scheduler = Scheduler::new();
    let item = entry(ScheduleItemType::Timer, 6, NOW + 3);
    scheduler.update_item(name(ScheduleItemType::Timer, 6), item);
    assert_eq!(scheduler.get_schedule_status(), (1, Some(at(NOW + 3))));
}

#[test]
fn update_removes_the_old_name_and_adds_the_new_entry() {
    let mut scheduler = Scheduler::new();
    scheduler.add_item(entry(ScheduleItemType::Reminder, 1, NOW + 5));
    scheduler.add_item(entry(ScheduleItemType::Reminder, 1, NOW + 6));
    scheduler.add_item(entry(ScheduleItemType::Reminder, 2, NOW + 7));
    let other = entry(ScheduleItemType::Timer, 8, NOW + 1);
    scheduler.update_item(name(ScheduleItemType::Reminder, 1), other);
    let fired = scheduler.trigger_due_items(at(NOW + 10));
    assert_eq!(fired, vec![other, entry(ScheduleItemType::Reminder, 2, NOW + 7)]);
}

#[test]
fn due_entries_leave_and_pending_entries_stay() {
    let mut scheduler = Scheduler::new();
    for (id, offset) in [(1, 30), (2, -5), (3, 0), (4, 1), (5, -5)] {
        scheduler.add_item(entry(ScheduleItemType::Reminder, id, NOW + offset));
    }
    let fired = scheduler.trigger_due_items(at(NOW));
    assert_eq!(ids(&fired), vec![2, 5, 3]);
    assert_eq!(scheduler.get_schedule_status(), (2, Some(at(NOW + 1))));
    assert!(scheduler.trigger_due_items(at(NOW)).is_empty());
    let later = scheduler.trigger_due_items(at(NOW + 30));
    assert_eq!(ids(&later), vec![4, 1]);
}

#[test]
fn fired_entries_come_in_nondecreasing_order() {
    let mut scheduler = Scheduler::new();
    let offsets = [9, 3, 7, 3, 1, 9, 4, 0, 3];
    for (index, offset) in offsets.iter().enumerate() {
        scheduler.add_item(entry(ScheduleItemType::Timer, 100 - index as i32, NOW + offset));
    }
    let fired = scheduler.trigger_due_items(at(NOW + 10));
    assert_eq!(fired.len(), offsets.len());
    for pair in fired.windows(2) {
        assert!(pair[0] <= pair[1]);
        assert!(pair[0].key() <= pair[1].key());
    }
}

#[test]
fn nanoseconds_break_ties_between_equal_seconds() {
    let mut scheduler = Scheduler::new();
    let late = ScheduleItem {
        identifier: name(ScheduleItemType::Reminder, 1),
        trigger_time: Timestamp::new(NOW, 500).unwrap(),
    };
    let early = ScheduleItem {
        identifier: name(ScheduleItemType::Reminder, 2),
        trigger_time: Timestamp::new(NOW, 499).unwrap(),
    };
    scheduler.add_item(late);
    scheduler.add_item(early);
    assert_eq!(scheduler.pop_due(Timestamp::new(NOW, 498).unwrap()), None);
    assert_eq!(scheduler.pop_due(Timestamp::new(NOW, 499).unwrap()), Some(early));
    assert_eq!(scheduler.pop_due(Timestamp::new(NOW, 499).unwrap()), None);
    assert_eq!(scheduler.pop_due(Timestamp::new(NOW, 500).unwrap()), Some(late));
}

#[test]
fn pop_due_takes_one_entry_at_a_time() {
    let mut scheduler = Scheduler::new();
    let first = entry(ScheduleItemType::Reminder, 1, NOW - 2);
    let second = entry(ScheduleItemType::Reminder, 2, NOW - 1);
    let third = entry(ScheduleItemType::Reminder, 3, NOW + 1);
    scheduler.add_item(third);
    scheduler.add_item(second);
    scheduler.add_item(first);
    assert_eq!(scheduler.pop_due(at(NOW)), Some(first));
    assert_eq!(scheduler.get_schedule_status().0, 2);
    assert_eq!(scheduler.pop_due(at(NOW)), Some(second));
    assert_eq!(scheduler.pop_due(at(NOW)), None);
    assert_eq!(scheduler.get_schedule_status(), (1, Some(at(NOW + 1))));
}

#[test]
fn entry_removed_between_two_pops_does_not_fire() {
    let mut scheduler = Scheduler::new();
    let first = entry(ScheduleItemType::Reminder, 1, NOW - 2);
    scheduler.add_item(first);
    scheduler.add_item(entry(ScheduleItemType::Reminder, 2, NOW - 1));
    assert_eq!(scheduler.pop_due(at(NOW)), Some(first));
    scheduler.remove_item(name(ScheduleItemType::Reminder, 2));
    assert_eq!(scheduler.pop_due(at(NOW)), None);
}

#[test]
fn sleep_is_zero_when_the_earliest_entry_is_due() {
    let mut scheduler = Scheduler::new();
    scheduler.add_item(entry(ScheduleItemType::Reminder, 1, NOW));
    assert_eq!(scheduler.next_sleep(at(NOW)), SleepDuration { secs: 0, nanos: 0 });
    assert_eq!(scheduler.next_sleep(at(NOW + 50)), SleepDuration { secs: 0, nanos: 0 });
}

#[test]
fn sleep_is_the_time_left_until_the_earliest_entry() {
    let mut scheduler = Scheduler::new();
    scheduler.add_item(ScheduleItem {
        identifier: name(ScheduleItemType::Timer, 1),
        trigger_time: Timestamp::new(NOW + 5, 100_000_000).unwrap(),
    });
    scheduler.add_item(entry(ScheduleItemType::Timer, 2, NOW + 90));
    let now = Timestamp::new(NOW, 900_000_000).unwrap();
    assert_eq!(scheduler.next_sleep(now), SleepDuration { secs: 4, nanos: 200_000_000 });
}

#[test]
fn sleep_may_exceed_the_idle_ceiling() {
    let mut scheduler = Scheduler::new();
    scheduler.add_item(entry(ScheduleItemType::Timer, 1, NOW + 86_400));
    assert_eq!(scheduler.next_sleep(at(NOW)), SleepDuration { secs: 86_400, nanos: 0 });
}

#[test]
fn status_reports_the_earliest_trigger_time() {
    let mut scheduler = Scheduler::new();
    scheduler.add_item(entry(ScheduleItemType::Timer, 1, NOW + 30));
    scheduler.add_item(entry(ScheduleItemType::Reminder, 2, -12));
    scheduler.add_item(entry(ScheduleItemType::Timer, 3, NOW + 10));
    assert_eq!(scheduler.get_schedule_status(), (3, Some(at(-12))));
}

#[test]
fn fired_reminder_is_announced_as_reminder_triggered() {
    let event = trigger_item(&entry(ScheduleItemType::Reminder, 11, NOW));
    assert_eq!(event.name, "reminder_triggered");
    assert_eq!(event.item_id, 11);
}

#[test]
fn fired_timer_is_announced_as_timer_completed() {
    let event = trigger_item(&entry(ScheduleItemType::Timer, -4, NOW));
    assert_eq!(event.name, "timer_completed");
    assert_eq!(event.item_id, -4);
}

#[test]
fn key_and_entry_convert_both_ways() {
    let item = ScheduleItem {
        identifier: name(ScheduleItemType::Timer, -9),
        trigger_time: Timestamp::new(-3, 999_999_999).unwrap(),
    };
    assert_eq!(item.key(), (-3, 999_999_999, -9, 1));
    assert_eq!(ScheduleItem::from_key((-3, 999_999_999, -9, 1)), Some(item));
    assert_eq!(entry(ScheduleItemType::Reminder, 4, 8).key(), (8, 0, 4, 0));
}

#[test]
fn tuples_that_are_no_keys_stand_for_no_entry() {
    assert_eq!(ScheduleItem::from_key((0, 1_000_000_000, 1, 0)), None);
    assert_eq!(ScheduleItem::from_key((0, 0, 1, 2)), None);
    assert_eq!(ScheduleItemType::from_code(0), Some(ScheduleItemType::Reminder));
    assert_eq!(ScheduleItemType::from_code(1), Some(ScheduleItemType::Timer));
    assert_eq!(ScheduleItemType::from_code(2), None);
    assert_eq!(ScheduleItemType::Reminder.code(), 0);
    assert_eq!(ScheduleItemType::Timer.code(), 1);
}

#[test]
fn reminder_converts_to_its_identifier_and_entry() {
    let reminder = stored(31, NOW + 12);
    let identifier = ScheduleItemIdentifier::from(reminder.clone());
    assert_eq!(identifier, name(ScheduleItemType::Reminder, 31));
    assert_eq!(ScheduleItemIdentifier::of_reminder(&reminder), identifier);
    let item = ScheduleItem::from(reminder.clone());
    assert_eq!(item, entry(ScheduleItemType::Reminder, 31, NOW + 12));
    assert_eq!(ScheduleItem::of_reminder(&reminder), item);
}

#[test]
fn entries_compare_by_time_then_by_id() {
    let a = entry(ScheduleItemType::Timer, 9, NOW);
    let b = entry(ScheduleItemType::Reminder, 1, NOW + 1);
    let c = entry(ScheduleItemType::Reminder, 2, NOW + 1);
    assert!(a < b);
    assert!(b < c);
    assert!(c > a);
    assert!(b <= b);
    assert_eq!(b.partial_cmp(&c), Some(std::cmp::Ordering::Less));
    assert_eq!(c.partial_cmp(&b), Some(std::cmp::Ordering::Greater));
}

#[test]
fn entries_that_differ_only_in_kind_compare_as_equal() {
    let reminder = entry(ScheduleItemType::Reminder, 3, NOW);
    let timer = entry(ScheduleItemType::Timer, 3, NOW);
    assert_eq!(reminder.partial_cmp(&timer), Some(std::cmp::Ordering::Equal));
    assert_ne!(reminder, timer);
    assert!(reminder.key() < timer.key());
}
