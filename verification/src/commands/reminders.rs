//! The schedule's side of creating, updating and deleting a reminder.
//!
//! A handler first writes to the store, then calls the function of the same
//! name here with the record the store returned.  Each function changes the
//! schedule as the new state of the reminder demands and says whether the
//! control loop has to be woken.

use crate::db::models::Reminder;
use crate::services::order::{keys_without, KIND_REMINDER};
use crate::services::scheduler::{
    reminder_item, ScheduleItem, ScheduleItemIdentifier, ScheduleItemType, Scheduler,
};
use crate::time::Timestamp;
use vstd::prelude::*;

verus! {

/// A reminder belongs in the schedule when it is enabled and its trigger
/// time is strictly after `now`.
pub open spec fn is_schedulable(reminder: Reminder, now: Timestamp) -> bool {
    reminder.is_active == 1 && reminder.trigger_time.after(now)
}

/// Decides [`is_schedulable`].
pub fn reminder_is_schedulable(reminder: &Reminder, now: Timestamp) -> (b: bool)
    ensures
        b == is_schedulable(*reminder, now),
{
    reminder.is_active == 1 && reminder.trigger_time > now
}

/// A reminder was created: it is added to the schedule if it belongs
/// there.  The loop is woken exactly when it was added.
pub fn create_reminder(scheduler: &mut Scheduler, reminder: &Reminder, now: Timestamp) -> (wake:
    bool)
    requires
        old(scheduler).well_formed(),
    ensures
        final(scheduler).well_formed(),
        wake == is_schedulable(*reminder, now),
        final(scheduler)@ == if is_schedulable(*reminder, now) {
            old(scheduler)@.insert(reminder_item(*reminder).key())
        } else {
            old(scheduler)@
        },
{
    if reminder_is_schedulable(reminder, now) {
        scheduler.add_item(ScheduleItem::of_reminder(reminder));
        true
    } else {
        false
    }
}

/// A reminder was updated: its old entries leave the schedule, and its new
/// entry is added if it belongs there.  The loop is always woken.
pub fn update_reminder(scheduler: &mut Scheduler, reminder: &Reminder, now: Timestamp) -> (wake:
    bool)
    requires
        old(scheduler).well_formed(),
    ensures
        final(scheduler).well_formed(),
        wake,
        final(scheduler)@ == if is_schedulable(*reminder, now) {
            keys_without(old(scheduler)@, reminder.id, KIND_REMINDER).insert(
                reminder_item(*reminder).key(),
            )
        } else {
            keys_without(old(scheduler)@, reminder.id, KIND_REMINDER)
        },
{
    let identifier = ScheduleItemIdentifier::of_reminder(reminder);
    if reminder_is_schedulable(reminder, now) {
        scheduler.update_item(identifier, ScheduleItem::of_reminder(reminder));
    } else {
        scheduler.remove_item(identifier);
    }
    true
}

/// A reminder was deleted: its entries leave the schedule.  The loop is
/// always woken.
pub fn delete_reminder(scheduler: &mut Scheduler, reminder_id: i32) -> (wake: bool)
    requires
        old(scheduler).well_formed(),
    ensures
        final(scheduler).well_formed(),
        wake,
        final(scheduler)@ == keys_without(old(scheduler)@, reminder_id, KIND_REMINDER),
{
    let identifier = ScheduleItemIdentifier {
        item_type: ScheduleItemType::Reminder,
        item_id: reminder_id,
    };
    scheduler.remove_item(identifier);
    true
}

} // verus!
