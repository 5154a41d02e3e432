//! What the request handlers do to the schedule.

pub mod reminders;
