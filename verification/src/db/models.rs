//! Records of the persistent store, as plain values.

use crate::time::Timestamp;
use vstd::prelude::*;

verus! {

/// A stored reminder.
#[derive(Clone, Debug)]
pub struct Reminder {
    pub id: i32,
    pub title: String,
    pub body: Option<String>,
    pub trigger_time: Timestamp,
    pub is_recurring: i32,
    pub recurrence_rule: Option<String>,
    pub is_active: i32,
    pub created_at: Timestamp,
}

} // verus!
