//! The order in which schedule entries fire, as `<` and `<=` on entries.
//!
//! Entries compare by trigger time; entries with the same trigger time
//! compare by item id.  The kind of an item plays no part, so two entries
//! that differ in nothing but their kind compare as equal.

use crate::services::heap::key_le;
use crate::services::scheduler::{fires_no_later, ScheduleItem};
use std::cmp::Ordering;
use vstd::prelude::*;
use vstd::std_specs::cmp::PartialOrdSpecImpl;

verus! {

impl PartialOrd for ScheduleItem {
    fn partial_cmp(&self, other: &ScheduleItem) -> (r: Option<Ordering>) {
        if self.trigger_time < other.trigger_time {
            Some(Ordering::Less)
        } else if self.trigger_time > other.trigger_time {
            Some(Ordering::Greater)
        } else if self.identifier.item_id < other.identifier.item_id {
            Some(Ordering::Less)
        } else if self.identifier.item_id > other.identifier.item_id {
            Some(Ordering::Greater)
        } else {
            Some(Ordering::Equal)
        }
    }
}

impl PartialOrdSpecImpl for ScheduleItem {
    open spec fn obeys_partial_cmp_spec() -> bool {
        true
    }

    open spec fn partial_cmp_spec(&self, other: &ScheduleItem) -> Option<Ordering> {
        if other.trigger_time.after(self.trigger_time) {
            Some(Ordering::Less)
        } else if self.trigger_time.after(other.trigger_time) {
            Some(Ordering::Greater)
        } else if self.identifier.item_id < other.identifier.item_id {
            Some(Ordering::Less)
        } else if self.identifier.item_id > other.identifier.item_id {
            Some(Ordering::Greater)
        } else {
            Some(Ordering::Equal)
        }
    }
}

/// `a <= b` says that `a` fires no later than `b`, and the order of the
/// queue's keys never contradicts it: an entry whose key comes first fires
/// no later.
pub proof fn lemma_item_order_is_firing_order(a: ScheduleItem, b: ScheduleItem)
    ensures
        fires_no_later(a, b) <==> (vstd::std_specs::cmp::PartialOrdSpec::partial_cmp_spec(
            &a,
            &b,
        ) matches Some(Ordering::Less | Ordering::Equal)),
        key_le(a.key(), b.key()) ==> fires_no_later(a, b),
        fires_no_later(a, b) || fires_no_later(b, a),
{
}

} // verus!
