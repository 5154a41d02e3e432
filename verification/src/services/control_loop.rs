//! The decisions of the control loop.
//!
//! The loop itself belongs to the caller: it sleeps, races the sleep against
//! the wakeup signal, and delivers events.  Each time it comes back from
//! such work it takes the queue's guard, reports what happened with
//! [`control_step`], releases the guard and does what the step answers:
//! sleep for a given time, or deliver one fired entry.
//!
//! A dispatch round begins when a sleep runs its full length.  The instant
//! at which it begins decides which entries are due for the whole round; it
//! travels from each [`LoopAction::Dispatch`] to the following
//! [`LoopEvent::Dispatched`].

use crate::services::heap::{is_least, ScheduleKey};
use crate::services::order::{due_keys, key_due};
use crate::services::scheduler::{sleep_nanos, ScheduleItem, Scheduler};
use crate::time::{SleepDuration, Timestamp, NANOS_PER_SEC};
use vstd::multiset::Multiset;
use vstd::prelude::*;

verus! {

/// What the loop reports when it comes back to the engine.
#[derive(Debug, Clone, Copy, PartialEq, Eq, Structural)]
pub enum LoopEvent {
    /// The loop has just started.
    Started,
    /// The sleep ran its full length.
    TimerElapsed,
    /// The wakeup signal ended the sleep early.
    Woken,
    /// The entry of the last step was delivered, in the dispatch round that
    /// began at `round`.
    Dispatched { round: Timestamp },
}

/// What the loop has to do next.
#[derive(Debug, Clone, Copy, PartialEq, Eq, Structural)]
pub enum LoopAction {
    /// Sleep for the given time, or until the wakeup signal.
    Sleep(SleepDuration),
    /// Deliver `item`, then report [`LoopEvent::Dispatched`] with the same
    /// `round`.
    Dispatch { item: ScheduleItem, round: Timestamp },
}

/// The loop goes to sleep: the schedule stays as it is and the sleep is as
/// long as the schedule allows at `now`.
pub open spec fn goes_to_sleep(
    before: Multiset<ScheduleKey>,
    after: Multiset<ScheduleKey>,
    action: LoopAction,
    now: Timestamp,
) -> bool {
    &&& after == before
    &&& action matches LoopAction::Sleep(d)
    &&& d.nanos < NANOS_PER_SEC
    &&& d.total_nanos() == sleep_nanos(before, now)
}

/// One step of a dispatch round that began at `round`: while an entry is
/// due at `round`, the earliest one leaves the schedule to be delivered;
/// once none is due the loop goes to sleep.
pub open spec fn dispatches_or_sleeps(
    before: Multiset<ScheduleKey>,
    after: Multiset<ScheduleKey>,
    action: LoopAction,
    round: Timestamp,
    now: Timestamp,
) -> bool {
    if due_keys(before, round).len() > 0 {
        &&& action matches LoopAction::Dispatch { item, round: action_round }
        &&& action_round == round
        &&& is_least(item.key(), before)
        &&& key_due(item.key(), round)
        &&& after == before.remove(item.key())
    } else {
        goes_to_sleep(before, after, action, now)
    }
}

/// Decides what the control loop does next.
///
/// At the start and after a wakeup signal it only computes the next sleep.
/// After a sleep that ran its full length it begins a dispatch round at
/// `now`; after a delivery it goes on with the round that is under way.
pub fn control_step(scheduler: &mut Scheduler, event: LoopEvent, now: Timestamp) -> (action:
    LoopAction)
    requires
        old(scheduler).well_formed(),
    ensures
        final(scheduler).well_formed(),
        match event {
            LoopEvent::Started | LoopEvent::Woken => goes_to_sleep(
                old(scheduler)@,
                final(scheduler)@,
                action,
                now,
            ),
            LoopEvent::TimerElapsed => dispatches_or_sleeps(
                old(scheduler)@,
                final(scheduler)@,
                action,
                now,
                now,
            ),
            LoopEvent::Dispatched { round } => dispatches_or_sleeps(
                old(scheduler)@,
                final(scheduler)@,
                action,
                round,
                now,
            ),
        },
{
    let round = match event {
        LoopEvent::Started | LoopEvent::Woken => {
            return LoopAction::Sleep(scheduler.next_sleep(now));
        },
        LoopEvent::TimerElapsed => now,
        LoopEvent::Dispatched { round } => round,
    };
    match scheduler.pop_due(round) {
        Some(item) => {
            proof {
                assert(due_keys(old(scheduler)@, round).count(item.key()) > 0);
            }
            LoopAction::Dispatch { item, round }
        },
        None => LoopAction::Sleep(scheduler.next_sleep(now)),
    }
}

} // verus!
