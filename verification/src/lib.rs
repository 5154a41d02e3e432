//! Scheduling engine for future-dated reminders and timers.
//!
//! The engine keeps a time-ordered queue of schedule entries, tells its
//! caller how long to sleep until the earliest entry is due, and hands out
//! the due entries in firing order.  Clocks, locks, sleeping and the
//! delivery of events are the caller's business: every function here takes
//! the current time as an argument and returns plain values.

pub mod commands;
pub mod db;
pub mod services;
pub mod time;
