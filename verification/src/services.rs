//! The scheduling engine and the priority queue beneath it.

pub mod control_loop;
pub mod heap;
pub mod item_order;
pub mod order;
pub mod scheduler;
