//! Single producer, single consumer queues.

pub mod index_queue;
pub mod safely_overflowing_index_queue;
pub mod queue;
