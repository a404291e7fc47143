//! Elementary helpers the other modules rest on.

pub mod math;
pub mod lazy_singleton;
pub mod owning_pointer;
pub mod allocator;
