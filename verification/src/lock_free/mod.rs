//! Index containers and queues that the communication layers are built from.
//!
//! Every structure here is modelled as a value that is changed through
//! `&mut`: its contract describes one operation at a time, in the order the
//! operations take effect.

pub mod spsc;
pub mod mpmc;
