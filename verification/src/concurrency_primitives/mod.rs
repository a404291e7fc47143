//! The primitives that locks are built from. What makes a thread wait and
//! what wakes it up again is handed to them as functions, so that they work
//! with whatever the platform offers for it.

pub mod condition_variable;
pub mod mutex;
