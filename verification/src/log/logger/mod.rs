//! The loggers.

pub mod console;
