//! Zero-copy inter-process communication building blocks: index queues,
//! allocators, named storages, connections, services and their ports, each
//! with a machine-checked contract.
#![allow(unused_imports)]

pub mod elementary;
pub mod lock_free;
pub mod memory;
pub mod cal;
pub mod posix;
pub mod port;
pub mod service;
pub mod global_config;
pub mod host;
pub mod concurrency_primitives;
pub mod log;
pub mod system_types;
