//! The concepts that services are built from: storages, channels and
//! connections that are found by their name. Every concept keeps its named
//! objects in a registry that stands for the namespace of one host.

pub mod hash;
pub mod registry;
pub mod named_concept;
pub mod static_storage;
pub mod event;
pub mod zero_copy_connection;
pub mod shared_memory;
pub mod shared_memory_directory;
