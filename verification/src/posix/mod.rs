//! The part of the operating system that the storages rest on, as a value:
//! files with their permissions and contents, found by their path.

pub mod file_system;
pub mod permission;
pub mod errno;
pub mod file_lock;
pub mod group;
