//! Containers that many parties add to and remove from.

pub mod unique_index_set;
pub mod container;
