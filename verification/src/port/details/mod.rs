//! What the ports of a publish subscribe service keep about their peers.

pub mod publisher_connections;
pub mod subscriber_connections;
