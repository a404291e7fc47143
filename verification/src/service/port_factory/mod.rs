//! What the holder of a service creates the ports of the service with.

pub mod event;
pub mod listener;
pub mod notifier;
pub mod publish_subscribe;
pub mod publisher;
pub mod subscriber;
