//! The first step of creating or opening a service: the choice of the
//! messaging pattern.

pub mod event;
pub mod publish_subscribe;

use crate::global_config::Config;
use crate::service::builder::publish_subscribe::PayloadType;
use crate::service::service_name::ServiceName;
use vstd::prelude::*;

verus! {

/// Starts the creation or the opening of a service.
#[derive(Debug)]
pub struct Builder {
    name: ServiceName,
}

impl Builder {
    /// The name of the service.
    pub closed spec fn spec_name(&self) -> Seq<u8> {
        self.name@
    }

    pub(crate) fn new(name: &ServiceName) -> (builder: Self)
        ensures
            builder.spec_name() == name@,
    {
        Self { name: name.clone() }
    }

    /// Continues with a publish subscribe service for payloads of the
    /// given type that has the built-in settings unless others are asked
    /// for.
    pub fn publish_subscribe(self, payload_type: &PayloadType) -> (builder:
        publish_subscribe::Builder)
        ensures
            builder.spec_name() == self.spec_name(),
            builder.has_defaults(&Config::spec_default_publish_subscribe(), payload_type),
    {
        let config = Config::default();
        publish_subscribe::Builder::new(self.name, &config, payload_type)
    }

    /// Continues with a publish subscribe service for payloads of the
    /// given type that has the settings of `config` unless others are
    /// asked for.
    pub fn publish_subscribe_with_custom_config(
        self,
        config: &Config,
        payload_type: &PayloadType,
    ) -> (builder: publish_subscribe::Builder)
        ensures
            builder.spec_name() == self.spec_name(),
            builder.has_defaults(&config.spec_defaults().publish_subscribe, payload_type),
    {
        publish_subscribe::Builder::new(self.name, config, payload_type)
    }

    /// Continues with an event service that has the built-in settings
    /// unless others are asked for.
    pub fn event(self) -> (builder: event::Builder)
        ensures
            builder.spec_name() == self.spec_name(),
            builder.spec_max_notifiers()
                == crate::service::static_config::event::DEFAULT_MAX_NOTIFIERS,
            builder.spec_max_listeners()
                == crate::service::static_config::event::DEFAULT_MAX_LISTENERS,
            !builder.spec_verify_max_notifiers(),
            !builder.spec_verify_max_listeners(),
    {
        let config = Config::default();
        event::Builder::new(self.name, &config)
    }

    /// Continues with an event service that has the settings of `config`
    /// unless others are asked for.
    pub fn event_with_custom_config(self, config: &Config) -> (builder: event::Builder)
        ensures
            builder.spec_name() == self.spec_name(),
            builder.spec_max_notifiers() == config.spec_defaults().event.max_notifiers,
            builder.spec_max_listeners() == config.spec_defaults().event.max_listeners,
            !builder.spec_verify_max_notifiers(),
            !builder.spec_verify_max_listeners(),
    {
        event::Builder::new(self.name, config)
    }
}

} // verus!
