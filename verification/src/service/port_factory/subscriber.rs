//! Creates the subscribers of a publish subscribe service.

use crate::host::Host;
use crate::port::subscriber::{create_result, Subscriber, SubscriberCreateError};
use crate::service::port_factory::publish_subscribe::PortFactory;
use crate::service::static_config::publish_subscribe::StaticConfig;
use crate::service::service_name::{service_id, spec_service_id};
use vstd::prelude::*;

verus! {

/// Factory to create a new [`Subscriber`] port of a publish subscribe
/// service.
#[derive(Debug)]
pub struct PortFactorySubscriber<'factory> {
    pub(crate) factory: &'factory PortFactory,
}

impl<'factory> PortFactorySubscriber<'factory> {
    /// The name of the service of the subscriber.
    pub closed spec fn spec_service_name(&self) -> Seq<u8> {
        self.factory.spec_name()
    }

    /// The settings of the service of the subscriber.
    pub closed spec fn spec_static_config(&self) -> StaticConfig {
        self.factory.spec_static_config()
    }

    /// The service of every factory is a publish subscribe service.
    pub closed spec fn wf(&self) -> bool {
        self.factory.wf()
    }

    pub(crate) fn new(factory: &'factory PortFactory) -> (port_factory: Self)
        ensures
            port_factory.spec_service_name() == factory.spec_name(),
            port_factory.spec_static_config() == factory.spec_static_config(),
            port_factory.wf() == factory.wf(),
    {
        Self { factory }
    }

    /// Creates a new [`Subscriber`] port.
    pub fn create(&self, host: &mut Host) -> (result: Result<Subscriber, SubscriberCreateError>)
        requires
            self.wf(),
            old(host).wf(),
        ensures
            final(host).wf(),
            final(host).ids().spec_counter() == old(host).ids().spec_counter().wrapping_add(1),
            result.is_ok() == create_result(old(host), spec_service_id(self.spec_service_name())).is_ok(),
            result.is_err() ==> Err::<(), _>(result.unwrap_err()) == create_result(old(host), spec_service_id(self.spec_service_name())) && final(host).services() == old(host).services() && final(host).events() == old(host).events() && final(host).file_system() == old(host).file_system() && final(host).segments() == old(host).segments() && final(host).connections() == old(host).connections(),
            result.is_ok() ==> result.unwrap().spec_service_id() == spec_service_id(self.spec_service_name())
                && Subscriber::has_created(
                old(host),
                final(host),
                &result.unwrap(),
                &self.spec_static_config(),
            ),
    {
        Subscriber::new(host, &service_id(self.factory.name()), self.factory.static_config())
    }
}

} // verus!
