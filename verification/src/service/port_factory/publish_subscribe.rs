//! The holder's view of a publish subscribe service.

use crate::host::Host;
use crate::service::port_factory::publisher::PortFactoryPublisher;
use crate::service::port_factory::subscriber::PortFactorySubscriber;
use crate::service::service_name::{service_id, spec_service_id, ServiceName};
use crate::service::static_config;
use crate::service::static_config::publish_subscribe::StaticConfig;
use crate::service::Service;
use vstd::prelude::*;

verus! {

/// The holder's view of a publish subscribe service. It tells the
/// settings of the service and creates the ports of the service.
#[derive(Debug)]
pub struct PortFactory {
    pub(crate) service: Service,
}

impl PortFactory {
    /// The name of the service.
    pub closed spec fn spec_name(&self) -> Seq<u8> {
        self.service.spec_name()
    }

    /// The settings of the service.
    pub closed spec fn spec_static_config(&self) -> StaticConfig {
        self.service.spec_static_config().messaging_pattern->PublishSubscribe_0
    }

    /// The service of every factory is a publish subscribe service.
    pub closed spec fn wf(&self) -> bool {
        self.service.spec_static_config().messaging_pattern is PublishSubscribe
    }

    pub(crate) fn new(service: Service) -> (factory: Self)
        requires
            service.spec_static_config().messaging_pattern is PublishSubscribe,
        ensures
            factory.wf(),
            factory.spec_name() == service.spec_name(),
            factory.spec_static_config()
                == service.spec_static_config().messaging_pattern->PublishSubscribe_0,
    {
        Self { service }
    }

    /// Returns the name of the service.
    pub fn name(&self) -> (name: &ServiceName)
        ensures
            name@ == self.spec_name(),
    {
        self.service.name()
    }

    /// Returns the settings of the service.
    pub fn static_config(&self) -> (config: &StaticConfig)
        requires
            self.wf(),
        ensures
            *config == self.spec_static_config(),
    {
        match &self.service.state().static_config.messaging_pattern {
            static_config::MessagingPattern::PublishSubscribe(config) => config,
            static_config::MessagingPattern::Event(_) => vstd::pervasive::unreached(),
        }
    }

    /// Returns a factory of the publishers of the service.
    pub fn publisher(&self) -> (port_factory: PortFactoryPublisher<'_>)
        ensures
            port_factory.spec_service_name() == self.spec_name(),
            port_factory.spec_static_config() == self.spec_static_config(),
            port_factory.wf() == self.wf(),
    {
        PortFactoryPublisher::new(self)
    }

    /// Returns a factory of the subscribers of the service.
    pub fn subscriber(&self) -> (port_factory: PortFactorySubscriber<'_>)
        ensures
            port_factory.spec_service_name() == self.spec_name(),
            port_factory.spec_static_config() == self.spec_static_config(),
            port_factory.wf() == self.wf(),
    {
        PortFactorySubscriber::new(self)
    }

    /// Closes the holder's view of the service. When no holder is left the
    /// service is taken down. Returns true if the service was taken down.
    pub fn close(self, host: &mut Host) -> (taken_down: bool)
        requires
            old(host).wf(),
        ensures
            final(host).wf(),
            final(host).same_transport(old(host)),
            final(host).same_layout(old(host)),
            taken_down == (old(host).has_service(spec_service_id(self.spec_name())) && old(host).holders(
                spec_service_id(self.spec_name()),
            ) == 1),
            !old(host).has_service(spec_service_id(self.spec_name())) ==> final(host).services() == old(host).services() && final(host).file_system() == old(host).file_system(),
            old(host).has_service(spec_service_id(self.spec_name())) && old(host).holders(spec_service_id(self.spec_name())) > 1
                ==> final(host).has_service(spec_service_id(self.spec_name())) && final(host).holders(
                spec_service_id(self.spec_name()),
            ) == old(host).holders(spec_service_id(self.spec_name())) - 1 && final(host).dynamic(
                spec_service_id(self.spec_name()),
            ).spec_messaging_pattern() == old(host).dynamic(
                spec_service_id(self.spec_name()),
            ).spec_messaging_pattern() && final(host).settings(spec_service_id(self.spec_name())) == old(host).settings(spec_service_id(self.spec_name())) && final(host).same_services_except(
                old(host),
                spec_service_id(self.spec_name()),
            ) && final(host).file_system() == old(host).file_system(),
            taken_down ==> final(host).services() == old(host).services().remove(
                spec_service_id(self.spec_name()),
            ) && final(host).file_system().files() == old(host).file_system().files().remove(
                old(host).static_path(spec_service_id(self.spec_name())),
            ),
    {
        host.release_service(&service_id(self.service.name()))
    }
}

} // verus!
