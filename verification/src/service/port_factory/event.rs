//! The holder's view of an event service.

use crate::host::Host;
use crate::port::event_id::EventId;
use crate::service::port_factory::listener::PortFactoryListener;
use crate::service::port_factory::notifier::PortFactoryNotifier;
use crate::service::service_name::{service_id, spec_service_id, ServiceName};
use crate::service::static_config;
use crate::service::static_config::event::StaticConfig;
use crate::service::Service;
use vstd::prelude::*;

verus! {

/// The holder's view of an event service. It tells the settings of the
/// service and creates the ports of the service.
#[derive(Debug)]
pub struct PortFactory {
    pub(crate) service: Service,
}

impl PortFactory {
    /// The name of the service.
    pub closed spec fn spec_name(&self) -> Seq<u8> {
        self.service.spec_name()
    }

    /// The settings of the service.
    pub closed spec fn spec_static_config(&self) -> StaticConfig {
        self.service.spec_static_config().messaging_pattern->Event_0
    }

    /// The service of every factory is an event service.
    pub closed spec fn wf(&self) -> bool {
        self.service.spec_static_config().messaging_pattern is Event
    }

    pub(crate) fn new(service: Service) -> (factory: Self)
        requires
            service.spec_static_config().messaging_pattern is Event,
        ensures
            factory.wf(),
            factory.spec_name() == service.spec_name(),
            factory.spec_static_config() == service.spec_static_config().messaging_pattern->Event_0,
    {
        Self { service }
    }

    /// Returns the name of the service.
    pub fn name(&self) -> (name: &ServiceName)
        ensures
            name@ == self.spec_name(),
    {
        self.service.name()
    }

    /// Returns the settings of the service.
    pub fn static_config(&self) -> (config: StaticConfig)
        requires
            self.wf(),
        ensures
            config == self.spec_static_config(),
    {
        match &self.service.state().static_config.messaging_pattern {
            static_config::MessagingPattern::Event(config) => *config,
            static_config::MessagingPattern::PublishSubscribe(_) => vstd::pervasive::unreached(),
        }
    }

    /// Returns the largest number of notifiers that the service supports.
    pub fn max_supported_notifiers(&self) -> (value: usize)
        requires
            self.wf(),
        ensures
            value == self.spec_static_config().max_notifiers,
    {
        self.static_config().max_notifiers
    }

    /// Returns the largest number of listeners that the service supports.
    pub fn max_supported_listeners(&self) -> (value: usize)
        requires
            self.wf(),
        ensures
            value == self.spec_static_config().max_listeners,
    {
        self.static_config().max_listeners
    }

    /// Returns a factory of the notifiers of the service.
    pub fn notifier(&self) -> (port_factory: PortFactoryNotifier<'_>)
        ensures
            port_factory.spec_service_name() == self.spec_name(),
            port_factory.spec_default_event_id() == EventId::spec_new(0),
    {
        PortFactoryNotifier::new(self)
    }

    /// Returns a factory of the listeners of the service.
    pub fn listener(&self) -> (port_factory: PortFactoryListener<'_>)
        ensures
            port_factory.spec_service_name() == self.spec_name(),
    {
        PortFactoryListener::new(self)
    }

    /// Closes the holder's view of the service. When no holder is left the
    /// service is taken down. Returns true if the service was taken down.
    pub fn close(self, host: &mut Host) -> (taken_down: bool)
        requires
            old(host).wf(),
        ensures
            final(host).wf(),
            final(host).same_transport(old(host)),
            final(host).same_layout(old(host)),
            taken_down == (old(host).has_service(spec_service_id(self.spec_name())) && old(host).holders(
                spec_service_id(self.spec_name()),
            ) == 1),
            !old(host).has_service(spec_service_id(self.spec_name())) ==> final(host).services() == old(host).services() && final(host).file_system() == old(host).file_system(),
            old(host).has_service(spec_service_id(self.spec_name())) && old(host).holders(spec_service_id(self.spec_name())) > 1
                ==> final(host).has_service(spec_service_id(self.spec_name())) && final(host).holders(
                spec_service_id(self.spec_name()),
            ) == old(host).holders(spec_service_id(self.spec_name())) - 1 && final(host).dynamic(
                spec_service_id(self.spec_name()),
            ).spec_messaging_pattern() == old(host).dynamic(
                spec_service_id(self.spec_name()),
            ).spec_messaging_pattern() && final(host).settings(spec_service_id(self.spec_name())) == old(host).settings(spec_service_id(self.spec_name())) && final(host).same_services_except(
                old(host),
                spec_service_id(self.spec_name()),
            ) && final(host).file_system() == old(host).file_system(),
            taken_down ==> final(host).services() == old(host).services().remove(
                spec_service_id(self.spec_name()),
            ) && final(host).file_system().files() == old(host).file_system().files().remove(
                old(host).static_path(spec_service_id(self.spec_name())),
            ),
    {
        host.release_service(&service_id(self.service.name()))
    }
}

} // verus!
