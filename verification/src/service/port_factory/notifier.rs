//! Creates the notifiers of an event service.

use crate::host::Host;
use crate::port::event_id::EventId;
use crate::port::notifier::{create_result, Notifier, NotifierCreateError};
use crate::service::port_factory::event::PortFactory;
use crate::service::service_name::{service_id, spec_service_id};
use vstd::prelude::*;

verus! {

/// Factory to create a new [`Notifier`] port of an event service.
#[derive(Debug)]
pub struct PortFactoryNotifier<'factory> {
    pub(crate) factory: &'factory PortFactory,
    default_event_id: EventId,
}

impl<'factory> PortFactoryNotifier<'factory> {
    /// The name of the service of the notifier.
    pub closed spec fn spec_service_name(&self) -> Seq<u8> {
        self.factory.spec_name()
    }

    /// The id that the notifier sends unless another one is given.
    pub closed spec fn spec_default_event_id(&self) -> EventId {
        self.default_event_id
    }

    pub(crate) fn new(factory: &'factory PortFactory) -> (port_factory: Self)
        ensures
            port_factory.spec_service_name() == factory.spec_name(),
            port_factory.spec_default_event_id() == EventId::spec_new(0),
    {
        Self { factory, default_event_id: EventId::default() }
    }

    /// Sets the id that the notifier sends with [`Notifier::notify()`].
    pub fn default_event_id(self, value: EventId) -> (port_factory: Self)
        ensures
            port_factory.spec_service_name() == self.spec_service_name(),
            port_factory.spec_default_event_id() == value,
    {
        let mut port_factory = self;
        port_factory.default_event_id = value;
        port_factory
    }

    /// Creates a new [`Notifier`] port.
    pub fn create(&self, host: &mut Host) -> (result: Result<Notifier, NotifierCreateError>)
        requires
            old(host).wf(),
        ensures
            final(host).wf(),
            final(host).ids().spec_counter() == old(host).ids().spec_counter().wrapping_add(1),
            result.is_ok() == create_result(old(host), spec_service_id(self.spec_service_name())).is_ok(),
            result.is_err() ==> Err::<(), _>(result.unwrap_err()) == create_result(
                old(host),
                spec_service_id(self.spec_service_name()),
            ) && final(host).services() == old(host).services() && final(host).events() == old(host).events() && final(host).file_system() == old(host).file_system() && final(host).segments() == old(host).segments() && final(host).connections() == old(host).connections(),
            result.is_ok() ==> result.unwrap().spec_service_id() == spec_service_id(self.spec_service_name())
                && result.unwrap().spec_default_trigger_id() == self.spec_default_event_id()
                && Notifier::has_created(old(host), final(host), &result.unwrap()),
    {
        Notifier::new(host, &service_id(self.factory.name()), self.default_event_id)
    }
}

} // verus!
