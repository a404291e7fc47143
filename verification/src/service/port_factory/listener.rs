//! Creates the listeners of an event service.

use crate::host::Host;
use crate::port::listener::{create_result, Listener, ListenerCreateError};
use crate::service::port_factory::event::PortFactory;
use crate::service::service_name::{service_id, spec_service_id};
use vstd::prelude::*;

verus! {

/// Factory to create a new [`Listener`] port of an event service.
#[derive(Debug)]
pub struct PortFactoryListener<'factory> {
    pub(crate) factory: &'factory PortFactory,
}

impl<'factory> PortFactoryListener<'factory> {
    /// The name of the service of the listener.
    pub closed spec fn spec_service_name(&self) -> Seq<u8> {
        self.factory.spec_name()
    }

    pub(crate) fn new(factory: &'factory PortFactory) -> (port_factory: Self)
        ensures
            port_factory.spec_service_name() == factory.spec_name(),
    {
        Self { factory }
    }

    /// Creates a new [`Listener`] port.
    pub fn create(&self, host: &mut Host) -> (result: Result<Listener, ListenerCreateError>)
        requires
            old(host).wf(),
        ensures
            final(host).wf(),
            final(host).ids().spec_counter() == old(host).ids().spec_counter().wrapping_add(1),
            result.is_ok() == create_result(old(host), spec_service_id(self.spec_service_name())).is_ok(),
            result.is_err() ==> Err::<(), _>(result.unwrap_err()) == create_result(
                old(host),
                spec_service_id(self.spec_service_name()),
            ) && final(host).services() == old(host).services() && final(host).events() == old(host).events() && final(host).file_system() == old(host).file_system() && final(host).segments() == old(host).segments() && final(host).connections() == old(host).connections(),
            result.is_ok() ==> result.unwrap().spec_service_id() == spec_service_id(self.spec_service_name())
                && Listener::has_created(old(host), final(host), &result.unwrap()),
    {
        Listener::new(host, &service_id(self.factory.name()))
    }
}

} // verus!
