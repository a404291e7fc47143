//! Services: named endpoints that bind one messaging pattern with fixed
//! settings and that processes find, join and leave at runtime.

pub mod builder;
pub mod dynamic_config;
pub mod port_factory;
pub mod service_name;
pub mod static_config;

use crate::service::service_name::ServiceName;
use crate::service::static_config::StaticConfig;
use vstd::prelude::*;

verus! {

/// What the holder of a service knows about it: its name and its fixed
/// settings.
#[derive(Debug)]
pub struct ServiceState {
    pub name: ServiceName,
    pub static_config: StaticConfig,
}

/// A service as one of its holders sees it. Whoever has created or opened
/// a service is a holder of it until the service is closed.
#[derive(Debug)]
pub struct Service {
    state: ServiceState,
}

impl Service {
    /// The name of the service.
    pub closed spec fn spec_name(&self) -> Seq<u8> {
        self.state.name@
    }

    /// The fixed settings of the service.
    pub closed spec fn spec_static_config(&self) -> StaticConfig {
        self.state.static_config
    }

    /// The name of every service is a valid one.
    pub closed spec fn wf(&self) -> bool {
        self.state.name.wf()
    }

    /// Starts to create or open the service with the given name.
    pub fn new(name: &ServiceName) -> (builder: builder::Builder)
        ensures
            builder.spec_name() == name@,
    {
        builder::Builder::new(name)
    }

    /// Creates the holder's view of a service from what the holder knows.
    pub(crate) fn from_state(state: ServiceState) -> (service: Service)
        ensures
            service.spec_name() == state.name@,
            service.spec_static_config() == state.static_config,
    {
        Self { state }
    }

    /// Returns what the holder knows about the service.
    pub fn state(&self) -> (state: &ServiceState)
        ensures
            state.name@ == self.spec_name(),
            state.static_config == self.spec_static_config(),
    {
        &self.state
    }

    /// Returns the name of the service.
    pub fn name(&self) -> (name: &ServiceName)
        ensures
            name@ == self.spec_name(),
    {
        &self.state.name
    }
}

} // verus!
