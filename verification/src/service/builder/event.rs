//! Creates or opens an event service.

use crate::global_config::Config;
use crate::host::{is_fresh, Host, ServiceCreateError, ServiceOpenError};
use crate::service::dynamic_config::spec_can_increment;
use crate::service::port_factory::event::PortFactory;
use crate::service::service_name::{service_id, spec_service_id, ServiceName};
use crate::service::static_config;
use crate::service::static_config::event::StaticConfig;
use crate::service::{Service, ServiceState};
use vstd::prelude::*;

verus! {

/// Failures when an event service is opened.
#[derive(Debug, Clone, Copy, Eq, Hash, PartialEq)]
pub enum EventOpenError {
    DoesNotExist,
    IsLocked,
    EventInCorruptedState,
    IncompatibleMessagingPattern,
    DoesNotSupportRequestedAmountOfNotifiers,
    DoesNotSupportRequestedAmountOfListeners,
    UnderlyingResourcesCorrupted,
}

/// Failures when an event service is created.
#[derive(Debug, Clone, Copy, Eq, Hash, PartialEq)]
pub enum EventCreateError {
    AlreadyExists,
    PermissionDenied,
    InternalFailure,
    UnableToCreateStaticServiceInformation,
}

/// Failures when an event service is opened or created.
#[derive(Debug, Clone, Copy, Eq, Hash, PartialEq)]
pub enum EventOpenOrCreateError {
    EventOpenError(EventOpenError),
    EventCreateError(EventCreateError),
}

/// Creates or opens an event service.
#[derive(Debug)]
pub struct Builder {
    name: ServiceName,
    static_config: StaticConfig,
    verify_max_notifiers: bool,
    verify_max_listeners: bool,
}

impl Builder {
    /// The name of the service.
    pub closed spec fn spec_name(&self) -> Seq<u8> {
        self.name@
    }

    /// The number of notifiers that is asked for.
    pub closed spec fn spec_max_notifiers(&self) -> usize {
        self.static_config.max_notifiers
    }

    /// The number of listeners that is asked for.
    pub closed spec fn spec_max_listeners(&self) -> usize {
        self.static_config.max_listeners
    }

    /// The largest event id that is asked for.
    pub closed spec fn spec_event_id_max_value(&self) -> usize {
        self.static_config.event_id_max_value
    }

    /// True if a service that is opened must support the number of
    /// notifiers that is asked for.
    pub closed spec fn spec_verify_max_notifiers(&self) -> bool {
        self.verify_max_notifiers
    }

    /// True if a service that is opened must support the number of
    /// listeners that is asked for.
    pub closed spec fn spec_verify_max_listeners(&self) -> bool {
        self.verify_max_listeners
    }

    /// The settings of the service that is created.
    pub open spec fn spec_settings(&self) -> static_config::StaticConfig {
        static_config::StaticConfig {
            messaging_pattern: static_config::MessagingPattern::Event(
                StaticConfig {
                    max_notifiers: self.spec_max_notifiers(),
                    max_listeners: self.spec_max_listeners(),
                    event_id_max_value: self.spec_event_id_max_value(),
                },
            ),
        }
    }

    pub(crate) fn new(name: ServiceName, config: &Config) -> (builder: Self)
        ensures
            builder.spec_name() == name@,
            builder.spec_max_notifiers() == config.spec_defaults().event.max_notifiers,
            builder.spec_max_listeners() == config.spec_defaults().event.max_listeners,
            builder.spec_event_id_max_value() == config.spec_defaults().event.event_id_max_value,
            !builder.spec_verify_max_notifiers(),
            !builder.spec_verify_max_listeners(),
    {
        let defaults = config.defaults();
        Self {
            name,
            static_config: StaticConfig {
                max_notifiers: defaults.event.max_notifiers,
                max_listeners: defaults.event.max_listeners,
                event_id_max_value: defaults.event.event_id_max_value,
            },
            verify_max_notifiers: false,
            verify_max_listeners: false,
        }
    }

    /// Sets the number of notifiers that the service supports. A service
    /// that is opened must support at least as many.
    pub fn max_notifiers(self, value: usize) -> (builder: Self)
        ensures
            builder.spec_name() == self.spec_name(),
            builder.spec_max_notifiers() == value,
            builder.spec_max_listeners() == self.spec_max_listeners(),
            builder.spec_event_id_max_value() == self.spec_event_id_max_value(),
            builder.spec_verify_max_notifiers(),
            builder.spec_verify_max_listeners() == self.spec_verify_max_listeners(),
    {
        let mut builder = self;
        builder.static_config.max_notifiers = value;
        builder.verify_max_notifiers = true;
        builder
    }

    /// Sets the number of listeners that the service supports. A service
    /// that is opened must support at least as many.
    pub fn max_listeners(self, value: usize) -> (builder: Self)
        ensures
            builder.spec_name() == self.spec_name(),
            builder.spec_max_listeners() == value,
            builder.spec_max_notifiers() == self.spec_max_notifiers(),
            builder.spec_event_id_max_value() == self.spec_event_id_max_value(),
            builder.spec_verify_max_listeners(),
            builder.spec_verify_max_notifiers() == self.spec_verify_max_notifiers(),
    {
        let mut builder = self;
        builder.static_config.max_listeners = value;
        builder.verify_max_listeners = true;
        builder
    }

    /// What the creation of the service comes to.
    pub open spec fn create_result(&self, host: &Host) -> Result<(), EventCreateError> {
        match host.create_service_result(spec_service_id(self.spec_name()), &self.spec_settings()) {
            Ok(()) => Ok(()),
            Err(ServiceCreateError::AlreadyExists) => Err(EventCreateError::AlreadyExists),
            Err(ServiceCreateError::PermissionDenied) => Err(EventCreateError::PermissionDenied),
            Err(ServiceCreateError::ExceedsSupportedCapacity) => Err(
                EventCreateError::InternalFailure,
            ),
            Err(ServiceCreateError::UnableToCreateStaticServiceInformation) => Err(
                EventCreateError::UnableToCreateStaticServiceInformation,
            ),
        }
    }

    /// What the opening of the service comes to.
    pub open spec fn open_result(&self, host: &Host) -> Result<(), EventOpenError> {
        match host.read_settings_result(spec_service_id(self.spec_name())) {
            Err(ServiceOpenError::IsLocked) => Err(EventOpenError::IsLocked),
            Err(_) => Err(EventOpenError::DoesNotExist),
            Ok(()) => match host.settings(spec_service_id(self.spec_name())).messaging_pattern {
                static_config::MessagingPattern::PublishSubscribe(_) => Err(
                    EventOpenError::IncompatibleMessagingPattern,
                ),
                static_config::MessagingPattern::Event(existing) => {
                    if self.spec_verify_max_notifiers() && existing.max_notifiers
                        < self.spec_max_notifiers() {
                        Err(EventOpenError::DoesNotSupportRequestedAmountOfNotifiers)
                    } else if self.spec_verify_max_listeners() && existing.max_listeners
                        < self.spec_max_listeners() {
                        Err(EventOpenError::DoesNotSupportRequestedAmountOfListeners)
                    } else if !spec_can_increment(host.holders(spec_service_id(self.spec_name()))) {
                        Err(EventOpenError::UnderlyingResourcesCorrupted)
                    } else {
                        Ok(())
                    }
                },
            },
        }
    }

    /// What opening the service, or creating it when it does not exist,
    /// comes to.
    pub open spec fn open_or_create_result(&self, host: &Host) -> Result<
        (),
        EventOpenOrCreateError,
    > {
        match self.open_result(host) {
            Ok(()) => Ok(()),
            Err(EventOpenError::DoesNotExist) => match self.create_result(host) {
                Ok(()) => Ok(()),
                Err(error) => Err(EventOpenOrCreateError::EventCreateError(error)),
            },
            Err(error) => Err(EventOpenOrCreateError::EventOpenError(error)),
        }
    }

    /// Whoever opens or creates a service that exists opens it: of all who
    /// open or create a service, only the first one creates it.
    pub proof fn lemma_existing_service_is_opened(&self, host: &Host)
        requires
            host.wf(),
            host.has_service(spec_service_id(self.spec_name())),
        ensures
            self.open_result(host) != Err::<(), _>(EventOpenError::DoesNotExist),
            self.open_or_create_result(host).is_ok() ==> self.open_result(host).is_ok(),
            self.create_result(host).is_err(),
    {
        host.lemma_existing_service_is_found(spec_service_id(self.spec_name()), &self.spec_settings());
    }

    /// True if `after` is the host after this builder has created its
    /// service on `before` and `factory` is the holder's view of the
    /// service.
    pub open spec fn has_created(&self, before: &Host, after: &Host, factory: &PortFactory) -> bool {
        &&& factory.wf()
        &&& factory.spec_name() == self.spec_name()
        &&& factory.spec_static_config() == self.spec_settings().messaging_pattern->Event_0
        &&& after.has_service(spec_service_id(self.spec_name()))
        &&& is_fresh(&self.spec_settings(), &after.dynamic(spec_service_id(self.spec_name())))
        &&& after.settings(spec_service_id(self.spec_name())) == self.spec_settings()
        &&& after.same_services_except(before, spec_service_id(self.spec_name()))
        &&& after.same_transport(before)
        &&& after.same_layout(before)
        &&& after.file_system().content_of(after.static_path(spec_service_id(self.spec_name())))
            == self.spec_settings().spec_serialize()
        &&& after.file_system().same_files_except(
            &before.file_system(),
            after.static_path(spec_service_id(self.spec_name())),
        )
    }

    /// True if `after` is the host after this builder has opened its
    /// service on `before` and `factory` is the holder's view of the
    /// service.
    pub open spec fn has_opened(&self, before: &Host, after: &Host, factory: &PortFactory) -> bool {
        &&& factory.wf()
        &&& factory.spec_name() == self.spec_name()
        &&& before.has_service(spec_service_id(self.spec_name()))
        &&& before.settings(spec_service_id(self.spec_name())).messaging_pattern is Event
        &&& factory.spec_static_config() == before.settings(
            spec_service_id(self.spec_name()),
        ).messaging_pattern->Event_0
        &&& after.has_service(spec_service_id(self.spec_name()))
        &&& after.holders(spec_service_id(self.spec_name())) == before.holders(spec_service_id(self.spec_name())) + 1
        &&& after.dynamic(spec_service_id(self.spec_name())).spec_messaging_pattern() == before.dynamic(
            spec_service_id(self.spec_name()),
        ).spec_messaging_pattern()
        &&& after.settings(spec_service_id(self.spec_name())) == before.settings(spec_service_id(self.spec_name()))
        &&& after.same_services_except(before, spec_service_id(self.spec_name()))
        &&& after.same_transport(before)
        &&& after.same_layout(before)
        &&& after.file_system() == before.file_system()
    }

    fn create_impl(&self, host: &mut Host) -> (result: Result<PortFactory, EventCreateError>)
        requires
            old(host).wf(),
        ensures
            final(host).wf(),
            final(host).same_transport(old(host)),
            final(host).same_layout(old(host)),
            result.is_ok() == self.create_result(old(host)).is_ok(),
            result.is_err() ==> Err::<(), _>(result.unwrap_err()) == self.create_result(old(host))
                && final(host).services() == old(host).services() && final(host).file_system().files() == old(host).file_system().files(),
            result.is_ok() ==> self.has_created(old(host), final(host), &result.unwrap()),
    {
        let settings = static_config::StaticConfig {
            messaging_pattern: static_config::MessagingPattern::Event(self.static_config),
        };
        match host.create_service(&service_id(&self.name), &settings) {
            Ok(()) => Ok(
                PortFactory::new(
                    Service::from_state(
                        ServiceState { name: self.name.clone(), static_config: settings },
                    ),
                ),
            ),
            Err(ServiceCreateError::AlreadyExists) => Err(EventCreateError::AlreadyExists),
            Err(ServiceCreateError::PermissionDenied) => Err(EventCreateError::PermissionDenied),
            Err(ServiceCreateError::ExceedsSupportedCapacity) => Err(
                EventCreateError::InternalFailure,
            ),
            Err(ServiceCreateError::UnableToCreateStaticServiceInformation) => Err(
                EventCreateError::UnableToCreateStaticServiceInformation,
            ),
        }
    }

    fn open_impl(&self, host: &mut Host) -> (result: Result<PortFactory, EventOpenError>)
        requires
            old(host).wf(),
        ensures
            final(host).wf(),
            result.is_ok() == self.open_result(old(host)).is_ok(),
            result.is_err() ==> Err::<(), _>(result.unwrap_err()) == self.open_result(old(host))
                && final(host).same_as(old(host)),
            result.is_ok() ==> self.has_opened(old(host), final(host), &result.unwrap()),
    {
        let settings = match host.read_settings(&service_id(&self.name)) {
            Ok(settings) => settings,
            Err(ServiceOpenError::IsLocked) => {
                return Err(EventOpenError::IsLocked);
            },
            Err(ServiceOpenError::DoesNotExist) => {
                return Err(EventOpenError::DoesNotExist);
            },
            Err(_) => {
                return Err(EventOpenError::EventInCorruptedState);
            },
        };
        let existing = match &settings.messaging_pattern {
            static_config::MessagingPattern::Event(existing) => *existing,
            static_config::MessagingPattern::PublishSubscribe(_) => {
                return Err(EventOpenError::IncompatibleMessagingPattern);
            },
        };
        if self.verify_max_notifiers && existing.max_notifiers < self.static_config.max_notifiers {
            return Err(EventOpenError::DoesNotSupportRequestedAmountOfNotifiers);
        }
        if self.verify_max_listeners && existing.max_listeners < self.static_config.max_listeners {
            return Err(EventOpenError::DoesNotSupportRequestedAmountOfListeners);
        }
        match host.acquire_service(&service_id(&self.name)) {
            Ok(()) => {},
            Err(_) => {
                return Err(EventOpenError::UnderlyingResourcesCorrupted);
            },
        }
        Ok(
            PortFactory::new(
                Service::from_state(
                    ServiceState { name: self.name.clone(), static_config: settings },
                ),
            ),
        )
    }

    /// Creates the service, which must not exist. The creator is the first
    /// holder of the service.
    pub fn create(self, host: &mut Host) -> (result: Result<PortFactory, EventCreateError>)
        requires
            old(host).wf(),
        ensures
            final(host).wf(),
            final(host).same_transport(old(host)),
            final(host).same_layout(old(host)),
            result.is_ok() == self.create_result(old(host)).is_ok(),
            result.is_err() ==> Err::<(), _>(result.unwrap_err()) == self.create_result(old(host))
                && final(host).services() == old(host).services() && final(host).file_system().files() == old(host).file_system().files(),
            result.is_ok() ==> self.has_created(old(host), final(host), &result.unwrap()),
    {
        self.create_impl(host)
    }

    /// Opens the service, which must exist, must be an event service and
    /// must support what was asked for. Whoever opens the service becomes
    /// a holder of it.
    pub fn open(self, host: &mut Host) -> (result: Result<PortFactory, EventOpenError>)
        requires
            old(host).wf(),
        ensures
            final(host).wf(),
            result.is_ok() == self.open_result(old(host)).is_ok(),
            result.is_err() ==> Err::<(), _>(result.unwrap_err()) == self.open_result(old(host))
                && final(host).same_as(old(host)),
            result.is_ok() ==> self.has_opened(old(host), final(host), &result.unwrap()),
    {
        self.open_impl(host)
    }

    /// Opens the service, or creates it when it does not exist.
    pub fn open_or_create(self, host: &mut Host) -> (result: Result<
        PortFactory,
        EventOpenOrCreateError,
    >)
        requires
            old(host).wf(),
        ensures
            final(host).wf(),
            result.is_ok() == self.open_or_create_result(old(host)).is_ok(),
            result.is_err() ==> Err::<(), _>(result.unwrap_err()) == self.open_or_create_result(
                old(host),
            ) && final(host).services() == old(host).services() && final(host).file_system().files() == old(host).file_system().files(),
            result.is_ok() && self.open_result(old(host)).is_ok() ==> self.has_opened(
                old(host),
                final(host),
                &result.unwrap(),
            ),
            result.is_ok() && self.open_result(old(host)).is_err() ==> self.has_created(
                old(host),
                final(host),
                &result.unwrap(),
            ),
    {
        match self.open_impl(host) {
            Ok(factory) => Ok(factory),
            Err(EventOpenError::DoesNotExist) => match self.create_impl(host) {
                Ok(factory) => Ok(factory),
                Err(error) => Err(EventOpenOrCreateError::EventCreateError(error)),
            },
            Err(error) => Err(EventOpenOrCreateError::EventOpenError(error)),
        }
    }
}

} // verus!
