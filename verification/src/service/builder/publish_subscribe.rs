//! Creates or opens a publish subscribe service.

use crate::cal::registry::{copy_name, same_name};
use crate::global_config::{Config, PublishSubscribe};
use crate::host::{is_fresh, Host, ServiceCreateError, ServiceOpenError};
use crate::service::dynamic_config::spec_can_increment;
use crate::service::port_factory::publish_subscribe::PortFactory;
use crate::service::service_name::{service_id, spec_service_id, ServiceName};
use crate::service::static_config;
use crate::service::static_config::publish_subscribe::StaticConfig;
use crate::service::{Service, ServiceState};
use vstd::prelude::*;

verus! {

/// Failures when a publish subscribe service is opened.
#[derive(Debug, Clone, Copy, Eq, Hash, PartialEq)]
pub enum PublishSubscribeOpenError {
    DoesNotExist,
    IsLocked,
    ServiceInCorruptedState,
    IncompatibleMessagingPattern,
    IncompatibleTypes,
    IncompatibleOverflowBehavior,
    DoesNotSupportRequestedMinBufferSize,
    DoesNotSupportRequestedMinHistorySize,
    DoesNotSupportRequestedMinSubscriberBorrowedSamples,
    DoesNotSupportRequestedAmountOfPublishers,
    DoesNotSupportRequestedAmountOfSubscribers,
    UnderlyingResourcesCorrupted,
}

/// Failures when a publish subscribe service is created.
#[derive(Debug, Clone, Copy, Eq, Hash, PartialEq)]
pub enum PublishSubscribeCreateError {
    AlreadyExists,
    PermissionDenied,
    InternalFailure,
    UnableToCreateStaticServiceInformation,
}

/// Failures when a publish subscribe service is opened or created.
#[derive(Debug, Clone, Copy, Eq, Hash, PartialEq)]
pub enum PublishSubscribeOpenOrCreateError {
    PublishSubscribeOpenError(PublishSubscribeOpenError),
    PublishSubscribeCreateError(PublishSubscribeCreateError),
}

/// The name, the size and the alignment of the type of the payload of a
/// service.
#[derive(Debug)]
pub struct PayloadType {
    pub name: Vec<u8>,
    pub size: usize,
    pub alignment: usize,
}

/// What the opener of a service asks of the service.
#[derive(Debug, Clone, Copy, PartialEq, Eq, Structural)]
pub struct Requirements {
    pub verify_number_of_subscribers: bool,
    pub verify_number_of_publishers: bool,
    pub verify_subscriber_max_buffer_size: bool,
    pub verify_subscriber_max_borrowed_samples: bool,
    pub verify_publisher_history_size: bool,
    pub verify_enable_safe_overflow: bool,
}

/// Creates or opens a publish subscribe service.
#[derive(Debug)]
pub struct Builder {
    name: ServiceName,
    static_config: StaticConfig,
    requirements: Requirements,
}

/// What the opening of a service with the `existing` settings comes to
/// for someone who asks for the `requested` settings as far as the
/// requirements say.
pub open spec fn verify_result(
    existing: &StaticConfig,
    requested: &StaticConfig,
    requirements: Requirements,
) -> Result<(), PublishSubscribeOpenError> {
    if existing.payload_type@ != requested.payload_type@ || existing.type_size
        != requested.type_size || existing.type_alignment != requested.type_alignment {
        Err(PublishSubscribeOpenError::IncompatibleTypes)
    } else if requirements.verify_number_of_publishers && existing.max_publishers
        < requested.max_publishers {
        Err(PublishSubscribeOpenError::DoesNotSupportRequestedAmountOfPublishers)
    } else if requirements.verify_number_of_subscribers && existing.max_subscribers
        < requested.max_subscribers {
        Err(PublishSubscribeOpenError::DoesNotSupportRequestedAmountOfSubscribers)
    } else if requirements.verify_publisher_history_size && existing.history_size
        < requested.history_size {
        Err(PublishSubscribeOpenError::DoesNotSupportRequestedMinHistorySize)
    } else if requirements.verify_subscriber_max_buffer_size && existing.subscriber_max_buffer_size
        < requested.subscriber_max_buffer_size {
        Err(PublishSubscribeOpenError::DoesNotSupportRequestedMinBufferSize)
    } else if requirements.verify_subscriber_max_borrowed_samples
        && existing.subscriber_max_borrowed_samples < requested.subscriber_max_borrowed_samples {
        Err(PublishSubscribeOpenError::DoesNotSupportRequestedMinSubscriberBorrowedSamples)
    } else if requirements.verify_enable_safe_overflow && existing.enable_safe_overflow
        != requested.enable_safe_overflow {
        Err(PublishSubscribeOpenError::IncompatibleOverflowBehavior)
    } else {
        Ok(())
    }
}

/// Compares what exists with what is asked for.
pub fn verify_service_properties(
    existing: &StaticConfig,
    requested: &StaticConfig,
    requirements: Requirements,
) -> (result: Result<(), PublishSubscribeOpenError>)
    ensures
        result == verify_result(existing, requested, requirements),
{
    if !same_name(&existing.payload_type, &requested.payload_type) || existing.type_size
        != requested.type_size || existing.type_alignment != requested.type_alignment {
        return Err(PublishSubscribeOpenError::IncompatibleTypes);
    }
    if requirements.verify_number_of_publishers && existing.max_publishers
        < requested.max_publishers {
        return Err(PublishSubscribeOpenError::DoesNotSupportRequestedAmountOfPublishers);
    }
    if requirements.verify_number_of_subscribers && existing.max_subscribers
        < requested.max_subscribers {
        return Err(PublishSubscribeOpenError::DoesNotSupportRequestedAmountOfSubscribers);
    }
    if requirements.verify_publisher_history_size && existing.history_size
        < requested.history_size {
        return Err(PublishSubscribeOpenError::DoesNotSupportRequestedMinHistorySize);
    }
    if requirements.verify_subscriber_max_buffer_size && existing.subscriber_max_buffer_size
        < requested.subscriber_max_buffer_size {
        return Err(PublishSubscribeOpenError::DoesNotSupportRequestedMinBufferSize);
    }
    if requirements.verify_subscriber_max_borrowed_samples
        && existing.subscriber_max_borrowed_samples < requested.subscriber_max_borrowed_samples {
        return Err(PublishSubscribeOpenError::DoesNotSupportRequestedMinSubscriberBorrowedSamples);
    }
    if requirements.verify_enable_safe_overflow && existing.enable_safe_overflow
        != requested.enable_safe_overflow {
        return Err(PublishSubscribeOpenError::IncompatibleOverflowBehavior);
    }
    Ok(())
}

impl Builder {
    /// The name of the service.
    pub closed spec fn spec_name(&self) -> Seq<u8> {
        self.name@
    }

    /// What is asked of a service that is opened.
    pub closed spec fn spec_requirements(&self) -> Requirements {
        self.requirements
    }

    /// The settings that are asked for.
    pub closed spec fn spec_static_config(&self) -> StaticConfig {
        self.static_config
    }

    /// The settings of the service that is created.
    pub open spec fn spec_settings(&self) -> static_config::StaticConfig {
        static_config::StaticConfig {
            messaging_pattern: static_config::MessagingPattern::PublishSubscribe(
                self.spec_static_config(),
            ),
        }
    }

    /// True if the builder asks for the given settings for payloads of the
    /// given type and requires nothing of a service that is opened.
    pub open spec fn has_defaults(&self, defaults: &PublishSubscribe, payload_type: &PayloadType) -> bool {
        let config = self.spec_static_config();
        &&& config.max_subscribers == defaults.max_subscribers
        &&& config.max_publishers == defaults.max_publishers
        &&& config.history_size == defaults.publisher_history_size
        &&& config.subscriber_max_buffer_size == defaults.subscriber_max_buffer_size
        &&& config.subscriber_max_borrowed_samples == defaults.subscriber_max_borrowed_samples
        &&& config.enable_safe_overflow == defaults.enable_safe_overflow
        &&& config.type_size == payload_type.size
        &&& config.type_alignment == payload_type.alignment
        &&& config.payload_type@ == payload_type.name@
        &&& self.spec_requirements() == (Requirements {
            verify_number_of_subscribers: false,
            verify_number_of_publishers: false,
            verify_subscriber_max_buffer_size: false,
            verify_subscriber_max_borrowed_samples: false,
            verify_publisher_history_size: false,
            verify_enable_safe_overflow: false,
        })
    }

    pub(crate) fn new(name: ServiceName, config: &Config, payload_type: &PayloadType) -> (builder:
        Self)
        ensures
            builder.spec_name() == name@,
            builder.has_defaults(&config.spec_defaults().publish_subscribe, payload_type),
    {
        let defaults = config.defaults().publish_subscribe;
        Self {
            name,
            static_config: StaticConfig {
                max_subscribers: defaults.max_subscribers,
                max_publishers: defaults.max_publishers,
                history_size: defaults.publisher_history_size,
                subscriber_max_buffer_size: defaults.subscriber_max_buffer_size,
                subscriber_max_borrowed_samples: defaults.subscriber_max_borrowed_samples,
                enable_safe_overflow: defaults.enable_safe_overflow,
                type_size: payload_type.size,
                type_alignment: payload_type.alignment,
                payload_type: copy_name(&payload_type.name),
            },
            requirements: Requirements {
                verify_number_of_subscribers: false,
                verify_number_of_publishers: false,
                verify_subscriber_max_buffer_size: false,
                verify_subscriber_max_borrowed_samples: false,
                verify_publisher_history_size: false,
                verify_enable_safe_overflow: false,
            },
        }
    }

    /// Sets the number of publishers that the service supports. A service
    /// that is opened must support at least as many.
    pub fn max_publishers(self, value: usize) -> (builder: Self)
        ensures
            builder.spec_name() == self.spec_name(),
            builder.spec_static_config() == (StaticConfig {
                max_publishers: value,
                ..self.spec_static_config()
            }),
            builder.spec_requirements() == (Requirements {
                verify_number_of_publishers: true,
                ..self.spec_requirements()
            }),
    {
        let mut builder = self;
        builder.static_config.max_publishers = value;
        builder.requirements.verify_number_of_publishers = true;
        builder
    }

    /// Sets the number of subscribers that the service supports. A service
    /// that is opened must support at least as many.
    pub fn max_subscribers(self, value: usize) -> (builder: Self)
        ensures
            builder.spec_name() == self.spec_name(),
            builder.spec_static_config() == (StaticConfig {
                max_subscribers: value,
                ..self.spec_static_config()
            }),
            builder.spec_requirements() == (Requirements {
                verify_number_of_subscribers: true,
                ..self.spec_requirements()
            }),
    {
        let mut builder = self;
        builder.static_config.max_subscribers = value;
        builder.requirements.verify_number_of_subscribers = true;
        builder
    }

    /// Sets the number of samples that a publisher keeps for subscribers
    /// that join late. A service that is opened must keep at least as
    /// many.
    pub fn history_size(self, value: usize) -> (builder: Self)
        ensures
            builder.spec_name() == self.spec_name(),
            builder.spec_static_config() == (StaticConfig {
                history_size: value,
                ..self.spec_static_config()
            }),
            builder.spec_requirements() == (Requirements {
                verify_publisher_history_size: true,
                ..self.spec_requirements()
            }),
    {
        let mut builder = self;
        builder.static_config.history_size = value;
        builder.requirements.verify_publisher_history_size = true;
        builder
    }

    /// Sets the number of samples that can wait for a subscriber. A
    /// service that is opened must let at least as many wait.
    pub fn subscriber_max_buffer_size(self, value: usize) -> (builder: Self)
        ensures
            builder.spec_name() == self.spec_name(),
            builder.spec_static_config() == (StaticConfig {
                subscriber_max_buffer_size: value,
                ..self.spec_static_config()
            }),
            builder.spec_requirements() == (Requirements {
                verify_subscriber_max_buffer_size: true,
                ..self.spec_requirements()
            }),
    {
        let mut builder = self;
        builder.static_config.subscriber_max_buffer_size = value;
        builder.requirements.verify_subscriber_max_buffer_size = true;
        builder
    }

    /// Sets the number of samples that a subscriber can borrow at a time.
    /// A service that is opened must allow at least as many.
    pub fn subscriber_max_borrowed_samples(self, value: usize) -> (builder: Self)
        ensures
            builder.spec_name() == self.spec_name(),
            builder.spec_static_config() == (StaticConfig {
                subscriber_max_borrowed_samples: value,
                ..self.spec_static_config()
            }),
            builder.spec_requirements() == (Requirements {
                verify_subscriber_max_borrowed_samples: true,
                ..self.spec_requirements()
            }),
    {
        let mut builder = self;
        builder.static_config.subscriber_max_borrowed_samples = value;
        builder.requirements.verify_subscriber_max_borrowed_samples = true;
        builder
    }

    /// Chooses what happens to a sample that finds the buffer of a
    /// subscriber full: with safe overflow it replaces the oldest one,
    /// without it is not delivered. A service that is opened must do the
    /// same.
    pub fn enable_safe_overflow(self, value: bool) -> (builder: Self)
        ensures
            builder.spec_name() == self.spec_name(),
            builder.spec_static_config() == (StaticConfig {
                enable_safe_overflow: value,
                ..self.spec_static_config()
            }),
            builder.spec_requirements() == (Requirements {
                verify_enable_safe_overflow: true,
                ..self.spec_requirements()
            }),
    {
        let mut builder = self;
        builder.static_config.enable_safe_overflow = value;
        builder.requirements.verify_enable_safe_overflow = true;
        builder
    }

    /// What the creation of the service comes to.
    pub open spec fn create_result(&self, host: &Host) -> Result<(), PublishSubscribeCreateError> {
        match host.create_service_result(spec_service_id(self.spec_name()), &self.spec_settings()) {
            Ok(()) => Ok(()),
            Err(ServiceCreateError::AlreadyExists) => Err(
                PublishSubscribeCreateError::AlreadyExists,
            ),
            Err(ServiceCreateError::PermissionDenied) => Err(
                PublishSubscribeCreateError::PermissionDenied,
            ),
            Err(ServiceCreateError::ExceedsSupportedCapacity) => Err(
                PublishSubscribeCreateError::InternalFailure,
            ),
            Err(ServiceCreateError::UnableToCreateStaticServiceInformation) => Err(
                PublishSubscribeCreateError::UnableToCreateStaticServiceInformation,
            ),
        }
    }

    /// What the opening of the service comes to.
    pub open spec fn open_result(&self, host: &Host) -> Result<(), PublishSubscribeOpenError> {
        match host.read_settings_result(spec_service_id(self.spec_name())) {
            Err(ServiceOpenError::IsLocked) => Err(PublishSubscribeOpenError::IsLocked),
            Err(_) => Err(PublishSubscribeOpenError::DoesNotExist),
            Ok(()) => match host.settings(spec_service_id(self.spec_name())).messaging_pattern {
                static_config::MessagingPattern::Event(_) => Err(
                    PublishSubscribeOpenError::IncompatibleMessagingPattern,
                ),
                static_config::MessagingPattern::PublishSubscribe(existing) => {
                    match verify_result(
                        &existing,
                        &self.spec_static_config(),
                        self.spec_requirements(),
                    ) {
                        Err(error) => Err(error),
                        Ok(()) => if !spec_can_increment(host.holders(spec_service_id(self.spec_name()))) {
                            Err(PublishSubscribeOpenError::UnderlyingResourcesCorrupted)
                        } else {
                            Ok(())
                        },
                    }
                },
            },
        }
    }

    /// What opening the service, or creating it when it does not exist,
    /// comes to.
    pub open spec fn open_or_create_result(&self, host: &Host) -> Result<
        (),
        PublishSubscribeOpenOrCreateError,
    > {
        match self.open_result(host) {
            Ok(()) => Ok(()),
            Err(PublishSubscribeOpenError::DoesNotExist) => match self.create_result(host) {
                Ok(()) => Ok(()),
                Err(error) => Err(
                    PublishSubscribeOpenOrCreateError::PublishSubscribeCreateError(error),
                ),
            },
            Err(error) => Err(PublishSubscribeOpenOrCreateError::PublishSubscribeOpenError(error)),
        }
    }

    /// Whoever opens or creates a service that exists opens it: of all who
    /// open or create a service, only the first one creates it.
    pub proof fn lemma_existing_service_is_opened(&self, host: &Host)
        requires
            host.wf(),
            host.has_service(spec_service_id(self.spec_name())),
        ensures
            self.open_result(host) != Err::<(), _>(PublishSubscribeOpenError::DoesNotExist),
            self.open_or_create_result(host).is_ok() ==> self.open_result(host).is_ok(),
            self.create_result(host).is_err(),
    {
        host.lemma_existing_service_is_found(spec_service_id(self.spec_name()), &self.spec_settings());
    }

    /// True if `after` is the host after this builder has created its
    /// service on `before` and `factory` is the holder's view of the
    /// service.
    pub open spec fn has_created(&self, before: &Host, after: &Host, factory: &PortFactory) -> bool {
        &&& factory.wf()
        &&& factory.spec_name() == self.spec_name()
        &&& factory.spec_static_config().same_as(&self.spec_static_config())
        &&& after.has_service(spec_service_id(self.spec_name()))
        &&& is_fresh(&self.spec_settings(), &after.dynamic(spec_service_id(self.spec_name())))
        &&& after.settings(spec_service_id(self.spec_name())) == self.spec_settings()
        &&& after.same_services_except(before, spec_service_id(self.spec_name()))
        &&& after.same_transport(before)
        &&& after.same_layout(before)
        &&& after.file_system().content_of(after.static_path(spec_service_id(self.spec_name())))
            == self.spec_settings().spec_serialize()
        &&& after.file_system().same_files_except(
            &before.file_system(),
            after.static_path(spec_service_id(self.spec_name())),
        )
    }

    /// True if `after` is the host after this builder has opened its
    /// service on `before` and `factory` is the holder's view of the
    /// service.
    pub open spec fn has_opened(&self, before: &Host, after: &Host, factory: &PortFactory) -> bool {
        &&& factory.wf()
        &&& factory.spec_name() == self.spec_name()
        &&& before.has_service(spec_service_id(self.spec_name()))
        &&& before.settings(spec_service_id(self.spec_name())).messaging_pattern is PublishSubscribe
        &&& factory.spec_static_config().same_as(
            &before.settings(spec_service_id(self.spec_name())).messaging_pattern->PublishSubscribe_0,
        )
        &&& after.has_service(spec_service_id(self.spec_name()))
        &&& after.holders(spec_service_id(self.spec_name())) == before.holders(spec_service_id(self.spec_name())) + 1
        &&& after.dynamic(spec_service_id(self.spec_name())).spec_messaging_pattern() == before.dynamic(
            spec_service_id(self.spec_name()),
        ).spec_messaging_pattern()
        &&& after.settings(spec_service_id(self.spec_name())) == before.settings(spec_service_id(self.spec_name()))
        &&& after.same_services_except(before, spec_service_id(self.spec_name()))
        &&& after.same_transport(before)
        &&& after.same_layout(before)
        &&& after.file_system() == before.file_system()
    }

    fn open_impl(&self, host: &mut Host) -> (result: Result<PortFactory, PublishSubscribeOpenError>)
        requires
            old(host).wf(),
        ensures
            final(host).wf(),
            result.is_ok() == self.open_result(old(host)).is_ok(),
            result.is_err() ==> Err::<(), _>(result.unwrap_err()) == self.open_result(old(host))
                && final(host).same_as(old(host)),
            result.is_ok() ==> self.has_opened(old(host), final(host), &result.unwrap()),
    {
        let settings = match host.read_settings(&service_id(&self.name)) {
            Ok(settings) => settings,
            Err(ServiceOpenError::IsLocked) => {
                return Err(PublishSubscribeOpenError::IsLocked);
            },
            Err(ServiceOpenError::DoesNotExist) => {
                return Err(PublishSubscribeOpenError::DoesNotExist);
            },
            Err(_) => {
                return Err(PublishSubscribeOpenError::ServiceInCorruptedState);
            },
        };
        let existing = match &settings.messaging_pattern {
            static_config::MessagingPattern::PublishSubscribe(existing) => existing,
            static_config::MessagingPattern::Event(_) => {
                return Err(PublishSubscribeOpenError::IncompatibleMessagingPattern);
            },
        };
        match verify_service_properties(existing, &self.static_config, self.requirements) {
            Ok(()) => {},
            Err(error) => {
                return Err(error);
            },
        }
        match host.acquire_service(&service_id(&self.name)) {
            Ok(()) => {},
            Err(_) => {
                return Err(PublishSubscribeOpenError::UnderlyingResourcesCorrupted);
            },
        }
        Ok(
            PortFactory::new(
                Service::from_state(
                    ServiceState { name: self.name.clone(), static_config: settings },
                ),
            ),
        )
    }

    /// Creates the service, which must not exist. The creator is the first
    /// holder of the service.
    pub fn create(self, host: &mut Host) -> (result: Result<
        PortFactory,
        PublishSubscribeCreateError,
    >)
        requires
            old(host).wf(),
        ensures
            final(host).wf(),
            final(host).same_transport(old(host)),
            final(host).same_layout(old(host)),
            result.is_ok() == self.create_result(old(host)).is_ok(),
            result.is_err() ==> Err::<(), _>(result.unwrap_err()) == self.create_result(old(host))
                && final(host).services() == old(host).services() && final(host).file_system().files() == old(host).file_system().files(),
            result.is_ok() ==> self.has_created(old(host), final(host), &result.unwrap()),
    {
        let copy = self.static_config.clone();
        let settings = static_config::StaticConfig {
            messaging_pattern: static_config::MessagingPattern::PublishSubscribe(
                self.static_config,
            ),
        };
        match host.create_service(&service_id(&self.name), &settings) {
            Ok(()) => Ok(
                PortFactory::new(
                    Service::from_state(
                        ServiceState {
                            name: self.name,
                            static_config: static_config::StaticConfig {
                                messaging_pattern:
                                    static_config::MessagingPattern::PublishSubscribe(copy),
                            },
                        },
                    ),
                ),
            ),
            Err(ServiceCreateError::AlreadyExists) => Err(
                PublishSubscribeCreateError::AlreadyExists,
            ),
            Err(ServiceCreateError::PermissionDenied) => Err(
                PublishSubscribeCreateError::PermissionDenied,
            ),
            Err(ServiceCreateError::ExceedsSupportedCapacity) => Err(
                PublishSubscribeCreateError::InternalFailure,
            ),
            Err(ServiceCreateError::UnableToCreateStaticServiceInformation) => Err(
                PublishSubscribeCreateError::UnableToCreateStaticServiceInformation,
            ),
        }
    }

    /// Opens the service, which must exist, must be a publish subscribe
    /// service for payloads of the same type and must support what was
    /// asked for. Whoever opens the service becomes a holder of it.
    pub fn open(self, host: &mut Host) -> (result: Result<PortFactory, PublishSubscribeOpenError>)
        requires
            old(host).wf(),
        ensures
            final(host).wf(),
            result.is_ok() == self.open_result(old(host)).is_ok(),
            result.is_err() ==> Err::<(), _>(result.unwrap_err()) == self.open_result(old(host))
                && final(host).same_as(old(host)),
            result.is_ok() ==> self.has_opened(old(host), final(host), &result.unwrap()),
    {
        self.open_impl(host)
    }

    /// Opens the service, or creates it when it does not exist.
    pub fn open_or_create(self, host: &mut Host) -> (result: Result<
        PortFactory,
        PublishSubscribeOpenOrCreateError,
    >)
        requires
            old(host).wf(),
        ensures
            final(host).wf(),
            result.is_ok() == self.open_or_create_result(old(host)).is_ok(),
            result.is_err() ==> Err::<(), _>(result.unwrap_err()) == self.open_or_create_result(
                old(host),
            ) && final(host).services() == old(host).services() && final(host).file_system().files() == old(host).file_system().files(),
            result.is_ok() && self.open_result(old(host)).is_ok() ==> self.has_opened(
                old(host),
                final(host),
                &result.unwrap(),
            ),
            result.is_ok() && self.open_result(old(host)).is_err() ==> self.has_created(
                old(host),
                final(host),
                &result.unwrap(),
            ),
    {
        match self.open_impl(host) {
            Ok(factory) => Ok(factory),
            Err(PublishSubscribeOpenError::DoesNotExist) => match self.create(host) {
                Ok(factory) => Ok(factory),
                Err(error) => Err(
                    PublishSubscribeOpenOrCreateError::PublishSubscribeCreateError(error),
                ),
            },
            Err(error) => Err(PublishSubscribeOpenOrCreateError::PublishSubscribeOpenError(error)),
        }
    }
}

} // verus!
