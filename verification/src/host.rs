//! One host: the files, segments, connections and channels that the
//! processes of the host share, and the services that live in them.
//!
//! A service consists of a file with its fixed settings and of an entry
//! with its changing state. The entry exists exactly while the file is
//! complete, and the file describes the registries of the entry. The host
//! knows a service by its id, the digest of its name, from which the name
//! of the file is made.

use crate::cal::event::process_local::Events;
use crate::cal::named_concept::lemma_path_for_is_injective;
use crate::cal::registry::{copy_name, lemma_same_except, Registry};
use crate::cal::shared_memory::{SegmentState, Segments};
use crate::cal::static_storage::file::{
    create_locked_result,
    is_unlocked,
    lemma_permissions,
    open_result,
    Builder,
    Configuration,
    Storage,
    FINAL_PERMISSIONS,
};
use crate::cal::static_storage::{
    StaticStorageCreateError,
    StaticStorageOpenError,
    StaticStorageReadError,
};
use crate::cal::zero_copy_connection::{ConnectionState, Connections};
use crate::global_config::Config;
use crate::lock_free::mpmc::container::{Container, ContainerState};
use crate::lock_free::mpmc::unique_index_set::{UniqueIndex, MAX_CAPACITY};
use crate::port::port_identifiers::UniqueSystemId;
use crate::posix::file_system::{File, FileSystem};
use crate::posix::permission::Permission;
use crate::service::dynamic_config;
use crate::service::dynamic_config::{
    spec_can_increment,
    spec_decrement,
    spec_decrement_result,
    spec_increment,
    DecrementReferenceCounterResult,
    DynamicConfig,
    MARKED_FOR_DESTRUCTION,
};
use crate::service::service_name::ServiceName;
use crate::service::static_config;
use crate::service::static_config::StaticConfig;
use vstd::prelude::*;

verus! {

/// Failures when a service is created.
#[derive(Debug, Clone, Copy, PartialEq, Eq, Structural)]
pub enum ServiceCreateError {
    AlreadyExists,
    PermissionDenied,
    ExceedsSupportedCapacity,
    UnableToCreateStaticServiceInformation,
}

/// Failures when a service is opened.
#[derive(Debug, Clone, Copy, PartialEq, Eq, Structural)]
pub enum ServiceOpenError {
    DoesNotExist,
    IsLocked,
    ServiceInCorruptedState,
    UnderlyingResourcesCorrupted,
}

/// The kinds of ports.
#[derive(Debug, Clone, Copy, PartialEq, Eq, Structural)]
pub enum PortKind {
    Publisher,
    Subscriber,
    Notifier,
    Listener,
}

/// The changing state of a service together with the settings that its
/// file holds.
pub struct ServiceEntry {
    pub(crate) dynamic_config: DynamicConfig,
    pub(crate) described_by: Ghost<StaticConfig>,
}

impl ServiceEntry {
    /// The changing state of the service.
    pub closed spec fn dynamic(&self) -> DynamicConfig {
        self.dynamic_config
    }

    /// The fixed settings of the service.
    pub closed spec fn settings(&self) -> StaticConfig {
        self.described_by@
    }

    /// Entries with the same state and the same settings are the same.
    pub proof fn lemma_same(&self, other: &ServiceEntry)
        requires
            self.dynamic().spec_messaging_pattern() == other.dynamic().spec_messaging_pattern(),
            self.dynamic().spec_reference_counter() == other.dynamic().spec_reference_counter(),
            self.settings() == other.settings(),
        ensures
            *self == *other,
    {
        self.dynamic_config.lemma_same(&other.dynamic_config);
    }
}

/// True if the settings can be the settings of a service on this machine.
pub open spec fn is_supported(config: &StaticConfig) -> bool {
    match config.messaging_pattern {
        static_config::MessagingPattern::PublishSubscribe(settings) => settings.max_publishers
            <= MAX_CAPACITY && settings.max_subscribers <= MAX_CAPACITY,
        static_config::MessagingPattern::Event(settings) => settings.max_notifiers <= MAX_CAPACITY
            && settings.max_listeners <= MAX_CAPACITY,
    }
}

/// True if the registries of `dynamic` are the ones that services with the
/// given settings have.
pub open spec fn describes(config: &StaticConfig, dynamic: &DynamicConfig) -> bool {
    match config.messaging_pattern {
        static_config::MessagingPattern::PublishSubscribe(settings) => {
            &&& dynamic.is_publish_subscribe()
            &&& dynamic.spec_publish_subscribe().spec_publishers().len() == settings.max_publishers
            &&& dynamic.spec_publish_subscribe().spec_subscribers().len()
                == settings.max_subscribers
        },
        static_config::MessagingPattern::Event(settings) => {
            &&& dynamic.is_event()
            &&& dynamic.spec_event().spec_notifiers().len() == settings.max_notifiers
            &&& dynamic.spec_event().spec_listeners().len() == settings.max_listeners
        },
    }
}

/// True if `dynamic` is the state of a service with the given settings
/// that was just created: its creator is its only holder and no port is
/// registered.
pub open spec fn is_fresh(config: &StaticConfig, dynamic: &DynamicConfig) -> bool {
    &&& dynamic.spec_reference_counter() == 1
    &&& match config.messaging_pattern {
        static_config::MessagingPattern::PublishSubscribe(settings) => {
            &&& dynamic.is_publish_subscribe()
            &&& dynamic.spec_publish_subscribe().spec_publishers() == Seq::new(
                settings.max_publishers as nat,
                |i: int| None::<u128>,
            )
            &&& dynamic.spec_publish_subscribe().spec_subscribers() == Seq::new(
                settings.max_subscribers as nat,
                |i: int| None::<u128>,
            )
        },
        static_config::MessagingPattern::Event(settings) => {
            &&& dynamic.is_event()
            &&& dynamic.spec_event().spec_notifiers() == Seq::new(
                settings.max_notifiers as nat,
                |i: int| None::<u128>,
            )
            &&& dynamic.spec_event().spec_listeners() == Seq::new(
                settings.max_listeners as nat,
                |i: int| None::<u128>,
            )
        },
    }
}

/// The host.
pub struct Host {
    pub(crate) file_system: FileSystem,
    pub(crate) static_storage: Configuration,
    pub(crate) services: Registry<ServiceEntry>,
    pub(crate) segments: Segments,
    pub(crate) connections: Connections,
    pub(crate) events: Events,
    pub(crate) ids: UniqueSystemId,
}

impl Host {
    /// The files of the host.
    pub closed spec fn file_system(&self) -> FileSystem {
        self.file_system
    }

    /// The services of the host by their id.
    pub closed spec fn services(&self) -> Map<Seq<u8>, ServiceEntry> {
        self.services@
    }

    /// The segments of the host by their name.
    pub closed spec fn segments(&self) -> Map<Seq<u8>, SegmentState> {
        self.segments@
    }

    /// The connections of the host by their name.
    pub closed spec fn connections(&self) -> Map<Seq<u8>, ConnectionState> {
        self.connections@
    }

    /// The pending ids of the channels of the host by the name of the
    /// channel.
    pub closed spec fn events(&self) -> Map<Seq<u8>, Seq<u64>> {
        self.events@
    }

    /// The source of the identities of the ports.
    pub closed spec fn ids(&self) -> UniqueSystemId {
        self.ids
    }

    /// The path of the file that holds the settings of the service with
    /// the given id.
    pub closed spec fn static_path(&self, service_id: Seq<u8>) -> Seq<u8> {
        self.static_storage.spec_path_for(service_id)
    }

    /// The directory of the files that hold the settings of the services.
    pub closed spec fn static_directory(&self) -> Seq<u8> {
        self.static_storage.spec_path_hint()
    }

    /// True if there is a service with the given id.
    pub open spec fn has_service(&self, service_id: Seq<u8>) -> bool {
        self.services().contains_key(service_id)
    }

    /// The changing state of the service with the given id.
    pub open spec fn dynamic(&self, service_id: Seq<u8>) -> DynamicConfig {
        self.services()[service_id].dynamic()
    }

    /// The fixed settings of the service with the given id.
    pub open spec fn settings(&self, service_id: Seq<u8>) -> StaticConfig {
        self.services()[service_id].settings()
    }

    /// The number of holders of the service with the given id.
    pub open spec fn holders(&self, service_id: Seq<u8>) -> u64 {
        self.dynamic(service_id).spec_reference_counter()
    }

    /// True if `other` has the same services in the same state but for the
    /// one with the given id.
    pub open spec fn same_services_except(&self, other: &Host, service_id: Seq<u8>) -> bool {
        self.services().remove(service_id) == other.services().remove(service_id)
    }

    /// True if `other` has the same segments, connections and channels and
    /// the same source of identities.
    pub open spec fn same_transport(&self, other: &Host) -> bool {
        &&& self.segments() == other.segments()
        &&& self.connections() == other.connections()
        &&& self.events() == other.events()
        &&& self.ids() == other.ids()
    }

    /// True if `other` keeps the settings of the services at the same
    /// place.
    pub open spec fn same_layout(&self, other: &Host) -> bool {
        &&& self.static_directory() == other.static_directory()
        &&& forall|service_id: Seq<u8>| #[trigger] self.static_path(service_id) == other.static_path(service_id)
    }

    /// True if `other` has the same files, services, segments, connections
    /// and channels and the same source of identities.
    pub open spec fn same_as(&self, other: &Host) -> bool {
        &&& self.same_transport(other)
        &&& self.same_layout(other)
        &&& self.services() == other.services()
        &&& self.file_system() == other.file_system()
    }

    /// The invariant that every operation keeps.
    pub closed spec fn wf(&self) -> bool {
        &&& self.file_system.wf()
        &&& self.services.wf()
        &&& self.segments.wf()
        &&& self.connections.wf()
        &&& self.events.wf()
        &&& (forall|service_id: Seq<u8>| #[trigger]
            self.services@.contains_key(service_id) <==> is_unlocked(
                &self.file_system,
                self.static_storage.spec_path_for(service_id),
            ))
        &&& (forall|service_id: Seq<u8>| #[trigger]
            self.services@.contains_key(service_id) ==> self.entry_wf(service_id))
    }

    /// What holds of the entry of every service.
    pub closed spec fn entry_wf(&self, service_id: Seq<u8>) -> bool {
        let entry = self.services@[service_id];
        &&& entry.dynamic_config.wf()
        &&& entry.dynamic_config.spec_reference_counter() != MARKED_FOR_DESTRUCTION
        &&& describes(&entry.described_by@, &entry.dynamic_config)
        &&& entry.described_by@.is_stored_in(
            self.file_system.content_of(self.static_storage.spec_path_for(service_id)),
        )
    }

    /// A service exists exactly while the file with its settings is
    /// complete. The state of every service is well-formed, it has at least
    /// one holder and is not marked for destruction, and its registries are
    /// the ones that its settings describe.
    pub proof fn lemma_services(&self)
        requires
            self.wf(),
        ensures
            forall|service_id: Seq<u8>| #[trigger]
                self.has_service(service_id) <==> is_unlocked(
                    &self.file_system(),
                    self.static_path(service_id),
                ),
            forall|service_id: Seq<u8>| #[trigger]
                self.has_service(service_id) ==> self.dynamic(service_id).wf() && 1 <= self.holders(service_id)
                    < MARKED_FOR_DESTRUCTION && describes(
                    &self.settings(service_id),
                    &self.dynamic(service_id),
                ) && self.settings(service_id).is_stored_in(
                    self.file_system().content_of(self.static_path(service_id)),
                ),
    {
        assert forall|service_id: Seq<u8>| #[trigger] self.has_service(service_id) implies self.dynamic(
            service_id,
        ).wf() && 1 <= self.holders(service_id) < MARKED_FOR_DESTRUCTION && describes(
            &self.settings(service_id),
            &self.dynamic(service_id),
        ) && self.settings(service_id).is_stored_in(
            self.file_system().content_of(self.static_path(service_id)),
        ) by {
            assert(self.entry_wf(service_id));
            self.dynamic(service_id).lemma_registries_wf();
        }
    }

    /// Creates a host without services for the process with the given id
    /// that started at the given time. The settings of the services are
    /// kept in the service directory below the root path of `config`, and
    /// the files of the host share `free_space` bytes.
    pub fn new(process_id: u32, startup_time: u64, config: &Config, free_space: usize) -> (host:
        Host)
        ensures
            host.wf(),
            host.services() == Map::<Seq<u8>, ServiceEntry>::empty(),
            host.segments() == Map::<Seq<u8>, SegmentState>::empty(),
            host.connections() == Map::<Seq<u8>, ConnectionState>::empty(),
            host.events() == Map::<Seq<u8>, Seq<u64>>::empty(),
            host.file_system().spec_free_space() == free_space,
            host.file_system().files() == Map::<Seq<u8>, File>::empty(),
            host.file_system().directories() == Map::<Seq<u8>, Permission>::empty(),
            host.ids().spec_process_id() == process_id,
            host.ids().spec_startup_time() == startup_time,
            host.ids().spec_counter() == 0,
            host.static_directory() == config.spec_root_path() + config.spec_service_directory(),
    {
        let mut directory = copy_name(config.root_path());
        let mut service_directory = copy_name(config.service_directory());
        directory.append(&mut service_directory);
        let static_storage = Configuration::default().path_hint(directory).suffix(
            copy_name(config.static_config_storage_suffix()),
        );
        Host {
            file_system: FileSystem::new(free_space),
            static_storage,
            services: Registry::new(),
            segments: Segments::new(),
            connections: Connections::new(),
            events: Events::new(),
            ids: UniqueSystemId::new(process_id, startup_time),
        }
    }

    /// Returns true if there is a service with the given id.
    pub fn does_service_exist(&self, service_id: &ServiceName) -> (exists: bool)
        requires
            self.wf(),
        ensures
            exists == self.has_service(service_id@),
    {
        self.services.contains(service_id.as_bytes())
    }

    /// Returns the ids of all services.
    pub fn list_services(&self) -> (ids: Vec<Vec<u8>>)
        requires
            self.wf(),
        ensures
            forall|i: int| 0 <= i < ids.len() ==> self.has_service(#[trigger] ids[i]@),
            forall|service_id: Seq<u8>|
                self.has_service(service_id) ==> crate::cal::named_concept::lists_name(ids@, service_id),
            forall|i: int, j: int|
                0 <= i < ids.len() && 0 <= j < ids.len() && i != j ==> ids[i]@ != ids[j]@,
    {
        proof {
            self.services.lemma_positions();
        }
        let mut ids: Vec<Vec<u8>> = Vec::new();
        let mut i: usize = 0;
        while i < self.services.len()
            invariant
                self.services.wf(),
                i <= self.services.spec_len(),
                ids.len() == i,
                forall|k: int| 0 <= k < i ==> (#[trigger] ids[k]@) == self.services.name_at(k),
            decreases self.services.spec_len() - i,
        {
            ids.push(copy_name(self.services.name(i)));
            i += 1;
        }
        proof {
            self.services.lemma_positions();
            assert forall|service_id: Seq<u8>| self.has_service(service_id) implies
                crate::cal::named_concept::lists_name(ids@, service_id) by {
                let position = self.services.position_of(service_id).unwrap();
                assert(ids@[position]@ == service_id);
            }
        }
        ids
    }

    /// What the creation of the service with the given id and settings
    /// comes to.
    pub open spec fn create_service_result(&self, service_id: Seq<u8>, config: &StaticConfig) -> Result<
        (),
        ServiceCreateError,
    > {
        match create_locked_result(
            &self.file_system(),
            self.static_directory(),
            self.static_path(service_id),
        ) {
            Err(StaticStorageCreateError::AlreadyExists) => Err(ServiceCreateError::AlreadyExists),
            Err(StaticStorageCreateError::InsufficientPermissions) => Err(
                ServiceCreateError::PermissionDenied,
            ),
            Err(_) => Err(ServiceCreateError::UnableToCreateStaticServiceInformation),
            Ok(()) => if !is_supported(config) {
                Err(ServiceCreateError::ExceedsSupportedCapacity)
            } else if config.spec_serialize().len() > self.file_system().spec_free_space() {
                Err(ServiceCreateError::UnableToCreateStaticServiceInformation)
            } else {
                Ok(())
            },
        }
    }

    /// A service that exists is found by everyone who reads its settings,
    /// and nobody can create it a second time.
    pub proof fn lemma_existing_service_is_found(&self, service_id: Seq<u8>, config: &StaticConfig)
        requires
            self.wf(),
            self.has_service(service_id),
        ensures
            self.read_settings_result(service_id).is_ok(),
            self.create_service_result(service_id, config) == Err::<(), _>(
                ServiceCreateError::AlreadyExists,
            ),
    {
        lemma_permissions();
        self.lemma_services();
        assert(is_unlocked(&self.file_system(), self.static_path(service_id)));
    }

    /// The creation of a service fails because the service exists already
    /// exactly when the file of its settings is present, locked or
    /// complete, whatever else stands in the way.
    pub proof fn lemma_service_exists_already(&self, service_id: Seq<u8>, config: &StaticConfig)
        ensures
            self.create_service_result(service_id, config) == Err::<(), _>(
                ServiceCreateError::AlreadyExists,
            ) <==> self.file_system().has_file(self.static_path(service_id)),
    {
    }

    /// True if `after` is the host after the service with the given id
    /// and settings was created on `before`.
    pub open spec fn has_created_service(
        before: &Host,
        after: &Host,
        service_id: Seq<u8>,
        config: &StaticConfig,
    ) -> bool {
        let path = before.static_path(service_id);
        let directory = before.static_directory();
        &&& after.same_transport(before)
        &&& after.same_layout(before)
        &&& after.has_service(service_id)
        &&& is_fresh(config, &after.dynamic(service_id))
        &&& after.settings(service_id) == *config
        &&& after.same_services_except(before, service_id)
        &&& after.file_system().has_file(path)
        &&& after.file_system().content_of(path) == config.spec_serialize()
        &&& after.file_system().same_files_except(&before.file_system(), path)
        &&& after.file_system().spec_free_space() == before.file_system().spec_free_space()
            - config.spec_serialize().len()
        &&& after.file_system().directories() == (if before.file_system().directories().contains_key(
            directory,
        ) {
            before.file_system().directories()
        } else {
            before.file_system().directories().insert(
                directory,
                crate::posix::permission::Permission::spec_new(
                    crate::cal::static_storage::file::DIRECTORY_PERMISSIONS,
                ),
            )
        })
    }

    /// True if `after` is the host after the last holder of the service
    /// with the given id was released on `before`.
    pub open spec fn has_taken_down_service(before: &Host, after: &Host, service_id: Seq<u8>) -> bool {
        let path = before.static_path(service_id);
        &&& after.same_transport(before)
        &&& after.same_layout(before)
        &&& after.services() == before.services().remove(service_id)
        &&& after.file_system().files() == before.file_system().files().remove(path)
        &&& after.file_system().directories() == before.file_system().directories()
        &&& after.file_system().spec_free_space() == before.file_system().free_space_without(path)
    }

    /// A service that was created and taken down again can be created
    /// once more: nothing of it stays behind.
    pub proof fn lemma_service_can_be_created_again(
        before: &Host,
        created: &Host,
        taken_down: &Host,
        service_id: Seq<u8>,
        config: &StaticConfig,
    )
        requires
            before.create_service_result(service_id, config).is_ok(),
            Self::has_created_service(before, created, service_id, config),
            Self::has_taken_down_service(created, taken_down, service_id),
        ensures
            !taken_down.has_service(service_id),
            taken_down.create_service_result(service_id, config).is_ok(),
            taken_down.file_system().spec_free_space() == before.file_system().spec_free_space(),
    {
        lemma_permissions();
        let path = before.static_path(service_id);
        assert(taken_down.static_path(service_id) == path);
        assert(!taken_down.file_system().has_file(path));
    }

    /// Creates the service with the given id and settings. The file
    /// with the settings is created in its locked state, the changing
    /// state is set up, and the file is completed and unlocked last. When
    /// anything fails nothing of the service stays.
    pub fn create_service(&mut self, service_id: &ServiceName, config: &StaticConfig) -> (result: Result<
        (),
        ServiceCreateError,
    >)
        requires
            old(self).wf(),
        ensures
            final(self).wf(),
            final(self).same_transport(old(self)),
            final(self).same_layout(old(self)),
            result == old(self).create_service_result(service_id@, config),
            result.is_err() ==> final(self).services() == old(self).services() && final(self).file_system().files() == old(self).file_system().files(),
            result.is_ok() ==> final(self).has_service(service_id@) && is_fresh(
                config,
                &final(self).dynamic(service_id@),
            ) && final(self).settings(service_id@) == *config && final(self).same_services_except(
                old(self),
                service_id@,
            ) && final(self).file_system().content_of(final(self).static_path(service_id@))
                == config.spec_serialize() && final(self).file_system().same_files_except(
                &old(self).file_system(),
                final(self).static_path(service_id@),
            ),
            result.is_ok() ==> Self::has_created_service(old(self), final(self), service_id@, config),
    {
        let ghost path = self.static_path(service_id@);
        let builder = Builder::new(service_id.as_bytes()).config(&self.static_storage).has_ownership(
            true,
        );
        let locked = match builder.create_locked(&mut self.file_system) {
            Ok(locked) => locked,
            Err(error) => {
                proof {
                    self.lemma_other_services_untouched(old(self), path);
                }
                return Err(
                    match error {
                        StaticStorageCreateError::AlreadyExists => {
                            ServiceCreateError::AlreadyExists
                        },
                        StaticStorageCreateError::InsufficientPermissions => {
                            ServiceCreateError::PermissionDenied
                        },
                        _ => ServiceCreateError::UnableToCreateStaticServiceInformation,
                    },
                );
            },
        };
        proof {
            builder.lemma_builds(&locked.storage());
        }

        let messaging_pattern = match &config.messaging_pattern {
            static_config::MessagingPattern::PublishSubscribe(settings) => {
                if settings.max_publishers > MAX_CAPACITY as usize || settings.max_subscribers
                    > MAX_CAPACITY as usize {
                    None
                } else {
                    Some(
                        dynamic_config::MessagingPattern::PublishSubscribe(
                            dynamic_config::publish_subscribe::DynamicConfig::new(
                                settings.max_publishers as u32,
                                settings.max_subscribers as u32,
                            ),
                        ),
                    )
                }
            },
            static_config::MessagingPattern::Event(settings) => {
                if settings.max_notifiers > MAX_CAPACITY as usize || settings.max_listeners
                    > MAX_CAPACITY as usize {
                    None
                } else {
                    Some(
                        dynamic_config::MessagingPattern::Event(
                            dynamic_config::event::DynamicConfig::new(
                                settings.max_notifiers as u32,
                                settings.max_listeners as u32,
                            ),
                        ),
                    )
                }
            },
        };
        let messaging_pattern = match messaging_pattern {
            Some(messaging_pattern) => messaging_pattern,
            None => {
                let ghost created = self.file_system;
                locked.unlock_abandon(&mut self.file_system);
                proof {
                    assert(self.file_system.files() == created.files().remove(path));
                    assert(old(self).file_system.files().remove(path) =~= old(self).file_system.files());
                    assert(self.file_system.files() =~= old(self).file_system.files());
                    self.lemma_other_services_untouched(old(self), path);
                }
                return Err(ServiceCreateError::ExceedsSupportedCapacity);
            },
        };
        let dynamic_config = DynamicConfig::new_uninit(messaging_pattern);

        let contents = config.serialize();
        let ghost created = self.file_system;
        proof {
            lemma_permissions();
        }
        let mut storage = match locked.unlock(&mut self.file_system, &contents) {
            Ok(storage) => storage,
            Err(_) => {
                proof {
                    assert(self.file_system.files().remove(path) =~= self.file_system.files());
                    assert(old(self).file_system.files().remove(path) =~= old(self).file_system.files());
                    assert(self.file_system.files().remove(path) == created.files().remove(path));
                    assert(self.file_system.files() =~= old(self).file_system.files());
                    self.lemma_other_services_untouched(old(self), path);
                }
                return Err(ServiceCreateError::UnableToCreateStaticServiceInformation);
            },
        };
        storage.release_ownership();
        storage.close(&mut self.file_system);

        let entry = ServiceEntry { dynamic_config, described_by: Ghost(*config) };
        let rejected = self.services.insert(copy_name(service_id.as_bytes()), entry);
        proof {
            assert(rejected.is_none());
            config.lemma_serialize_stores(config);
            assert(self.services().remove(service_id@) =~= old(self).services().remove(service_id@));
            assert(self.file_system.same_files_except(&old(self).file_system, path));
            assert(is_unlocked(&self.file_system, path));
            assert forall|other: Seq<u8>| #[trigger]
                self.services@.contains_key(other) <==> is_unlocked(
                    &self.file_system,
                    self.static_storage.spec_path_for(other),
                ) by {
                if other != service_id@ {
                    self.lemma_path_differs(other, service_id@);
                    self.file_system.lemma_same_files_except(
                        &old(self).file_system,
                        path,
                        self.static_storage.spec_path_for(other),
                    );
                    assert(old(self).services@.contains_key(other) <==> is_unlocked(
                        &old(self).file_system,
                        old(self).static_storage.spec_path_for(other),
                    ));
                }
            }
            assert forall|other: Seq<u8>| #[trigger]
                self.services@.contains_key(other) implies self.entry_wf(other) by {
                if other != service_id@ {
                    self.lemma_path_differs(other, service_id@);
                    self.file_system.lemma_same_files_except(
                        &old(self).file_system,
                        path,
                        self.static_storage.spec_path_for(other),
                    );
                    assert(old(self).entry_wf(other));
                    assert(old(self).services@.contains_key(other) <==> is_unlocked(
                        &old(self).file_system,
                        old(self).static_storage.spec_path_for(other),
                    ));
                }
            }
        }
        Ok(())
    }

    /// What reading the settings of the service with the given id comes
    /// to.
    pub open spec fn read_settings_result(&self, service_id: Seq<u8>) -> Result<(), ServiceOpenError> {
        match open_result(&self.file_system(), self.static_path(service_id)) {
            Err(StaticStorageOpenError::IsLocked) => Err(ServiceOpenError::IsLocked),
            Err(_) => Err(ServiceOpenError::DoesNotExist),
            Ok(_) => Ok(()),
        }
    }

    /// Opens the file with the settings of the service with the given id
    /// and returns the settings. A file that is still locked belongs to a
    /// service that is being created.
    pub fn read_settings(&self, service_id: &ServiceName) -> (result: Result<
        StaticConfig,
        ServiceOpenError,
    >)
        requires
            self.wf(),
        ensures
            result.is_ok() == self.has_service(service_id@),
            result.is_ok() == self.read_settings_result(service_id@).is_ok(),
            result.is_err() ==> Err::<(), _>(result.unwrap_err()) == self.read_settings_result(
                service_id@,
            ),
            result.is_ok() ==> result.unwrap().same_as(&self.settings(service_id@)),
    {
        proof {
            lemma_permissions();
            self.lemma_services();
        }
        let builder = Builder::new(service_id.as_bytes()).config(&self.static_storage).has_ownership(
            false,
        );
        let storage = match builder.open(&self.file_system) {
            Ok(storage) => storage,
            Err(StaticStorageOpenError::IsLocked) => {
                return Err(ServiceOpenError::IsLocked);
            },
            Err(_) => {
                return Err(ServiceOpenError::DoesNotExist);
            },
        };
        proof {
            builder.lemma_builds(&storage);
        }
        let ghost path = self.static_path(service_id@);
        let ghost stored = self.file_system.content_of(path);
        proof {
            assert(is_unlocked(&self.file_system, path));
            assert(self.has_service(service_id@));
            assert(stored.len() == self.file_system.files()[path].content.len());
        }
        let length: u64 = storage.len();
        let mut content: Vec<u8> = vec![0u8; length as usize];
        match storage.read(&self.file_system, &mut content) {
            Ok(()) => {},
            Err(_) => {
                return Err(ServiceOpenError::ServiceInCorruptedState);
            },
        }
        proof {
            assert(content@ =~= content@.subrange(0, length as int));
            assert(stored =~= stored.subrange(0, length as int));
        }
        match StaticConfig::deserialize(&content) {
            Some(config) => Ok(config),
            None => Err(ServiceOpenError::ServiceInCorruptedState),
        }
    }

    /// Takes in another holder of the service with the given id. Fails,
    /// and changes nothing, when there is no such service or when it cannot
    /// have more holders.
    pub fn acquire_service(&mut self, service_id: &ServiceName) -> (result: Result<(), ServiceOpenError>)
        requires
            old(self).wf(),
        ensures
            final(self).wf(),
            final(self).same_transport(old(self)),
            final(self).same_layout(old(self)),
            final(self).file_system() == old(self).file_system(),
            !old(self).has_service(service_id@) ==> result == Err::<(), _>(
                ServiceOpenError::DoesNotExist,
            ),
            old(self).has_service(service_id@) && !spec_can_increment(old(self).holders(service_id@))
                ==> result == Err::<(), _>(ServiceOpenError::UnderlyingResourcesCorrupted),
            result.is_ok() == (old(self).has_service(service_id@) && spec_can_increment(
                old(self).holders(service_id@),
            )),
            result.is_err() ==> final(self).services() == old(self).services(),
            result.is_ok() ==> final(self).has_service(service_id@) && final(self).holders(service_id@) == old(self).holders(service_id@) + 1 && final(self).dynamic(service_id@).spec_messaging_pattern() == old(self).dynamic(service_id@).spec_messaging_pattern() && final(self).settings(service_id@) == old(self).settings(service_id@) && final(self).same_services_except(old(self), service_id@),
    {
        let position = match self.services.find(service_id.as_bytes()) {
            Some(position) => position,
            None => {
                return Err(ServiceOpenError::DoesNotExist);
            },
        };
        proof {
            self.services.lemma_positions();
            assert(self.entry_wf(service_id@));
        }
        if !self.services.value(position).dynamic_config.can_increment_reference_counter() {
            return Err(ServiceOpenError::UnderlyingResourcesCorrupted);
        }
        let entry = self.services.value_mut(position);
        let _ = entry.dynamic_config.increment_reference_counter();
        proof {
            assert(self.services().remove(service_id@) =~= old(self).services().remove(service_id@));
            self.lemma_entry_changed(old(self), service_id@);
        }
        Ok(())
    }

    /// A host that differs from a well-formed host in the entry of one
    /// service only, which is well-formed, is not marked for destruction
    /// and has the registries that it had, is well-formed.
    proof fn lemma_entry_changed(&self, before: &Host, service_id: Seq<u8>)
        requires
            before.wf(),
            before.services@.contains_key(service_id),
            self.services.wf(),
            self.services@.contains_key(service_id),
            self.services@.remove(service_id) == before.services@.remove(service_id),
            self.services@[service_id].dynamic_config.wf(),
            self.services@[service_id].dynamic_config.spec_reference_counter()
                != MARKED_FOR_DESTRUCTION,
            describes(&before.services@[service_id].described_by@, &self.services@[service_id].dynamic_config),
            self.services@[service_id].described_by@ == before.services@[service_id].described_by@,
            self.file_system == before.file_system,
            self.static_storage == before.static_storage,
            self.segments.wf(),
            self.connections.wf(),
            self.events.wf(),
        ensures
            self.wf(),
    {
        assert forall|other: Seq<u8>| #[trigger]
            self.services@.contains_key(other) <==> is_unlocked(
                &self.file_system,
                self.static_storage.spec_path_for(other),
            ) by {
            assert(before.services@.contains_key(other) <==> is_unlocked(
                &before.file_system,
                before.static_storage.spec_path_for(other),
            ));
            if other != service_id {
                lemma_same_except(self.services@, before.services@, service_id, other);
            }
        }
        assert forall|other: Seq<u8>| #[trigger]
            self.services@.contains_key(other) implies self.entry_wf(other) by {
            if other != service_id {
                lemma_same_except(self.services@, before.services@, service_id, other);
                assert(before.entry_wf(other));
            } else {
                assert(before.entry_wf(service_id));
            }
        }
    }

    /// Releases a holder of the service with the given id. When that
    /// holder was the last one the service is taken down: its entry and the
    /// file with its settings are removed. Returns true if the service was
    /// taken down.
    pub fn release_service(&mut self, service_id: &ServiceName) -> (taken_down: bool)
        requires
            old(self).wf(),
        ensures
            final(self).wf(),
            final(self).same_transport(old(self)),
            final(self).same_layout(old(self)),
            taken_down == (old(self).has_service(service_id@) && old(self).holders(service_id@) == 1),
            !old(self).has_service(service_id@) ==> final(self).services() == old(self).services()
                && final(self).file_system() == old(self).file_system(),
            old(self).has_service(service_id@) && old(self).holders(service_id@) > 1 ==> final(self).has_service(service_id@) && final(self).holders(service_id@) == old(self).holders(service_id@) - 1
                && final(self).dynamic(service_id@).spec_messaging_pattern() == old(self).dynamic(
                service_id@,
            ).spec_messaging_pattern() && final(self).settings(service_id@) == old(self).settings(service_id@)
                && final(self).same_services_except(old(self), service_id@) && final(self).file_system()
                == old(self).file_system(),
            taken_down ==> final(self).services() == old(self).services().remove(service_id@) && final(self).file_system().files() == old(self).file_system().files().remove(
                old(self).static_path(service_id@),
            ),
            taken_down ==> Self::has_taken_down_service(old(self), final(self), service_id@),
    {
        let position = match self.services.find(service_id.as_bytes()) {
            Some(position) => position,
            None => {
                return false;
            },
        };
        proof {
            self.services.lemma_positions();
            assert(self.entry_wf(service_id@));
            self.services@[service_id@].dynamic_config.lemma_registries_wf();
        }
        let entry = self.services.value_mut(position);
        match entry.dynamic_config.decrement_reference_counter() {
            DecrementReferenceCounterResult::HasOwners => {
                proof {
                    assert(self.services().remove(service_id@) =~= old(self).services().remove(service_id@));
                    self.lemma_entry_changed(old(self), service_id@);
                }
                false
            },
            DecrementReferenceCounterResult::NoMoreOwners => {
                let _ = self.services.remove(service_id.as_bytes());
                let _ = Storage::remove_cfg(
                    service_id.as_bytes(),
                    &self.static_storage,
                    &mut self.file_system,
                );
                proof {
                    let path = self.static_path(service_id@);
                    assert(self.services() =~= old(self).services().remove(service_id@));
                    assert(self.file_system.files().remove(path) =~= old(self).file_system.files().remove(path));
                    assert forall|other: Seq<u8>| #[trigger]
                        self.services@.contains_key(other) <==> is_unlocked(
                            &self.file_system,
                            self.static_storage.spec_path_for(other),
                        ) by {
                        assert(old(self).services@.contains_key(other) <==> is_unlocked(
                            &old(self).file_system,
                            old(self).static_storage.spec_path_for(other),
                        ));
                        if other != service_id@ {
                            self.lemma_path_differs(other, service_id@);
                            self.file_system.lemma_same_files_except(
                                &old(self).file_system,
                                path,
                                self.static_storage.spec_path_for(other),
                            );
                        }
                    }
                    assert forall|other: Seq<u8>| #[trigger]
                        self.services@.contains_key(other) implies self.entry_wf(other) by {
                        self.lemma_path_differs(other, service_id@);
                        self.file_system.lemma_same_files_except(
                            &old(self).file_system,
                            path,
                            self.static_storage.spec_path_for(other),
                        );
                        assert(old(self).entry_wf(other));
                        assert(old(self).services@.contains_key(other) <==> is_unlocked(
                            &old(self).file_system,
                            old(self).static_storage.spec_path_for(other),
                        ));
                    }
                }
                true
            },
        }
    }

    /// True if the service with the given id exists and has a registry
    /// for ports of the given kind.
    pub open spec fn has_registry(&self, service_id: Seq<u8>, kind: PortKind) -> bool {
        &&& self.has_service(service_id)
        &&& match kind {
            PortKind::Publisher | PortKind::Subscriber => self.dynamic(service_id).is_publish_subscribe(),
            PortKind::Notifier | PortKind::Listener => self.dynamic(service_id).is_event(),
        }
    }

    /// The identities of the ports of the given kind of the service with
    /// the given id, by their slot.
    pub open spec fn registry(&self, service_id: Seq<u8>, kind: PortKind) -> Seq<Option<u128>> {
        match kind {
            PortKind::Publisher => self.dynamic(service_id).spec_publish_subscribe().spec_publishers(),
            PortKind::Subscriber => self.dynamic(service_id).spec_publish_subscribe().spec_subscribers(),
            PortKind::Notifier => self.dynamic(service_id).spec_event().spec_notifiers(),
            PortKind::Listener => self.dynamic(service_id).spec_event().spec_listeners(),
        }
    }

    /// The registry of the ports of the given kind of the service with the
    /// given id.
    pub open spec fn registry_container(&self, service_id: Seq<u8>, kind: PortKind) -> Container<u128> {
        match kind {
            PortKind::Publisher => self.dynamic(service_id).spec_publish_subscribe().publisher_registry(),
            PortKind::Subscriber => self.dynamic(
                service_id,
            ).spec_publish_subscribe().subscriber_registry(),
            PortKind::Notifier => self.dynamic(service_id).spec_event().notifier_registry(),
            PortKind::Listener => self.dynamic(service_id).spec_event().listener_registry(),
        }
    }

    /// The number of changes of the registry of the ports of the given
    /// kind of the service with the given id, modulo 2^64: every port that
    /// is added or removed counts. Who has seen another number has not
    /// seen the registry as it is.
    pub open spec fn change_counter(&self, service_id: Seq<u8>, kind: PortKind) -> u64 {
        self.registry_container(service_id, kind).spec_change_counter()
    }

    /// The slot that the next port of the given kind gets, if one is free.
    pub open spec fn next_free_slot(&self, service_id: Seq<u8>, kind: PortKind) -> Option<u32> {
        self.registry_container(service_id, kind).next_free_slot()
    }

    /// The other registry of the service with the given id.
    pub open spec fn other_kind(kind: PortKind) -> PortKind {
        match kind {
            PortKind::Publisher => PortKind::Subscriber,
            PortKind::Subscriber => PortKind::Publisher,
            PortKind::Notifier => PortKind::Listener,
            PortKind::Listener => PortKind::Notifier,
        }
    }

    /// True if `other` differs from this host at most in the registry of
    /// the given kind of the service with the given id.
    pub open spec fn same_except_registry(&self, other: &Host, service_id: Seq<u8>, kind: PortKind) -> bool {
        &&& self.same_transport(other)
        &&& self.same_layout(other)
        &&& self.file_system() == other.file_system()
        &&& self.same_services_except(other, service_id)
        &&& self.has_service(service_id) == other.has_service(service_id)
        &&& self.has_service(service_id) ==> {
            &&& self.holders(service_id) == other.holders(service_id)
            &&& self.settings(service_id) == other.settings(service_id)
            &&& self.has_registry(service_id, kind) == other.has_registry(service_id, kind)
            &&& self.has_registry(service_id, kind) ==> self.registry_container(
                service_id,
                Self::other_kind(kind),
            ) == other.registry_container(service_id, Self::other_kind(kind))
        }
    }

    /// The registries of a service are well-formed, and they are the
    /// identities by slot.
    pub proof fn lemma_registry(&self, service_id: Seq<u8>, kind: PortKind)
        requires
            self.wf(),
            self.has_registry(service_id, kind),
        ensures
            self.registry_container(service_id, kind).wf(),
            self.registry_container(service_id, kind)@ == self.registry(service_id, kind),
            self.registry(service_id, kind).len() <= MAX_CAPACITY,
            self.next_free_slot(service_id, kind).is_some() ==> self.next_free_slot(
                service_id,
                kind,
            ).unwrap() < self.registry(service_id, kind).len() && self.registry(
                service_id,
                kind,
            )[self.next_free_slot(service_id, kind).unwrap() as int].is_none(),
            self.next_free_slot(service_id, kind).is_none() ==> forall|i: int|
                0 <= i < self.registry(service_id, kind).len() ==> (#[trigger] self.registry(
                    service_id,
                    kind,
                )[i]).is_some(),
    {
        assert(self.entry_wf(service_id));
        self.dynamic(service_id).lemma_registries_wf();
        match kind {
            PortKind::Publisher | PortKind::Subscriber => {
                self.dynamic(service_id).spec_publish_subscribe().lemma_registries();
            },
            PortKind::Notifier | PortKind::Listener => {
                self.dynamic(service_id).spec_event().lemma_registries();
            },
        }
        self.registry_container(service_id, kind).lemma_next_free_slot();
    }

    /// Registers the port with the given identity in the registry of the
    /// given kind of the service with the given id. Returns the guard of
    /// the slot of the port, or [`None`] when there is no such registry or
    /// when every slot of it is occupied.
    pub fn add_port(&mut self, service_id: &ServiceName, kind: PortKind, id: u128) -> (index: Option<
        UniqueIndex,
    >)
        requires
            old(self).wf(),
        ensures
            final(self).wf(),
            final(self).same_except_registry(old(self), service_id@, kind),
            index.is_some() == (old(self).has_registry(service_id@, kind) && old(self).next_free_slot(
                service_id@,
                kind,
            ).is_some()),
            index.is_none() ==> final(self).services() == old(self).services(),
            index.is_some() ==> Some(index.unwrap().spec_value()) == old(self).next_free_slot(
                service_id@,
                kind,
            ) && final(self).registry(service_id@, kind) == old(self).registry(service_id@, kind).update(
                index.unwrap().spec_value() as int,
                Some(id),
            ),
            index.is_some() ==> final(self).change_counter(service_id@, kind) == old(self).change_counter(service_id@, kind).wrapping_add(1),
            index.is_some() ==> index.unwrap().spec_value() < old(self).registry(
                service_id@,
                kind,
            ).len(),
    {
        let position = match self.services.find(service_id.as_bytes()) {
            Some(position) => position,
            None => {
                return None;
            },
        };
        proof {
            self.services.lemma_positions();
            assert(self.entry_wf(service_id@));
            self.services@[service_id@].dynamic_config.lemma_registries_wf();
        }
        let is_event: bool = self.services.value(position).dynamic_config.has_event_pattern();
        let fits: bool = match kind {
            PortKind::Publisher | PortKind::Subscriber => !is_event,
            PortKind::Notifier | PortKind::Listener => is_event,
        };
        if !fits {
            return None;
        }
        proof {
            old(self).lemma_registry(service_id@, kind);
        }
        let has_room: bool = match kind {
            PortKind::Publisher => self.services.value(
                position,
            ).dynamic_config.publish_subscribe().has_free_publisher_slot(),
            PortKind::Subscriber => self.services.value(
                position,
            ).dynamic_config.publish_subscribe().has_free_subscriber_slot(),
            PortKind::Notifier => self.services.value(
                position,
            ).dynamic_config.event().has_free_notifier_slot(),
            PortKind::Listener => self.services.value(
                position,
            ).dynamic_config.event().has_free_listener_slot(),
        };
        if !has_room {
            return None;
        }
        let entry = self.services.value_mut(position);
        let index = match kind {
            PortKind::Publisher => entry.dynamic_config.publish_subscribe_mut().add_publisher_id(
                id,
            ),
            PortKind::Subscriber => entry.dynamic_config.publish_subscribe_mut().add_subscriber_id(
                id,
            ),
            PortKind::Notifier => entry.dynamic_config.event_mut().add_notifier_id(id),
            PortKind::Listener => entry.dynamic_config.event_mut().add_listener_id(id),
        };
        proof {
            assert(index.is_some());
            assert(self.services().remove(service_id@) =~= old(self).services().remove(service_id@));
            assert(self.registry(service_id@, kind).len() == old(self).registry(service_id@, kind).len());
            assert(self.registry(service_id@, Self::other_kind(kind)) == old(self).registry(
                service_id@,
                Self::other_kind(kind),
            ));
            self.lemma_entry_changed(old(self), service_id@);
        }
        index
    }

    /// Removes the port in the slot of `index` from the registry of the
    /// given kind of the service with the given id. Returns false, and
    /// changes nothing, when there is no such registry or when the slot
    /// holds no port.
    pub fn remove_port(&mut self, service_id: &ServiceName, kind: PortKind, index: UniqueIndex) -> (removed:
        bool)
        requires
            old(self).wf(),
        ensures
            final(self).wf(),
            final(self).same_except_registry(old(self), service_id@, kind),
            removed == (old(self).has_registry(service_id@, kind) && index.spec_value() < old(self).registry(service_id@, kind).len() && old(self).registry(
                service_id@,
                kind,
            )[index.spec_value() as int].is_some()),
            !removed ==> final(self).services() == old(self).services(),
            removed ==> final(self).registry(service_id@, kind) == old(self).registry(
                service_id@,
                kind,
            ).update(index.spec_value() as int, None),
            removed ==> final(self).change_counter(service_id@, kind) == old(self).change_counter(
                service_id@,
                kind,
            ).wrapping_add(1),
    {
        let position = match self.services.find(service_id.as_bytes()) {
            Some(position) => position,
            None => {
                return false;
            },
        };
        proof {
            self.services.lemma_positions();
            assert(self.entry_wf(service_id@));
            self.services@[service_id@].dynamic_config.lemma_registries_wf();
        }
        let is_event: bool = self.services.value(position).dynamic_config.has_event_pattern();
        let fits: bool = match kind {
            PortKind::Publisher | PortKind::Subscriber => !is_event,
            PortKind::Notifier | PortKind::Listener => is_event,
        };
        if !fits {
            return false;
        }
        proof {
            old(self).lemma_registry(service_id@, kind);
        }
        let slot: usize = index.value() as usize;
        let occupied: bool = match kind {
            PortKind::Publisher => self.services.value(
                position,
            ).dynamic_config.publish_subscribe().is_publisher_slot_occupied(slot),
            PortKind::Subscriber => self.services.value(
                position,
            ).dynamic_config.publish_subscribe().is_subscriber_slot_occupied(slot),
            PortKind::Notifier => self.services.value(
                position,
            ).dynamic_config.event().is_notifier_slot_occupied(slot),
            PortKind::Listener => self.services.value(
                position,
            ).dynamic_config.event().is_listener_slot_occupied(slot),
        };
        if !occupied {
            return false;
        }
        let entry = self.services.value_mut(position);
        let removed = match kind {
            PortKind::Publisher => entry.dynamic_config.publish_subscribe_mut().remove_publisher_id(
                index,
            ),
            PortKind::Subscriber => {
                entry.dynamic_config.publish_subscribe_mut().remove_subscriber_id(index)
            },
            PortKind::Notifier => entry.dynamic_config.event_mut().remove_notifier_id(index),
            PortKind::Listener => entry.dynamic_config.event_mut().remove_listener_id(index),
        };
        proof {
            assert(removed);
            assert(self.services().remove(service_id@) =~= old(self).services().remove(service_id@));
            assert(self.registry(service_id@, kind).len() == old(self).registry(service_id@, kind).len());
            assert(self.registry(service_id@, Self::other_kind(kind)) == old(self).registry(
                service_id@,
                Self::other_kind(kind),
            ));
            self.lemma_entry_changed(old(self), service_id@);
        }
        removed
    }

    /// Returns true if the service with the given id exists, has a
    /// registry for ports of the given kind with a free slot, and can have
    /// another holder.
    pub fn can_take_port(&self, service_id: &ServiceName, kind: PortKind) -> (possible: bool)
        requires
            self.wf(),
        ensures
            possible == (self.has_registry(service_id@, kind) && self.next_free_slot(
                service_id@,
                kind,
            ).is_some() && spec_can_increment(self.holders(service_id@))),
    {
        let position = match self.services.find(service_id.as_bytes()) {
            Some(position) => position,
            None => {
                return false;
            },
        };
        proof {
            self.services.lemma_positions();
            assert(self.entry_wf(service_id@));
            self.services@[service_id@].dynamic_config.lemma_registries_wf();
        }
        let dynamic_config = &self.services.value(position).dynamic_config;
        let is_event: bool = dynamic_config.has_event_pattern();
        let fits: bool = match kind {
            PortKind::Publisher | PortKind::Subscriber => !is_event,
            PortKind::Notifier | PortKind::Listener => is_event,
        };
        if !fits {
            return false;
        }
        proof {
            self.lemma_registry(service_id@, kind);
        }
        let has_room: bool = match kind {
            PortKind::Publisher => dynamic_config.publish_subscribe().has_free_publisher_slot(),
            PortKind::Subscriber => dynamic_config.publish_subscribe().has_free_subscriber_slot(),
            PortKind::Notifier => dynamic_config.event().has_free_notifier_slot(),
            PortKind::Listener => dynamic_config.event().has_free_listener_slot(),
        };
        has_room && dynamic_config.can_increment_reference_counter()
    }

    /// Returns true if the registry of the given kind of the service with
    /// the given id exists and has a free slot.
    pub fn has_free_port_slot(&self, service_id: &ServiceName, kind: PortKind) -> (free: bool)
        requires
            self.wf(),
        ensures
            free == (self.has_registry(service_id@, kind) && self.next_free_slot(service_id@, kind).is_some()),
    {
        let position = match self.services.find(service_id.as_bytes()) {
            Some(position) => position,
            None => {
                return false;
            },
        };
        proof {
            self.services.lemma_positions();
            assert(self.entry_wf(service_id@));
            self.services@[service_id@].dynamic_config.lemma_registries_wf();
        }
        let dynamic_config = &self.services.value(position).dynamic_config;
        let is_event: bool = dynamic_config.has_event_pattern();
        let fits: bool = match kind {
            PortKind::Publisher | PortKind::Subscriber => !is_event,
            PortKind::Notifier | PortKind::Listener => is_event,
        };
        if !fits {
            return false;
        }
        proof {
            self.lemma_registry(service_id@, kind);
        }
        match kind {
            PortKind::Publisher => dynamic_config.publish_subscribe().has_free_publisher_slot(),
            PortKind::Subscriber => dynamic_config.publish_subscribe().has_free_subscriber_slot(),
            PortKind::Notifier => dynamic_config.event().has_free_notifier_slot(),
            PortKind::Listener => dynamic_config.event().has_free_listener_slot(),
        }
    }

    /// Returns true if the service with the given id exists and can
    /// have another holder.
    pub fn can_have_more_holders(&self, service_id: &ServiceName) -> (possible: bool)
        requires
            self.wf(),
        ensures
            possible == (self.has_service(service_id@) && spec_can_increment(self.holders(service_id@))),
    {
        match self.services.find(service_id.as_bytes()) {
            Some(position) => {
                proof {
                    self.services.lemma_positions();
                }
                self.services.value(position).dynamic_config.can_increment_reference_counter()
            },
            None => false,
        }
    }

    /// Takes in another holder of the service with the given id and
    /// registers it as the port with the given identity in the registry of
    /// the given kind. Returns the guard of the slot of the port, or
    /// [`None`], changing nothing, when the service cannot take the port.
    pub fn take_port(&mut self, service_id: &ServiceName, kind: PortKind, id: u128) -> (index: Option<
        UniqueIndex,
    >)
        requires
            old(self).wf(),
        ensures
            final(self).wf(),
            final(self).same_transport(old(self)),
            final(self).same_layout(old(self)),
            final(self).file_system() == old(self).file_system(),
            final(self).same_services_except(old(self), service_id@),
            index.is_some() == (old(self).has_registry(service_id@, kind) && old(self).next_free_slot(
                service_id@,
                kind,
            ).is_some() && spec_can_increment(old(self).holders(service_id@))),
            index.is_none() ==> final(self).services() == old(self).services(),
            index.is_some() ==> Some(index.unwrap().spec_value()) == old(self).next_free_slot(
                service_id@,
                kind,
            ) && final(self).has_registry(service_id@, kind) && final(self).registry(service_id@, kind)
                == old(self).registry(service_id@, kind).update(
                index.unwrap().spec_value() as int,
                Some(id),
            ) && final(self).registry_container(service_id@, Self::other_kind(kind)) == old(self).registry_container(service_id@, Self::other_kind(kind)) && final(self).holders(service_id@)
                == old(self).holders(service_id@) + 1 && final(self).settings(service_id@) == old(self).settings(service_id@),
            index.is_some() ==> final(self).change_counter(service_id@, kind) == old(self).change_counter(service_id@, kind).wrapping_add(1),
            index.is_some() ==> index.unwrap().spec_value() < old(self).registry(
                service_id@,
                kind,
            ).len(),
            index.is_some() ==> final(self).registry(service_id@, Self::other_kind(kind)) == old(self).registry(service_id@, Self::other_kind(kind)),
    {
        if !self.can_take_port(service_id, kind) {
            return None;
        }
        let acquired = self.acquire_service(service_id);
        assert(acquired.is_ok());
        let ghost holding = *self;
        proof {
            assert(holding.registry_container(service_id@, kind) == old(self).registry_container(
                service_id@,
                kind,
            ));
        }
        let index = self.add_port(service_id, kind, id);
        proof {
            assert(index.is_some());
            assert(self.services().remove(service_id@) =~= old(self).services().remove(service_id@));
            let other = Self::other_kind(kind);
            assert(holding.registry_container(service_id@, other) == old(self).registry_container(
                service_id@,
                other,
            ));
            old(self).lemma_registry(service_id@, other);
            holding.lemma_registry(service_id@, other);
            self.lemma_registry(service_id@, other);
        }
        index
    }

    /// True if `after` is the host after a holder of the service with the
    /// given id has given up the port in `slot` of the registry of the
    /// given kind, and `taken_down` tells whether the service was taken
    /// down with it: the port leaves its registry, which counts as a
    /// change of the registry, and the service has one holder less. The
    /// service is taken down when it has no holder left.
    pub open spec fn has_dropped_port(
        before: &Host,
        after: &Host,
        service_id: Seq<u8>,
        kind: PortKind,
        slot: u32,
        taken_down: bool,
    ) -> bool {
        let occupied = slot < before.registry(service_id, kind).len() && before.registry(
            service_id,
            kind,
        )[slot as int].is_some();
        &&& after.same_services_except(before, service_id)
        &&& taken_down == (before.has_service(service_id) && before.holders(service_id) == 1)
        &&& taken_down ==> !after.has_service(service_id)
        &&& !before.has_service(service_id) ==> after.services() == before.services()
        &&& before.has_service(service_id) && !taken_down ==> {
            &&& after.has_service(service_id)
            &&& after.holders(service_id) == before.holders(service_id) - 1
            &&& after.settings(service_id) == before.settings(service_id)
            &&& after.has_registry(service_id, kind) == before.has_registry(service_id, kind)
            &&& before.has_registry(service_id, kind) ==> {
                &&& after.registry_container(service_id, Self::other_kind(kind))
                    == before.registry_container(service_id, Self::other_kind(kind))
                &&& after.registry(service_id, kind) == (if occupied {
                    before.registry(service_id, kind).update(slot as int, None)
                } else {
                    before.registry(service_id, kind)
                })
                &&& after.change_counter(service_id, kind) == (if occupied {
                    before.change_counter(service_id, kind).wrapping_add(1)
                } else {
                    before.change_counter(service_id, kind)
                })
            }
        }
    }

    /// Removes the port in the slot of `index` from the registry of the
    /// given kind of the service with the given id and releases the port
    /// as a holder of the service. Returns true if the service was taken
    /// down.
    pub fn drop_port(&mut self, service_id: &ServiceName, kind: PortKind, index: UniqueIndex) -> (taken_down:
        bool)
        requires
            old(self).wf(),
        ensures
            final(self).wf(),
            final(self).same_transport(old(self)),
            final(self).same_layout(old(self)),
            final(self).same_services_except(old(self), service_id@),
            taken_down == (old(self).has_service(service_id@) && old(self).holders(service_id@) == 1),
            taken_down ==> !final(self).has_service(service_id@),
            !old(self).has_service(service_id@) ==> final(self).services() == old(self).services(),
            old(self).has_service(service_id@) && !taken_down ==> final(self).has_service(service_id@)
                && final(self).holders(service_id@) == old(self).holders(service_id@) - 1 && final(self).settings(service_id@) == old(self).settings(service_id@) && final(self).has_registry(service_id@, kind)
                == old(self).has_registry(service_id@, kind) && (old(self).has_registry(service_id@, kind)
                ==> final(self).registry_container(service_id@, Self::other_kind(kind)) == old(self).registry_container(service_id@, Self::other_kind(kind)) && final(self).registry(
                service_id@,
                kind,
            ) == (if index.spec_value() < old(self).registry(service_id@, kind).len() && old(self).registry(service_id@, kind)[index.spec_value() as int].is_some() {
                old(self).registry(service_id@, kind).update(index.spec_value() as int, None)
            } else {
                old(self).registry(service_id@, kind)
            })),
            old(self).has_registry(service_id@, kind) && !taken_down ==> final(self).change_counter(
                service_id@,
                kind,
            ) == (if index.spec_value() < old(self).registry(service_id@, kind).len() && old(self).registry(service_id@, kind)[index.spec_value() as int].is_some() {
                old(self).change_counter(service_id@, kind).wrapping_add(1)
            } else {
                old(self).change_counter(service_id@, kind)
            }),
            Self::has_dropped_port(
                old(self),
                final(self),
                service_id@,
                kind,
                index.spec_value(),
                taken_down,
            ),
    {
        let _ = self.remove_port(service_id, kind, index);
        let ghost removed = *self;
        proof {
            removed.lemma_services();
            old(self).lemma_services();
        }
        let taken_down = self.release_service(service_id);
        proof {
            assert(removed.services().remove(service_id@) == old(self).services().remove(service_id@));
            if taken_down {
                assert(self.services().remove(service_id@) =~= removed.services().remove(service_id@));
            } else {
                assert(self.services().remove(service_id@) == removed.services().remove(service_id@));
            }
        }
        taken_down
    }

    /// Returns a snapshot of the registry of the given kind of the service
    /// with the given id, or [`None`] when there is no such registry.
    pub fn port_snapshot(&self, service_id: &ServiceName, kind: PortKind) -> (state: Option<
        ContainerState<u128>,
    >)
        requires
            self.wf(),
        ensures
            state.is_some() == self.has_registry(service_id@, kind),
            state.is_some() ==> state.unwrap()@ == self.registry(service_id@, kind)
                && state.unwrap().observed_change_counter() == self.registry_container(
                service_id@,
                kind,
            ).spec_change_counter(),
    {
        let position = match self.services.find(service_id.as_bytes()) {
            Some(position) => position,
            None => {
                return None;
            },
        };
        proof {
            self.services.lemma_positions();
            assert(self.entry_wf(service_id@));
            self.services@[service_id@].dynamic_config.lemma_registries_wf();
        }
        let dynamic_config = &self.services.value(position).dynamic_config;
        let is_event: bool = dynamic_config.has_event_pattern();
        match kind {
            PortKind::Publisher => if is_event {
                None
            } else {
                Some(dynamic_config.publish_subscribe().publisher_state())
            },
            PortKind::Subscriber => if is_event {
                None
            } else {
                Some(dynamic_config.publish_subscribe().subscriber_state())
            },
            PortKind::Notifier => if is_event {
                Some(dynamic_config.event().notifier_state())
            } else {
                None
            },
            PortKind::Listener => if is_event {
                Some(dynamic_config.event().listener_state())
            } else {
                None
            },
        }
    }

    /// Brings a snapshot of the registry of the given kind of the service
    /// with the given id up to date. Returns true when the registry has
    /// changed since the snapshot was taken, false when it has not, and
    /// [`None`], leaving the snapshot as it is, when there is no such
    /// registry.
    pub fn update_port_snapshot(
        &self,
        service_id: &ServiceName,
        kind: PortKind,
        state: &mut ContainerState<u128>,
    ) -> (changed: Option<bool>)
        requires
            self.wf(),
        ensures
            changed.is_some() == self.has_registry(service_id@, kind),
            changed.is_none() ==> *final(state) == *old(state),
            changed.is_some() ==> changed.unwrap() == (old(state).observed_change_counter()
                != self.registry_container(service_id@, kind).spec_change_counter()) && final(state).observed_change_counter() == self.registry_container(
                service_id@,
                kind,
            ).spec_change_counter(),
            changed == Some(true) ==> final(state)@ == self.registry(service_id@, kind),
            changed == Some(false) ==> final(state)@ == old(state)@,
    {
        let position = match self.services.find(service_id.as_bytes()) {
            Some(position) => position,
            None => {
                return None;
            },
        };
        proof {
            self.services.lemma_positions();
            assert(self.entry_wf(service_id@));
            self.services@[service_id@].dynamic_config.lemma_registries_wf();
        }
        let dynamic_config = &self.services.value(position).dynamic_config;
        let is_event: bool = dynamic_config.has_event_pattern();
        let fits: bool = match kind {
            PortKind::Publisher | PortKind::Subscriber => !is_event,
            PortKind::Notifier | PortKind::Listener => is_event,
        };
        if !fits {
            return None;
        }
        proof {
            self.lemma_registry(service_id@, kind);
        }
        match kind {
            PortKind::Publisher => Some(
                dynamic_config.publish_subscribe().update_publisher_state(state),
            ),
            PortKind::Subscriber => Some(
                dynamic_config.publish_subscribe().update_subscriber_state(state),
            ),
            PortKind::Notifier => Some(dynamic_config.event().update_notifier_state(state)),
            PortKind::Listener => Some(dynamic_config.event().update_listener_state(state)),
        }
    }

    /// A host that has the services of another one but for one, which has
    /// the same registries, holders and settings on both, has the same
    /// services.
    pub proof fn lemma_same_services(&self, other: &Host, service_id: Seq<u8>)
        requires
            self.same_services_except(other, service_id),
            self.has_service(service_id) == other.has_service(service_id),
            self.has_service(service_id) ==> self.dynamic(service_id).spec_messaging_pattern()
                == other.dynamic(service_id).spec_messaging_pattern() && self.holders(service_id)
                == other.holders(service_id) && self.settings(service_id) == other.settings(service_id),
        ensures
            self.services() == other.services(),
    {
        if self.has_service(service_id) {
            self.services()[service_id].lemma_same(&other.services()[service_id]);
        }
        crate::cal::registry::lemma_same_map(self.services(), other.services(), service_id);
    }

    /// What the public descriptions of a host stand for.
    pub(crate) proof fn lemma_accessors(&self)
        ensures
            self.file_system() == self.file_system,
            self.services() == self.services@,
            self.segments() == self.segments@,
            self.connections() == self.connections@,
            self.events() == self.events@,
            self.ids() == self.ids,
            self.static_directory() == self.static_storage.spec_path_hint(),
            forall|service_id: Seq<u8>| #[trigger]
                self.static_path(service_id) == self.static_storage.spec_path_for(service_id),
            self.wf() ==> self.segments.wf() && self.connections.wf() && self.events.wf()
                && self.file_system.wf(),
    {
    }

    /// A host that differs from a well-formed host in its segments,
    /// connections, channels and source of identities only, which are
    /// well-formed, is well-formed.
    pub(crate) proof fn lemma_transport_changed(&self, before: &Host)
        requires
            before.wf(),
            self.file_system == before.file_system,
            self.services == before.services,
            self.static_storage == before.static_storage,
            self.segments.wf(),
            self.connections.wf(),
            self.events.wf(),
        ensures
            self.wf(),
            self.services() == before.services(),
            self.file_system() == before.file_system(),
            self.same_layout(before),
    {
        assert forall|service_id: Seq<u8>| #[trigger]
            self.services@.contains_key(service_id) <==> is_unlocked(
                &self.file_system,
                self.static_storage.spec_path_for(service_id),
            ) by {
            assert(before.services@.contains_key(service_id) <==> is_unlocked(
                &before.file_system,
                before.static_storage.spec_path_for(service_id),
            ));
        }
        assert forall|service_id: Seq<u8>| #[trigger]
            self.services@.contains_key(service_id) implies self.entry_wf(service_id) by {
            assert(before.entry_wf(service_id));
        }
    }

    /// Hands out the identity of the next port.
    pub fn next_port_id(&mut self) -> (id: u128)
        requires
            old(self).wf(),
        ensures
            final(self).wf(),
            id == old(self).ids().spec_next(),
            final(self).ids().spec_process_id() == old(self).ids().spec_process_id(),
            final(self).ids().spec_startup_time() == old(self).ids().spec_startup_time(),
            final(self).ids().spec_counter() == old(self).ids().spec_counter().wrapping_add(1),
            final(self).services() == old(self).services(),
            final(self).file_system() == old(self).file_system(),
            final(self).segments() == old(self).segments(),
            final(self).connections() == old(self).connections(),
            final(self).events() == old(self).events(),
            final(self).same_layout(old(self)),
    {
        let id = self.ids.next();
        proof {
            self.lemma_transport_changed(old(self));
        }
        id
    }

    /// The files of different services lie at different paths.
    proof fn lemma_path_differs(&self, first: Seq<u8>, second: Seq<u8>)
        requires
            first != second,
        ensures
            self.static_storage.spec_path_for(first) != self.static_storage.spec_path_for(second),
    {
        if self.static_storage.spec_path_for(first) == self.static_storage.spec_path_for(second) {
            lemma_path_for_is_injective(
                self.static_storage.spec_path_hint(),
                self.static_storage.spec_suffix(),
                first,
                second,
            );
        }
    }

    /// A host whose files and services are those of a well-formed host is
    /// well-formed in what concerns its services.
    proof fn lemma_other_services_untouched(&self, before: &Host, path: Seq<u8>)
        requires
            before.wf(),
            self.file_system.wf(),
            self.file_system.files() == before.file_system.files(),
            self.services == before.services,
            self.static_storage == before.static_storage,
            self.segments == before.segments,
            self.connections == before.connections,
            self.events == before.events,
        ensures
            self.wf(),
    {
        assert forall|service_id: Seq<u8>| #[trigger]
            self.services@.contains_key(service_id) <==> is_unlocked(
                &self.file_system,
                self.static_storage.spec_path_for(service_id),
            ) by {
            assert(before.services@.contains_key(service_id) <==> is_unlocked(
                &before.file_system,
                before.static_storage.spec_path_for(service_id),
            ));
        }
        assert forall|service_id: Seq<u8>| #[trigger]
            self.services@.contains_key(service_id) implies self.entry_wf(service_id) by {
            assert(before.entry_wf(service_id));
        }
    }
}

} // verus!
