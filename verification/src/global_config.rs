//! The settings that apply wherever nothing else is asked for.

use crate::cal::registry::copy_name;
use crate::service::static_config::event as event_settings;
use crate::service::static_config::publish_subscribe as publish_subscribe_settings;
use vstd::prelude::*;

verus! {

/// The directory of the services below the root path: `services`.
pub open spec fn spec_default_service_directory() -> Seq<u8> {
    seq![115u8, 101u8, 114u8, 118u8, 105u8, 99u8, 101u8, 115u8]
}

/// The root path: `/tmp/elkodon/`.
pub open spec fn spec_default_root_path() -> Seq<u8> {
    seq![47u8, 116u8, 109u8, 112u8, 47u8, 101u8, 108u8, 107u8, 111u8, 100u8, 111u8, 110u8, 47u8]
}

/// The suffix of the files that hold the settings of a service:
/// `.service`.
pub open spec fn spec_default_static_config_storage_suffix() -> Seq<u8> {
    seq![46u8, 115u8, 101u8, 114u8, 118u8, 105u8, 99u8, 101u8]
}

/// Where the services keep what describes them.
#[derive(Debug)]
pub struct Service {
    pub directory: Vec<u8>,
    pub static_config_storage_suffix: Vec<u8>,
}

/// The settings that hold for everything on a host.
#[derive(Debug)]
pub struct Global {
    pub root_path: Vec<u8>,
    pub service: Service,
}

/// The settings of a publish subscribe service unless others are asked
/// for.
#[derive(Debug, Clone, Copy, PartialEq, Eq, Structural)]
pub struct PublishSubscribe {
    pub max_subscribers: usize,
    pub max_publishers: usize,
    pub publisher_history_size: usize,
    pub subscriber_max_buffer_size: usize,
    pub subscriber_max_borrowed_samples: usize,
    pub publisher_max_loaned_samples: usize,
    pub enable_safe_overflow: bool,
}

/// The settings of an event service unless others are asked for.
#[derive(Debug, Clone, Copy, PartialEq, Eq, Structural)]
pub struct Event {
    pub max_listeners: usize,
    pub max_notifiers: usize,
    pub event_id_max_value: usize,
}

/// The settings of the services unless others are asked for.
#[derive(Debug, Clone, Copy, PartialEq, Eq, Structural)]
pub struct Defaults {
    pub publish_subscribe: PublishSubscribe,
    pub event: Event,
}

/// All settings.
#[derive(Debug)]
pub struct Entries {
    pub global: Global,
    pub defaults: Defaults,
}

/// The number of samples that a publisher can loan unless another one is
/// asked for.
pub const DEFAULT_PUBLISHER_MAX_LOANED_SAMPLES: usize = 2;

impl Entries {
    /// Creates the settings that are built in.
    pub fn default() -> (entries: Self)
        ensures
            entries.global.root_path@ == spec_default_root_path(),
            entries.global.service.directory@ == spec_default_service_directory(),
            entries.global.service.static_config_storage_suffix@
                == spec_default_static_config_storage_suffix(),
            entries.defaults.event.max_listeners == event_settings::DEFAULT_MAX_LISTENERS,
            entries.defaults.event.max_notifiers == event_settings::DEFAULT_MAX_NOTIFIERS,
            entries.defaults.event.event_id_max_value
                == event_settings::DEFAULT_EVENT_ID_MAX_VALUE,
            entries.defaults.publish_subscribe.max_subscribers
                == publish_subscribe_settings::DEFAULT_MAX_SUBSCRIBERS,
            entries.defaults.publish_subscribe.max_publishers
                == publish_subscribe_settings::DEFAULT_MAX_PUBLISHERS,
            entries.defaults.publish_subscribe.publisher_history_size
                == publish_subscribe_settings::DEFAULT_HISTORY_SIZE,
            entries.defaults.publish_subscribe.subscriber_max_buffer_size
                == publish_subscribe_settings::DEFAULT_SUBSCRIBER_MAX_BUFFER_SIZE,
            entries.defaults.publish_subscribe.subscriber_max_borrowed_samples
                == publish_subscribe_settings::DEFAULT_SUBSCRIBER_MAX_BORROWED_SAMPLES,
            entries.defaults.publish_subscribe.publisher_max_loaned_samples
                == DEFAULT_PUBLISHER_MAX_LOANED_SAMPLES,
            entries.defaults.publish_subscribe.enable_safe_overflow
                == publish_subscribe_settings::DEFAULT_ENABLE_SAFE_OVERFLOW,
    {
        let root_path: Vec<u8> = vec![
            47u8, 116u8, 109u8, 112u8, 47u8, 101u8, 108u8, 107u8, 111u8, 100u8, 111u8, 110u8, 47u8,
        ];
        let directory: Vec<u8> = vec![115u8, 101u8, 114u8, 118u8, 105u8, 99u8, 101u8, 115u8];
        let suffix: Vec<u8> = vec![46u8, 115u8, 101u8, 114u8, 118u8, 105u8, 99u8, 101u8];
        assert(root_path@ =~= spec_default_root_path());
        assert(directory@ =~= spec_default_service_directory());
        assert(suffix@ =~= spec_default_static_config_storage_suffix());
        Entries {
            global: Global {
                root_path,
                service: Service { directory, static_config_storage_suffix: suffix },
            },
            defaults: Defaults {
                publish_subscribe: PublishSubscribe {
                    max_subscribers: publish_subscribe_settings::DEFAULT_MAX_SUBSCRIBERS,
                    max_publishers: publish_subscribe_settings::DEFAULT_MAX_PUBLISHERS,
                    publisher_history_size: publish_subscribe_settings::DEFAULT_HISTORY_SIZE,
                    subscriber_max_buffer_size:
                        publish_subscribe_settings::DEFAULT_SUBSCRIBER_MAX_BUFFER_SIZE,
                    subscriber_max_borrowed_samples:
                        publish_subscribe_settings::DEFAULT_SUBSCRIBER_MAX_BORROWED_SAMPLES,
                    publisher_max_loaned_samples: DEFAULT_PUBLISHER_MAX_LOANED_SAMPLES,
                    enable_safe_overflow: publish_subscribe_settings::DEFAULT_ENABLE_SAFE_OVERFLOW,
                },
                event: Event {
                    max_listeners: event_settings::DEFAULT_MAX_LISTENERS,
                    max_notifiers: event_settings::DEFAULT_MAX_NOTIFIERS,
                    event_id_max_value: event_settings::DEFAULT_EVENT_ID_MAX_VALUE,
                },
            },
        }
    }
}

/// The settings as the services use them.
#[derive(Debug)]
pub struct Config {
    entries: Entries,
}

impl Config {
    /// The settings of the services unless others are asked for.
    pub closed spec fn spec_defaults(&self) -> Defaults {
        self.entries.defaults
    }

    /// The root path.
    pub closed spec fn spec_root_path(&self) -> Seq<u8> {
        self.entries.global.root_path@
    }

    /// The directory of the services below the root path.
    pub closed spec fn spec_service_directory(&self) -> Seq<u8> {
        self.entries.global.service.directory@
    }

    /// The suffix of the files that hold the settings of a service.
    pub closed spec fn spec_static_config_storage_suffix(&self) -> Seq<u8> {
        self.entries.global.service.static_config_storage_suffix@
    }

    /// The built-in settings of a publish subscribe service.
    pub open spec fn spec_default_publish_subscribe() -> PublishSubscribe {
        PublishSubscribe {
            max_subscribers: publish_subscribe_settings::DEFAULT_MAX_SUBSCRIBERS,
            max_publishers: publish_subscribe_settings::DEFAULT_MAX_PUBLISHERS,
            publisher_history_size: publish_subscribe_settings::DEFAULT_HISTORY_SIZE,
            subscriber_max_buffer_size:
                publish_subscribe_settings::DEFAULT_SUBSCRIBER_MAX_BUFFER_SIZE,
            subscriber_max_borrowed_samples:
                publish_subscribe_settings::DEFAULT_SUBSCRIBER_MAX_BORROWED_SAMPLES,
            publisher_max_loaned_samples: DEFAULT_PUBLISHER_MAX_LOANED_SAMPLES,
            enable_safe_overflow: publish_subscribe_settings::DEFAULT_ENABLE_SAFE_OVERFLOW,
        }
    }

    /// Creates the settings with the given entries.
    pub fn from_entries(entries: &Entries) -> (config: Config)
        ensures
            config.spec_defaults() == entries.defaults,
            config.spec_root_path() == entries.global.root_path@,
            config.spec_service_directory() == entries.global.service.directory@,
            config.spec_static_config_storage_suffix()
                == entries.global.service.static_config_storage_suffix@,
    {
        Config {
            entries: Entries {
                global: Global {
                    root_path: copy_name(&entries.global.root_path),
                    service: Service {
                        directory: copy_name(&entries.global.service.directory),
                        static_config_storage_suffix: copy_name(
                            &entries.global.service.static_config_storage_suffix,
                        ),
                    },
                },
                defaults: entries.defaults,
            },
        }
    }

    /// Creates the settings that are built in.
    pub fn default() -> (config: Config)
        ensures
            config.spec_root_path() == spec_default_root_path(),
            config.spec_service_directory() == spec_default_service_directory(),
            config.spec_static_config_storage_suffix()
                == spec_default_static_config_storage_suffix(),
            config.spec_defaults().event.max_listeners == event_settings::DEFAULT_MAX_LISTENERS,
            config.spec_defaults().event.max_notifiers == event_settings::DEFAULT_MAX_NOTIFIERS,
            config.spec_defaults().publish_subscribe == Self::spec_default_publish_subscribe(),
    {
        Config { entries: Entries::default() }
    }

    /// Returns the settings of the services unless others are asked for.
    pub fn defaults(&self) -> (defaults: Defaults)
        ensures
            defaults == self.spec_defaults(),
    {
        self.entries.defaults
    }

    /// Returns the root path.
    pub fn root_path(&self) -> (path: &Vec<u8>)
        ensures
            path@ == self.spec_root_path(),
    {
        &self.entries.global.root_path
    }

    /// Returns the directory of the services below the root path.
    pub fn service_directory(&self) -> (directory: &Vec<u8>)
        ensures
            directory@ == self.spec_service_directory(),
    {
        &self.entries.global.service.directory
    }

    /// Returns the suffix of the files that hold the settings of a
    /// service.
    pub fn static_config_storage_suffix(&self) -> (suffix: &Vec<u8>)
        ensures
            suffix@ == self.spec_static_config_storage_suffix(),
    {
        &self.entries.global.service.static_config_storage_suffix
    }
}

} // verus!
