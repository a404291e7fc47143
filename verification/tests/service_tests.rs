use elkodon::global_config::{Config, Entries};
use elkodon::host::{Host, PortKind, ServiceCreateError, ServiceOpenError};
use elkodon::port::port_identifiers::{connection_name, id_name, UniqueSystemId};
use elkodon::port::publisher::PublisherCreateError;
use elkodon::port::subscriber::ReceiveError;
use elkodon::port::{DegrationAction, DegrationCallback};
use elkodon::port::port_identifiers::{UniquePublisherId, UniqueSubscriberId};
use elkodon::port::details::publisher_connections::ConnectionFailure;
use elkodon::cal::shared_memory::SharedMemoryOpenError;
use elkodon::service::builder::event::{EventCreateError, EventOpenOrCreateError};
use elkodon::service::builder::publish_subscribe::{PayloadType, PublishSubscribeOpenOrCreateError, PublishSubscribeOpenError};
use elkodon::service::dynamic_config::event::DynamicConfig as EventDynamicConfig;
use elkodon::service::dynamic_config::{
    DecrementReferenceCounterResult, DynamicConfig, MessagingPattern,
};
use elkodon::service::service_name::{service_id, ServiceName, ServiceNameError};
use elkodon::service::static_config::event::StaticConfig as EventStaticConfig;
use elkodon::service::static_config::publish_subscribe::StaticConfig as PublishSubscribeStaticConfig;
use elkodon::service::static_config::{MessagingPattern as StaticPattern, StaticConfig};
use elkodon::service::Service;

fn name(value: &str) -> ServiceName {
    ServiceName::new(&value.as_bytes().to_vec()).unwrap()
}

#[test]
fn service_name_must_be_printable_and_bounded() {
    assert!(ServiceName::new(&b"My/Funk/ServiceName".to_vec()).is_ok());
    assert_eq!(
        ServiceName::new(&vec![]).err(),
        Some(ServiceNameError::InvalidContent)
    );
    assert_eq!(
        ServiceName::new(&b"with\nnewline".to_vec()).err(),
        Some(ServiceNameError::InvalidContent)
    );
    assert_eq!(
        ServiceName::new(&vec![b'a'; 256]).err(),
        Some(ServiceNameError::ExceedsMaximumLength)
    );
    assert!(ServiceName::new(&vec![b'a'; 255]).is_ok());
}

#[test]
fn port_identities_are_made_of_process_time_and_counter() {
    let mut sut = UniqueSystemId::new(0xAABBCCDD, 0x1122334455667788);
    assert_eq!(sut.next(), 0xAABBCCDD_11223344_55667788_00000000u128);
    assert_eq!(sut.next(), 0xAABBCCDD_11223344_55667788_00000001u128);
    assert_eq!(id_name(0x0102).len(), 16);
    assert_eq!(id_name(0x0102)[0], 2);
    assert_eq!(id_name(0x0102)[1], 1);
    let joined = connection_name(1, 2);
    assert_eq!(joined.len(), 32);
    assert_eq!((joined[0], joined[16]), (1, 2));
}

#[test]
fn static_config_is_restored_from_its_stored_form() {
    let event = StaticConfig {
        messaging_pattern: StaticPattern::Event(EventStaticConfig {
            max_notifiers: 6,
            max_listeners: 4,
            event_id_max_value: 255,
        }),
    };
    let stored = event.serialize();
    assert_eq!(stored.len(), 25);
    assert_eq!(&stored[0..9], &[1, 6, 0, 0, 0, 0, 0, 0, 0]);
    let restored = StaticConfig::deserialize(&stored).unwrap();
    assert_eq!(
        restored.event(),
        Some(&EventStaticConfig {
            max_notifiers: 6,
            max_listeners: 4,
            event_id_max_value: 255,
        })
    );
    assert!(restored.publish_subscribe().is_none());

    let mut settings = PublishSubscribeStaticConfig::new(&b"u64".to_vec(), 8, 8);
    settings.max_publishers = 3;
    settings.enable_safe_overflow = false;
    let publish_subscribe = StaticConfig {
        messaging_pattern: StaticPattern::PublishSubscribe(settings),
    };
    let stored = publish_subscribe.serialize();
    assert_eq!(stored.len(), 1 + 64 + 3);
    let restored = StaticConfig::deserialize(&stored).unwrap();
    let restored = restored.publish_subscribe().unwrap();
    assert_eq!(restored.max_publishers, 3);
    assert_eq!(restored.max_subscribers, 8);
    assert_eq!(restored.enable_safe_overflow, false);
    assert_eq!(restored.type_size, 8);
    assert_eq!(restored.payload_type, b"u64".to_vec());

    assert!(StaticConfig::deserialize(&vec![]).is_none());
    assert!(StaticConfig::deserialize(&vec![7; 25]).is_none());
    assert!(StaticConfig::deserialize(&vec![1; 24]).is_none());
    assert!(StaticConfig::deserialize(&vec![0; 64]).is_none());
    let mut broken = stored.clone();
    broken[41] = 2;
    assert!(StaticConfig::deserialize(&broken).is_none());
}

#[test]
fn reference_counter_marks_the_service_for_destruction_at_zero() {
    let mut sut = DynamicConfig::new_uninit(MessagingPattern::Event(EventDynamicConfig::new(2, 2)));
    assert!(!sut.is_marked_for_destruction());
    assert_eq!(sut.increment_reference_counter(), Ok(()));
    assert_eq!(
        sut.decrement_reference_counter(),
        DecrementReferenceCounterResult::HasOwners
    );
    assert_eq!(
        sut.decrement_reference_counter(),
        DecrementReferenceCounterResult::NoMoreOwners
    );
    assert!(sut.is_marked_for_destruction());
    assert_eq!(sut.increment_reference_counter(), Err(()));
    assert!(sut.has_event_pattern());
    assert_eq!(sut.event().number_of_listeners(), 0);
}

#[test]
fn host_creates_reads_and_releases_services() {
    let mut host = Host::new(1, 2, &Config::default(), 30);
    let settings = StaticConfig {
        messaging_pattern: StaticPattern::Event(EventStaticConfig {
            max_notifiers: 2,
            max_listeners: 2,
            event_id_max_value: 9,
        }),
    };
    assert_eq!(
        host.read_settings(&name("svc")).err(),
        Some(ServiceOpenError::DoesNotExist)
    );
    assert_eq!(
        host.acquire_service(&name("svc")),
        Err(ServiceOpenError::DoesNotExist)
    );
    assert_eq!(host.create_service(&name("svc"), &settings), Ok(()));
    assert_eq!(
        host.create_service(&name("svc"), &settings),
        Err(ServiceCreateError::AlreadyExists)
    );
    // the stored form of the settings takes 25 of the 30 bytes
    assert_eq!(
        host.create_service(&name("other"), &settings),
        Err(ServiceCreateError::UnableToCreateStaticServiceInformation)
    );
    assert!(!host.does_service_exist(&name("other")));
    let too_large = StaticConfig {
        messaging_pattern: StaticPattern::Event(EventStaticConfig {
            max_notifiers: usize::MAX,
            max_listeners: 2,
            event_id_max_value: 9,
        }),
    };
    assert_eq!(
        host.create_service(&name("large"), &too_large),
        Err(ServiceCreateError::ExceedsSupportedCapacity)
    );

    assert!(host.read_settings(&name("svc")).unwrap().event().is_some());
    assert_eq!(host.acquire_service(&name("svc")), Ok(()));
    assert!(host.can_have_more_holders(&name("svc")));
    assert!(host.has_free_port_slot(&name("svc"), PortKind::Listener));
    assert!(!host.has_free_port_slot(&name("svc"), PortKind::Publisher));
    assert!(host.can_take_port(&name("svc"), PortKind::Notifier));
    assert!(host.port_snapshot(&name("svc"), PortKind::Subscriber).is_none());

    let guard = host.take_port(&name("svc"), PortKind::Listener, 99).unwrap();
    assert_eq!(guard.value(), 0);
    let snapshot = host.port_snapshot(&name("svc"), PortKind::Listener).unwrap();
    assert_eq!(snapshot.get(0), Some(99));
    assert!(!host.drop_port(&name("svc"), PortKind::Listener, guard));

    assert!(!host.release_service(&name("svc")));
    assert!(host.release_service(&name("svc")));
    assert!(!host.release_service(&name("svc")));
    assert_eq!(host.create_service(&name("other"), &settings), Ok(()));
    assert_eq!(host.list_services(), vec![b"other".to_vec()]);
}

#[test]
fn open_or_create_creates_once_and_opens_afterwards() {
    let mut host = Host::new(1, 2, &Config::default(), 1024);
    let creator = Service::new(&name("svc"))
        .event()
        .max_listeners(3)
        .open_or_create(&mut host)
        .unwrap();
    assert_eq!(creator.max_supported_listeners(), 3);
    let opener = Service::new(&name("svc"))
        .event()
        .open_or_create(&mut host)
        .unwrap();
    assert_eq!(opener.max_supported_listeners(), 3);
    assert_eq!(
        Service::new(&name("svc"))
            .event()
            .max_listeners(4)
            .open_or_create(&mut host)
            .err(),
        Some(EventOpenOrCreateError::EventOpenError(
            elkodon::service::builder::event::EventOpenError::DoesNotSupportRequestedAmountOfListeners
        ))
    );
    assert!(!creator.close(&mut host));
    assert!(opener.close(&mut host));

    let mut small = Host::new(1, 2, &Config::default(), 3);
    assert_eq!(
        Service::new(&name("svc"))
            .event()
            .open_or_create(&mut small)
            .err(),
        Some(EventOpenOrCreateError::EventCreateError(
            EventCreateError::UnableToCreateStaticServiceInformation
        ))
    );

    let payload = PayloadType {
        name: b"u64".to_vec(),
        size: 8,
        alignment: 8,
    };
    let mut host = Host::new(1, 2, &Config::default(), 1024);
    let first = Service::new(&name("svc"))
        .publish_subscribe(&payload)
        .open_or_create(&mut host);
    assert!(first.is_ok());
    let second = Service::new(&name("svc"))
        .publish_subscribe(&payload)
        .enable_safe_overflow(false)
        .open_or_create(&mut host);
    assert_eq!(
        second.err(),
        Some(PublishSubscribeOpenOrCreateError::PublishSubscribeOpenError(
            PublishSubscribeOpenError::IncompatibleOverflowBehavior
        ))
    );
}

#[test]
fn settings_of_the_host_come_from_the_global_config() {
    let mut entries = Entries::default();
    entries.global.root_path = b"/var/run/".to_vec();
    entries.global.service.directory = b"svc".to_vec();
    entries.global.service.static_config_storage_suffix = b".cfg".to_vec();
    entries.defaults.publish_subscribe.max_subscribers = 5;
    let config = Config::from_entries(&entries);
    assert_eq!(config.root_path(), &b"/var/run/".to_vec());
    assert_eq!(config.service_directory(), &b"svc".to_vec());
    assert_eq!(config.static_config_storage_suffix(), &b".cfg".to_vec());
    assert_eq!(config.defaults().publish_subscribe.max_subscribers, 5);
    assert_eq!(config.defaults().event.max_listeners, 2);

    let mut host = Host::new(1, 2, &config, 1024);
    let payload = PayloadType {
        name: b"u64".to_vec(),
        size: 8,
        alignment: 8,
    };
    let service = Service::new(&name("svc"))
        .publish_subscribe_with_custom_config(&config, &payload)
        .create(&mut host)
        .unwrap();
    assert_eq!(service.static_config().max_subscribers, 5);
    assert_eq!(service.static_config().max_publishers, 2);
}

#[test]
fn publisher_without_room_for_its_data_segment_is_refused() {
    let mut host = Host::new(1, 2, &Config::default(), 1024);
    let payload = PayloadType {
        name: b"huge".to_vec(),
        size: usize::MAX / 2,
        alignment: 8,
    };
    let service = Service::new(&name("svc"))
        .publish_subscribe(&payload)
        .create(&mut host)
        .unwrap();
    assert_eq!(
        service.publisher().create(&mut host).err(),
        Some(PublisherCreateError::UnableToCreateDataSegment)
    );

    let unaligned = PayloadType {
        name: b"odd".to_vec(),
        size: 8,
        alignment: 0,
    };
    let service = Service::new(&name("odd"))
        .publish_subscribe(&unaligned)
        .create(&mut host)
        .unwrap();
    assert_eq!(
        service.publisher().create(&mut host).err(),
        Some(PublisherCreateError::UnableToCreateDataSegment)
    );
}

#[test]
fn degration_callback_selects_the_action_per_publisher() {
    let sut = DegrationCallback::new(DegrationAction::Warn)
        .on_publisher(UniquePublisherId { value: 1 }, DegrationAction::Ignore)
        .on_publisher(UniquePublisherId { value: 2 }, DegrationAction::Fail)
        .on_publisher(UniquePublisherId { value: 1 }, DegrationAction::Fail);
    let subscriber = UniqueSubscriberId { value: 9 };
    assert_eq!(
        sut.call(UniquePublisherId { value: 1 }, subscriber),
        DegrationAction::Fail
    );
    assert_eq!(
        sut.call(UniquePublisherId { value: 2 }, subscriber),
        DegrationAction::Fail
    );
    assert_eq!(
        sut.call(UniquePublisherId { value: 3 }, subscriber),
        DegrationAction::Warn
    );
}

#[test]
fn subscriber_fails_on_unreachable_publisher_when_the_callback_says_so() {
    let mut host = Host::new(1, 2, &Config::default(), 1024);
    let payload = PayloadType {
        name: b"u64".to_vec(),
        size: 8,
        alignment: 8,
    };
    let service = Service::new(&name("svc"))
        .publish_subscribe(&payload)
        .create(&mut host)
        .unwrap();
    let mut subscriber = service.subscriber().create(&mut host).unwrap();

    // a publisher that is registered but has no data segment
    let guard = host
        .take_port(&service_id(&name("svc")), PortKind::Publisher, 4711)
        .unwrap();
    assert_eq!(subscriber.receive(&mut host).unwrap().is_none(), true);
    assert_eq!(subscriber.number_of_publishers(), 0);

    subscriber.set_degration_callback(Some(DegrationCallback::new(DegrationAction::Fail)));
    let publisher = service.publisher().create(&mut host).unwrap();
    assert_eq!(
        subscriber.receive(&mut host).err(),
        Some(ReceiveError::ConnectionFailure(
            ConnectionFailure::UnableToMapPublishersDataSegment(
                SharedMemoryOpenError::DoesNotExist
            )
        ))
    );

    subscriber.set_degration_callback(Some(
        DegrationCallback::new(DegrationAction::Fail)
            .on_publisher(UniquePublisherId { value: 4711 }, DegrationAction::Ignore),
    ));
    assert!(!host.drop_port(&service_id(&name("svc")), PortKind::Publisher, guard));
    let guard = host
        .take_port(&service_id(&name("svc")), PortKind::Publisher, 4711)
        .unwrap();
    assert_eq!(subscriber.receive(&mut host).unwrap().is_none(), true);
    assert_eq!(subscriber.number_of_publishers(), 1);
    assert_eq!(subscriber.update_connections(&mut host), Ok(()));
    let _ = (guard, publisher);
}

#[test]
fn service_id_is_the_digest_of_the_name() {
    assert_eq!(
        service_id(&name("abc")).as_bytes(),
        &b"a9993e364706816aba3e25717850c26c9cd0d89d".to_vec()
    );
    assert_eq!(
        service_id(&name("My/Funk/ServiceName")).as_bytes().len(),
        40
    );
    assert_ne!(
        service_id(&name("svc")).as_bytes(),
        service_id(&name("other")).as_bytes()
    );
}

#[test]
fn service_is_found_by_the_digest_of_its_name() {
    let mut host = Host::new(1, 2, &Config::default(), 1024);
    let factory = Service::new(&name("abc")).event().create(&mut host).unwrap();
    assert_eq!(factory.name().as_bytes(), &b"abc".to_vec());

    assert!(host.does_service_exist(&service_id(&name("abc"))));
    assert!(!host.does_service_exist(&name("abc")));
    assert_eq!(
        host.list_services(),
        vec![b"a9993e364706816aba3e25717850c26c9cd0d89d".to_vec()]
    );

    assert!(factory.close(&mut host));
    assert!(host.list_services().is_empty());
}

#[test]
fn ports_see_the_ports_that_come_and_go_after_them() {
    let mut host = Host::new(1, 2, &Config::default(), 65536);
    let payload = PayloadType {
        name: b"u64".to_vec(),
        size: 8,
        alignment: 8,
    };
    let service = Service::new(&name("svc"))
        .publish_subscribe(&payload)
        .max_publishers(1)
        .max_subscribers(2)
        .create(&mut host)
        .unwrap();
    let mut publisher = service.publisher().create(&mut host).unwrap();
    let value = 7u64.to_le_bytes().to_vec();
    assert_eq!(publisher.send_copy(&mut host, &value), Ok(0));

    let first = service.subscriber().create(&mut host).unwrap();
    assert_eq!(publisher.send_copy(&mut host, &value), Ok(1));
    let second = service.subscriber().create(&mut host).unwrap();
    assert_eq!(publisher.send_copy(&mut host, &value), Ok(2));

    first.close(&mut host);
    assert_eq!(publisher.send_copy(&mut host, &value), Ok(1));
    second.close(&mut host);
    assert_eq!(publisher.send_copy(&mut host, &value), Ok(0));

    let event = Service::new(&name("events")).event().create(&mut host).unwrap();
    let mut notifier = event.notifier().create(&mut host).unwrap();
    assert_eq!(notifier.notify(&mut host), Ok(0));
    let listener = event.listener().create(&mut host).unwrap();
    assert_eq!(notifier.notify(&mut host), Ok(1));
    listener.close(&mut host);
    assert_eq!(notifier.notify(&mut host), Ok(0));
}
