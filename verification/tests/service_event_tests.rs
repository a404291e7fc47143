use elkodon::global_config::{Config, Entries};
use elkodon::host::Host;
use elkodon::port::event_id::EventId;
use elkodon::service::builder::event::{EventCreateError, EventOpenError};
use elkodon::service::service_name::ServiceName;
use elkodon::service::Service;

fn generate_name() -> ServiceName {
    let mut name = b"service_tests_".to_vec();
    name.extend_from_slice(b"4711");
    ServiceName::new(&name).unwrap()
}

fn new_host() -> Host {
    Host::new(1234, 5678, &Config::default(), 1024 * 1024)
}

#[test]
fn creating_non_existing_service_works() {
    let mut host = new_host();
    let service_name = generate_name();
    let sut = Service::new(&service_name).event().create(&mut host);

    assert!(sut.is_ok());
    let sut = sut.unwrap();
    assert_eq!(sut.name().as_bytes(), service_name.as_bytes());
}

#[test]
fn creating_same_service_twice_fails() {
    let mut host = new_host();
    let service_name = generate_name();
    let sut = Service::new(&service_name).event().create(&mut host);
    assert!(sut.is_ok());

    let sut2 = Service::new(&service_name).event().create(&mut host);
    assert!(sut2.is_err());
    assert_eq!(sut2.err().unwrap(), EventCreateError::AlreadyExists);
}

#[test]
fn recreate_after_drop_works() {
    let mut host = new_host();
    let service_name = generate_name();
    let sut = Service::new(&service_name).event().create(&mut host);
    assert!(sut.is_ok());

    assert!(sut.unwrap().close(&mut host));

    let sut2 = Service::new(&service_name).event().create(&mut host);
    assert!(sut2.is_ok());
}

#[test]
fn open_fails_when_service_does_not_exist() {
    let mut host = new_host();
    let service_name = generate_name();
    let sut = Service::new(&service_name).event().open(&mut host);
    assert!(sut.is_err());
    assert_eq!(sut.err().unwrap(), EventOpenError::DoesNotExist);
}

#[test]
fn open_succeeds_when_service_does_exist() {
    let mut host = new_host();
    let service_name = generate_name();
    let sut = Service::new(&service_name).event().create(&mut host);
    assert!(sut.is_ok());

    let sut2 = Service::new(&service_name).event().open(&mut host);
    assert!(sut2.is_ok());
}

#[test]
fn open_fails_when_service_does_not_fulfill_opener_requirements() {
    let mut host = new_host();
    let service_name = generate_name();
    let sut = Service::new(&service_name)
        .event()
        .max_notifiers(2)
        .max_listeners(2)
        .create(&mut host);
    assert!(sut.is_ok());

    // notifier
    let sut2 = Service::new(&service_name)
        .event()
        .max_notifiers(3)
        .open(&mut host);

    assert!(sut2.is_err());
    assert_eq!(
        sut2.err().unwrap(),
        EventOpenError::DoesNotSupportRequestedAmountOfNotifiers
    );

    let sut2 = Service::new(&service_name)
        .event()
        .max_notifiers(1)
        .open(&mut host);
    assert!(sut2.is_ok());

    // listener
    let sut2 = Service::new(&service_name)
        .event()
        .max_listeners(3)
        .open(&mut host);

    assert!(sut2.is_err());
    assert_eq!(
        sut2.err().unwrap(),
        EventOpenError::DoesNotSupportRequestedAmountOfListeners
    );

    let sut2 = Service::new(&service_name)
        .event()
        .max_listeners(1)
        .open(&mut host);
    assert!(sut2.is_ok());
}

#[test]
fn open_uses_predefined_settings_when_nothing_is_specified() {
    let mut host = new_host();
    let service_name = generate_name();
    let sut = Service::new(&service_name)
        .event()
        .max_notifiers(4)
        .max_listeners(5)
        .create(&mut host)
        .unwrap();
    assert_eq!(sut.max_supported_notifiers(), 4);
    assert_eq!(sut.max_supported_listeners(), 5);

    let sut2 = Service::new(&service_name).event().open(&mut host).unwrap();
    assert_eq!(sut2.max_supported_notifiers(), 4);
    assert_eq!(sut2.max_supported_listeners(), 5);
}

#[test]
fn settings_can_be_modified_via_custom_config() {
    let mut host = new_host();
    let service_name = generate_name();
    let mut entries = Entries::default();
    entries.defaults.event.max_notifiers = 9;
    entries.defaults.event.max_listeners = 10;

    let custom_config = Config::from_entries(&entries);
    let sut = Service::new(&service_name)
        .event_with_custom_config(&custom_config)
        .create(&mut host)
        .unwrap();
    assert_eq!(sut.max_supported_notifiers(), 9);
    assert_eq!(sut.max_supported_listeners(), 10);

    let sut2 = Service::new(&service_name)
        .event_with_custom_config(&custom_config)
        .open(&mut host)
        .unwrap();
    assert_eq!(sut2.max_supported_notifiers(), 9);
    assert_eq!(sut2.max_supported_listeners(), 10);
}

#[test]
fn simple_communication_works_listener_created_first() {
    let mut host = new_host();
    let service_name = generate_name();
    let event_id = EventId::new(432);

    let sut = Service::new(&service_name).event().create(&mut host).unwrap();

    let sut2 = Service::new(&service_name).event().open(&mut host).unwrap();

    let mut listener = sut.listener().create(&mut host).unwrap();
    let mut notifier = sut2
        .notifier()
        .default_event_id(event_id)
        .create(&mut host)
        .unwrap();

    assert!(notifier.notify(&mut host).is_ok());

    let mut received_events = 0;
    for event in listener.try_wait(&mut host).unwrap().iter() {
        assert_eq!(*event, event_id);
        received_events += 1;
    }
    assert_eq!(received_events, 1);
}

#[test]
fn simple_communication_works_notifier_created_first() {
    let mut host = new_host();
    let service_name = generate_name();
    let event_id = EventId::new(43212);

    let sut = Service::new(&service_name).event().create(&mut host).unwrap();

    let sut2 = Service::new(&service_name).event().open(&mut host).unwrap();

    let mut notifier = sut2
        .notifier()
        .default_event_id(event_id)
        .create(&mut host)
        .unwrap();
    let mut listener = sut.listener().create(&mut host).unwrap();

    assert!(notifier.notify(&mut host).is_ok());

    let mut received_events = 0;
    for event in listener.try_wait(&mut host).unwrap().iter() {
        assert_eq!(*event, event_id);
        received_events += 1;
    }
    assert_eq!(received_events, 1);
}

#[test]
fn communication_with_max_notifiers_and_listeners_single_notification() {
    const MAX_LISTENERS: usize = 4;
    const MAX_NOTIFIERS: usize = 6;
    const NUMBER_OF_ITERATIONS: u64 = 128;
    let mut host = new_host();
    let service_name = generate_name();

    let sut = Service::new(&service_name)
        .event()
        .max_notifiers(MAX_NOTIFIERS)
        .max_listeners(MAX_LISTENERS)
        .create(&mut host)
        .unwrap();

    let mut listeners = vec![];
    let mut notifiers = vec![];

    for _ in 0..MAX_LISTENERS {
        listeners.push(sut.listener().create(&mut host).unwrap());
    }

    for i in 0..MAX_NOTIFIERS {
        notifiers.push(
            sut.notifier()
                .default_event_id(EventId::new((4 * i + 3) as u64))
                .create(&mut host)
                .unwrap(),
        );
    }

    for _ in 0..NUMBER_OF_ITERATIONS {
        for (i, notifier) in notifiers.iter_mut().enumerate() {
            assert!(notifier.notify(&mut host).is_ok());

            for listener in &mut listeners {
                let mut received_events = 0;
                for event in listener.try_wait(&mut host).unwrap().iter() {
                    assert_eq!(*event, EventId::new((4 * i + 3) as u64));
                    received_events += 1;
                }
                assert_eq!(received_events, 1);
            }
        }
    }
}

#[test]
fn communication_with_max_notifiers_and_listeners_multi_notification() {
    const MAX_LISTENERS: usize = 5;
    const MAX_NOTIFIERS: usize = 7;
    const NUMBER_OF_ITERATIONS: u64 = 128;
    let mut host = new_host();
    let service_name = generate_name();

    let sut = Service::new(&service_name)
        .event()
        .max_notifiers(MAX_NOTIFIERS)
        .max_listeners(MAX_LISTENERS)
        .create(&mut host)
        .unwrap();

    let mut listeners = vec![];
    let mut notifiers = vec![];

    for _ in 0..MAX_LISTENERS {
        listeners.push(sut.listener().create(&mut host).unwrap());
    }

    for i in 0..MAX_NOTIFIERS {
        notifiers.push(
            sut.notifier()
                .default_event_id(EventId::new((i) as u64))
                .create(&mut host)
                .unwrap(),
        );
    }

    for _ in 0..NUMBER_OF_ITERATIONS {
        for notifier in &mut notifiers {
            assert!(notifier.notify(&mut host).is_ok());
        }

        for listener in &mut listeners {
            let mut received_events = 0;

            let mut received_event_ids = [false; MAX_NOTIFIERS];
            for event in listener.try_wait(&mut host).unwrap().iter() {
                assert_eq!(received_event_ids[event.as_u64() as usize], false);
                received_event_ids[event.as_u64() as usize] = true;
                received_events += 1;
            }
            assert_eq!(received_events, MAX_NOTIFIERS);
        }
    }
}
