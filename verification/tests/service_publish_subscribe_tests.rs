use elkodon::global_config::Config;
use elkodon::host::Host;
use elkodon::port::publisher::{LoanError, Publisher, PublisherCreateError};
use elkodon::port::subscriber::{ReceiveError, Subscriber, SubscriberCreateError};
use elkodon::service::builder::publish_subscribe::{
    PayloadType, PublishSubscribeCreateError, PublishSubscribeOpenError,
};
use elkodon::service::port_factory::publish_subscribe::PortFactory;
use elkodon::service::service_name::{service_id, ServiceName};
use elkodon::service::Service;

fn new_host() -> Host {
    Host::new(77, 1234567, &Config::default(), 1024 * 1024)
}

fn name(value: &str) -> ServiceName {
    ServiceName::new(&value.as_bytes().to_vec()).unwrap()
}

fn u64_type() -> PayloadType {
    PayloadType {
        name: b"u64".to_vec(),
        size: 8,
        alignment: 8,
    }
}

fn bytes(value: u64) -> Vec<u8> {
    value.to_le_bytes().to_vec()
}

fn value_of(payload: Vec<u8>) -> u64 {
    let mut raw = [0u8; 8];
    raw.copy_from_slice(&payload);
    u64::from_le_bytes(raw)
}

fn receive_value(subscriber: &mut Subscriber, host: &mut Host) -> Option<u64> {
    match subscriber.receive(host).unwrap() {
        Some(sample) => {
            let value = value_of(subscriber.payload(host, &sample).unwrap());
            subscriber.release_sample(host, sample);
            Some(value)
        }
        None => None,
    }
}

fn create_simple_service(host: &mut Host, overflow: bool, buffer: usize) -> PortFactory {
    Service::new(&name("svc"))
        .publish_subscribe(&u64_type())
        .max_publishers(1)
        .max_subscribers(1)
        .subscriber_max_buffer_size(buffer)
        .enable_safe_overflow(overflow)
        .history_size(0)
        .create(host)
        .unwrap()
}

#[test]
fn sent_sample_is_received_once() {
    let mut host = new_host();
    let service = create_simple_service(&mut host, false, 1);
    let mut publisher = service.publisher().create(&mut host).unwrap();
    let mut subscriber = service.subscriber().create(&mut host).unwrap();

    assert_eq!(publisher.send_copy(&mut host, &bytes(42)), Ok(1));
    assert_eq!(receive_value(&mut subscriber, &mut host), Some(42));
    assert_eq!(receive_value(&mut subscriber, &mut host), None);
}

#[test]
fn full_subscriber_buffer_rejects_sample_without_overflow() {
    let mut host = new_host();
    let service = create_simple_service(&mut host, false, 1);
    let mut publisher = service.publisher().create(&mut host).unwrap();
    let mut subscriber = service.subscriber().create(&mut host).unwrap();

    assert_eq!(publisher.send_copy(&mut host, &bytes(1)), Ok(1));
    assert_eq!(publisher.send_copy(&mut host, &bytes(2)), Ok(0));
    assert_eq!(receive_value(&mut subscriber, &mut host), Some(1));
    assert_eq!(receive_value(&mut subscriber, &mut host), None);

    assert_eq!(publisher.send_copy(&mut host, &bytes(3)), Ok(1));
    assert_eq!(receive_value(&mut subscriber, &mut host), Some(3));
}

#[test]
fn safe_overflow_keeps_the_newest_samples() {
    let mut host = new_host();
    let creator = create_simple_service(&mut host, true, 8);
    let opener = Service::new(&name("svc"))
        .publish_subscribe(&u64_type())
        .open(&mut host)
        .unwrap();
    let mut subscriber = opener.subscriber().create(&mut host).unwrap();
    let mut publisher = creator.publisher().create(&mut host).unwrap();

    for value in 0..10u64 {
        assert_eq!(publisher.send_copy(&mut host, &bytes(value)), Ok(1));
    }

    let mut received = vec![];
    while let Some(value) = receive_value(&mut subscriber, &mut host) {
        received.push(value);
    }
    assert_eq!(received, vec![2, 3, 4, 5, 6, 7, 8, 9]);
    assert_eq!(subscriber.receive(&mut host).unwrap().is_none(), true);
}

#[test]
fn open_with_stricter_capacities_fails() {
    let mut host = new_host();
    let _sut = Service::new(&name("svc"))
        .publish_subscribe(&u64_type())
        .max_subscribers(2)
        .max_publishers(2)
        .create(&mut host)
        .unwrap();

    let sut2 = Service::new(&name("svc"))
        .publish_subscribe(&u64_type())
        .max_subscribers(3)
        .open(&mut host);
    assert_eq!(
        sut2.err().unwrap(),
        PublishSubscribeOpenError::DoesNotSupportRequestedAmountOfSubscribers
    );

    let sut2 = Service::new(&name("svc"))
        .publish_subscribe(&u64_type())
        .max_subscribers(1)
        .open(&mut host);
    assert!(sut2.is_ok());

    let sut2 = Service::new(&name("svc"))
        .publish_subscribe(&u64_type())
        .max_publishers(3)
        .open(&mut host);
    assert_eq!(
        sut2.err().unwrap(),
        PublishSubscribeOpenError::DoesNotSupportRequestedAmountOfPublishers
    );

    let sut2 = Service::new(&name("svc"))
        .publish_subscribe(&u64_type())
        .subscriber_max_buffer_size(1000)
        .open(&mut host);
    assert_eq!(
        sut2.err().unwrap(),
        PublishSubscribeOpenError::DoesNotSupportRequestedMinBufferSize
    );

    let sut2 = Service::new(&name("svc"))
        .publish_subscribe(&u64_type())
        .subscriber_max_borrowed_samples(1000)
        .open(&mut host);
    assert_eq!(
        sut2.err().unwrap(),
        PublishSubscribeOpenError::DoesNotSupportRequestedMinSubscriberBorrowedSamples
    );

    let sut2 = Service::new(&name("svc"))
        .publish_subscribe(&u64_type())
        .history_size(1000)
        .open(&mut host);
    assert_eq!(
        sut2.err().unwrap(),
        PublishSubscribeOpenError::DoesNotSupportRequestedMinHistorySize
    );
}

#[test]
fn open_with_other_payload_type_fails() {
    let mut host = new_host();
    let _sut = create_simple_service(&mut host, false, 1);
    let other = PayloadType {
        name: b"u32".to_vec(),
        size: 4,
        alignment: 4,
    };
    let sut2 = Service::new(&name("svc"))
        .publish_subscribe(&other)
        .open(&mut host);
    assert_eq!(
        sut2.err().unwrap(),
        PublishSubscribeOpenError::IncompatibleTypes
    );
}

#[test]
fn open_event_service_as_publish_subscribe_fails() {
    let mut host = new_host();
    let _sut = Service::new(&name("svc")).event().create(&mut host).unwrap();
    let sut2 = Service::new(&name("svc"))
        .publish_subscribe(&u64_type())
        .open(&mut host);
    assert_eq!(
        sut2.err().unwrap(),
        PublishSubscribeOpenError::IncompatibleMessagingPattern
    );
}

#[test]
fn create_twice_fails_and_recreate_after_close_works() {
    let mut host = new_host();
    let sut = create_simple_service(&mut host, false, 1);
    let again = Service::new(&name("svc"))
        .publish_subscribe(&u64_type())
        .create(&mut host);
    assert_eq!(
        again.err().unwrap(),
        PublishSubscribeCreateError::AlreadyExists
    );

    assert!(sut.close(&mut host));
    assert!(!host.does_service_exist(&service_id(&name("svc"))));
    let open = Service::new(&name("svc"))
        .publish_subscribe(&u64_type())
        .open(&mut host);
    assert_eq!(open.err().unwrap(), PublishSubscribeOpenError::DoesNotExist);

    let again = Service::new(&name("svc"))
        .publish_subscribe(&u64_type())
        .create(&mut host);
    assert!(again.is_ok());
}

#[test]
fn loaning_more_than_the_pool_holds_fails() {
    let mut host = new_host();
    let service = Service::new(&name("svc"))
        .publish_subscribe(&u64_type())
        .max_publishers(1)
        .max_subscribers(1)
        .subscriber_max_buffer_size(2)
        .subscriber_max_borrowed_samples(1)
        .history_size(0)
        .create(&mut host)
        .unwrap();
    let mut publisher: Publisher = service.publisher().create(&mut host).unwrap();

    // one publisher: 2 buffered + 1 borrowed + 0 history + 1 extra sample
    let mut loans = vec![];
    for _ in 0..4 {
        loans.push(publisher.loan(&mut host).unwrap());
    }
    assert_eq!(publisher.loan(&mut host).err(), Some(LoanError::OutOfMemory));

    // nobody is subscribed: the sample comes back as soon as it is sent
    assert_eq!(publisher.send(&mut host, loans.pop().unwrap()), 0);
    assert!(publisher.loan(&mut host).is_ok());
}

#[test]
fn receiving_beyond_max_borrowed_samples_fails() {
    let mut host = new_host();
    let service = Service::new(&name("svc"))
        .publish_subscribe(&u64_type())
        .max_publishers(1)
        .max_subscribers(1)
        .subscriber_max_buffer_size(4)
        .subscriber_max_borrowed_samples(2)
        .create(&mut host)
        .unwrap();
    let mut publisher = service.publisher().create(&mut host).unwrap();
    let mut subscriber = service.subscriber().create(&mut host).unwrap();

    for value in 0..4u64 {
        assert_eq!(publisher.send_copy(&mut host, &bytes(value)), Ok(1));
    }
    let first = subscriber.receive(&mut host).unwrap().unwrap();
    let second = subscriber.receive(&mut host).unwrap().unwrap();
    assert_eq!(
        subscriber.receive(&mut host).err(),
        Some(ReceiveError::ExceedsMaxBorrowedSamples)
    );
    assert_eq!(value_of(subscriber.payload(&host, &first).unwrap()), 0);
    assert_eq!(value_of(subscriber.payload(&host, &second).unwrap()), 1);

    subscriber.release_sample(&mut host, first);
    let third = subscriber.receive(&mut host).unwrap().unwrap();
    assert_eq!(value_of(subscriber.payload(&host, &third).unwrap()), 2);
    subscriber.release_sample(&mut host, second);
    subscriber.release_sample(&mut host, third);
}

#[test]
fn ports_beyond_the_capacity_of_the_service_are_refused() {
    let mut host = new_host();
    let service = create_simple_service(&mut host, false, 1);
    let _publisher = service.publisher().create(&mut host).unwrap();
    let _subscriber = service.subscriber().create(&mut host).unwrap();
    assert_eq!(
        service.publisher().create(&mut host).err(),
        Some(PublisherCreateError::ExceedsMaxSupportedPublishers)
    );
    assert_eq!(
        service.subscriber().create(&mut host).err(),
        Some(SubscriberCreateError::ExceedsMaxSupportedSubscribers)
    );
}

#[test]
fn samples_reach_every_subscriber_and_buckets_come_back() {
    let mut host = new_host();
    let service = Service::new(&name("svc"))
        .publish_subscribe(&u64_type())
        .max_publishers(1)
        .max_subscribers(3)
        .subscriber_max_buffer_size(2)
        .subscriber_max_borrowed_samples(1)
        .history_size(0)
        .enable_safe_overflow(false)
        .create(&mut host)
        .unwrap();
    let mut publisher = service.publisher().create(&mut host).unwrap();
    let mut subscribers = vec![];
    for _ in 0..3 {
        subscribers.push(service.subscriber().create(&mut host).unwrap());
    }

    for round in 0..50u64 {
        assert_eq!(publisher.send_copy(&mut host, &bytes(round)), Ok(3));
        for subscriber in &mut subscribers {
            assert_eq!(receive_value(subscriber, &mut host), Some(round));
            assert_eq!(receive_value(subscriber, &mut host), None);
        }
    }
}

#[test]
fn closing_the_last_holder_takes_the_service_down() {
    let mut host = new_host();
    let service = create_simple_service(&mut host, false, 1);
    let publisher = service.publisher().create(&mut host).unwrap();
    let subscriber = service.subscriber().create(&mut host).unwrap();

    assert!(!service.close(&mut host));
    assert!(host.does_service_exist(&service_id(&name("svc"))));
    assert!(!subscriber.close(&mut host));
    assert!(host.does_service_exist(&service_id(&name("svc"))));
    assert!(publisher.close(&mut host));
    assert!(!host.does_service_exist(&service_id(&name("svc"))));
    assert!(host.list_services().is_empty());
}

#[test]
fn buckets_are_neither_lost_nor_handed_out_twice() {
    let mut host = new_host();
    let service = Service::new(&name("svc"))
        .publish_subscribe(&u64_type())
        .max_publishers(1)
        .max_subscribers(1)
        .subscriber_max_buffer_size(2)
        .subscriber_max_borrowed_samples(1)
        .history_size(0)
        .create(&mut host)
        .unwrap();
    let mut publisher = service.publisher().create(&mut host).unwrap();
    let mut subscriber = service.subscriber().create(&mut host).unwrap();

    // many more rounds than the segment has buckets
    for value in 0..20u64 {
        assert_eq!(publisher.send_copy(&mut host, &bytes(value)), Ok(1));
        assert_eq!(receive_value(&mut subscriber, &mut host), Some(value));
    }

    // two samples wait in the buffer of the subscriber, so that two of the
    // four buckets are left for the publisher
    assert_eq!(publisher.send_copy(&mut host, &bytes(100)), Ok(1));
    assert_eq!(publisher.send_copy(&mut host, &bytes(101)), Ok(1));
    let first = publisher.loan(&mut host).unwrap();
    let second = publisher.loan(&mut host).unwrap();
    assert_ne!(first.offset(), second.offset());
    assert_eq!(publisher.loan(&mut host).err(), Some(LoanError::OutOfMemory));

    // a sample that the subscriber holds keeps its bucket, one that it has
    // returned gives the bucket back
    let sample = subscriber.receive(&mut host).unwrap().unwrap();
    assert_eq!(publisher.loan(&mut host).err(), Some(LoanError::OutOfMemory));
    subscriber.release_sample(&mut host, sample);
    let third = publisher.loan(&mut host).unwrap();
    assert_ne!(third.offset(), first.offset());
    assert_ne!(third.offset(), second.offset());
    assert_eq!(publisher.loan(&mut host).err(), Some(LoanError::OutOfMemory));
}

#[test]
fn buckets_come_back_when_connections_are_brought_up_to_date() {
    let mut host = new_host();
    let service = Service::new(&name("svc"))
        .publish_subscribe(&u64_type())
        .max_publishers(1)
        .max_subscribers(2)
        .subscriber_max_buffer_size(1)
        .subscriber_max_borrowed_samples(1)
        .history_size(0)
        .create(&mut host)
        .unwrap();
    let mut publisher = service.publisher().create(&mut host).unwrap();

    // a subscriber that joins later is served from the next send on
    assert_eq!(publisher.send_copy(&mut host, &bytes(1)), Ok(0));
    let mut subscriber = service.subscriber().create(&mut host).unwrap();
    assert_eq!(publisher.send_copy(&mut host, &bytes(2)), Ok(1));
    assert_eq!(receive_value(&mut subscriber, &mut host), Some(2));

    // the subscriber has returned everything before it leaves, so that
    // all three buckets are free again
    subscriber.close(&mut host);
    publisher.update_connections(&mut host);
    let mut loans = vec![];
    for _ in 0..3 {
        loans.push(publisher.loan(&mut host).unwrap());
    }
    assert_eq!(publisher.loan(&mut host).err(), Some(LoanError::OutOfMemory));
}
