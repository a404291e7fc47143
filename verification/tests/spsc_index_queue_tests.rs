use elkodon::lock_free::spsc::index_queue::FixedSizeIndexQueue;
use elkodon::lock_free::spsc::index_queue::IndexQueue;

#[test]
fn spsc_index_queue_push_works_until_full() {
    const CAPACITY: usize = 128;
    let mut sut = FixedSizeIndexQueue::<CAPACITY>::new();

    assert_eq!(sut.capacity(), CAPACITY);
    assert_eq!(sut.len(), 0);
    assert_eq!(sut.is_full(), false);
    assert!(sut.is_empty());

    let mut sut_producer = sut.acquire_producer().unwrap();

    for i in 0..CAPACITY {
        assert_eq!(sut.len(), i);
        assert_eq!(sut_producer.push(sut.state_mut(), i), true);
    }
    assert_eq!(sut_producer.push(sut.state_mut(), 1234), false);

    assert_eq!(sut.capacity(), CAPACITY);
    assert_eq!(sut.len(), CAPACITY);
    assert_eq!(sut.is_full(), true);
    assert!(!sut.is_empty());
}

#[test]
fn spsc_index_queue_pop_works_until_empty() {
    const CAPACITY: usize = 128;
    let mut sut = FixedSizeIndexQueue::<CAPACITY>::new();
    let mut sut_producer = sut.acquire_producer().unwrap();
    for i in 0..CAPACITY {
        assert_eq!(sut_producer.push(sut.state_mut(), i), true);
    }

    assert_eq!(sut.capacity(), CAPACITY);
    assert_eq!(sut.is_full(), true);
    assert!(!sut.is_empty());
    assert_eq!(sut.len(), CAPACITY);

    let mut sut_consumer = sut.acquire_consumer().unwrap();
    for i in 0..CAPACITY {
        assert_eq!(sut.len(), CAPACITY - i);
        let result = sut_consumer.pop(sut.state_mut());
        assert!(result.is_some());
        assert_eq!(result.unwrap(), i);
    }
    assert!(sut_consumer.pop(sut.state_mut()).is_none());

    assert_eq!(sut.len(), 0);
    assert_eq!(sut.capacity(), CAPACITY);
    assert_eq!(sut.is_full(), false);
    assert!(sut.is_empty());
}

#[test]
fn spsc_index_queue_push_pop_alteration_works() {
    const CAPACITY: usize = 128;
    let mut sut = FixedSizeIndexQueue::<CAPACITY>::new();
    let mut sut_producer = sut.acquire_producer().unwrap();
    let mut sut_consumer = sut.acquire_consumer().unwrap();

    for i in 0..CAPACITY - 1 {
        assert_eq!(sut_producer.push(sut.state_mut(), i), true);
        assert_eq!(sut_producer.push(sut.state_mut(), i), true);

        assert_eq!(sut_consumer.pop(sut.state_mut()), Some(i / 2))
    }
}

#[test]
fn spsc_index_queue_get_consumer_twice_fails() {
    let mut sut = FixedSizeIndexQueue::<1024>::new();
    let _consumer = sut.acquire_consumer().unwrap();
    assert!(sut.acquire_consumer().is_none());
}

#[test]
fn spsc_index_queue_get_consumer_after_release_succeeds() {
    let mut sut = FixedSizeIndexQueue::<1024>::new();
    {
        let consumer = sut.acquire_consumer();
        sut.release_consumer(consumer.unwrap());
    }
    assert!(sut.acquire_consumer().is_some());
}

#[test]
fn spsc_index_queue_get_producer_twice_fails() {
    let mut sut = FixedSizeIndexQueue::<1024>::new();
    let _producer = sut.acquire_producer().unwrap();
    assert!(sut.acquire_producer().is_none());
}

#[test]
fn spsc_index_queue_get_producer_after_release_succeeds() {
    let mut sut = FixedSizeIndexQueue::<1024>::new();
    {
        let producer = sut.acquire_producer();
        sut.release_producer(producer.unwrap());
    }
    assert!(sut.acquire_producer().is_some());
}

#[test]
fn index_queue_wraps_around_many_times() {
    let mut sut = IndexQueue::new(3);
    for round in 0..50usize {
        assert!(sut.push(round));
        assert!(sut.push(round + 1000));
        assert_eq!(sut.pop(), Some(round));
        assert_eq!(sut.pop(), Some(round + 1000));
        assert_eq!(sut.pop(), None);
    }
    assert!(sut.is_empty());
}

#[test]
fn index_queue_with_capacity_zero_accepts_nothing() {
    let mut sut = IndexQueue::new(0);
    assert!(sut.is_empty());
    assert!(sut.is_full());
    assert_eq!(sut.push(1), false);
    assert_eq!(sut.pop(), None);
    assert_eq!(sut.len(), 0);
}
