use elkodon::lock_free::mpmc::container::Container;
use elkodon::lock_free::mpmc::unique_index_set::UniqueIndexSet;
use elkodon::lock_free::spsc::queue::Queue;
use elkodon::lock_free::spsc::safely_overflowing_index_queue::{
    FixedSizeSafelyOverflowingIndexQueue, SafelyOverflowingIndexQueue,
};

#[test]
fn safely_overflowing_queue_returns_nothing_until_full() {
    let mut sut = SafelyOverflowingIndexQueue::new(4);
    for i in 0..4 {
        assert_eq!(sut.len(), i);
        assert_eq!(sut.push(100 + i), None);
    }
    assert!(sut.is_full());
    assert_eq!(sut.capacity(), 4);
}

#[test]
fn safely_overflowing_queue_hands_back_oldest_value_on_overflow() {
    const CAPACITY: usize = 8;
    let mut sut = FixedSizeSafelyOverflowingIndexQueue::<CAPACITY>::new();
    let mut producer = sut.acquire_producer().unwrap();
    let mut consumer = sut.acquire_consumer().unwrap();

    for value in 0..100usize {
        let evicted = producer.push(sut.state_mut(), value);
        if value < CAPACITY {
            assert_eq!(evicted, None);
        } else {
            assert_eq!(evicted, Some(value - CAPACITY));
        }
    }
    assert_eq!(sut.len(), CAPACITY);
    for value in 100 - CAPACITY..100 {
        assert_eq!(consumer.pop(sut.state_mut()), Some(value));
    }
    assert_eq!(consumer.pop(sut.state_mut()), None);
    assert!(sut.is_empty());
}

#[test]
fn safely_overflowing_queue_with_capacity_zero_hands_every_value_back() {
    let mut sut = SafelyOverflowingIndexQueue::new(0);
    assert_eq!(sut.push(5), Some(5));
    assert_eq!(sut.push(6), Some(6));
    assert_eq!(sut.pop(), None);
    assert!(sut.is_empty());
}

#[test]
fn safely_overflowing_queue_hands_out_each_token_once() {
    let mut sut = SafelyOverflowingIndexQueue::new(2);
    let producer = sut.acquire_producer().unwrap();
    assert!(sut.acquire_producer().is_none());
    sut.release_producer(producer);
    assert!(sut.acquire_producer().is_some());
    let consumer = sut.acquire_consumer().unwrap();
    assert!(sut.acquire_consumer().is_none());
    sut.release_consumer(consumer);
    assert!(sut.acquire_consumer().is_some());
}

#[test]
fn generic_queue_keeps_the_order_of_its_values() {
    let mut sut = Queue::<u64, 3>::new();
    assert_eq!(sut.capacity(), 3);
    assert!(sut.is_empty());
    let mut producer = sut.acquire_producer().unwrap();
    let mut consumer = sut.acquire_consumer().unwrap();
    assert!(sut.acquire_producer().is_none());
    assert!(sut.acquire_consumer().is_none());

    for round in 0..20u64 {
        assert!(producer.push(&mut sut, &(3 * round)));
        assert!(producer.push(&mut sut, &(3 * round + 1)));
        assert!(producer.push(&mut sut, &(3 * round + 2)));
        assert!(!producer.push(&mut sut, &99));
        assert!(sut.is_full());
        assert_eq!(sut.len(), 3);
        assert_eq!(consumer.pop(&mut sut), Some(3 * round));
        assert_eq!(consumer.pop(&mut sut), Some(3 * round + 1));
        assert_eq!(consumer.pop(&mut sut), Some(3 * round + 2));
        assert_eq!(consumer.pop(&mut sut), None);
    }
    sut.release_producer(producer);
    sut.release_consumer(consumer);
    assert!(sut.acquire_producer().is_some());
}

#[test]
fn unique_index_set_hands_out_every_index_once() {
    let mut sut = UniqueIndexSet::new(5);
    assert_eq!(sut.capacity(), 5);
    let mut indices = vec![];
    for expected in 0..5u32 {
        let index = sut.acquire().unwrap();
        assert_eq!(index.value(), expected);
        indices.push(index);
    }
    assert!(sut.acquire().is_none());
    assert_eq!(sut.borrowed_indices(), 5);

    // what is released last is acquired first
    let third = indices.remove(3);
    let first = indices.remove(1);
    sut.release(third);
    sut.release(first);
    assert!(!sut.contains_borrowed(1));
    assert!(sut.contains_borrowed(2));
    assert_eq!(sut.acquire().unwrap().value(), 1);
    assert_eq!(sut.acquire().unwrap().value(), 3);
    assert!(sut.acquire().is_none());
}

#[test]
fn container_registers_and_removes_values() {
    let mut sut = Container::<u128>::new(3);
    assert_eq!(sut.capacity(), 3);
    assert_eq!(sut.len(), 0);
    let mut state = sut.get_state();
    assert!(!state.update(&sut));

    let a = sut.add(11).unwrap();
    let b = sut.add(22).unwrap();
    let c = sut.add(33).unwrap();
    assert!(sut.add(44).is_none());
    assert_eq!((a.value(), b.value(), c.value()), (0, 1, 2));
    assert_eq!(sut.len(), 3);

    assert!(state.update(&sut));
    assert!(!state.update(&sut));
    assert_eq!(state.get(0), Some(11));
    assert_eq!(state.get(1), Some(22));
    assert_eq!(state.get(2), Some(33));

    assert!(sut.remove(b));
    assert_eq!(sut.len(), 2);
    assert!(sut.is_occupied(0));
    assert!(!sut.is_occupied(1));
    assert!(state.update(&sut));
    assert_eq!(state.get(1), None);
    assert_eq!(sut.add(55).unwrap().value(), 1);
}
