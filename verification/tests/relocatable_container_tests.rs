use elkodon::lock_free::mpmc::unique_index_set::UniqueIndexSet;
use elkodon::lock_free::spsc::index_queue::IndexQueue;
use elkodon::lock_free::spsc::safely_overflowing_index_queue::SafelyOverflowingIndexQueue;
use elkodon::memory::bump_allocator::BumpAllocator;

const MEMORY_START: usize = 0x1000;
const MEMORY_SIZE: usize = 131072;

#[test]
fn init_acquires_less_or_equal_the_required_size_of_bytes() {
    const MAX_CAPACITY: usize = 128;

    for capacity in 1..MAX_CAPACITY {
        let mut memory = BumpAllocator::new(MEMORY_START + 1, MEMORY_SIZE);
        let mut sut = IndexQueue::new_uninit(capacity);
        let require_memory_size = IndexQueue::memory_size(capacity);
        assert!(sut.init(&mut memory).is_ok());
        assert!(memory.used_space() <= require_memory_size);

        let mut memory = BumpAllocator::new(MEMORY_START + 3, MEMORY_SIZE);
        let mut sut = SafelyOverflowingIndexQueue::new_uninit(capacity);
        let require_memory_size = SafelyOverflowingIndexQueue::memory_size(capacity);
        assert!(sut.init(&mut memory).is_ok());
        assert!(memory.used_space() <= require_memory_size);

        let mut memory = BumpAllocator::new(MEMORY_START + 5, MEMORY_SIZE);
        let mut sut = UniqueIndexSet::new_uninit(capacity as u32);
        let require_memory_size = UniqueIndexSet::memory_size(capacity as u32);
        assert!(sut.init(&mut memory).is_ok());
        assert!(memory.used_space() <= require_memory_size);
    }
}

#[test]
fn init_acquires_less_or_equal_the_required_size_of_bytes_multiple_allocations() {
    const MAX_CAPACITY: usize = 18;

    let mut memory = BumpAllocator::new(MEMORY_START + 1, MEMORY_SIZE);

    let mut current_size = 0;
    for capacity in 1..MAX_CAPACITY {
        let mut sut = IndexQueue::new_uninit(capacity);
        let require_memory_size = IndexQueue::memory_size(capacity);
        assert!(sut.init(&mut memory).is_ok());
        assert!(memory.used_space() <= current_size + require_memory_size);
        current_size = memory.used_space();

        let mut sut = SafelyOverflowingIndexQueue::new_uninit(capacity);
        let require_memory_size = SafelyOverflowingIndexQueue::memory_size(capacity);
        assert!(sut.init(&mut memory).is_ok());
        assert!(memory.used_space() <= current_size + require_memory_size);
        current_size = memory.used_space();

        let mut sut = UniqueIndexSet::new_uninit(capacity as u32);
        let require_memory_size = UniqueIndexSet::memory_size(capacity as u32);
        assert!(sut.init(&mut memory).is_ok());
        assert!(memory.used_space() <= current_size + require_memory_size);
        current_size = memory.used_space();
    }
}

#[test]
fn initialized_queue_works_like_a_new_one() {
    let mut memory = BumpAllocator::new(MEMORY_START, 64);
    let mut sut = IndexQueue::new_uninit(4);
    assert!(sut.init(&mut memory).is_ok());
    assert_eq!(memory.used_space(), 32);
    assert!(sut.push(7));
    assert_eq!(sut.pop(), Some(7));

    let mut too_large = IndexQueue::new_uninit(5);
    assert_eq!(
        too_large.init(&mut memory),
        Err(elkodon::elementary::allocator::AllocationError::OutOfMemory)
    );
    assert_eq!(memory.used_space(), 32);
}
