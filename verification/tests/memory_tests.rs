use elkodon::elementary::allocator::{
    AllocationError, AllocationGrowError, AllocationShrinkError, Chunk, DeallocationError, Layout,
};
use elkodon::elementary::lazy_singleton::LazySingleton;
use elkodon::elementary::math::align;
use elkodon::elementary::owning_pointer::OwningPointer;
use elkodon::memory::bump_allocator::BumpAllocator;
use elkodon::memory::one_chunk_allocator::OneChunkAllocator;
use elkodon::memory::pool_allocator::{FixedSizePoolAllocator, PoolAllocator};

fn layout(size: usize, align: usize) -> Layout {
    Layout::from_size_align(size, align).unwrap()
}

#[test]
fn align_rounds_up_to_the_next_multiple() {
    assert_eq!(align(0, 8), 0);
    assert_eq!(align(1, 8), 8);
    assert_eq!(align(8, 8), 8);
    assert_eq!(align(9, 8), 16);
    assert_eq!(align(17, 1), 17);
    assert_eq!(align(100, 64), 128);
}

#[test]
fn layout_with_alignment_zero_is_refused() {
    assert!(Layout::from_size_align(16, 0).is_none());
    let sut = layout(48, 4);
    assert_eq!((sut.size(), sut.align()), (48, 4));
}

#[test]
fn lazy_singleton_is_set_once() {
    let mut sut = LazySingleton::<u64>::new();
    assert!(!sut.is_initialized());
    assert!(sut.set_value(1234));
    assert!(sut.is_initialized());
    assert!(!sut.set_value(5678));
    assert_eq!(*sut.get(), 1234);
}

#[test]
fn owning_pointer_allocates_at_least_one_element() {
    let mut sut = OwningPointer::<u32>::new_with_alloc(0);
    assert_eq!(sut.len(), 1);
    assert!(sut.read(0).is_none());
    sut.write(0, 17);
    assert_eq!(sut.read(0), Some(&17));

    let sut = OwningPointer::<u32>::new_with_alloc(5);
    assert_eq!(sut.len(), 5);
}

#[test]
fn bump_allocator_hands_out_aligned_chunks_until_full() {
    let mut sut = BumpAllocator::new(1001, 100);
    assert_eq!(sut.start_address(), 1001);
    assert_eq!(sut.free_space(), 100);

    assert_eq!(
        sut.allocate(layout(10, 8)),
        Ok(Chunk {
            start: 1008,
            size: 10
        })
    );
    assert_eq!(sut.used_space(), 17);
    assert_eq!(
        sut.allocate(layout(64, 16)),
        Ok(Chunk {
            start: 1024,
            size: 64
        })
    );
    assert_eq!(sut.allocate(layout(0, 1)), Err(AllocationError::SizeIsZero));
    assert_eq!(sut.allocate(layout(14, 1)), Err(AllocationError::OutOfMemory));
    assert_eq!(
        sut.allocate(layout(13, 1)),
        Ok(Chunk {
            start: 1088,
            size: 13
        })
    );
    assert_eq!(sut.free_space(), 0);

    assert!(sut.deallocate(1008, layout(10, 8)).is_ok());
    assert_eq!(sut.used_space(), 0);
}

#[test]
fn one_chunk_allocator_manages_exactly_one_chunk() {
    let mut sut = OneChunkAllocator::new(1001, 1024);
    assert!(sut.has_chunk_available());
    assert_eq!((sut.start(), sut.size()), (1001, 1024));

    let chunk = sut.allocate(layout(48, 8)).unwrap();
    assert_eq!(
        chunk,
        Chunk {
            start: 1008,
            size: 1017
        }
    );
    assert!(!sut.has_chunk_available());
    assert_eq!(sut.allocate(layout(48, 8)), Err(AllocationError::OutOfMemory));

    assert_eq!(
        sut.shrink(1008, layout(64, 4), layout(32, 4)),
        Ok(Chunk {
            start: 1008,
            size: 32
        })
    );
    assert_eq!(
        sut.shrink(1008, layout(32, 4), layout(64, 4)),
        Err(AllocationShrinkError::ShrinkWouldGrow)
    );
    assert_eq!(
        sut.shrink(1008, layout(64, 4), layout(32, 8)),
        Err(AllocationShrinkError::AlignmentFailure)
    );
    assert_eq!(
        sut.shrink(1009, layout(64, 4), layout(32, 4)),
        Err(AllocationShrinkError::ProvidedPointerNotContainedInAllocator)
    );
    assert_eq!(
        sut.grow(1008, layout(48, 4), layout(64, 4)),
        Ok(Chunk {
            start: 1008,
            size: 1017
        })
    );
    assert_eq!(
        sut.grow(1008, layout(48, 4), layout(32, 4)),
        Err(AllocationGrowError::GrowWouldShrink)
    );
    assert_eq!(
        sut.grow(1008, layout(48, 4), layout(64, 8)),
        Err(AllocationGrowError::AlignmentFailure)
    );
    assert_eq!(
        sut.grow(1008, layout(48, 4), layout(2000, 4)),
        Err(AllocationGrowError::OutOfMemory)
    );
    assert_eq!(
        sut.grow(7, layout(48, 4), layout(64, 4)),
        Err(AllocationGrowError::ProvidedPointerNotContainedInAllocator)
    );

    assert_eq!(
        sut.deallocate(1016, layout(32, 4)),
        Err(DeallocationError::ProvidedPointerNotContainedInAllocator)
    );
    assert!(sut.deallocate(1008, layout(32, 4)).is_ok());
    assert!(sut.has_chunk_available());
}

#[test]
fn one_chunk_allocator_needs_more_memory_than_asked_for() {
    let mut sut = OneChunkAllocator::new(1000, 48);
    assert_eq!(sut.allocate(layout(48, 8)), Err(AllocationError::OutOfMemory));
    assert_eq!(
        sut.allocate(layout(47, 8)),
        Ok(Chunk {
            start: 1000,
            size: 48
        })
    );
}

#[test]
fn pool_allocator_partitions_its_memory_into_buckets() {
    let mut sut = PoolAllocator::new(layout(100, 8), 1001, 1024);
    // the first bucket starts at 1008; buckets of 104 bytes: (2025 - 1008) / 104
    assert_eq!(sut.number_of_buckets(), 9);
    assert_eq!(sut.bucket_size(), 104);
    assert_eq!(sut.max_alignment(), 8);
    assert_eq!(sut.size(), 1024);
    assert_eq!(sut.start_address(), 1008);

    assert_eq!(
        sut.allocate(layout(200, 8)),
        Err(AllocationError::SizeTooLarge)
    );
    assert_eq!(
        sut.allocate(layout(48, 16)),
        Err(AllocationError::AlignmentFailure)
    );

    let mut chunks = vec![];
    for i in 0..9 {
        let chunk = sut.allocate(layout(48, 4)).unwrap();
        assert_eq!(
            chunk,
            Chunk {
                start: 1008 + i * 104,
                size: 48
            }
        );
        chunks.push(chunk);
    }
    assert_eq!(sut.number_of_free_buckets(), 0);
    assert_eq!(sut.allocate(layout(48, 4)), Err(AllocationError::OutOfMemory));

    assert_eq!(
        sut.grow(chunks[0].start, layout(48, 4), layout(64, 4)),
        Ok(Chunk {
            start: 1008,
            size: 64
        })
    );
    assert_eq!(
        sut.grow(chunks[0].start, layout(48, 4), layout(105, 4)),
        Err(AllocationGrowError::OutOfMemory)
    );
    assert_eq!(
        sut.grow(chunks[0].start, layout(48, 4), layout(48, 4)),
        Err(AllocationGrowError::GrowWouldShrink)
    );
    assert_eq!(
        sut.grow(5, layout(48, 4), layout(64, 4)),
        Err(AllocationGrowError::ProvidedPointerNotContainedInAllocator)
    );
    assert_eq!(
        sut.shrink(chunks[1].start, layout(64, 4), layout(32, 4)),
        Ok(Chunk {
            start: 1112,
            size: 32
        })
    );
    assert_eq!(
        sut.shrink(chunks[1].start, layout(32, 4), layout(32, 4)),
        Err(AllocationShrinkError::ShrinkWouldGrow)
    );

    assert!(sut.deallocate(chunks[4].start, layout(48, 4)).is_ok());
    assert_eq!(
        sut.deallocate(chunks[4].start, layout(48, 4)),
        Err(DeallocationError::ProvidedPointerNotContainedInAllocator)
    );
    assert_eq!(
        sut.deallocate(5000, layout(48, 4)),
        Err(DeallocationError::ProvidedPointerNotContainedInAllocator)
    );
    assert_eq!(sut.number_of_free_buckets(), 1);
    assert_eq!(sut.allocate(layout(1, 1)).unwrap().start, chunks[4].start);
}

#[test]
fn fixed_size_pool_allocator_limits_the_number_of_buckets() {
    let mut sut = FixedSizePoolAllocator::<4>::new(layout(128, 8), 4096, 1024);
    assert_eq!(sut.number_of_buckets(), 4);
    assert_eq!(sut.bucket_size(), 128);
    assert_eq!(sut.size(), 1024);
    assert_eq!(sut.max_alignment(), 8);
    for _ in 0..4 {
        assert!(sut.allocate(layout(48, 4)).is_ok());
    }
    assert_eq!(sut.allocate(layout(48, 4)), Err(AllocationError::OutOfMemory));
    assert!(sut.deallocate(4096 + 128, layout(48, 4)).is_ok());
    assert!(sut.allocate(layout(48, 4)).is_ok());
}

#[test]
fn pool_allocator_acquires_its_management_memory_on_init() {
    let mut management = BumpAllocator::new(0x100, 64);
    let mut sut = PoolAllocator::new_uninit(layout(128, 8), 4096, 1024);
    assert_eq!(sut.number_of_buckets(), 8);
    assert_eq!(PoolAllocator::memory_size(layout(128, 8), 1024), 4 * 9 + 3);
    assert!(sut.init(&mut management).is_ok());
    assert_eq!(management.used_space(), 36);
    assert_eq!(sut.allocate(layout(48, 4)).unwrap().start, 4096);

    let mut second = PoolAllocator::new_uninit(layout(128, 8), 4096, 1024);
    assert_eq!(second.init(&mut management), Err(AllocationError::OutOfMemory));
}

#[test]
fn pool_allocator_keeps_its_buckets_inside_its_region() {
    let layout = Layout::from_size_align(16, 8).unwrap();
    let start = 1000;
    let size = 100;
    let mut sut = PoolAllocator::new(layout, start, size);
    let mut count = 0;
    while let Ok(chunk) = sut.allocate(layout) {
        assert!(chunk.start >= start);
        assert!(chunk.start + chunk.size <= start + size);
        count += 1;
    }
    assert_eq!(count, 6);
    assert_eq!(
        sut.deallocate(start - 1, layout),
        Err(DeallocationError::ProvidedPointerNotContainedInAllocator)
    );
    assert_eq!(
        sut.deallocate(start + size, layout),
        Err(DeallocationError::ProvidedPointerNotContainedInAllocator)
    );
    assert_eq!(
        sut.deallocate(start + size + 1000, layout),
        Err(DeallocationError::ProvidedPointerNotContainedInAllocator)
    );
    assert_eq!(sut.deallocate(1000, layout), Ok(()));
}
