//! A bucket allocator which partitions its region of memory into buckets of
//! equal size with a given alignment. A chunk cannot be resized beyond its
//! bucket and cannot be greater than the bucket size.

use crate::elementary::allocator::{
    AllocationError,
    AllocationGrowError,
    AllocationShrinkError,
    Chunk,
    DeallocationError,
    Layout,
};
use crate::elementary::math::{lemma_align_properties, spec_align};
use crate::lock_free::mpmc::unique_index_set::{UniqueIndexSet, MAX_CAPACITY};
use crate::memory::bump_allocator::BumpAllocator;
use vstd::prelude::*;

verus! {

/// The size of a bucket for values of `bucket_layout`: the size rounded up
/// to the alignment.
pub open spec fn spec_bucket_size(bucket_layout: Layout) -> int {
    spec_align(bucket_layout.spec_size() as int, bucket_layout.spec_align() as int)
}

/// The number of buckets of `bucket_layout` that the region of `size` bytes
/// at `start` is partitioned into, limited to `limit` buckets.
pub open spec fn spec_number_of_buckets(
    bucket_layout: Layout,
    start: usize,
    size: usize,
    limit: int,
) -> int {
    let adjusted_start = spec_align(start as int, bucket_layout.spec_align() as int);
    let available = start + size - adjusted_start;
    if available <= 0 {
        0
    } else if available / spec_bucket_size(bucket_layout) < limit {
        available / spec_bucket_size(bucket_layout)
    } else {
        limit
    }
}

/// The allocator. It keeps the indices of its free buckets in a
/// [`UniqueIndexSet`].
pub struct PoolAllocator {
    buckets: UniqueIndexSet,
    bucket_size: usize,
    bucket_alignment: usize,
    start: usize,
    size: usize,
}

impl PoolAllocator {
    /// The invariant that every operation keeps: the buckets are aligned
    /// and lie in the region that the allocator was created for.
    pub closed spec fn wf(&self) -> bool {
        &&& self.buckets.wf()
        &&& self.bucket_size > 0
        &&& self.bucket_alignment > 0
        &&& self.start + self.buckets.spec_capacity() * self.bucket_size <= usize::MAX
        &&& self.buckets.spec_capacity() * self.bucket_size <= self.size
    }

    /// The indices of the free buckets, the one that is handed out next
    /// first.
    pub closed spec fn free_buckets(&self) -> Seq<u32> {
        self.buckets@
    }

    /// The number of buckets.
    pub closed spec fn spec_number_of_buckets(&self) -> u32 {
        self.buckets.spec_capacity()
    }

    /// The size of each bucket in bytes.
    pub closed spec fn spec_bucket_size(&self) -> usize {
        self.bucket_size
    }

    /// The alignment of each bucket.
    pub closed spec fn spec_max_alignment(&self) -> usize {
        self.bucket_alignment
    }

    /// The address of the first bucket.
    pub closed spec fn spec_start(&self) -> usize {
        self.start
    }

    /// The size of the region that the allocator was created for.
    pub closed spec fn spec_size(&self) -> usize {
        self.size
    }

    /// The address of the bucket with the given index.
    pub open spec fn bucket_address(&self, index: int) -> int {
        self.spec_start() + index * self.spec_bucket_size()
    }

    /// True if the bucket with the given index is handed out.
    pub open spec fn is_allocated(&self, index: int) -> bool {
        0 <= index < self.spec_number_of_buckets() && !self.free_buckets().contains(index as u32)
    }

    /// The index of the bucket that `address` lies in, if it lies in one.
    pub open spec fn bucket_of(&self, address: usize) -> Option<int> {
        if address < self.spec_start() {
            None
        } else if (address - self.spec_start()) / (self.spec_bucket_size() as int)
            < self.spec_number_of_buckets() {
            Some((address - self.spec_start()) / (self.spec_bucket_size() as int))
        } else {
            None
        }
    }

    /// The free buckets of a well-formed allocator are distinct buckets of
    /// it, and every bucket lies in the address space and in the region of
    /// the allocator: between its start and `spec_size()` bytes behind it.
    pub proof fn lemma_buckets(&self)
        requires
            self.wf(),
        ensures
            self.spec_number_of_buckets() * self.spec_bucket_size() <= self.spec_size(),
            forall|index: int|
                0 <= index < self.spec_number_of_buckets() ==> #[trigger] self.bucket_address(
                    index,
                ) + self.spec_bucket_size() <= self.spec_start() + self.spec_size(),
            self.free_buckets().no_duplicates(),
            self.free_buckets().len() <= self.spec_number_of_buckets(),
            self.spec_bucket_size() > 0,
            self.spec_max_alignment() > 0,
            forall|i: int|
                0 <= i < self.free_buckets().len() ==> #[trigger] self.free_buckets()[i]
                    < self.spec_number_of_buckets(),
            forall|index: int|
                0 <= index < self.spec_number_of_buckets() ==> self.spec_start()
                    <= #[trigger] self.bucket_address(index) && self.bucket_address(index)
                    + self.spec_bucket_size() <= usize::MAX,
    {
        self.buckets.lemma_free_indices();
        assert forall|index: int| 0 <= index < self.spec_number_of_buckets() implies self.start
            <= #[trigger] self.bucket_address(index) && self.bucket_address(index)
            + self.bucket_size <= usize::MAX && self.bucket_address(index) + self.bucket_size
            <= self.start + self.size by {
            lemma_bucket_in_region(
                self.start as int,
                self.bucket_size as int,
                self.buckets.spec_capacity() as int,
                index,
            );
        }
    }

    /// An address in front of the region of the allocator or behind it
    /// lies in no bucket.
    pub proof fn lemma_outside_of_region(&self, address: usize)
        requires
            self.wf(),
            address < self.spec_start() || address >= self.spec_start() + self.spec_size(),
        ensures
            self.bucket_of(address).is_none(),
    {
        if address >= self.start {
            let distance = address - self.start;
            let count = self.buckets.spec_capacity() as int;
            let bucket_size = self.bucket_size as int;
            assert(distance / bucket_size >= count) by (nonlinear_arith)
                requires
                    distance >= count * bucket_size,
                    bucket_size > 0,
                    count >= 0,
            ;
        }
    }

    /// Creates the allocator of the region of `size` bytes at `start` with
    /// buckets of `bucket_layout`. The first bucket starts at the start of
    /// the region rounded up to the alignment.
    pub fn new(bucket_layout: Layout, start: usize, size: usize) -> (allocator: Self)
        requires
            bucket_layout.wf(),
            bucket_layout.spec_size() > 0,
            spec_bucket_size(bucket_layout) <= usize::MAX,
            start + size <= usize::MAX,
        ensures
            allocator.wf(),
            allocator.spec_number_of_buckets() == spec_number_of_buckets(
                bucket_layout,
                start,
                size,
                MAX_CAPACITY as int,
            ),
            allocator.spec_bucket_size() == spec_bucket_size(bucket_layout),
            allocator.spec_max_alignment() == bucket_layout.spec_align(),
            allocator.spec_size() == size,
            allocator.spec_number_of_buckets() > 0 ==> allocator.spec_start() == spec_align(
                start as int,
                bucket_layout.spec_align() as int,
            ),
            allocator.free_buckets() == Seq::new(
                allocator.spec_number_of_buckets() as nat,
                |i: int| i as u32,
            ),
    {
        Self::with_bucket_limit(bucket_layout, start, size, MAX_CAPACITY)
    }

    fn with_bucket_limit(bucket_layout: Layout, start: usize, size: usize, limit: u32) -> (allocator:
        Self)
        requires
            bucket_layout.wf(),
            bucket_layout.spec_size() > 0,
            spec_bucket_size(bucket_layout) <= usize::MAX,
            start + size <= usize::MAX,
            limit <= MAX_CAPACITY,
        ensures
            allocator.wf(),
            allocator.spec_number_of_buckets() == spec_number_of_buckets(
                bucket_layout,
                start,
                size,
                limit as int,
            ),
            allocator.spec_bucket_size() == spec_bucket_size(bucket_layout),
            allocator.spec_max_alignment() == bucket_layout.spec_align(),
            allocator.spec_size() == size,
            allocator.spec_number_of_buckets() > 0 ==> allocator.spec_start() == spec_align(
                start as int,
                bucket_layout.spec_align() as int,
            ),
            allocator.free_buckets() == Seq::new(
                allocator.spec_number_of_buckets() as nat,
                |i: int| i as u32,
            ),
    {
        let alignment: usize = bucket_layout.align();
        proof {
            lemma_align_properties(bucket_layout.spec_size() as int, alignment as int);
            lemma_align_properties(start as int, alignment as int);
        }
        let bucket_size: usize = crate::elementary::math::align(bucket_layout.size(), alignment);
        let remainder: usize = start % alignment;
        let padding: usize = if remainder == 0 {
            0
        } else {
            alignment - remainder
        };
        let mut adjusted_start: usize = start;
        let mut number_of_buckets: u32 = 0;
        if padding < size {
            adjusted_start = start + padding;
            let available: usize = size - padding;
            let fitting: usize = available / bucket_size;
            number_of_buckets = if fitting < limit as usize {
                fitting as u32
            } else {
                limit
            };
            proof {
                lemma_buckets_fit(
                    adjusted_start as int,
                    bucket_size as int,
                    available as int,
                    number_of_buckets as int,
                );
            }
        } else {
            assert(0int / (bucket_size as int) == 0);
            assert(start as int + 0 * bucket_size as int == start) by (nonlinear_arith);
        }
        PoolAllocator {
            buckets: UniqueIndexSet::new(number_of_buckets),
            bucket_size,
            bucket_alignment: alignment,
            start: adjusted_start,
            size,
        }
    }

    /// True if the allocator was created without memory for the
    /// management of its buckets and the memory was not acquired yet.
    pub closed spec fn is_uninit(&self) -> bool {
        &&& self.buckets.is_uninit()
        &&& self.buckets.spec_capacity() <= MAX_CAPACITY
        &&& self.bucket_size > 0
        &&& self.bucket_alignment > 0
        &&& self.start + self.buckets.spec_capacity() * self.bucket_size <= usize::MAX
        &&& self.buckets.spec_capacity() * self.bucket_size <= self.size
    }

    /// Creates the allocator of the region of `size` bytes at `start` with
    /// buckets of `bucket_layout`, without the memory for the management
    /// of the buckets. The memory is acquired with [`Self::init()`].
    pub fn new_uninit(bucket_layout: Layout, start: usize, size: usize) -> (allocator: Self)
        requires
            bucket_layout.wf(),
            bucket_layout.spec_size() > 0,
            spec_bucket_size(bucket_layout) <= usize::MAX,
            start + size <= usize::MAX,
        ensures
            allocator.is_uninit(),
            allocator.spec_number_of_buckets() == spec_number_of_buckets(
                bucket_layout,
                start,
                size,
                MAX_CAPACITY as int,
            ),
            allocator.spec_bucket_size() == spec_bucket_size(bucket_layout),
            allocator.spec_max_alignment() == bucket_layout.spec_align(),
            allocator.spec_size() == size,
    {
        let initialized = Self::with_bucket_limit(bucket_layout, start, size, MAX_CAPACITY);
        proof {
            initialized.buckets.lemma_free_indices();
        }
        PoolAllocator {
            buckets: UniqueIndexSet::new_uninit(initialized.buckets.capacity()),
            bucket_size: initialized.bucket_size,
            bucket_alignment: initialized.bucket_alignment,
            start: initialized.start,
            size: initialized.size,
        }
    }

    /// Acquires the memory for the management of the buckets from
    /// `allocator`. The pool allocator must not have that memory yet. When
    /// the allocator cannot provide the memory nothing changes.
    pub fn init(&mut self, allocator: &mut BumpAllocator) -> (result: Result<(), AllocationError>)
        requires
            old(self).is_uninit(),
            old(allocator).wf(),
        ensures
            final(allocator).wf(),
            final(allocator).spec_start() == old(allocator).spec_start(),
            final(allocator).spec_size() == old(allocator).spec_size(),
            final(self).same_region(old(self)),
            result == UniqueIndexSet::init_result(
                old(allocator),
                old(self).spec_number_of_buckets(),
            ),
            result.is_err() ==> final(self).is_uninit() && final(allocator).spec_position() == old(allocator).spec_position(),
            result.is_ok() ==> final(self).wf() && final(self).free_buckets() == Seq::new(
                old(self).spec_number_of_buckets() as nat,
                |i: int| i as u32,
            ) && final(allocator).spec_position() - old(allocator).spec_position()
                <= UniqueIndexSet::spec_memory_size(old(self).spec_number_of_buckets()),
    {
        self.buckets.init(allocator)
    }

    /// The number of buckets whose management fits the amount of memory
    /// that [`Self::memory_size()`] tells.
    pub open spec fn spec_min_required_buckets(bucket_layout: Layout, size: usize) -> int {
        size as int / bucket_layout.spec_size() as int
    }

    /// Returns the amount of memory that suffices for the management of
    /// the buckets of `bucket_layout` of a region of `size` bytes.
    pub fn memory_size(bucket_layout: Layout, size: usize) -> (memory_size: usize)
        requires
            bucket_layout.spec_size() > 0,
            Self::spec_min_required_buckets(bucket_layout, size) <= u32::MAX,
            UniqueIndexSet::spec_memory_size(
                Self::spec_min_required_buckets(bucket_layout, size) as u32,
            ) <= usize::MAX,
        ensures
            memory_size == UniqueIndexSet::spec_memory_size(
                Self::spec_min_required_buckets(bucket_layout, size) as u32,
            ),
    {
        let min_required_buckets: usize = size / bucket_layout.size();
        UniqueIndexSet::memory_size(min_required_buckets as u32)
    }

    /// Returns the number of buckets.
    pub fn number_of_buckets(&self) -> (number: u32)
        ensures
            number == self.spec_number_of_buckets(),
    {
        self.buckets.capacity()
    }

    /// Returns the size of each bucket in bytes.
    pub fn bucket_size(&self) -> (size: usize)
        ensures
            size == self.spec_bucket_size(),
    {
        self.bucket_size
    }

    /// Returns the size of the region that the allocator was created for.
    pub fn size(&self) -> (size: usize)
        ensures
            size == self.spec_size(),
    {
        self.size
    }

    /// Returns the largest alignment that a chunk can have.
    pub fn max_alignment(&self) -> (alignment: usize)
        ensures
            alignment == self.spec_max_alignment(),
    {
        self.bucket_alignment
    }

    /// Returns the address of the first bucket.
    pub fn start_address(&self) -> (start: usize)
        ensures
            start == self.spec_start(),
    {
        self.start
    }

    /// Returns the number of free buckets.
    pub fn number_of_free_buckets(&self) -> (number: u32)
        requires
            self.wf(),
        ensures
            number == self.free_buckets().len(),
    {
        self.buckets.capacity() - self.buckets.borrowed_indices()
    }

    fn get_index(&self, address: usize) -> (index: Option<u32>)
        requires
            self.wf(),
        ensures
            index.is_some() == self.bucket_of(address).is_some(),
            index.is_some() ==> index.unwrap() == self.bucket_of(address).unwrap(),
    {
        if address < self.start {
            return None;
        }
        let index: usize = (address - self.start) / self.bucket_size;
        if index < self.buckets.capacity() as usize {
            Some(index as u32)
        } else {
            None
        }
    }

    /// What a request for a chunk of `layout` comes to.
    pub open spec fn allocate_result(&self, layout: Layout) -> Result<Chunk, AllocationError> {
        if layout.spec_size() > self.spec_bucket_size() {
            Err(AllocationError::SizeTooLarge)
        } else if layout.spec_align() > self.spec_max_alignment() {
            Err(AllocationError::AlignmentFailure)
        } else if self.free_buckets().len() == 0 {
            Err(AllocationError::OutOfMemory)
        } else {
            Ok(
                Chunk {
                    start: self.bucket_address(self.free_buckets()[0] as int) as usize,
                    size: layout.spec_size(),
                },
            )
        }
    }

    /// Hands out the next free bucket for a chunk of `layout`.
    pub fn allocate(&mut self, layout: Layout) -> (result: Result<Chunk, AllocationError>)
        requires
            old(self).wf(),
        ensures
            final(self).wf(),
            final(self).same_region(old(self)),
            result == old(self).allocate_result(layout),
            result.is_ok() ==> final(self).free_buckets() == old(self).free_buckets().drop_first(),
            result.is_ok() ==> old(self).spec_start() <= result.unwrap().start
                && result.unwrap().start + result.unwrap().size <= old(self).spec_start() + old(self).spec_size(),
            result.is_err() ==> final(self).free_buckets() == old(self).free_buckets(),
    {
        if layout.size() > self.bucket_size {
            return Err(AllocationError::SizeTooLarge);
        }
        if layout.align() > self.bucket_alignment {
            return Err(AllocationError::AlignmentFailure);
        }
        proof {
            self.lemma_buckets();
        }
        match self.buckets.acquire_raw_index() {
            Some(v) => {
                assert(self.bucket_address(v as int) + self.bucket_size <= usize::MAX);
                assert(0 <= v * self.bucket_size) by (nonlinear_arith)
                    requires
                        0 <= v,
                        0 <= self.bucket_size,
                ;
                Ok(Chunk { start: self.start + v as usize * self.bucket_size, size: layout.size() })
            },
            None => Err(AllocationError::OutOfMemory),
        }
    }

    /// True if the two allocators manage the same buckets of the same
    /// region.
    pub open spec fn same_region(&self, other: &Self) -> bool {
        &&& self.spec_number_of_buckets() == other.spec_number_of_buckets()
        &&& self.spec_bucket_size() == other.spec_bucket_size()
        &&& self.spec_max_alignment() == other.spec_max_alignment()
        &&& self.spec_start() == other.spec_start()
        &&& self.spec_size() == other.spec_size()
    }

    /// Takes back the bucket that `address` lies in. Fails, and changes
    /// nothing, when the address lies in no bucket or in one that is free.
    pub fn deallocate(&mut self, address: usize, layout: Layout) -> (result: Result<
        (),
        DeallocationError,
    >)
        requires
            old(self).wf(),
        ensures
            final(self).wf(),
            final(self).same_region(old(self)),
            result.is_ok() == (old(self).bucket_of(address).is_some() && old(self).is_allocated(
                old(self).bucket_of(address).unwrap(),
            )),
            result.is_ok() ==> final(self).free_buckets() == seq![
                old(self).bucket_of(address).unwrap() as u32,
            ] + old(self).free_buckets(),
            result.is_err() ==> result == Err::<(), _>(
                DeallocationError::ProvidedPointerNotContainedInAllocator,
            ) && final(self).free_buckets() == old(self).free_buckets(),
            address < old(self).spec_start() || address >= old(self).spec_start() + old(self).spec_size() ==> result.is_err(),
    {
        proof {
            if address < self.spec_start() || address >= self.spec_start() + self.spec_size() {
                self.lemma_outside_of_region(address);
            }
        }
        match self.get_index(address) {
            Some(index) => {
                if self.buckets.contains_borrowed(index) {
                    self.buckets.release_raw_index(index);
                    Ok(())
                } else {
                    Err(DeallocationError::ProvidedPointerNotContainedInAllocator)
                }
            },
            None => Err(DeallocationError::ProvidedPointerNotContainedInAllocator),
        }
    }

    /// What a request to grow the chunk at `address` from `old_layout` to
    /// `new_layout` comes to.
    pub open spec fn grow_result(
        &self,
        address: usize,
        old_layout: Layout,
        new_layout: Layout,
    ) -> Result<Chunk, AllocationGrowError> {
        if self.bucket_of(address).is_none() {
            Err(AllocationGrowError::ProvidedPointerNotContainedInAllocator)
        } else if old_layout.spec_size() >= new_layout.spec_size() {
            Err(AllocationGrowError::GrowWouldShrink)
        } else if self.spec_max_alignment() < new_layout.spec_align() {
            Err(AllocationGrowError::AlignmentFailure)
        } else if self.spec_bucket_size() < new_layout.spec_size() {
            Err(AllocationGrowError::OutOfMemory)
        } else {
            Ok(Chunk { start: address, size: new_layout.spec_size() })
        }
    }

    /// Grows a chunk within its bucket. On success the chunk keeps its
    /// address and has the new size.
    pub fn grow(&self, address: usize, old_layout: Layout, new_layout: Layout) -> (result: Result<
        Chunk,
        AllocationGrowError,
    >)
        requires
            self.wf(),
        ensures
            result == self.grow_result(address, old_layout, new_layout),
    {
        if self.get_index(address).is_none() {
            return Err(AllocationGrowError::ProvidedPointerNotContainedInAllocator);
        }
        if old_layout.size() >= new_layout.size() {
            return Err(AllocationGrowError::GrowWouldShrink);
        }
        if self.bucket_alignment < new_layout.align() {
            return Err(AllocationGrowError::AlignmentFailure);
        }
        if self.bucket_size < new_layout.size() {
            return Err(AllocationGrowError::OutOfMemory);
        }
        Ok(Chunk { start: address, size: new_layout.size() })
    }

    /// What a request to shrink the chunk at `address` from `old_layout` to
    /// `new_layout` comes to.
    pub open spec fn shrink_result(
        &self,
        address: usize,
        old_layout: Layout,
        new_layout: Layout,
    ) -> Result<Chunk, AllocationShrinkError> {
        if self.bucket_of(address).is_none() {
            Err(AllocationShrinkError::ProvidedPointerNotContainedInAllocator)
        } else if old_layout.spec_size() <= new_layout.spec_size() {
            Err(AllocationShrinkError::ShrinkWouldGrow)
        } else if self.spec_max_alignment() < new_layout.spec_align() {
            Err(AllocationShrinkError::AlignmentFailure)
        } else {
            Ok(Chunk { start: address, size: new_layout.spec_size() })
        }
    }

    /// Shrinks a chunk. On success the chunk keeps its address and has the
    /// new size.
    pub fn shrink(&self, address: usize, old_layout: Layout, new_layout: Layout) -> (result:
        Result<Chunk, AllocationShrinkError>)
        requires
            self.wf(),
        ensures
            result == self.shrink_result(address, old_layout, new_layout),
    {
        if self.get_index(address).is_none() {
            return Err(AllocationShrinkError::ProvidedPointerNotContainedInAllocator);
        }
        if old_layout.size() <= new_layout.size() {
            return Err(AllocationShrinkError::ShrinkWouldGrow);
        }
        if self.bucket_alignment < new_layout.align() {
            return Err(AllocationShrinkError::AlignmentFailure);
        }
        Ok(Chunk { start: address, size: new_layout.size() })
    }
}

/// A bucket of a partition that fits its region lies in the region.
proof fn lemma_bucket_in_region(start: int, bucket_size: int, number_of_buckets: int, index: int)
    requires
        bucket_size > 0,
        0 <= index < number_of_buckets,
    ensures
        start <= start + index * bucket_size,
        start + index * bucket_size + bucket_size <= start + number_of_buckets * bucket_size,
{
    assert(0 <= index * bucket_size) by (nonlinear_arith)
        requires
            0 <= index,
            0 < bucket_size,
    ;
    assert((index + 1) * bucket_size <= number_of_buckets * bucket_size) by (nonlinear_arith)
        requires
            index + 1 <= number_of_buckets,
            0 < bucket_size,
    ;
    assert((index + 1) * bucket_size == index * bucket_size + bucket_size) by (nonlinear_arith);
}

/// As many buckets as the division yields, or fewer, fit into the available
/// bytes.
proof fn lemma_buckets_fit(start: int, bucket_size: int, available: int, number_of_buckets: int)
    requires
        bucket_size > 0,
        available >= 0,
        0 <= number_of_buckets <= available / bucket_size,
    ensures
        start + number_of_buckets * bucket_size <= start + available,
{
    assert(number_of_buckets * bucket_size <= available) by (nonlinear_arith)
        requires
            bucket_size > 0,
            available >= 0,
            0 <= number_of_buckets <= available / bucket_size,
    ;
}

/// The pool allocator with an upper limit for the number of its buckets
/// that is fixed at compile time.
pub struct FixedSizePoolAllocator<const MAX_NUMBER_OF_BUCKETS: usize> {
    state: PoolAllocator,
}

impl<const MAX_NUMBER_OF_BUCKETS: usize> FixedSizePoolAllocator<MAX_NUMBER_OF_BUCKETS> {
    /// The invariant that every operation keeps.
    pub closed spec fn wf(&self) -> bool {
        self.state.wf() && self.state.spec_number_of_buckets() <= MAX_NUMBER_OF_BUCKETS
    }

    /// The allocator behind the fixed limit.
    pub closed spec fn state(&self) -> PoolAllocator {
        self.state
    }

    /// Creates the allocator of the region of `size` bytes at `start` with
    /// at most `MAX_NUMBER_OF_BUCKETS` buckets of `bucket_layout`.
    pub fn new(bucket_layout: Layout, start: usize, size: usize) -> (allocator: Self)
        requires
            bucket_layout.wf(),
            bucket_layout.spec_size() > 0,
            spec_bucket_size(bucket_layout) <= usize::MAX,
            start + size <= usize::MAX,
            MAX_NUMBER_OF_BUCKETS <= MAX_CAPACITY,
        ensures
            allocator.wf(),
            allocator.state().wf(),
            allocator.state().spec_number_of_buckets() == spec_number_of_buckets(
                bucket_layout,
                start,
                size,
                MAX_NUMBER_OF_BUCKETS as int,
            ),
            allocator.state().spec_bucket_size() == spec_bucket_size(bucket_layout),
            allocator.state().spec_max_alignment() == bucket_layout.spec_align(),
            allocator.state().spec_size() == size,
            allocator.state().free_buckets() == Seq::new(
                allocator.state().spec_number_of_buckets() as nat,
                |i: int| i as u32,
            ),
    {
        FixedSizePoolAllocator {
            state: PoolAllocator::with_bucket_limit(
                bucket_layout,
                start,
                size,
                MAX_NUMBER_OF_BUCKETS as u32,
            ),
        }
    }

    /// Returns the number of buckets.
    pub fn number_of_buckets(&self) -> (number: u32)
        ensures
            number == self.state().spec_number_of_buckets(),
    {
        self.state.number_of_buckets()
    }

    /// Returns the size of each bucket in bytes.
    pub fn bucket_size(&self) -> (size: usize)
        ensures
            size == self.state().spec_bucket_size(),
    {
        self.state.bucket_size()
    }

    /// Returns the size of the region that the allocator was created for.
    pub fn size(&self) -> (size: usize)
        ensures
            size == self.state().spec_size(),
    {
        self.state.size()
    }

    /// Returns the largest alignment that a chunk can have.
    pub fn max_alignment(&self) -> (alignment: usize)
        ensures
            alignment == self.state().spec_max_alignment(),
    {
        self.state.max_alignment()
    }

    /// See [`PoolAllocator::allocate()`]
    pub fn allocate(&mut self, layout: Layout) -> (result: Result<Chunk, AllocationError>)
        requires
            old(self).wf(),
        ensures
            final(self).wf(),
            final(self).state().wf(),
            final(self).state().same_region(&old(self).state()),
            result == old(self).state().allocate_result(layout),
            result.is_ok() ==> final(self).state().free_buckets() == old(self).state().free_buckets().drop_first(),
            result.is_err() ==> final(self).state().free_buckets() == old(self).state().free_buckets(),
    {
        self.state.allocate(layout)
    }

    /// See [`PoolAllocator::deallocate()`]
    pub fn deallocate(&mut self, address: usize, layout: Layout) -> (result: Result<
        (),
        DeallocationError,
    >)
        requires
            old(self).wf(),
        ensures
            final(self).wf(),
            final(self).state().wf(),
            final(self).state().same_region(&old(self).state()),
            result.is_ok() == (old(self).state().bucket_of(address).is_some() && old(self).state().is_allocated(old(self).state().bucket_of(address).unwrap())),
            result.is_ok() ==> final(self).state().free_buckets() == seq![
                old(self).state().bucket_of(address).unwrap() as u32,
            ] + old(self).state().free_buckets(),
            result.is_err() ==> result == Err::<(), _>(
                DeallocationError::ProvidedPointerNotContainedInAllocator,
            ) && final(self).state().free_buckets() == old(self).state().free_buckets(),
    {
        self.state.deallocate(address, layout)
    }

    /// See [`PoolAllocator::grow()`]
    pub fn grow(&self, address: usize, old_layout: Layout, new_layout: Layout) -> (result: Result<
        Chunk,
        AllocationGrowError,
    >)
        requires
            self.wf(),
        ensures
            result == self.state().grow_result(address, old_layout, new_layout),
    {
        self.state.grow(address, old_layout, new_layout)
    }

    /// See [`PoolAllocator::shrink()`]
    pub fn shrink(&self, address: usize, old_layout: Layout, new_layout: Layout) -> (result:
        Result<Chunk, AllocationShrinkError>)
        requires
            self.wf(),
        ensures
            result == self.state().shrink_result(address, old_layout, new_layout),
    {
        self.state.shrink(address, old_layout, new_layout)
    }
}

} // verus!
