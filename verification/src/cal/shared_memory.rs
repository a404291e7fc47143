//! Named segments of memory that are partitioned into buckets of equal
//! size. What lives in a segment is named by its offset from the start of
//! the segment, so that everyone who maps the segment finds it, wherever
//! the segment lies in the own address space.

use crate::cal::registry::{copy_name, Registry};
use crate::elementary::allocator::{AllocationError, Layout};
use crate::lock_free::mpmc::unique_index_set::{
    lemma_distinct_indices_are_few,
    lemma_indices_below,
    MAX_CAPACITY,
};
use crate::memory::pool_allocator;
use crate::memory::pool_allocator::PoolAllocator;
use vstd::prelude::*;

verus! {

/// Failures when a segment is created.
#[derive(Debug, PartialEq, Eq, Clone, Copy)]
pub enum SharedMemoryCreateError {
    AlreadyExists,
    SizeIsZero,
    InsufficientPermissions,
    InternalError,
}

/// Failures when a segment is opened.
#[derive(Debug, PartialEq, Eq, Clone, Copy)]
pub enum SharedMemoryOpenError {
    DoesNotExist,
    InsufficientPermissions,
    InternalError,
}

/// Failures when a bucket is asked for.
#[derive(Debug, PartialEq, Eq, Clone, Copy, Structural)]
pub enum ShmAllocationError {
    ExceedsMaxSupportedSize,
    ExceedsMaxSupportedAlignment,
    OutOfMemory,
    SegmentDoesNotExist,
}

/// Failures when a bucket is given back.
#[derive(Debug, PartialEq, Eq, Clone, Copy, Structural)]
pub enum ShmDeallocationError {
    OffsetNotAllocated,
    SegmentDoesNotExist,
}

/// The distance of a piece of memory from the start of its segment.
#[derive(Debug, PartialEq, Eq, Clone, Copy, Structural)]
pub struct PointerOffset {
    value: usize,
}

impl PointerOffset {
    /// The distance in bytes.
    pub closed spec fn spec_value(&self) -> usize {
        self.value
    }

    /// The offset with the given distance.
    pub closed spec fn spec_new(value: usize) -> PointerOffset {
        PointerOffset { value }
    }

    /// The offset with a given distance has that distance.
    pub broadcast proof fn lemma_value_of_new(value: usize)
        ensures
            #[trigger] Self::spec_new(value).spec_value() == value,
    {
    }

    /// Creates the offset with the given distance.
    pub fn new(value: usize) -> (offset: PointerOffset)
        ensures
            offset == Self::spec_new(value),
            offset.spec_value() == value,
    {
        PointerOffset { value }
    }

    /// Returns the distance in bytes.
    pub fn value(&self) -> (value: usize)
        ensures
            value == self.spec_value(),
    {
        self.value
    }
}

/// What a segment holds.
pub struct SegmentState {
    /// The indices of the free buckets, the one that is handed out next
    /// first.
    pub free_buckets: Seq<u32>,
    /// The number of buckets.
    pub number_of_buckets: u32,
    /// The size of each bucket in bytes.
    pub bucket_size: usize,
    /// The largest alignment that a bucket supports.
    pub max_alignment: usize,
    /// The bytes of all buckets.
    pub payload: Seq<u8>,
}

impl SegmentState {
    /// What every segment satisfies.
    pub open spec fn wf(&self) -> bool {
        &&& self.bucket_size > 0
        &&& self.payload.len() == self.number_of_buckets * self.bucket_size
        &&& self.payload.len() <= usize::MAX
        &&& self.free_buckets.no_duplicates()
        &&& self.free_buckets.len() <= self.number_of_buckets
        &&& forall|i: int|
            0 <= i < self.free_buckets.len() ==> #[trigger] self.free_buckets[i]
                < self.number_of_buckets
    }

    /// The offset of the bucket with the given index.
    pub open spec fn offset_of(&self, index: int) -> int {
        index * self.bucket_size
    }

    /// The index of the bucket that the byte at `offset` belongs to.
    pub open spec fn bucket_of(&self, offset: usize) -> int {
        offset as int / self.bucket_size as int
    }

    /// True if the bucket with the given index is handed out.
    pub open spec fn is_allocated(&self, index: int) -> bool {
        0 <= index < self.number_of_buckets && !self.free_buckets.contains(index as u32)
    }

    /// What asking for a bucket for a value of `layout` comes to.
    pub open spec fn allocate_result(&self, layout: Layout) -> Result<
        PointerOffset,
        ShmAllocationError,
    > {
        if layout.spec_size() > self.bucket_size {
            Err(ShmAllocationError::ExceedsMaxSupportedSize)
        } else if layout.spec_align() > self.max_alignment {
            Err(ShmAllocationError::ExceedsMaxSupportedAlignment)
        } else if self.free_buckets.len() == 0 {
            Err(ShmAllocationError::OutOfMemory)
        } else {
            Ok(PointerOffset::spec_new(self.offset_of(self.free_buckets[0] as int) as usize))
        }
    }

    /// The segment after a bucket was asked for.
    pub open spec fn after_allocate(&self, layout: Layout) -> SegmentState {
        if self.allocate_result(layout).is_ok() {
            SegmentState { free_buckets: self.free_buckets.drop_first(), ..*self }
        } else {
            *self
        }
    }

    /// True if the bucket at `offset` can be given back.
    pub open spec fn can_deallocate(&self, offset: usize) -> bool {
        self.is_allocated(self.bucket_of(offset))
    }

    /// The segment after the bucket at `offset` was given back.
    pub open spec fn after_deallocate(&self, offset: usize) -> SegmentState {
        if self.can_deallocate(offset) {
            SegmentState {
                free_buckets: seq![self.bucket_of(offset) as u32] + self.free_buckets,
                ..*self
            }
        } else {
            *self
        }
    }

    /// The indices of the buckets that are handed out.
    pub open spec fn allocated_buckets(&self) -> Set<u32> {
        Set::new(|index: u32| self.is_allocated(index as int))
    }

    /// Every bucket of a segment is either free or handed out: the numbers
    /// of both add up to the number of buckets.
    pub proof fn lemma_buckets_are_free_or_allocated(&self)
        requires
            self.wf(),
        ensures
            self.allocated_buckets().finite(),
            self.free_buckets.len() + self.allocated_buckets().len() == self.number_of_buckets,
    {
        let all = Set::new(|index: u32| index < self.number_of_buckets);
        let free = self.free_buckets.to_set();
        lemma_indices_below(self.number_of_buckets);
        self.free_buckets.unique_seq_to_set();
        assert(all.intersect(free) =~= free) by {
            assert forall|index: u32| free.contains(index) implies all.contains(index) by {
                let k = choose|k: int|
                    0 <= k < self.free_buckets.len() && self.free_buckets[k] == index;
            }
        }
        assert(self.allocated_buckets() =~= all.difference(free));
        vstd::set_lib::lemma_set_difference_len(all, free);
    }

    /// A bucket that is handed out was free before, lies at the offset that
    /// the caller gets, and is the only one whose state changes.
    pub proof fn lemma_allocate(&self, layout: Layout)
        requires
            self.wf(),
            self.allocate_result(layout).is_ok(),
        ensures
            self.after_allocate(layout).wf(),
            self.free_buckets.len() > 0,
            self.bucket_of(self.allocate_result(layout).unwrap().spec_value())
                == self.free_buckets[0],
            !self.is_allocated(self.free_buckets[0] as int),
            forall|index: int|
                #[trigger] self.after_allocate(layout).is_allocated(index) <==> (self.is_allocated(
                    index,
                ) || (index == self.free_buckets[0])),
    {
        let first = self.free_buckets[0];
        let after = self.after_allocate(layout);
        let rest = self.free_buckets.drop_first();
        assert(self.free_buckets.contains(first));
        assert(first < self.number_of_buckets);
        assert(0 <= first * self.bucket_size <= self.number_of_buckets * self.bucket_size)
            by (nonlinear_arith)
            requires
                0 <= first <= self.number_of_buckets - 1,
                self.bucket_size > 0,
        ;
        assert((first * self.bucket_size) / (self.bucket_size as int) == first) by {
            vstd::arithmetic::div_mod::lemma_div_by_multiple(
                first as int,
                self.bucket_size as int,
            );
        }
        assert(self.offset_of(first as int) == first * self.bucket_size);
        assert(self.allocate_result(layout).unwrap().spec_value() == first * self.bucket_size);
        assert forall|i: int, j: int| 0 <= i < rest.len() && 0 <= j < rest.len() && i != j implies rest[i]
            != rest[j] by {
            assert(rest[i] == self.free_buckets[i + 1]);
            assert(rest[j] == self.free_buckets[j + 1]);
        }
        assert forall|i: int| 0 <= i < rest.len() implies #[trigger] rest[i]
            < self.number_of_buckets by {
            assert(rest[i] == self.free_buckets[i + 1]);
        }
        assert forall|index: int| #[trigger]
            after.is_allocated(index) <==> (self.is_allocated(index) || (index == first)) by {
            if 0 <= index < self.number_of_buckets {
                let value = index as u32;
                if rest.contains(value) {
                    let k = choose|k: int| 0 <= k < rest.len() && rest[k] == value;
                    assert(self.free_buckets[k + 1] == value);
                    assert(self.free_buckets[0] != self.free_buckets[k + 1]);
                }
                if self.free_buckets.contains(value) && index != first {
                    let k = choose|k: int|
                        0 <= k < self.free_buckets.len() && self.free_buckets[k] == value;
                    assert(rest[k - 1] == value);
                }
            }
        }
    }

    /// A bucket that is given back is free afterwards, and it is the only
    /// one whose state changes.
    pub proof fn lemma_deallocate(&self, offset: usize)
        requires
            self.wf(),
            self.can_deallocate(offset),
        ensures
            self.after_deallocate(offset).wf(),
            forall|index: int|
                #[trigger] self.after_deallocate(offset).is_allocated(index) <==> (
                self.is_allocated(index) && index != self.bucket_of(offset)),
    {
        let bucket = self.bucket_of(offset) as u32;
        let after = self.after_deallocate(offset);
        let free = after.free_buckets;
        assert(free[0] == bucket);
        assert forall|i: int| 1 <= i < free.len() implies free[i] == self.free_buckets[i - 1] by {}
        assert forall|i: int, j: int| 0 <= i < free.len() && 0 <= j < free.len() && i != j implies free[i]
            != free[j] by {
            if i > 0 {
                assert(self.free_buckets.contains(self.free_buckets[i - 1]));
            }
            if j > 0 {
                assert(self.free_buckets.contains(self.free_buckets[j - 1]));
            }
        }
        assert forall|i: int| 0 <= i < free.len() implies #[trigger] free[i]
            < self.number_of_buckets by {
            if i > 0 {
                assert(free[i] == self.free_buckets[i - 1]);
            }
        }
        lemma_distinct_indices_are_few(free, self.number_of_buckets);
        assert forall|index: int| #[trigger]
            after.is_allocated(index) <==> (self.is_allocated(index) && index != self.bucket_of(
                offset,
            )) by {
            if 0 <= index < self.number_of_buckets {
                let value = index as u32;
                if free.contains(value) && value != bucket {
                    let k = choose|k: int| 0 <= k < free.len() && free[k] == value;
                    assert(self.free_buckets[k - 1] == value);
                }
                if self.free_buckets.contains(value) {
                    let k = choose|k: int|
                        0 <= k < self.free_buckets.len() && self.free_buckets[k] == value;
                    assert(free[k + 1] == value);
                }
            }
        }
    }

    /// True if the `len` bytes at `offset` lie in the segment.
    pub open spec fn in_bounds(&self, offset: usize, len: nat) -> bool {
        offset + len <= self.payload.len()
    }

    /// The segment after `bytes` were written at `offset`.
    pub open spec fn after_write(&self, offset: usize, bytes: Seq<u8>) -> SegmentState {
        if self.in_bounds(offset, bytes.len()) {
            SegmentState {
                payload: self.payload.subrange(0, offset as int) + bytes + self.payload.subrange(
                    offset + bytes.len(),
                    self.payload.len() as int,
                ),
                ..*self
            }
        } else {
            *self
        }
    }
}

/// One segment.
pub struct Memory {
    allocator: PoolAllocator,
    payload: Vec<u8>,
}

impl View for Memory {
    type V = SegmentState;

    closed spec fn view(&self) -> SegmentState {
        SegmentState {
            free_buckets: self.allocator.free_buckets(),
            number_of_buckets: self.allocator.spec_number_of_buckets(),
            bucket_size: self.allocator.spec_bucket_size(),
            max_alignment: self.allocator.spec_max_alignment(),
            payload: self.payload@,
        }
    }
}

impl Memory {
    /// The invariant that every operation keeps.
    pub closed spec fn wf(&self) -> bool {
        &&& self.allocator.wf()
        &&& (self.allocator.spec_number_of_buckets() > 0 ==> self.allocator.spec_start() == 0)
        &&& self.payload.len() == self.allocator.spec_number_of_buckets()
            * self.allocator.spec_bucket_size()
    }

    /// What a well-formed segment holds is well-formed.
    pub proof fn lemma_view_wf(&self)
        requires
            self.wf(),
        ensures
            self@.wf(),
    {
        self.allocator.lemma_buckets();
    }
}

/// The namespace of the segments of one host.
pub struct Segments {
    segments: Registry<Memory>,
}

impl View for Segments {
    type V = Map<Seq<u8>, SegmentState>;

    /// What every segment holds, by the name of the segment.
    closed spec fn view(&self) -> Map<Seq<u8>, SegmentState> {
        Map::new(
            |name: Seq<u8>| self.segments@.contains_key(name),
            |name: Seq<u8>| self.segments@[name]@,
        )
    }
}

impl Segments {
    /// The invariant that every operation keeps.
    pub closed spec fn wf(&self) -> bool {
        &&& self.segments.wf()
        &&& forall|name: Seq<u8>| #[trigger]
            self.segments@.contains_key(name) ==> self.segments@[name].wf()
    }

    /// Every segment of a well-formed namespace is well-formed.
    pub proof fn lemma_segments_wf(&self)
        requires
            self.wf(),
        ensures
            forall|name: Seq<u8>| #[trigger] self@.contains_key(name) ==> self@[name].wf(),
    {
        assert forall|name: Seq<u8>| #[trigger] self@.contains_key(name) implies self@[name].wf() by {
            self.segments@[name].lemma_view_wf();
        }
    }

    /// Creates a namespace without segments.
    pub fn new() -> (segments: Self)
        ensures
            segments.wf(),
            segments@ == Map::<Seq<u8>, SegmentState>::empty(),
    {
        let segments = Segments { segments: Registry::new() };
        assert(segments@ =~= Map::<Seq<u8>, SegmentState>::empty());
        segments
    }
}

/// The number of buckets of a new segment of `size` bytes for values of
/// `bucket_layout`.
pub open spec fn spec_number_of_buckets(bucket_layout: Layout, size: usize) -> int {
    pool_allocator::spec_number_of_buckets(bucket_layout, 0, size, MAX_CAPACITY as int)
}

/// What the creation of the segment with the given name and size for
/// values of `bucket_layout` comes to.
pub open spec fn spec_create_result(
    segments: Map<Seq<u8>, SegmentState>,
    name: Seq<u8>,
    size: usize,
    bucket_layout: Layout,
) -> Result<(), SharedMemoryCreateError> {
    if size == 0 {
        Err(SharedMemoryCreateError::SizeIsZero)
    } else if bucket_layout.spec_size() == 0 || pool_allocator::spec_bucket_size(bucket_layout)
        > size {
        Err(SharedMemoryCreateError::InternalError)
    } else if segments.contains_key(name) {
        Err(SharedMemoryCreateError::AlreadyExists)
    } else {
        Ok(())
    }
}

/// A new segment of the given size for values of `bucket_layout`: all of
/// its buckets are free and all of its bytes are zero.
pub open spec fn spec_fresh_segment(bucket_layout: Layout, size: usize) -> SegmentState {
    let number_of_buckets = spec_number_of_buckets(bucket_layout, size);
    SegmentState {
        free_buckets: Seq::new(number_of_buckets as nat, |i: int| i as u32),
        number_of_buckets: number_of_buckets as u32,
        bucket_size: pool_allocator::spec_bucket_size(bucket_layout) as usize,
        max_alignment: bucket_layout.spec_align(),
        payload: Seq::new(
            (number_of_buckets * pool_allocator::spec_bucket_size(bucket_layout)) as nat,
            |i: int| 0u8,
        ),
    }
}

/// A new segment is well-formed, has at least one bucket, and all of its
/// buckets are free.
pub proof fn lemma_fresh_segment(bucket_layout: Layout, size: usize)
    requires
        bucket_layout.spec_align() > 0,
        bucket_layout.spec_size() > 0,
        pool_allocator::spec_bucket_size(bucket_layout) <= size,
    ensures
        spec_fresh_segment(bucket_layout, size).wf(),
        spec_fresh_segment(bucket_layout, size).bucket_size == pool_allocator::spec_bucket_size(
            bucket_layout,
        ),
        spec_fresh_segment(bucket_layout, size).number_of_buckets > 0,
        spec_fresh_segment(bucket_layout, size).free_buckets.len() == spec_fresh_segment(
            bucket_layout,
            size,
        ).number_of_buckets,
{
    let bucket_size = pool_allocator::spec_bucket_size(bucket_layout);
    let segment = spec_fresh_segment(bucket_layout, size);
    let count = spec_number_of_buckets(bucket_layout, size);
    crate::elementary::math::lemma_align_properties(
        bucket_layout.spec_size() as int,
        bucket_layout.spec_align() as int,
    );
    crate::elementary::math::lemma_align_properties(0, bucket_layout.spec_align() as int);
    assert(crate::elementary::math::spec_align(0, bucket_layout.spec_align() as int) == 0);
    assert(1 <= size as int / bucket_size && (size as int / bucket_size) * bucket_size <= size)
        by (nonlinear_arith)
        requires
            0 < bucket_size <= size,
    ;
    assert(1 <= count <= size as int / bucket_size);
    assert(count * bucket_size <= size) by (nonlinear_arith)
        requires
            0 <= count <= size as int / bucket_size,
            (size as int / bucket_size) * bucket_size <= size,
            bucket_size > 0,
    ;
    assert(segment.free_buckets.len() == count);
    assert forall|i: int, j: int|
        0 <= i < segment.free_buckets.len() && 0 <= j < segment.free_buckets.len() && i
            != j implies segment.free_buckets[i] != segment.free_buckets[j] by {}
}

/// Creates a segment or opens one that exists.
#[derive(Debug)]
pub struct Builder {
    name: Vec<u8>,
    size: usize,
    has_ownership: bool,
}

impl Builder {
    /// The name of the segment.
    pub closed spec fn spec_name(&self) -> Seq<u8> {
        self.name@
    }

    /// The size of the segment in bytes.
    pub closed spec fn spec_size(&self) -> usize {
        self.size
    }

    /// True if the segment is removed when it is closed.
    pub closed spec fn owns(&self) -> bool {
        self.has_ownership
    }

    /// Starts to create or open the segment with the given name. The
    /// segment has a size of zero and is owned.
    pub fn new(name: &Vec<u8>) -> (builder: Self)
        ensures
            builder.spec_name() == name@,
            builder.spec_size() == 0,
            builder.owns(),
    {
        Builder { name: copy_name(name), size: 0, has_ownership: true }
    }

    /// Sets the size of the segment in bytes.
    pub fn size(self, value: usize) -> (builder: Self)
        ensures
            builder.spec_name() == self.spec_name(),
            builder.spec_size() == value,
            builder.owns() == self.owns(),
    {
        let mut builder = self;
        builder.size = value;
        builder
    }

    /// Defines if the segment is removed when it is closed.
    pub fn has_ownership(self, value: bool) -> (builder: Self)
        ensures
            builder.spec_name() == self.spec_name(),
            builder.spec_size() == self.spec_size(),
            builder.owns() == value,
    {
        let mut builder = self;
        builder.has_ownership = value;
        builder
    }

    /// What the creation of the segment comes to.
    pub open spec fn create_result(&self, segments: &Segments, bucket_layout: Layout) -> Result<
        (),
        SharedMemoryCreateError,
    > {
        spec_create_result(segments@, self.spec_name(), self.spec_size(), bucket_layout)
    }

    /// The segment that is created: all of its buckets are free and all of
    /// its bytes are zero.
    pub open spec fn fresh(&self, bucket_layout: Layout) -> SegmentState {
        spec_fresh_segment(bucket_layout, self.spec_size())
    }

    /// Creates the segment and partitions it into buckets for values of
    /// `bucket_layout`.
    pub fn create(self, segments: &mut Segments, bucket_layout: Layout) -> (result: Result<
        SharedMemory,
        SharedMemoryCreateError,
    >)
        requires
            old(segments).wf(),
            bucket_layout.wf(),
        ensures
            final(segments).wf(),
            result.is_ok() == self.create_result(old(segments), bucket_layout).is_ok(),
            result.is_err() ==> Err::<(), _>(result.unwrap_err()) == self.create_result(
                old(segments),
                bucket_layout,
            ) && final(segments)@ == old(segments)@,
            result.is_ok() ==> result.unwrap().spec_name() == self.spec_name()
                && result.unwrap().owns() == self.owns() && final(segments)@ == old(segments)@.insert(self.spec_name(), self.fresh(bucket_layout)),
    {
        if self.size == 0 {
            return Err(SharedMemoryCreateError::SizeIsZero);
        }
        if bucket_layout.size() == 0 || bucket_layout.size() > self.size {
            proof {
                crate::elementary::math::lemma_align_properties(
                    bucket_layout.spec_size() as int,
                    bucket_layout.spec_align() as int,
                );
            }
            return Err(SharedMemoryCreateError::InternalError);
        }
        let remainder: usize = bucket_layout.size() % bucket_layout.align();
        let padding: usize = if remainder == 0 {
            0
        } else {
            bucket_layout.align() - remainder
        };
        if padding > self.size - bucket_layout.size() {
            return Err(SharedMemoryCreateError::InternalError);
        }
        if segments.segments.contains(&self.name) {
            return Err(SharedMemoryCreateError::AlreadyExists);
        }
        let allocator = PoolAllocator::new(bucket_layout, 0, self.size);
        proof {
            allocator.lemma_buckets();
            lemma_buckets_in_size(
                allocator.spec_number_of_buckets() as int,
                allocator.spec_bucket_size() as int,
            );
            let number = allocator.spec_number_of_buckets() as int;
            if number > 0 {
                assert(allocator.bucket_address(number - 1) + allocator.spec_bucket_size()
                    <= usize::MAX);
                assert((number - 1) * allocator.spec_bucket_size() + allocator.spec_bucket_size()
                    == number * allocator.spec_bucket_size()) by (nonlinear_arith);
            } else {
                assert(number * allocator.spec_bucket_size() == 0) by (nonlinear_arith)
                    requires
                        number == 0,
                ;
            }
        }
        let total: usize = allocator.number_of_buckets() as usize * allocator.bucket_size();
        let payload: Vec<u8> = vec![0u8; total];
        let memory = Memory { allocator, payload };
        assert(memory@ =~= self.fresh(bucket_layout)) by {
            assert(memory@.payload =~= self.fresh(bucket_layout).payload);
        }
        let rejected = segments.segments.insert(copy_name(&self.name), memory);
        assert(rejected.is_none());
        assert(segments@ =~= old(segments)@.insert(self.spec_name(), self.fresh(bucket_layout)));
        Ok(SharedMemory { name: self.name, has_ownership: self.has_ownership })
    }

    /// Opens the segment, which must exist.
    pub fn open(self, segments: &Segments) -> (result: Result<SharedMemory, SharedMemoryOpenError>)
        requires
            segments.wf(),
        ensures
            result.is_ok() == segments@.contains_key(self.spec_name()),
            result.is_err() ==> result.unwrap_err() == SharedMemoryOpenError::DoesNotExist,
            result.is_ok() ==> result.unwrap().spec_name() == self.spec_name()
                && !result.unwrap().owns(),
    {
        if segments.segments.contains(&self.name) {
            Ok(SharedMemory { name: self.name, has_ownership: false })
        } else {
            Err(SharedMemoryOpenError::DoesNotExist)
        }
    }
}

/// The product of two numbers that are not negative is not negative.
proof fn lemma_buckets_in_size(number_of_buckets: int, bucket_size: int)
    requires
        number_of_buckets >= 0,
        bucket_size >= 0,
    ensures
        number_of_buckets * bucket_size >= 0,
{
    assert(number_of_buckets * bucket_size >= 0) by (nonlinear_arith)
        requires
            number_of_buckets >= 0,
            bucket_size >= 0,
    ;
}

/// A segment as one party sees it.
#[derive(Debug)]
pub struct SharedMemory {
    name: Vec<u8>,
    has_ownership: bool,
}

impl SharedMemory {
    /// The name of the segment.
    pub closed spec fn spec_name(&self) -> Seq<u8> {
        self.name@
    }

    /// True if the segment is removed when it is closed.
    pub closed spec fn owns(&self) -> bool {
        self.has_ownership
    }

    /// Returns the name of the segment.
    pub fn name(&self) -> (name: &Vec<u8>)
        ensures
            name@ == self.spec_name(),
    {
        &self.name
    }

    /// Returns the number of buckets of the segment and the size of a
    /// bucket, or [`None`] when the segment does not exist.
    pub fn buckets(&self, segments: &Segments) -> (buckets: Option<(u32, usize)>)
        requires
            segments.wf(),
        ensures
            buckets.is_some() == segments@.contains_key(self.spec_name()),
            buckets.is_some() ==> buckets.unwrap().0
                == segments@[self.spec_name()].number_of_buckets && buckets.unwrap().1
                == segments@[self.spec_name()].bucket_size,
    {
        match segments.segments.find(&self.name) {
            None => None,
            Some(position) => {
                proof {
                    segments.segments.lemma_positions();
                }
                let memory = segments.segments.value(position);
                Some((memory.allocator.number_of_buckets(), memory.allocator.bucket_size()))
            },
        }
    }

    /// Hands out the next free bucket of the segment for a value of
    /// `layout` and returns the offset of the bucket.
    pub fn allocate(&self, segments: &mut Segments, layout: Layout) -> (result: Result<
        PointerOffset,
        ShmAllocationError,
    >)
        requires
            old(segments).wf(),
        ensures
            final(segments).wf(),
            !old(segments)@.contains_key(self.spec_name()) ==> result == Err::<PointerOffset, _>(
                ShmAllocationError::SegmentDoesNotExist,
            ) && final(segments)@ == old(segments)@,
            old(segments)@.contains_key(self.spec_name()) ==> result == old(segments)@[self.spec_name()].allocate_result(layout) && final(segments)@ == old(segments)@.insert(self.spec_name(), old(segments)@[self.spec_name()].after_allocate(layout)),
    {
        match segments.segments.find(&self.name) {
            None => Err(ShmAllocationError::SegmentDoesNotExist),
            Some(position) => {
                proof {
                    segments.segments.lemma_positions();
                    segments.segments@[self.spec_name()].allocator.lemma_buckets();
                }
                let memory = segments.segments.value_mut(position);
                let result = match memory.allocator.allocate(layout) {
                    Ok(chunk) => Ok(PointerOffset::new(chunk.start)),
                    Err(AllocationError::SizeTooLarge) => Err(
                        ShmAllocationError::ExceedsMaxSupportedSize,
                    ),
                    Err(AllocationError::AlignmentFailure) => Err(
                        ShmAllocationError::ExceedsMaxSupportedAlignment,
                    ),
                    Err(_) => Err(ShmAllocationError::OutOfMemory),
                };
                assert(segments@ =~= old(segments)@.insert(
                    self.spec_name(),
                    old(segments)@[self.spec_name()].after_allocate(layout),
                ));
                result
            },
        }
    }

    /// Gives the bucket at `offset` back to the segment. Fails, and changes
    /// nothing, when the offset lies in no bucket that is handed out.
    pub fn deallocate(&self, segments: &mut Segments, offset: PointerOffset, layout: Layout) -> (result:
        Result<(), ShmDeallocationError>)
        requires
            old(segments).wf(),
        ensures
            final(segments).wf(),
            !old(segments)@.contains_key(self.spec_name()) ==> result == Err::<(), _>(
                ShmDeallocationError::SegmentDoesNotExist,
            ) && final(segments)@ == old(segments)@,
            old(segments)@.contains_key(self.spec_name()) ==> result == (if old(segments)@[self.spec_name()].can_deallocate(offset.spec_value()) {
                Ok::<(), ShmDeallocationError>(())
            } else {
                Err::<(), _>(ShmDeallocationError::OffsetNotAllocated)
            }) && final(segments)@ == old(segments)@.insert(
                self.spec_name(),
                old(segments)@[self.spec_name()].after_deallocate(offset.spec_value()),
            ),
    {
        match segments.segments.find(&self.name) {
            None => Err(ShmDeallocationError::SegmentDoesNotExist),
            Some(position) => {
                proof {
                    segments.segments.lemma_positions();
                    segments.segments@[self.spec_name()].allocator.lemma_buckets();
                }
                let memory = segments.segments.value_mut(position);
                let result = match memory.allocator.deallocate(offset.value(), layout) {
                    Ok(()) => Ok(()),
                    Err(_) => Err(ShmDeallocationError::OffsetNotAllocated),
                };
                assert(segments@ =~= old(segments)@.insert(
                    self.spec_name(),
                    old(segments)@[self.spec_name()].after_deallocate(offset.spec_value()),
                ));
                result
            },
        }
    }

    /// Copies `bytes` into the segment at `offset`. Returns false, and
    /// changes nothing, when the segment does not exist or the bytes do not
    /// lie in it.
    pub fn write(&self, segments: &mut Segments, offset: PointerOffset, bytes: &Vec<u8>) -> (written:
        bool)
        requires
            old(segments).wf(),
        ensures
            final(segments).wf(),
            written == (old(segments)@.contains_key(self.spec_name()) && old(segments)@[self.spec_name()].in_bounds(offset.spec_value(), bytes@.len())),
            !written ==> final(segments)@ == old(segments)@,
            written ==> final(segments)@ == old(segments)@.insert(
                self.spec_name(),
                old(segments)@[self.spec_name()].after_write(offset.spec_value(), bytes@),
            ),
    {
        match segments.segments.find(&self.name) {
            None => false,
            Some(position) => {
                proof {
                    segments.segments.lemma_positions();
                }
                let start: usize = offset.value();
                let size: usize = segments.segments.value(position).payload.len();
                if start > size || bytes.len() > size - start {
                    return false;
                }
                let memory = segments.segments.value_mut(position);
                let ghost before = memory.payload@;
                let mut i: usize = 0;
                while i < bytes.len()
                    invariant
                        i <= bytes.len(),
                        start + bytes.len() <= size,
                        memory.payload@.len() == size,
                        before.len() == size,
                        memory.allocator == old(segments).segments@[self.spec_name()].allocator,
                        forall|k: int| 0 <= k < start ==> memory.payload@[k] == before[k],
                        forall|k: int| start <= k < start + i ==> memory.payload@[k] == bytes@[k
                            - start],
                        forall|k: int| start + i <= k < size ==> memory.payload@[k] == before[k],
                    decreases bytes.len() - i,
                {
                    memory.payload[start + i] = bytes[i];
                    i += 1;
                }
                proof {
                    assert(memory.payload@ =~= before.subrange(0, start as int) + bytes@
                        + before.subrange(start + bytes@.len(), before.len() as int));
                }
                assert(segments@ =~= old(segments)@.insert(
                    self.spec_name(),
                    old(segments)@[self.spec_name()].after_write(offset.spec_value(), bytes@),
                ));
                true
            },
        }
    }

    /// Returns a copy of the `len` bytes of the segment at `offset`, or
    /// [`None`] when the segment does not exist or the bytes do not lie in
    /// it.
    pub fn read(&self, segments: &Segments, offset: PointerOffset, len: usize) -> (bytes: Option<
        Vec<u8>,
    >)
        requires
            segments.wf(),
        ensures
            bytes.is_some() == (segments@.contains_key(self.spec_name())
                && segments@[self.spec_name()].in_bounds(offset.spec_value(), len as nat)),
            bytes.is_some() ==> bytes.unwrap()@ == segments@[self.spec_name()].payload.subrange(
                offset.spec_value() as int,
                offset.spec_value() + len,
            ),
    {
        match segments.segments.find(&self.name) {
            None => None,
            Some(position) => {
                proof {
                    segments.segments.lemma_positions();
                }
                let memory = segments.segments.value(position);
                let start: usize = offset.value();
                let size: usize = memory.payload.len();
                if start > size || len > size - start {
                    return None;
                }
                let mut bytes: Vec<u8> = Vec::new();
                let mut i: usize = 0;
                while i < len
                    invariant
                        i <= len,
                        start + len <= size,
                        size == memory.payload@.len(),
                        bytes@ == memory.payload@.subrange(start as int, start + i),
                    decreases len - i,
                {
                    bytes.push(memory.payload[start + i]);
                    assert(bytes@ =~= memory.payload@.subrange(start as int, start + i + 1));
                    i += 1;
                }
                Some(bytes)
            },
        }
    }

    /// Closes the segment. With ownership the segment is removed, without
    /// it nothing changes.
    pub fn close(self, segments: &mut Segments)
        requires
            old(segments).wf(),
        ensures
            final(segments).wf(),
            self.owns() ==> final(segments)@ == old(segments)@.remove(self.spec_name()),
            !self.owns() ==> final(segments)@ == old(segments)@,
    {
        if self.has_ownership {
            let _ = segments.segments.remove(&self.name);
            assert(segments@ =~= old(segments)@.remove(self.spec_name()));
        }
    }
}

} // verus!
