//! An allocator which manages only one chunk. An allocation always yields
//! all of the aligned memory that the region has.

use crate::elementary::allocator::{
    AllocationError,
    AllocationGrowError,
    AllocationShrinkError,
    Chunk,
    DeallocationError,
    Layout,
};
use crate::elementary::math::spec_align;
use vstd::prelude::*;

verus! {

/// The allocator. The address of the chunk that is handed out is zero while
/// none is.
#[derive(Debug)]
pub struct OneChunkAllocator {
    start: usize,
    size: usize,
    allocated_chunk_start: usize,
}

impl OneChunkAllocator {
    /// The invariant that every operation keeps: the region lies in the
    /// address space above address zero, and the chunk that is handed out
    /// starts in it.
    pub closed spec fn wf(&self) -> bool {
        &&& self.start > 0
        &&& self.start + self.size <= usize::MAX
        &&& (self.allocated_chunk_start != 0 ==> self.start <= self.allocated_chunk_start
            < self.start + self.size)
    }

    /// The address of the first byte of the region.
    pub closed spec fn spec_start(&self) -> usize {
        self.start
    }

    /// The size of the region in bytes.
    pub closed spec fn spec_size(&self) -> usize {
        self.size
    }

    /// The address of the chunk that is handed out, if one is.
    pub closed spec fn allocated(&self) -> Option<usize> {
        if self.allocated_chunk_start == 0 {
            None
        } else {
            Some(self.allocated_chunk_start)
        }
    }

    /// The bytes of the region from `address` to its end.
    pub open spec fn size_from(&self, address: int) -> int {
        self.spec_start() + self.spec_size() - address
    }

    /// Creates the allocator of the region of `size` bytes at `start`.
    pub fn new(start: usize, size: usize) -> (allocator: OneChunkAllocator)
        requires
            start > 0,
            start + size <= usize::MAX,
        ensures
            allocator.wf(),
            allocator.spec_start() == start,
            allocator.spec_size() == size,
            allocator.allocated().is_none(),
    {
        OneChunkAllocator { start, size, allocated_chunk_start: 0 }
    }

    /// Returns true while the chunk is not handed out.
    pub fn has_chunk_available(&self) -> (available: bool)
        ensures
            available == self.allocated().is_none(),
    {
        self.allocated_chunk_start == 0
    }

    fn is_allocated_chunk(&self, chunk_start: usize) -> (is_chunk: bool)
        ensures
            is_chunk == (chunk_start == self.allocated_chunk_start),
    {
        chunk_start == self.allocated_chunk_start
    }

    fn release_chunk(&mut self)
        ensures
            final(self).allocated_chunk_start == 0,
            final(self).start == old(self).start,
            final(self).size == old(self).size,
    {
        self.allocated_chunk_start = 0
    }

    /// Returns the address of the first byte of the region.
    pub fn start(&self) -> (start: usize)
        ensures
            start == self.spec_start(),
    {
        self.start
    }

    /// Returns the size of the region in bytes.
    pub fn size(&self) -> (size: usize)
        ensures
            size == self.spec_size(),
    {
        self.size
    }

    /// Hands out the chunk: it starts at the start of the region rounded up
    /// to the alignment and reaches to the end of the region. The request
    /// fails when the chunk is handed out already or when it would not be
    /// larger than the size asked for.
    pub fn allocate(&mut self, layout: Layout) -> (result: Result<Chunk, AllocationError>)
        requires
            old(self).wf(),
            layout.wf(),
        ensures
            final(self).wf(),
            final(self).spec_start() == old(self).spec_start(),
            final(self).spec_size() == old(self).spec_size(),
            result.is_ok() == (old(self).allocated().is_none() && old(self).size_from(
                spec_align(old(self).spec_start() as int, layout.spec_align() as int),
            ) > layout.spec_size()),
            result.is_err() ==> result == Err::<Chunk, _>(AllocationError::OutOfMemory)
                && final(self).allocated() == old(self).allocated(),
            result.is_ok() ==> result.unwrap().start == spec_align(
                old(self).spec_start() as int,
                layout.spec_align() as int,
            ) && result.unwrap().size == old(self).size_from(result.unwrap().start as int)
                && final(self).allocated() == Some(result.unwrap().start),
    {
        if !self.has_chunk_available() {
            return Err(AllocationError::OutOfMemory);
        }
        let remainder: usize = self.start % layout.align();
        let padding: usize = if remainder == 0 {
            0
        } else {
            layout.align() - remainder
        };
        if padding >= self.size {
            return Err(AllocationError::OutOfMemory);
        }
        let adjusted_start: usize = self.start + padding;
        let available_size: usize = self.size - padding;
        if available_size <= layout.size() {
            return Err(AllocationError::OutOfMemory);
        }
        self.allocated_chunk_start = adjusted_start;
        Ok(Chunk { start: adjusted_start, size: available_size })
    }

    /// Takes the chunk back. Fails when `chunk_start` is not the address of
    /// the chunk that is handed out.
    pub fn deallocate(&mut self, chunk_start: usize, layout: Layout) -> (result: Result<
        (),
        DeallocationError,
    >)
        requires
            old(self).wf(),
        ensures
            final(self).wf(),
            final(self).spec_start() == old(self).spec_start(),
            final(self).spec_size() == old(self).spec_size(),
            result.is_ok() == (old(self).allocated() == Some(chunk_start)),
            result.is_ok() ==> final(self).allocated().is_none(),
            result.is_err() ==> result == Err::<(), _>(
                DeallocationError::ProvidedPointerNotContainedInAllocator,
            ) && final(self).allocated() == old(self).allocated(),
    {
        if chunk_start != 0 && self.is_allocated_chunk(chunk_start) {
            self.release_chunk();
            Ok(())
        } else {
            Err(DeallocationError::ProvidedPointerNotContainedInAllocator)
        }
    }

    /// What a request to grow the chunk at `chunk_start` from `old_layout`
    /// to `new_layout` comes to.
    pub open spec fn grow_result(
        &self,
        chunk_start: usize,
        old_layout: Layout,
        new_layout: Layout,
    ) -> Result<Chunk, AllocationGrowError> {
        if self.allocated() != Some(chunk_start) {
            Err(AllocationGrowError::ProvidedPointerNotContainedInAllocator)
        } else if old_layout.spec_size() >= new_layout.spec_size() {
            Err(AllocationGrowError::GrowWouldShrink)
        } else if old_layout.spec_align() < new_layout.spec_align() {
            Err(AllocationGrowError::AlignmentFailure)
        } else if self.size_from(chunk_start as int) < new_layout.spec_size() {
            Err(AllocationGrowError::OutOfMemory)
        } else {
            Ok(Chunk { start: chunk_start, size: self.size_from(chunk_start as int) as usize })
        }
    }

    /// Grows the chunk. On success the chunk keeps its address and has all
    /// of the memory up to the end of the region.
    pub fn grow(&self, chunk_start: usize, old_layout: Layout, new_layout: Layout) -> (result:
        Result<Chunk, AllocationGrowError>)
        requires
            self.wf(),
        ensures
            result == self.grow_result(chunk_start, old_layout, new_layout),
    {
        if chunk_start == 0 || !self.is_allocated_chunk(chunk_start) {
            return Err(AllocationGrowError::ProvidedPointerNotContainedInAllocator);
        }
        if old_layout.size() >= new_layout.size() {
            return Err(AllocationGrowError::GrowWouldShrink);
        }
        if old_layout.align() < new_layout.align() {
            return Err(AllocationGrowError::AlignmentFailure);
        }
        let available_size: usize = self.size - (self.allocated_chunk_start - self.start);
        if available_size < new_layout.size() {
            return Err(AllocationGrowError::OutOfMemory);
        }
        Ok(Chunk { start: chunk_start, size: available_size })
    }

    /// What a request to shrink the chunk at `chunk_start` from `old_layout`
    /// to `new_layout` comes to.
    pub open spec fn shrink_result(
        &self,
        chunk_start: usize,
        old_layout: Layout,
        new_layout: Layout,
    ) -> Result<Chunk, AllocationShrinkError> {
        if self.allocated() != Some(chunk_start) {
            Err(AllocationShrinkError::ProvidedPointerNotContainedInAllocator)
        } else if old_layout.spec_size() <= new_layout.spec_size() {
            Err(AllocationShrinkError::ShrinkWouldGrow)
        } else if old_layout.spec_align() < new_layout.spec_align() {
            Err(AllocationShrinkError::AlignmentFailure)
        } else {
            Ok(Chunk { start: chunk_start, size: new_layout.spec_size() })
        }
    }

    /// Shrinks the chunk. On success the chunk keeps its address and has the
    /// new size.
    pub fn shrink(&self, chunk_start: usize, old_layout: Layout, new_layout: Layout) -> (result:
        Result<Chunk, AllocationShrinkError>)
        requires
            self.wf(),
        ensures
            result == self.shrink_result(chunk_start, old_layout, new_layout),
    {
        if chunk_start == 0 || !self.is_allocated_chunk(chunk_start) {
            return Err(AllocationShrinkError::ProvidedPointerNotContainedInAllocator);
        }
        if old_layout.size() <= new_layout.size() {
            return Err(AllocationShrinkError::ShrinkWouldGrow);
        }
        if old_layout.align() < new_layout.align() {
            return Err(AllocationShrinkError::AlignmentFailure);
        }
        Ok(Chunk { start: chunk_start, size: new_layout.size() })
    }
}

} // verus!
