//! An allocator that hands out its region from the front to the back and
//! takes everything back at once.

use crate::elementary::allocator::{AllocationError, Chunk, DeallocationError, Layout};
use crate::elementary::math::spec_align;
use vstd::prelude::*;

verus! {

/// The allocator. Everything in front of its position is handed out.
#[derive(Debug)]
pub struct BumpAllocator {
    start: usize,
    size: usize,
    pos: usize,
}

impl BumpAllocator {
    /// The invariant that every operation keeps: the region lies in the
    /// address space and the position lies in the region.
    pub closed spec fn wf(&self) -> bool {
        &&& self.start + self.size <= usize::MAX
        &&& self.start <= self.pos <= self.start + self.size
    }

    /// The address of the first byte of the region.
    pub closed spec fn spec_start(&self) -> usize {
        self.start
    }

    /// The size of the region in bytes.
    pub closed spec fn spec_size(&self) -> usize {
        self.size
    }

    /// The address of the first byte that is not handed out.
    pub closed spec fn spec_position(&self) -> usize {
        self.pos
    }

    /// The position of a well-formed allocator lies in its region.
    pub proof fn lemma_position_in_region(&self)
        requires
            self.wf(),
        ensures
            self.spec_start() <= self.spec_position() <= self.spec_start() + self.spec_size()
                <= usize::MAX,
    {
    }

    /// True if a chunk of `layout` still fits behind the position.
    pub open spec fn fits(&self, layout: Layout) -> bool {
        spec_align(self.spec_position() as int, layout.spec_align() as int) + layout.spec_size()
            <= self.spec_start() + self.spec_size()
    }

    /// Creates the allocator of the region of `size` bytes at `start`.
    pub fn new(start: usize, size: usize) -> (allocator: Self)
        requires
            start + size <= usize::MAX,
        ensures
            allocator.wf(),
            allocator.spec_start() == start,
            allocator.spec_size() == size,
            allocator.spec_position() == start,
    {
        Self { start, size, pos: start }
    }

    /// Returns the address of the first byte of the region.
    pub fn start_address(&self) -> (start: usize)
        ensures
            start == self.spec_start(),
    {
        self.start
    }

    /// Returns the number of bytes in front of the position.
    pub fn used_space(&self) -> (used: usize)
        requires
            self.wf(),
        ensures
            used == self.spec_position() - self.spec_start(),
    {
        self.pos - self.start
    }

    /// Returns the number of bytes behind the position.
    pub fn free_space(&self) -> (free: usize)
        requires
            self.wf(),
        ensures
            free == self.spec_start() + self.spec_size() - self.spec_position(),
    {
        self.size - self.used_space()
    }

    /// Hands out the next chunk of `layout`: it starts at the position
    /// rounded up to the alignment and the position moves behind it.
    pub fn allocate(&mut self, layout: Layout) -> (result: Result<Chunk, AllocationError>)
        requires
            old(self).wf(),
            layout.wf(),
        ensures
            final(self).wf(),
            final(self).spec_start() == old(self).spec_start(),
            final(self).spec_size() == old(self).spec_size(),
            layout.spec_size() == 0 ==> result == Err::<Chunk, _>(AllocationError::SizeIsZero),
            layout.spec_size() > 0 && !old(self).fits(layout) ==> result == Err::<Chunk, _>(
                AllocationError::OutOfMemory,
            ),
            result.is_err() ==> final(self).spec_position() == old(self).spec_position(),
            layout.spec_size() > 0 && old(self).fits(layout) ==> result == Ok::<
                _,
                AllocationError,
            >(
                (Chunk {
                    start: spec_align(
                        old(self).spec_position() as int,
                        layout.spec_align() as int,
                    ) as usize,
                    size: layout.spec_size(),
                }),
            ) && final(self).spec_position() == spec_align(
                old(self).spec_position() as int,
                layout.spec_align() as int,
            ) + layout.spec_size(),
    {
        if layout.size() == 0 {
            return Err(AllocationError::SizeIsZero);
        }
        let free: usize = self.free_space();
        let remainder: usize = self.pos % layout.align();
        let padding: usize = if remainder == 0 {
            0
        } else {
            layout.align() - remainder
        };
        if padding > free || layout.size() > free - padding {
            return Err(AllocationError::OutOfMemory);
        }
        let aligned_position: usize = self.pos + padding;
        self.pos = aligned_position + layout.size();
        Ok(Chunk { start: aligned_position, size: layout.size() })
    }

    /// Takes back everything that was handed out.
    pub fn deallocate(&mut self, chunk_start: usize, layout: Layout) -> (result: Result<
        (),
        DeallocationError,
    >)
        requires
            old(self).wf(),
        ensures
            final(self).wf(),
            result.is_ok(),
            final(self).spec_start() == old(self).spec_start(),
            final(self).spec_size() == old(self).spec_size(),
            final(self).spec_position() == old(self).spec_start(),
    {
        self.pos = self.start;
        Ok(())
    }
}

} // verus!
