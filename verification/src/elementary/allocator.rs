//! What every allocator of this crate speaks in: layouts, chunks of memory
//! that are named by their address, and the reasons for which a request
//! fails.

use vstd::prelude::*;

verus! {

/// Failures of an allocation.
#[derive(Debug, Clone, Copy, PartialEq, Eq, Structural)]
pub enum AllocationError {
    SizeIsZero,
    SizeTooLarge,
    AlignmentFailure,
    OutOfMemory,
    InternalError,
}

/// Failures when a chunk shall grow.
#[derive(Debug, Clone, Copy, PartialEq, Eq, Structural)]
pub enum AllocationGrowError {
    GrowWouldShrink,
    SizeIsZero,
    OutOfMemory,
    AlignmentFailure,
    ProvidedPointerNotContainedInAllocator,
    InternalError,
}

/// Failures when a chunk shall shrink.
#[derive(Debug, Clone, Copy, PartialEq, Eq, Structural)]
pub enum AllocationShrinkError {
    ShrinkWouldGrow,
    SizeIsZero,
    AlignmentFailure,
    ProvidedPointerNotContainedInAllocator,
    InternalError,
}

/// Failures of a deallocation.
#[derive(Debug, Clone, Copy, PartialEq, Eq, Structural)]
pub enum DeallocationError {
    ProvidedPointerNotContainedInAllocator,
    InternalError,
}

/// Size and alignment of a piece of memory. The alignment is at least one.
#[derive(Debug, Clone, Copy, PartialEq, Eq, Structural)]
pub struct Layout {
    size: usize,
    align: usize,
}

impl Layout {
    /// The size in bytes.
    pub closed spec fn spec_size(&self) -> usize {
        self.size
    }

    /// The alignment in bytes, which is never zero.
    pub closed spec fn spec_align(&self) -> usize {
        self.align
    }

    /// The alignment of every layout is at least one.
    pub open spec fn wf(&self) -> bool {
        self.spec_align() > 0
    }

    /// The layout of `size` bytes at an alignment of `align` bytes.
    pub closed spec fn spec_from_size_align(size: usize, align: usize) -> Layout {
        Layout { size, align }
    }

    /// A layout has the size and the alignment that it was made of.
    pub broadcast proof fn lemma_from_size_align(size: usize, align: usize)
        ensures
            (#[trigger] Self::spec_from_size_align(size, align)).spec_size() == size,
            Self::spec_from_size_align(size, align).spec_align() == align,
    {
    }

    /// Creates the layout of `size` bytes at an alignment of `align` bytes.
    /// Returns [`None`] for an alignment of zero.
    pub fn from_size_align(size: usize, align: usize) -> (layout: Option<Layout>)
        ensures
            layout.is_some() == (align > 0),
            layout.is_some() ==> layout.unwrap().wf() && layout.unwrap().spec_size() == size
                && layout.unwrap().spec_align() == align && layout.unwrap()
                == Self::spec_from_size_align(size, align),
    {
        if align == 0 {
            None
        } else {
            Some(Layout { size, align })
        }
    }

    /// Returns the size in bytes.
    pub fn size(&self) -> (size: usize)
        ensures
            size == self.spec_size(),
    {
        self.size
    }

    /// Returns the alignment in bytes.
    pub fn align(&self) -> (align: usize)
        ensures
            align == self.spec_align(),
    {
        self.align
    }
}

/// A chunk of memory: the address of its first byte and its length.
#[derive(Debug, Clone, Copy, PartialEq, Eq, Structural)]
pub struct Chunk {
    pub start: usize,
    pub size: usize,
}

} // verus!
