//! Allocators that hand out pieces of one region of memory. A region is
//! named by the address of its first byte and its size; what is handed out
//! is named in the same way.

pub mod bump_allocator;
pub mod one_chunk_allocator;
pub mod pool_allocator;
