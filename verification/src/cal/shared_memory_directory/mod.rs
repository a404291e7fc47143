//! A directory of named files that live in one shared memory segment. The
//! directory keeps, for each file, where its content lies in the segment
//! and who refers to it.

pub mod file_reference_set;

use vstd::prelude::*;

verus! {

/// The number of files that a directory holds at most.
pub const MAX_NUMBER_OF_ENTRIES: usize = 512;

/// Failures when a file is created in a directory.
#[derive(Debug, PartialEq, Eq, Clone, Copy)]
pub enum SharedMemoryDirectoryCreateFileError {
    FileLimitExceeded,
    BeingCreated,
    DoesExist,
}

} // verus!
