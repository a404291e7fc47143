//! The numbers with which the operating system tells why a call failed.

use vstd::prelude::*;

verus! {

/// The call succeeded.
pub const ESUCCES: i32 = 0;

/// The call was interrupted by a signal.
pub const EINTR: i32 = 4;

/// An input or output error occurred.
pub const EIO: i32 = 5;

/// The file descriptor is invalid.
pub const EBADF: i32 = 9;

/// The resource is temporarily unavailable.
pub const EAGAIN: i32 = 11;

/// The permission is denied.
pub const EACCES: i32 = 13;

/// The system has too many open files.
pub const ENFILE: i32 = 23;

/// The process has too many open files.
pub const EMFILE: i32 = 24;

/// The result is too large for the buffer.
pub const ERANGE: i32 = 34;

/// A deadlock would occur.
pub const EDEADLK: i32 = 35;

/// No locks are available.
pub const ENOLCK: i32 = 37;

} // verus!
