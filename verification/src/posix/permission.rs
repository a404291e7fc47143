//! Access permissions of files and directories.

use vstd::prelude::*;

verus! {

/// The permission bits of the owner who may read.
pub const OWNER_READ: u16 = 0o400;

/// The permission bits of the owner who may write.
pub const OWNER_WRITE: u16 = 0o200;

/// The permission bits of the owner who may execute.
pub const OWNER_EXEC: u16 = 0o100;

/// The permission bits of the owner who may do everything.
pub const OWNER_ALL: u16 = 0o700;

/// The permission bits of the group that may do everything.
pub const GROUP_ALL: u16 = 0o070;

/// A set of permission bits.
#[derive(Debug, Clone, Copy, PartialEq, Eq, Structural)]
pub struct Permission {
    pub bits: u16,
}

impl Permission {
    /// The permission with the given bits.
    pub open spec fn spec_new(bits: u16) -> Permission {
        Permission { bits }
    }

    /// Creates the permission with the given bits.
    pub fn new(bits: u16) -> (permission: Permission)
        ensures
            permission == Self::spec_new(bits),
    {
        Permission { bits }
    }

    /// True if every bit of `other` is set.
    pub open spec fn spec_has(&self, other: u16) -> bool {
        self.bits & other == other
    }

    /// Returns true if every bit of `other` is set.
    pub fn has(&self, other: u16) -> (has: bool)
        ensures
            has == self.spec_has(other),
    {
        self.bits & other == other
    }
}

} // verus!
