//! The bookkeeping of a lock on a file. The operating system locks and
//! unlocks the file; this module keeps track of the locks that this
//! process holds and decides what the answers of the operating system
//! mean.

use crate::posix::errno::{EACCES, EAGAIN, EBADF, EDEADLK, EINTR, ENOLCK};
use vstd::prelude::*;

verus! {

/// Failures when a file is locked.
#[derive(Debug, Clone, Copy, PartialEq, Eq, Structural)]
pub enum FileTryLockError {
    Interrupt,
    ExceedsMaximumNumberOfLockedRegionsInSystem,
    InvalidFileDescriptorOrWrongOpenMode,
    DeadlockConditionDetected,
    UnknownError(i32),
}

/// Failures when a file is unlocked.
#[derive(Debug, Clone, Copy, PartialEq, Eq, Structural)]
pub enum FileUnlockError {
    Interrupt,
    InvalidFileDescriptorOrWrongOpenMode,
    IsNotLocked,
    UnknownError(i32),
}

/// Failures when the state of the lock of a file is asked for.
#[derive(Debug, Clone, Copy, PartialEq, Eq, Structural)]
pub enum FileLockStateError {
    InvalidFileDescriptor,
    Interrupt,
    UnknownError(i32),
}

/// The kinds of locks.
#[derive(Debug, Clone, Copy, PartialEq, Eq, Structural)]
pub enum LockType {
    Read,
    Write,
    Unlock,
}

/// The state of the lock of a file: the kind of the lock and the process
/// that holds it.
#[derive(Debug, Clone, Copy, PartialEq, Eq, Structural)]
pub struct LockState {
    lock_type: LockType,
    pid: i32,
}

impl LockState {
    /// The kind of the lock.
    pub closed spec fn spec_lock_type(&self) -> LockType {
        self.lock_type
    }

    /// The process that holds the lock.
    pub closed spec fn spec_pid_of_owner(&self) -> i32 {
        self.pid
    }

    /// The state with the given kind of lock and holder.
    pub closed spec fn spec_new(lock_type: LockType, pid: i32) -> LockState {
        LockState { lock_type, pid }
    }

    /// A state has the kind of lock and the holder that it was made of.
    pub broadcast proof fn lemma_new(lock_type: LockType, pid: i32)
        ensures
            (#[trigger] Self::spec_new(lock_type, pid)).spec_lock_type() == lock_type,
            Self::spec_new(lock_type, pid).spec_pid_of_owner() == pid,
    {
    }

    /// Returns the kind of the lock.
    pub fn lock_type(&self) -> (lock_type: LockType)
        ensures
            lock_type == self.spec_lock_type(),
    {
        self.lock_type
    }

    /// Returns the process that holds the lock.
    pub fn pid_of_owner(&self) -> (pid: i32)
        ensures
            pid == self.spec_pid_of_owner(),
    {
        self.pid
    }
}

/// What the lock state of the operating system says about a lock that
/// another process may hold: the kind of lock as the operating system
/// numbers it, and the process.
#[derive(Debug, Clone, Copy, PartialEq, Eq, Structural)]
pub struct SystemLock {
    pub l_type: i32,
    pub l_pid: i32,
}

/// The number of the operating system for a read lock.
pub const F_RDLCK: i32 = 0;

/// The number of the operating system for a write lock.
pub const F_WRLCK: i32 = 1;

/// The number of the operating system for no lock.
pub const F_UNLCK: i32 = 2;

/// The lock counter after a lock of the given kind was taken or given up:
/// a read lock counts up, a write lock counts down, and an unlock moves
/// the counter by one towards zero or, from zero, up.
pub open spec fn spec_lock_state_after(lock_state: i64, value: LockType) -> int {
    match value {
        LockType::Read => lock_state + 1,
        LockType::Write => lock_state - 1,
        LockType::Unlock => if lock_state > 0 {
            lock_state - 1
        } else {
            lock_state + 1
        },
    }
}

/// What an attempt to lock comes to that the operating system answered
/// with `succeeded` and, when it failed, with the error number `errno`:
/// true when the lock was acquired, false when somebody else holds it.
pub open spec fn spec_lock_result(succeeded: bool, errno: i32) -> Result<bool, FileTryLockError> {
    if succeeded {
        Ok(true)
    } else if errno == EACCES || errno == EAGAIN {
        Ok(false)
    } else if errno == EBADF {
        Err(FileTryLockError::InvalidFileDescriptorOrWrongOpenMode)
    } else if errno == EINTR {
        Err(FileTryLockError::Interrupt)
    } else if errno == ENOLCK {
        Err(FileTryLockError::ExceedsMaximumNumberOfLockedRegionsInSystem)
    } else if errno == EDEADLK {
        Err(FileTryLockError::DeadlockConditionDetected)
    } else {
        Err(FileTryLockError::UnknownError(errno))
    }
}

/// What an attempt to unlock comes to.
pub open spec fn spec_release_result(succeeded: bool, errno: i32) -> Result<(), FileUnlockError> {
    if succeeded {
        Ok(())
    } else if errno == EBADF {
        Err(FileUnlockError::InvalidFileDescriptorOrWrongOpenMode)
    } else if errno == EINTR {
        Err(FileUnlockError::Interrupt)
    } else {
        Err(FileUnlockError::UnknownError(errno))
    }
}

/// What asking the operating system for the state of the lock comes to.
pub open spec fn spec_system_lock_state(succeeded: bool, lock: SystemLock, errno: i32) -> Result<
    LockState,
    FileLockStateError,
> {
    if succeeded {
        Ok(
            LockState::spec_new(
                if lock.l_type == F_WRLCK {
                    LockType::Write
                } else if lock.l_type == F_RDLCK {
                    LockType::Read
                } else {
                    LockType::Unlock
                },
                lock.l_pid,
            ),
        )
    } else if errno == EBADF {
        Err(FileLockStateError::InvalidFileDescriptor)
    } else if errno == EINTR {
        Err(FileLockStateError::Interrupt)
    } else {
        Err(FileLockStateError::UnknownError(errno))
    }
}

/// The bookkeeping of the locks that this process holds on one file. The
/// counter is positive while the process holds read locks, negative while
/// it holds a write lock and zero while it holds no lock.
#[derive(Debug)]
pub struct FileLock {
    lock_state: i64,
}

impl FileLock {
    /// The lock counter.
    pub closed spec fn spec_lock_state(&self) -> i64 {
        self.lock_state
    }

    /// Returns the lock counter: the number of read locks that this
    /// process holds, or minus one while it holds the write lock.
    pub fn lock_state(&self) -> (lock_state: i64)
        ensures
            lock_state == self.spec_lock_state(),
    {
        self.lock_state
    }

    /// Creates the bookkeeping of a file on which this process holds no
    /// lock.
    pub fn new() -> (file_lock: Self)
        ensures
            file_lock.spec_lock_state() == 0,
    {
        Self { lock_state: 0 }
    }

    /// Decides what the answer of the operating system to an attempt to
    /// lock means, and counts the lock when it was acquired.
    pub fn internal_lock(&mut self, lock_type: LockType, succeeded: bool, errno: i32) -> (result:
        Result<bool, FileTryLockError>)
        requires
            i64::MIN < old(self).spec_lock_state() < i64::MAX,
        ensures
            result == spec_lock_result(succeeded, errno),
            succeeded ==> final(self).spec_lock_state() == spec_lock_state_after(
                old(self).spec_lock_state(),
                lock_type,
            ),
            !succeeded ==> final(self).spec_lock_state() == old(self).spec_lock_state(),
    {
        if succeeded {
            self.set_lock_state(lock_type);
            return Ok(true);
        }
        if errno == EACCES || errno == EAGAIN {
            Ok(false)
        } else if errno == EBADF {
            Err(FileTryLockError::InvalidFileDescriptorOrWrongOpenMode)
        } else if errno == EINTR {
            Err(FileTryLockError::Interrupt)
        } else if errno == ENOLCK {
            Err(FileTryLockError::ExceedsMaximumNumberOfLockedRegionsInSystem)
        } else if errno == EDEADLK {
            Err(FileTryLockError::DeadlockConditionDetected)
        } else {
            Err(FileTryLockError::UnknownError(errno))
        }
    }

    /// Decides what the answer of the operating system to an attempt to
    /// unlock means, and counts the unlock when it succeeded.
    pub fn release(&mut self, succeeded: bool, errno: i32) -> (result: Result<(), FileUnlockError>)
        requires
            i64::MIN < old(self).spec_lock_state() < i64::MAX,
        ensures
            result == spec_release_result(succeeded, errno),
            succeeded ==> final(self).spec_lock_state() == spec_lock_state_after(
                old(self).spec_lock_state(),
                LockType::Unlock,
            ),
            !succeeded ==> final(self).spec_lock_state() == old(self).spec_lock_state(),
    {
        if succeeded {
            self.set_lock_state(LockType::Unlock);
            return Ok(());
        }
        if errno == EBADF {
            Err(FileUnlockError::InvalidFileDescriptorOrWrongOpenMode)
        } else if errno == EINTR {
            Err(FileUnlockError::Interrupt)
        } else {
            Err(FileUnlockError::UnknownError(errno))
        }
    }

    /// Returns the state of the lock as far as this process knows it by
    /// itself: a read or a write lock that the process with the id
    /// `own_pid` holds, or [`None`] when the process holds no lock and the
    /// operating system must be asked.
    pub fn own_lock_state(&self, own_pid: i32) -> (state: Option<LockState>)
        ensures
            self.spec_lock_state() > 0 ==> state == Some(
                LockState::spec_new(LockType::Read, own_pid),
            ),
            self.spec_lock_state() < 0 ==> state == Some(
                LockState::spec_new(LockType::Write, own_pid),
            ),
            self.spec_lock_state() == 0 ==> state.is_none(),
    {
        if self.lock_state > 0 {
            Some(LockState { lock_type: LockType::Read, pid: own_pid })
        } else if self.lock_state < 0 {
            Some(LockState { lock_type: LockType::Write, pid: own_pid })
        } else {
            None
        }
    }

    /// Returns the state of the lock: what this process knows by itself,
    /// or else what the operating system answered when it was asked with
    /// a write lock in mind.
    pub fn get_lock_state(&self, own_pid: i32, succeeded: bool, lock: SystemLock, errno: i32) -> (result:
        Result<LockState, FileLockStateError>)
        ensures
            self.spec_lock_state() > 0 ==> result == Ok::<LockState, FileLockStateError>(
                LockState::spec_new(LockType::Read, own_pid),
            ),
            self.spec_lock_state() < 0 ==> result == Ok::<LockState, FileLockStateError>(
                LockState::spec_new(LockType::Write, own_pid),
            ),
            self.spec_lock_state() == 0 ==> result == spec_system_lock_state(
                succeeded,
                lock,
                errno,
            ),
    {
        if let Some(state) = self.own_lock_state(own_pid) {
            return Ok(state);
        }
        if succeeded {
            Ok(
                LockState {
                    lock_type: if lock.l_type == F_WRLCK {
                        LockType::Write
                    } else if lock.l_type == F_RDLCK {
                        LockType::Read
                    } else {
                        LockType::Unlock
                    },
                    pid: lock.l_pid,
                },
            )
        } else if errno == EBADF {
            Err(FileLockStateError::InvalidFileDescriptor)
        } else if errno == EINTR {
            Err(FileLockStateError::Interrupt)
        } else {
            Err(FileLockStateError::UnknownError(errno))
        }
    }

    fn set_lock_state(&mut self, value: LockType)
        requires
            i64::MIN < old(self).spec_lock_state() < i64::MAX,
        ensures
            final(self).spec_lock_state() == spec_lock_state_after(
                old(self).spec_lock_state(),
                value,
            ),
    {
        let current_value: i64 = self.lock_state;
        let adjustment: i64 = match value {
            LockType::Read => 1,
            LockType::Write => -1,
            LockType::Unlock => {
                if current_value > 0 {
                    -1
                } else {
                    1
                }
            },
        };
        self.lock_state = current_value + adjustment;
    }
}

} // verus!
