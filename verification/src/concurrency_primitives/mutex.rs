//! A lock that one party holds at a time.

use vstd::prelude::*;

verus! {

/// The state of a mutex that nobody holds.
pub const UNLOCKED: u32 = 0;

/// The state of a mutex that somebody holds.
pub const LOCKED: u32 = 1;

/// The lock.
#[derive(Debug)]
pub struct Mutex {
    state: u32,
}

impl Mutex {
    /// The state of the mutex: zero while nobody holds it, one while
    /// somebody does.
    pub closed spec fn spec_state(&self) -> u32 {
        self.state
    }

    /// True while somebody holds the mutex.
    pub open spec fn is_locked(&self) -> bool {
        self.spec_state() == LOCKED
    }

    /// The state of every mutex is one of the two states.
    pub closed spec fn wf(&self) -> bool {
        self.state == UNLOCKED || self.state == LOCKED
    }

    /// Creates a mutex that nobody holds.
    pub fn new() -> (mutex: Self)
        ensures
            mutex.wf(),
            !mutex.is_locked(),
    {
        Self { state: UNLOCKED }
    }

    /// Acquires the mutex. When somebody holds it, `wait` is called with
    /// the state of the mutex and the state that means that it is held; it
    /// waits and returns false when it gives up. `wait` must give up while
    /// the mutex stays held, since otherwise the call would never return.
    /// Returns true if the mutex was acquired.
    pub fn lock<Wait: Fn(u32, u32) -> bool>(&mut self, wait: Wait) -> (acquired: bool)
        requires
            old(self).wf(),
            old(self).is_locked() ==> call_requires(wait, (LOCKED, LOCKED)),
            old(self).is_locked() ==> forall|gave_in: bool|
                call_ensures(wait, (LOCKED, LOCKED), gave_in) ==> !gave_in,
        ensures
            final(self).wf(),
            final(self).is_locked(),
            acquired == !old(self).is_locked(),
            old(self).is_locked() ==> call_ensures(wait, (LOCKED, LOCKED), false),
    {
        if self.uncontested_lock() {
            return true;
        }
        let action = wait(self.state, LOCKED);
        assert(!action);
        false
    }

    /// Releases the mutex and calls `wake_one` with the state of the
    /// mutex, which wakes one of those who wait for it.
    pub fn unlock<WakeOne: Fn(u32)>(&mut self, wake_one: WakeOne)
        requires
            old(self).wf(),
            call_requires(wake_one, (UNLOCKED,)),
        ensures
            final(self).wf(),
            !final(self).is_locked(),
            call_ensures(wake_one, (UNLOCKED,), ()),
    {
        self.state = UNLOCKED;
        wake_one(self.state);
    }

    /// Acquires the mutex unless somebody holds it. Returns true if the
    /// mutex was acquired.
    pub fn try_lock(&mut self) -> (acquired: bool)
        requires
            old(self).wf(),
        ensures
            final(self).wf(),
            final(self).is_locked(),
            acquired == !old(self).is_locked(),
    {
        self.uncontested_lock()
    }

    fn uncontested_lock(&mut self) -> (acquired: bool)
        requires
            old(self).wf(),
        ensures
            final(self).wf(),
            final(self).is_locked(),
            acquired == !old(self).is_locked(),
    {
        if self.state == UNLOCKED {
            self.state = LOCKED;
            true
        } else {
            false
        }
    }
}

} // verus!
