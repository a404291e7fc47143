//! A counter that those who wait for a condition watch: every notification
//! advances it.

use crate::concurrency_primitives::mutex::{Mutex, LOCKED, UNLOCKED};
use vstd::prelude::*;

verus! {

/// The condition variable.
#[derive(Debug)]
pub struct ConditionVariable {
    counter: u32,
}

impl ConditionVariable {
    /// The number of notifications so far, modulo 2^32.
    pub closed spec fn spec_counter(&self) -> u32 {
        self.counter
    }

    /// Creates a condition variable that was never notified.
    pub fn new() -> (variable: Self)
        ensures
            variable.spec_counter() == 0,
    {
        Self { counter: 0 }
    }

    /// Advances the counter and calls `wake_one_or_all` with it, which
    /// wakes one or all of those who wait.
    pub fn notify<WakeOneOrAll: Fn(u32)>(&mut self, wake_one_or_all: WakeOneOrAll)
        requires
            call_requires(wake_one_or_all, (old(self).spec_counter().wrapping_add(1),)),
        ensures
            final(self).spec_counter() == old(self).spec_counter().wrapping_add(1),
            call_ensures(wake_one_or_all, (final(self).spec_counter(),), ()),
    {
        self.counter = self.counter.wrapping_add(1);
        wake_one_or_all(self.counter);
    }

    /// Releases the mutex, waits for a notification and acquires the mutex
    /// again. `wait` is called with the counter and the value that the
    /// counter had when the wait began; it returns false when it gives up,
    /// in which case the mutex stays released and the result is false.
    pub fn wait<WakeOne: Fn(u32), Wait: Fn(u32, u32) -> bool, MtxWait: Fn(u32, u32) -> bool>(
        &self,
        mtx: &mut Mutex,
        mtx_wake_one: WakeOne,
        wait: Wait,
        mtx_wait: MtxWait,
    ) -> (notified: bool)
        requires
            old(mtx).wf(),
            call_requires(mtx_wake_one, (UNLOCKED,)),
            call_requires(wait, (self.spec_counter(), self.spec_counter())),
        ensures
            final(mtx).wf(),
            final(mtx).is_locked() == notified,
            call_ensures(mtx_wake_one, (UNLOCKED,), ()),
            call_ensures(wait, (self.spec_counter(), self.spec_counter()), notified),
    {
        let counter_value: u32 = self.counter;
        mtx.unlock(mtx_wake_one);

        if !wait(self.counter, counter_value) {
            return false;
        }

        mtx.lock(mtx_wait)
    }
}

} // verus!
