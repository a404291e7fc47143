//! A value that is not there when its holder is created and that is set at
//! most once afterwards.
//!
//! Useful for logger, error handling or config objects which are initialized
//! sometime during the startup phase.

use vstd::prelude::*;

verus! {

/// The lazily initialized building block of type T.
#[derive(Debug)]
pub struct LazySingleton<T> {
    data: Option<T>,
    is_initialized: bool,
    is_finalized: bool,
}

impl<T> View for LazySingleton<T> {
    type V = Option<T>;

    /// The value, once it was set.
    closed spec fn view(&self) -> Option<T> {
        self.data
    }
}

impl<T> LazySingleton<T> {
    /// The invariant that every operation keeps: the two flags agree with
    /// the presence of the value.
    pub closed spec fn wf(&self) -> bool {
        &&& self.is_initialized == self.data.is_some()
        &&& self.is_finalized == self.data.is_some()
    }

    /// Creates a new [`LazySingleton`] where the underlying value is not yet
    /// initialized.
    pub fn new() -> (singleton: Self)
        ensures
            singleton.wf(),
            singleton@.is_none(),
    {
        Self { data: None, is_initialized: false, is_finalized: false }
    }

    /// Returns true if the underlying value was initialized, otherwise false.
    pub fn is_initialized(&self) -> (initialized: bool)
        requires
            self.wf(),
        ensures
            initialized == self@.is_some(),
    {
        self.is_initialized
    }

    /// Sets the value of the uninitialized [`LazySingleton`]. If it was
    /// already initialized it keeps its value and returns false, otherwise
    /// true.
    pub fn set_value(&mut self, value: T) -> (was_set: bool)
        requires
            old(self).wf(),
        ensures
            final(self).wf(),
            was_set == old(self)@.is_none(),
            was_set ==> final(self)@ == Some(value),
            !was_set ==> final(self)@ == old(self)@,
    {
        if self.is_initialized {
            return false;
        }
        self.is_initialized = true;
        self.data = Some(value);
        self.is_finalized = true;
        true
    }

    /// Returns a reference to the underlying value, which must have been
    /// set.
    pub fn get(&self) -> (value: &T)
        requires
            self.wf(),
            self@.is_some(),
        ensures
            Some(*value) == self@,
    {
        self.data.as_ref().unwrap()
    }
}

} // verus!
