//! The id that a notifier sends to the listeners.

use crate::cal::event::TriggerId;
use vstd::prelude::*;

verus! {

/// The id of an event.
#[derive(Debug, Clone, Copy, PartialEq, Eq, Structural)]
pub struct EventId {
    value: u64,
}

impl EventId {
    /// The number behind the id.
    pub closed spec fn spec_as_u64(&self) -> u64 {
        self.value
    }

    /// The id of the given number.
    pub closed spec fn spec_new(value: u64) -> EventId {
        EventId { value }
    }

    /// The id of a number has that number.
    pub broadcast proof fn lemma_new_as_u64(value: u64)
        ensures
            #[trigger] Self::spec_new(value).spec_as_u64() == value,
    {
    }

    /// Ids with the same number are the same.
    pub proof fn lemma_same_number(self, other: EventId)
        requires
            self.spec_as_u64() == other.spec_as_u64(),
        ensures
            self == other,
    {
    }

    /// Creates the id of the given number.
    pub fn new(value: u64) -> (id: EventId)
        ensures
            id == Self::spec_new(value),
            id.spec_as_u64() == value,
    {
        EventId { value }
    }

    /// Creates the id that is used unless another one is chosen: zero.
    pub fn default() -> (id: EventId)
        ensures
            id == Self::spec_new(0),
    {
        EventId { value: 0 }
    }

    /// Returns the number behind the id.
    pub fn as_u64(&self) -> (value: u64)
        ensures
            value == self.spec_as_u64(),
    {
        self.value
    }
}

impl TriggerId for EventId {
    closed spec fn spec_as_u64(&self) -> u64 {
        self.value
    }

    fn as_u64(&self) -> (value: u64) {
        self.value
    }
}

} // verus!
