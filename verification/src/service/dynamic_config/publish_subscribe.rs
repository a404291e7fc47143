//! The registries of a publish subscribe service: the identities of its
//! publishers and of its subscribers.

use crate::lock_free::mpmc::container::{Container, ContainerState};
use crate::lock_free::mpmc::unique_index_set::{UniqueIndex, MAX_CAPACITY};
use vstd::prelude::*;

verus! {

/// The registries of a publish subscribe service.
pub struct DynamicConfig {
    pub(crate) subscribers: Container<u128>,
    pub(crate) publishers: Container<u128>,
}

impl DynamicConfig {
    /// The invariant that every operation keeps.
    pub closed spec fn wf(&self) -> bool {
        self.subscribers.wf() && self.publishers.wf()
    }

    /// The identities of the subscribers by their slot.
    pub closed spec fn spec_subscribers(&self) -> Seq<Option<u128>> {
        self.subscribers@
    }

    /// The identities of the publishers by their slot.
    pub closed spec fn spec_publishers(&self) -> Seq<Option<u128>> {
        self.publishers@
    }

    /// The registry of the subscribers.
    pub closed spec fn subscriber_registry(&self) -> Container<u128> {
        self.subscribers
    }

    /// The registry of the publishers.
    pub closed spec fn publisher_registry(&self) -> Container<u128> {
        self.publishers
    }

    /// The registries of a well-formed state are well-formed and their
    /// views are the identities by slot.
    pub proof fn lemma_registries(&self)
        requires
            self.wf(),
        ensures
            self.subscriber_registry().wf(),
            self.publisher_registry().wf(),
            self.subscriber_registry()@ == self.spec_subscribers(),
            self.publisher_registry()@ == self.spec_publishers(),
    {
    }

    /// Creates the registries for up to `max_publishers` publishers and
    /// `max_subscribers` subscribers. Both are empty.
    pub fn new(max_publishers: u32, max_subscribers: u32) -> (config: Self)
        requires
            max_publishers <= MAX_CAPACITY,
            max_subscribers <= MAX_CAPACITY,
        ensures
            config.wf(),
            config.spec_publishers() == Seq::new(max_publishers as nat, |i: int| None::<u128>),
            config.spec_subscribers() == Seq::new(max_subscribers as nat, |i: int| None::<u128>),
    {
        Self {
            subscribers: Container::new(max_subscribers),
            publishers: Container::new(max_publishers),
        }
    }

    /// Returns the number of publishers.
    pub fn number_of_publishers(&self) -> (number: usize)
        requires
            self.wf(),
        ensures
            number == crate::lock_free::mpmc::container::occupied_slots(self.spec_publishers()),
    {
        self.publishers.len()
    }

    /// Returns the number of subscribers.
    pub fn number_of_subscribers(&self) -> (number: usize)
        requires
            self.wf(),
        ensures
            number == crate::lock_free::mpmc::container::occupied_slots(self.spec_subscribers()),
    {
        self.subscribers.len()
    }

    /// Registers the subscriber with the given identity. Returns the guard
    /// of its slot, or [`None`] when every slot is occupied.
    pub fn add_subscriber_id(&mut self, id: u128) -> (index: Option<UniqueIndex>)
        requires
            old(self).wf(),
        ensures
            final(self).wf(),
            final(self).subscriber_registry().spec_change_counter() == (if index.is_some() {
                old(self).subscriber_registry().spec_change_counter().wrapping_add(1)
            } else {
                old(self).subscriber_registry().spec_change_counter()
            }),
            final(self).spec_publishers() == old(self).spec_publishers(),
            final(self).publisher_registry() == old(self).publisher_registry(),
            index.is_some() == old(self).subscriber_registry().next_free_slot().is_some(),
            index.is_none() ==> final(self).spec_subscribers() == old(self).spec_subscribers(),
            index.is_some() ==> Some(index.unwrap().spec_value()) == old(self).subscriber_registry().next_free_slot() && final(self).spec_subscribers() == old(self).spec_subscribers().update(index.unwrap().spec_value() as int, Some(id)),
    {
        self.subscribers.add(id)
    }

    /// Registers the publisher with the given identity. Returns the guard
    /// of its slot, or [`None`] when every slot is occupied.
    pub fn add_publisher_id(&mut self, id: u128) -> (index: Option<UniqueIndex>)
        requires
            old(self).wf(),
        ensures
            final(self).wf(),
            final(self).publisher_registry().spec_change_counter() == (if index.is_some() {
                old(self).publisher_registry().spec_change_counter().wrapping_add(1)
            } else {
                old(self).publisher_registry().spec_change_counter()
            }),
            final(self).spec_subscribers() == old(self).spec_subscribers(),
            final(self).subscriber_registry() == old(self).subscriber_registry(),
            index.is_some() == old(self).publisher_registry().next_free_slot().is_some(),
            index.is_none() ==> final(self).spec_publishers() == old(self).spec_publishers(),
            index.is_some() ==> Some(index.unwrap().spec_value()) == old(self).publisher_registry().next_free_slot() && final(self).spec_publishers() == old(self).spec_publishers().update(index.unwrap().spec_value() as int, Some(id)),
    {
        self.publishers.add(id)
    }

    /// Removes the subscriber in the slot of `index`. Returns false when
    /// the slot holds no subscriber.
    pub fn remove_subscriber_id(&mut self, index: UniqueIndex) -> (removed: bool)
        requires
            old(self).wf(),
        ensures
            final(self).wf(),
            final(self).subscriber_registry().spec_change_counter() == (if removed {
                old(self).subscriber_registry().spec_change_counter().wrapping_add(1)
            } else {
                old(self).subscriber_registry().spec_change_counter()
            }),
            final(self).spec_publishers() == old(self).spec_publishers(),
            final(self).publisher_registry() == old(self).publisher_registry(),
            removed == (index.spec_value() < old(self).spec_subscribers().len() && old(self).spec_subscribers()[index.spec_value() as int].is_some()),
            removed ==> final(self).spec_subscribers() == old(self).spec_subscribers().update(
                index.spec_value() as int,
                None,
            ),
            !removed ==> final(self).spec_subscribers() == old(self).spec_subscribers(),
    {
        self.subscribers.remove(index)
    }

    /// Removes the publisher in the slot of `index`. Returns false when
    /// the slot holds no publisher.
    pub fn remove_publisher_id(&mut self, index: UniqueIndex) -> (removed: bool)
        requires
            old(self).wf(),
        ensures
            final(self).wf(),
            final(self).publisher_registry().spec_change_counter() == (if removed {
                old(self).publisher_registry().spec_change_counter().wrapping_add(1)
            } else {
                old(self).publisher_registry().spec_change_counter()
            }),
            final(self).spec_subscribers() == old(self).spec_subscribers(),
            final(self).subscriber_registry() == old(self).subscriber_registry(),
            removed == (index.spec_value() < old(self).spec_publishers().len() && old(self).spec_publishers()[index.spec_value() as int].is_some()),
            removed ==> final(self).spec_publishers() == old(self).spec_publishers().update(
                index.spec_value() as int,
                None,
            ),
            !removed ==> final(self).spec_publishers() == old(self).spec_publishers(),
    {
        self.publishers.remove(index)
    }

    /// Returns a snapshot of the registry of the publishers.
    pub fn publisher_state(&self) -> (state: ContainerState<u128>)
        requires
            self.wf(),
        ensures
            state@ == self.spec_publishers(),
            state.observed_change_counter() == self.publisher_registry().spec_change_counter(),
    {
        self.publishers.get_state()
    }

    /// Returns a snapshot of the registry of the subscribers.
    pub fn subscriber_state(&self) -> (state: ContainerState<u128>)
        requires
            self.wf(),
        ensures
            state@ == self.spec_subscribers(),
            state.observed_change_counter() == self.subscriber_registry().spec_change_counter(),
    {
        self.subscribers.get_state()
    }

    /// Returns true if a publisher can be registered.
    pub fn has_free_publisher_slot(&self) -> (free: bool)
        requires
            self.wf(),
        ensures
            free == self.publisher_registry().next_free_slot().is_some(),
    {
        self.publishers.has_free_slot()
    }

    /// Returns true if a subscriber can be registered.
    pub fn has_free_subscriber_slot(&self) -> (free: bool)
        requires
            self.wf(),
        ensures
            free == self.subscriber_registry().next_free_slot().is_some(),
    {
        self.subscribers.has_free_slot()
    }

    /// Returns true if the given slot holds a publisher.
    pub fn is_publisher_slot_occupied(&self, slot: usize) -> (occupied: bool)
        requires
            self.wf(),
        ensures
            occupied == (slot < self.spec_publishers().len() && self.spec_publishers()[slot as int].is_some()),
    {
        self.publishers.is_occupied(slot)
    }

    /// Returns true if the given slot holds a subscriber.
    pub fn is_subscriber_slot_occupied(&self, slot: usize) -> (occupied: bool)
        requires
            self.wf(),
        ensures
            occupied == (slot < self.spec_subscribers().len() && self.spec_subscribers()[slot as int].is_some()),
    {
        self.subscribers.is_occupied(slot)
    }

    /// Brings a snapshot of the registry of the publishers up to date.
    /// Returns true when the registry has changed since the snapshot was
    /// taken.
    pub fn update_publisher_state(&self, state: &mut ContainerState<u128>) -> (changed: bool)
        requires
            self.wf(),
        ensures
            changed == (old(state).observed_change_counter()
                != self.publisher_registry().spec_change_counter()),
            changed ==> final(state)@ == self.spec_publishers(),
            !changed ==> final(state)@ == old(state)@,
            final(state).observed_change_counter()
                == self.publisher_registry().spec_change_counter(),
    {
        state.update(&self.publishers)
    }

    /// Brings a snapshot of the registry of the subscribers up to date.
    /// Returns true when the registry has changed since the snapshot was
    /// taken.
    pub fn update_subscriber_state(&self, state: &mut ContainerState<u128>) -> (changed: bool)
        requires
            self.wf(),
        ensures
            changed == (old(state).observed_change_counter()
                != self.subscriber_registry().spec_change_counter()),
            changed ==> final(state)@ == self.spec_subscribers(),
            !changed ==> final(state)@ == old(state)@,
            final(state).observed_change_counter()
                == self.subscriber_registry().spec_change_counter(),
    {
        state.update(&self.subscribers)
    }
}

} // verus!
