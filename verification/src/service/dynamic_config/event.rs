//! The registries of a event service: the identities of its
//! notifiers and of its listeners.

use crate::lock_free::mpmc::container::{Container, ContainerState};
use crate::lock_free::mpmc::unique_index_set::{UniqueIndex, MAX_CAPACITY};
use vstd::prelude::*;

verus! {

/// The registries of a event service.
pub struct DynamicConfig {
    pub(crate) listeners: Container<u128>,
    pub(crate) notifiers: Container<u128>,
}

impl DynamicConfig {
    /// The invariant that every operation keeps.
    pub closed spec fn wf(&self) -> bool {
        self.listeners.wf() && self.notifiers.wf()
    }

    /// The identities of the listeners by their slot.
    pub closed spec fn spec_listeners(&self) -> Seq<Option<u128>> {
        self.listeners@
    }

    /// The identities of the notifiers by their slot.
    pub closed spec fn spec_notifiers(&self) -> Seq<Option<u128>> {
        self.notifiers@
    }

    /// The registry of the listeners.
    pub closed spec fn listener_registry(&self) -> Container<u128> {
        self.listeners
    }

    /// The registry of the notifiers.
    pub closed spec fn notifier_registry(&self) -> Container<u128> {
        self.notifiers
    }

    /// The registries of a well-formed state are well-formed and their
    /// views are the identities by slot.
    pub proof fn lemma_registries(&self)
        requires
            self.wf(),
        ensures
            self.listener_registry().wf(),
            self.notifier_registry().wf(),
            self.listener_registry()@ == self.spec_listeners(),
            self.notifier_registry()@ == self.spec_notifiers(),
    {
    }

    /// Creates the registries for up to `max_notifiers` notifiers and
    /// `max_listeners` listeners. Both are empty.
    pub fn new(max_notifiers: u32, max_listeners: u32) -> (config: Self)
        requires
            max_notifiers <= MAX_CAPACITY,
            max_listeners <= MAX_CAPACITY,
        ensures
            config.wf(),
            config.spec_notifiers() == Seq::new(max_notifiers as nat, |i: int| None::<u128>),
            config.spec_listeners() == Seq::new(max_listeners as nat, |i: int| None::<u128>),
    {
        Self {
            listeners: Container::new(max_listeners),
            notifiers: Container::new(max_notifiers),
        }
    }

    /// Returns the number of notifiers.
    pub fn number_of_notifiers(&self) -> (number: usize)
        requires
            self.wf(),
        ensures
            number == crate::lock_free::mpmc::container::occupied_slots(self.spec_notifiers()),
    {
        self.notifiers.len()
    }

    /// Returns the number of listeners.
    pub fn number_of_listeners(&self) -> (number: usize)
        requires
            self.wf(),
        ensures
            number == crate::lock_free::mpmc::container::occupied_slots(self.spec_listeners()),
    {
        self.listeners.len()
    }

    /// Registers the listener with the given identity. Returns the guard
    /// of its slot, or [`None`] when every slot is occupied.
    pub fn add_listener_id(&mut self, id: u128) -> (index: Option<UniqueIndex>)
        requires
            old(self).wf(),
        ensures
            final(self).wf(),
            final(self).listener_registry().spec_change_counter() == (if index.is_some() {
                old(self).listener_registry().spec_change_counter().wrapping_add(1)
            } else {
                old(self).listener_registry().spec_change_counter()
            }),
            final(self).spec_notifiers() == old(self).spec_notifiers(),
            final(self).notifier_registry() == old(self).notifier_registry(),
            index.is_some() == old(self).listener_registry().next_free_slot().is_some(),
            index.is_none() ==> final(self).spec_listeners() == old(self).spec_listeners(),
            index.is_some() ==> Some(index.unwrap().spec_value()) == old(self).listener_registry().next_free_slot() && final(self).spec_listeners() == old(self).spec_listeners().update(index.unwrap().spec_value() as int, Some(id)),
    {
        self.listeners.add(id)
    }

    /// Registers the notifier with the given identity. Returns the guard
    /// of its slot, or [`None`] when every slot is occupied.
    pub fn add_notifier_id(&mut self, id: u128) -> (index: Option<UniqueIndex>)
        requires
            old(self).wf(),
        ensures
            final(self).wf(),
            final(self).notifier_registry().spec_change_counter() == (if index.is_some() {
                old(self).notifier_registry().spec_change_counter().wrapping_add(1)
            } else {
                old(self).notifier_registry().spec_change_counter()
            }),
            final(self).spec_listeners() == old(self).spec_listeners(),
            final(self).listener_registry() == old(self).listener_registry(),
            index.is_some() == old(self).notifier_registry().next_free_slot().is_some(),
            index.is_none() ==> final(self).spec_notifiers() == old(self).spec_notifiers(),
            index.is_some() ==> Some(index.unwrap().spec_value()) == old(self).notifier_registry().next_free_slot() && final(self).spec_notifiers() == old(self).spec_notifiers().update(index.unwrap().spec_value() as int, Some(id)),
    {
        self.notifiers.add(id)
    }

    /// Removes the listener in the slot of `index`. Returns false when
    /// the slot holds no listener.
    pub fn remove_listener_id(&mut self, index: UniqueIndex) -> (removed: bool)
        requires
            old(self).wf(),
        ensures
            final(self).wf(),
            final(self).listener_registry().spec_change_counter() == (if removed {
                old(self).listener_registry().spec_change_counter().wrapping_add(1)
            } else {
                old(self).listener_registry().spec_change_counter()
            }),
            final(self).spec_notifiers() == old(self).spec_notifiers(),
            final(self).notifier_registry() == old(self).notifier_registry(),
            removed == (index.spec_value() < old(self).spec_listeners().len() && old(self).spec_listeners()[index.spec_value() as int].is_some()),
            removed ==> final(self).spec_listeners() == old(self).spec_listeners().update(
                index.spec_value() as int,
                None,
            ),
            !removed ==> final(self).spec_listeners() == old(self).spec_listeners(),
    {
        self.listeners.remove(index)
    }

    /// Removes the notifier in the slot of `index`. Returns false when
    /// the slot holds no notifier.
    pub fn remove_notifier_id(&mut self, index: UniqueIndex) -> (removed: bool)
        requires
            old(self).wf(),
        ensures
            final(self).wf(),
            final(self).notifier_registry().spec_change_counter() == (if removed {
                old(self).notifier_registry().spec_change_counter().wrapping_add(1)
            } else {
                old(self).notifier_registry().spec_change_counter()
            }),
            final(self).spec_listeners() == old(self).spec_listeners(),
            final(self).listener_registry() == old(self).listener_registry(),
            removed == (index.spec_value() < old(self).spec_notifiers().len() && old(self).spec_notifiers()[index.spec_value() as int].is_some()),
            removed ==> final(self).spec_notifiers() == old(self).spec_notifiers().update(
                index.spec_value() as int,
                None,
            ),
            !removed ==> final(self).spec_notifiers() == old(self).spec_notifiers(),
    {
        self.notifiers.remove(index)
    }

    /// Returns a snapshot of the registry of the notifiers.
    pub fn notifier_state(&self) -> (state: ContainerState<u128>)
        requires
            self.wf(),
        ensures
            state@ == self.spec_notifiers(),
            state.observed_change_counter() == self.notifier_registry().spec_change_counter(),
    {
        self.notifiers.get_state()
    }

    /// Returns a snapshot of the registry of the listeners.
    pub fn listener_state(&self) -> (state: ContainerState<u128>)
        requires
            self.wf(),
        ensures
            state@ == self.spec_listeners(),
            state.observed_change_counter() == self.listener_registry().spec_change_counter(),
    {
        self.listeners.get_state()
    }

    /// Returns true if a notifier can be registered.
    pub fn has_free_notifier_slot(&self) -> (free: bool)
        requires
            self.wf(),
        ensures
            free == self.notifier_registry().next_free_slot().is_some(),
    {
        self.notifiers.has_free_slot()
    }

    /// Returns true if a listener can be registered.
    pub fn has_free_listener_slot(&self) -> (free: bool)
        requires
            self.wf(),
        ensures
            free == self.listener_registry().next_free_slot().is_some(),
    {
        self.listeners.has_free_slot()
    }

    /// Returns true if the given slot holds a notifier.
    pub fn is_notifier_slot_occupied(&self, slot: usize) -> (occupied: bool)
        requires
            self.wf(),
        ensures
            occupied == (slot < self.spec_notifiers().len() && self.spec_notifiers()[slot as int].is_some()),
    {
        self.notifiers.is_occupied(slot)
    }

    /// Returns true if the given slot holds a listener.
    pub fn is_listener_slot_occupied(&self, slot: usize) -> (occupied: bool)
        requires
            self.wf(),
        ensures
            occupied == (slot < self.spec_listeners().len() && self.spec_listeners()[slot as int].is_some()),
    {
        self.listeners.is_occupied(slot)
    }

    /// Brings a snapshot of the registry of the notifiers up to date.
    /// Returns true when the registry has changed since the snapshot was
    /// taken.
    pub fn update_notifier_state(&self, state: &mut ContainerState<u128>) -> (changed: bool)
        requires
            self.wf(),
        ensures
            changed == (old(state).observed_change_counter()
                != self.notifier_registry().spec_change_counter()),
            changed ==> final(state)@ == self.spec_notifiers(),
            !changed ==> final(state)@ == old(state)@,
            final(state).observed_change_counter()
                == self.notifier_registry().spec_change_counter(),
    {
        state.update(&self.notifiers)
    }

    /// Brings a snapshot of the registry of the listeners up to date.
    /// Returns true when the registry has changed since the snapshot was
    /// taken.
    pub fn update_listener_state(&self, state: &mut ContainerState<u128>) -> (changed: bool)
        requires
            self.wf(),
        ensures
            changed == (old(state).observed_change_counter()
                != self.listener_registry().spec_change_counter()),
            changed ==> final(state)@ == self.spec_listeners(),
            !changed ==> final(state)@ == old(state)@,
            final(state).observed_change_counter()
                == self.listener_registry().spec_change_counter(),
    {
        state.update(&self.listeners)
    }
}

} // verus!
