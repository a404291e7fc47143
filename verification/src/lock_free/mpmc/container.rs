//! A bounded registry of values. Every value that is added occupies one
//! slot until it is removed again, and readers follow the registry through
//! snapshots that they refresh when the registry has changed.

use crate::lock_free::mpmc::unique_index_set::{UniqueIndex, UniqueIndexSet, MAX_CAPACITY};
use vstd::prelude::*;

verus! {

/// The registry. Its view is the table of its slots: `Some(value)` where a
/// value is registered, `None` where the slot is free.
pub struct Container<T: Copy> {
    data: Vec<Option<T>>,
    change_counter: u64,
    index_set: UniqueIndexSet,
}

impl<T: Copy> View for Container<T> {
    type V = Seq<Option<T>>;

    closed spec fn view(&self) -> Seq<Option<T>> {
        self.data@
    }
}

/// The number of occupied slots of a slot table.
pub open spec fn occupied_slots<T>(slots: Seq<Option<T>>) -> nat
    decreases slots.len(),
{
    if slots.len() == 0 {
        0
    } else {
        occupied_slots(slots.drop_last()) + (if slots.last().is_some() {
            1nat
        } else {
            0nat
        })
    }
}

impl<T: Copy> Container<T> {
    /// The invariant that every operation keeps: a slot holds a value
    /// exactly while its index is borrowed from the set of free indices.
    pub closed spec fn wf(&self) -> bool {
        &&& self.index_set.wf()
        &&& self.data.len() == self.index_set.spec_capacity()
        &&& forall|i: int|
            0 <= i < self.data.len() ==> ((#[trigger] self.data[i]).is_some()
                <==> self.index_set.is_borrowed(i as u32))
    }

    /// The slot that the next added value will occupy, if one is free.
    pub closed spec fn next_free_slot(&self) -> Option<u32> {
        if self.index_set@.len() > 0 {
            Some(self.index_set@[0])
        } else {
            None
        }
    }

    /// The number of changes made so far, modulo 2^64.
    pub closed spec fn spec_change_counter(&self) -> u64 {
        self.change_counter
    }

    /// The next free slot of a well-formed registry is a free slot, and
    /// there is one unless every slot is occupied.
    pub proof fn lemma_next_free_slot(&self)
        requires
            self.wf(),
        ensures
            self.next_free_slot().is_some() ==> self.next_free_slot().unwrap() < self@.len()
                && self@[self.next_free_slot().unwrap() as int].is_none(),
            self.next_free_slot().is_none() ==> forall|i: int|
                0 <= i < self@.len() ==> (#[trigger] self@[i]).is_some(),
            self@.len() <= MAX_CAPACITY,
    {
        self.index_set.lemma_free_indices();
        if self.index_set@.len() > 0 {
            let slot = self.index_set@[0];
            assert(self.index_set@.contains(slot));
        } else {
            assert forall|i: int| 0 <= i < self@.len() implies (#[trigger] self@[i]).is_some() by {
                assert(self.index_set.is_borrowed(i as u32));
            }
        }
    }

    /// Creates an empty registry with `capacity` slots.
    pub fn new(capacity: u32) -> (container: Self)
        requires
            capacity <= MAX_CAPACITY,
        ensures
            container.wf(),
            container@ == Seq::new(capacity as nat, |i: int| None::<T>),
            container.next_free_slot() == (if capacity > 0 {
                Some(0u32)
            } else {
                None
            }),
    {
        let mut data: Vec<Option<T>> = Vec::new();
        let mut i: u32 = 0;
        while i < capacity
            invariant
                i <= capacity,
                data.len() == i,
                forall|k: int| 0 <= k < i ==> (#[trigger] data[k]).is_none(),
            decreases capacity - i,
        {
            data.push(None);
            i += 1;
        }
        let index_set = UniqueIndexSet::new(capacity);
        let container = Self { data, change_counter: 0, index_set };
        proof {
            assert(container@ =~= Seq::new(capacity as nat, |i: int| None::<T>));
            assert forall|i: int| 0 <= i < container.data.len() implies ((
            #[trigger] container.data[i]).is_some() <==> container.index_set.is_borrowed(
                i as u32,
            )) by {
                assert(container.index_set@[i] == i as u32);
            }
        }
        container
    }

    /// Returns the number of slots.
    pub fn capacity(&self) -> (capacity: usize)
        requires
            self.wf(),
        ensures
            capacity == self@.len(),
    {
        self.data.len()
    }

    /// Returns the number of registered values.
    pub fn len(&self) -> (len: usize)
        requires
            self.wf(),
        ensures
            len == occupied_slots(self@),
    {
        let mut count: usize = 0;
        let mut i: usize = 0;
        while i < self.data.len()
            invariant
                i <= self.data.len(),
                count == occupied_slots(self.data@.subrange(0, i as int)),
                count <= i,
            decreases self.data.len() - i,
        {
            proof {
                let next = self.data@.subrange(0, i + 1);
                assert(next.drop_last() =~= self.data@.subrange(0, i as int));
            }
            if self.data[i].is_some() {
                count += 1;
            }
            i += 1;
        }
        assert(self.data@.subrange(0, i as int) =~= self.data@);
        count
    }

    /// Returns true if a value can be added.
    pub fn has_free_slot(&self) -> (free: bool)
        requires
            self.wf(),
        ensures
            free == self.next_free_slot().is_some(),
    {
        self.index_set.borrowed_indices() < self.index_set.capacity()
    }

    /// Returns true if the given slot holds a value.
    pub fn is_occupied(&self, slot: usize) -> (occupied: bool)
        requires
            self.wf(),
        ensures
            occupied == (slot < self@.len() && self@[slot as int].is_some()),
    {
        slot < self.data.len() && self.data[slot].is_some()
    }

    /// Registers `value` in the next free slot and returns the guard of that
    /// slot. Returns [`None`], and changes nothing, when every slot is
    /// occupied.
    pub fn add(&mut self, value: T) -> (index: Option<UniqueIndex>)
        requires
            old(self).wf(),
        ensures
            final(self).wf(),
            old(self).next_free_slot().is_none() ==> index.is_none() && final(self)@ == old(self)@
                && final(self).spec_change_counter() == old(self).spec_change_counter(),
            old(self).next_free_slot().is_some() ==> index.is_some() && Some(
                index.unwrap().spec_value(),
            ) == old(self).next_free_slot() && final(self)@ == old(self)@.update(
                index.unwrap().spec_value() as int,
                Some(value),
            ) && final(self).spec_change_counter() == old(self).spec_change_counter().wrapping_add(
                1,
            ),
    {
        proof {
            self.index_set.lemma_free_indices();
        }
        let ghost free_before = self.index_set@;
        match self.index_set.acquire() {
            Some(index) => {
                let slot: usize = index.value() as usize;
                self.data[slot] = Some(value);
                self.change_counter = self.change_counter.wrapping_add(1);
                proof {
                    let free_after = self.index_set@;
                    assert forall|i: int| 0 <= i < self.data.len() implies ((
                    #[trigger] self.data[i]).is_some() <==> self.index_set.is_borrowed(
                        i as u32,
                    )) by {
                        if i != slot {
                            if free_before.contains(i as u32) {
                                let k = choose|k: int|
                                    0 <= k < free_before.len() && free_before[k] == i as u32;
                                assert(free_after[k - 1] == i as u32);
                            }
                            if free_after.contains(i as u32) {
                                let k = choose|k: int|
                                    0 <= k < free_after.len() && free_after[k] == i as u32;
                                assert(free_before[k + 1] == i as u32);
                            }
                        } else {
                            if free_after.contains(i as u32) {
                                let k = choose|k: int|
                                    0 <= k < free_after.len() && free_after[k] == i as u32;
                                assert(free_before[k + 1] == free_before[0]);
                            }
                        }
                    }
                }
                Some(index)
            },
            None => None,
        }
    }

    /// Removes the value in the slot of `index` and frees the slot. Returns
    /// false, and changes nothing, when the slot holds no value.
    pub fn remove(&mut self, index: UniqueIndex) -> (removed: bool)
        requires
            old(self).wf(),
        ensures
            final(self).wf(),
            removed == (index.spec_value() < old(self)@.len() && old(self)@[index.spec_value() as int].is_some()),
            removed ==> final(self)@ == old(self)@.update(index.spec_value() as int, None)
                && final(self).spec_change_counter() == old(self).spec_change_counter().wrapping_add(
                1,
            ) && final(self).next_free_slot() == Some(index.spec_value()),
            !removed ==> final(self)@ == old(self)@ && final(self).spec_change_counter() == old(self).spec_change_counter() && final(self).next_free_slot() == old(self).next_free_slot(),
    {
        let slot: u32 = index.value();
        if !self.index_set.contains_borrowed(slot) {
            return false;
        }
        let ghost free_before = self.index_set@;
        self.data[slot as usize] = None;
        self.change_counter = self.change_counter.wrapping_add(1);
        self.index_set.release(index);
        proof {
            let free_after = self.index_set@;
            assert(free_after[0] == slot);
            assert forall|i: int| 0 <= i < self.data.len() implies ((
            #[trigger] self.data[i]).is_some() <==> self.index_set.is_borrowed(i as u32)) by {
                if i != slot {
                    if free_before.contains(i as u32) {
                        let k = choose|k: int|
                            0 <= k < free_before.len() && free_before[k] == i as u32;
                        assert(free_after[k + 1] == i as u32);
                    }
                    if free_after.contains(i as u32) {
                        let k = choose|k: int|
                            0 <= k < free_after.len() && free_after[k] == i as u32;
                        assert(free_before[k - 1] == i as u32);
                    }
                } else {
                    assert(free_after.contains(slot));
                }
            }
        }
        true
    }

    /// Returns a snapshot of the registry as it is now.
    pub fn get_state(&self) -> (state: ContainerState<T>)
        requires
            self.wf(),
        ensures
            state@ == self@,
            state.observed_change_counter() == self.spec_change_counter(),
    {
        ContainerState { current_change_counter: self.change_counter, data: copy_slots(&self.data) }
    }

    /// Brings `previous_state` up to date. Returns false, and leaves the
    /// snapshot as it is, when it was taken at the current change counter,
    /// otherwise true.
    pub fn update_state(&self, previous_state: &mut ContainerState<T>) -> (changed: bool)
        requires
            self.wf(),
        ensures
            changed == (old(previous_state).observed_change_counter()
                != self.spec_change_counter()),
            changed ==> final(previous_state)@ == self@,
            !changed ==> final(previous_state)@ == old(previous_state)@,
            final(previous_state).observed_change_counter() == self.spec_change_counter(),
    {
        if previous_state.current_change_counter == self.change_counter {
            return false;
        }
        previous_state.data = copy_slots(&self.data);
        previous_state.current_change_counter = self.change_counter;
        true
    }
}

/// Copies a slot table.
fn copy_slots<T: Copy>(slots: &Vec<Option<T>>) -> (copy: Vec<Option<T>>)
    ensures
        copy@ == slots@,
{
    let mut copy: Vec<Option<T>> = Vec::new();
    let mut i: usize = 0;
    while i < slots.len()
        invariant
            i <= slots.len(),
            copy@ == slots@.subrange(0, i as int),
        decreases slots.len() - i,
    {
        copy.push(slots[i]);
        assert(copy@ =~= slots@.subrange(0, i + 1));
        i += 1;
    }
    assert(slots@.subrange(0, i as int) =~= slots@);
    copy
}

/// A snapshot of a [`Container`]: the slot table as it was when the
/// snapshot was taken or last updated.
#[derive(Debug)]
pub struct ContainerState<T: Copy> {
    current_change_counter: u64,
    data: Vec<Option<T>>,
}

impl<T: Copy> View for ContainerState<T> {
    type V = Seq<Option<T>>;

    closed spec fn view(&self) -> Seq<Option<T>> {
        self.data@
    }
}

impl<T: Copy> ContainerState<T> {
    /// The change counter of the registry at the time of the snapshot.
    pub closed spec fn observed_change_counter(&self) -> u64 {
        self.current_change_counter
    }

    /// Brings the snapshot up to date with `container`. Returns true when
    /// the registry has changed since the snapshot was taken.
    pub fn update(&mut self, container: &Container<T>) -> (changed: bool)
        requires
            container.wf(),
        ensures
            changed == (old(self).observed_change_counter() != container.spec_change_counter()),
            changed ==> final(self)@ == container@,
            !changed ==> final(self)@ == old(self)@,
            final(self).observed_change_counter() == container.spec_change_counter(),
    {
        container.update_state(self)
    }

    /// Returns the number of slots of the snapshot.
    pub fn capacity(&self) -> (capacity: usize)
        ensures
            capacity == self@.len(),
    {
        self.data.len()
    }

    /// Returns what the slot at `index` held at the time of the snapshot.
    pub fn get(&self, index: usize) -> (value: Option<T>)
        requires
            index < self@.len(),
        ensures
            value == self@[index as int],
    {
        self.data[index]
    }
}

} // verus!
