//! A bounded set of the indices `0..capacity`, each of which can be borrowed
//! by at most one party at a time.
//!
//! The free indices form a stack of next-free links: acquiring takes the
//! index on top, releasing puts an index on top. Every change of the top
//! also advances a generation counter.

use crate::elementary::allocator::{AllocationError, Layout};
use crate::elementary::math::{lemma_align_properties, spec_align};
use crate::memory::bump_allocator::BumpAllocator;
use vstd::prelude::*;

verus! {

/// The size of a link of the set in bytes.
pub const LINK_SIZE: usize = 4;

/// The alignment of a link of the set in bytes.
pub const LINK_ALIGNMENT: usize = 4;

/// The largest capacity a set can be created with.
pub const MAX_CAPACITY: u32 = u32::MAX - 2;

/// An index that was acquired with [`UniqueIndexSet::acquire()`]. It goes
/// back into the set with [`UniqueIndexSet::release()`].
#[derive(Debug)]
pub struct UniqueIndex {
    value: u32,
}

impl UniqueIndex {
    /// The index that this guard stands for.
    pub closed spec fn spec_value(&self) -> u32 {
        self.value
    }

    /// The guard that stands for no slot of any set.
    pub(crate) fn placeholder() -> (index: UniqueIndex)
        ensures
            index.spec_value() == u32::MAX,
    {
        UniqueIndex { value: u32::MAX }
    }

    /// Returns the index.
    pub fn value(&self) -> (value: u32)
        ensures
            value == self.spec_value(),
    {
        self.value
    }
}

/// The set of indices. Its view is the stack of free indices, the one that
/// is acquired next first.
pub struct UniqueIndexSet {
    data: Vec<u32>,
    capacity: u32,
    head: u32,
    aba: u16,
    borrowed_indices: u32,
    free: Ghost<Seq<u32>>,
    is_memory_initialized: bool,
}

impl View for UniqueIndexSet {
    type V = Seq<u32>;

    /// The free indices, the one that is acquired next first.
    closed spec fn view(&self) -> Seq<u32> {
        self.free@
    }
}

impl UniqueIndexSet {
    /// The link value of an index that is not in the stack of free indices.
    closed spec fn taken_mark(&self) -> u32 {
        (self.capacity + 1) as u32
    }

    /// The invariant that every operation keeps: the links starting at the
    /// head spell out the stack of free indices, and every other index
    /// carries the mark of a borrowed one.
    pub closed spec fn wf(&self) -> bool {
        let free = self.free@;
        &&& self.is_memory_initialized
        &&& self.capacity <= MAX_CAPACITY
        &&& self.data.len() == self.capacity + 1
        &&& free.no_duplicates()
        &&& free.len() + self.borrowed_indices == self.capacity
        &&& forall|i: int| 0 <= i < free.len() ==> #[trigger] free[i] < self.capacity
        &&& self.head == (if free.len() == 0 {
            self.capacity
        } else {
            free[0]
        })
        &&& forall|i: int|
            0 <= i < free.len() ==> #[trigger] self.data[free[i] as int] == (if i + 1 < free.len() {
                free[i + 1]
            } else {
                self.capacity
            })
        &&& forall|index: u32|
            index < self.capacity ==> (!free.contains(index) <==> #[trigger] self.data[index as int]
                == self.taken_mark())
    }

    /// The number of indices that the set manages.
    pub closed spec fn spec_capacity(&self) -> u32 {
        self.capacity
    }

    /// The number of times the top of the stack changed, modulo 2^16.
    pub closed spec fn generation(&self) -> u16 {
        self.aba
    }

    /// True if `index` is borrowed at the moment.
    pub open spec fn is_borrowed(&self, index: u32) -> bool {
        index < self.spec_capacity() && !self@.contains(index)
    }

    /// The free indices of a well-formed set are distinct and below the
    /// capacity.
    pub proof fn lemma_free_indices(&self)
        requires
            self.wf(),
        ensures
            self@.no_duplicates(),
            self@.len() <= self.spec_capacity(),
            self.spec_capacity() <= MAX_CAPACITY,
            forall|i: int| 0 <= i < self@.len() ==> #[trigger] self@[i] < self.spec_capacity(),
    {
    }

    /// Creates a set in which all indices of `0..capacity` are free; the
    /// smallest is acquired first.
    pub fn new(capacity: u32) -> (set: Self)
        requires
            capacity <= MAX_CAPACITY,
        ensures
            set.wf(),
            set.spec_capacity() == capacity,
            set@ == Seq::new(capacity as nat, |i: int| i as u32),
    {
        let mut data: Vec<u32> = Vec::new();
        let mut i: u32 = 0;
        while i < capacity + 1
            invariant
                capacity <= MAX_CAPACITY,
                i <= capacity + 1,
                data.len() == i,
                forall|k: int| 0 <= k < i ==> #[trigger] data[k] == k + 1,
            decreases capacity + 1 - i,
        {
            data.push(i + 1);
            i += 1;
        }
        let ghost free = Seq::new(capacity as nat, |i: int| i as u32);
        let set = Self {
            data,
            capacity,
            head: 0,
            aba: 0,
            borrowed_indices: 0,
            free: Ghost(free),
            is_memory_initialized: true,
        };
        proof {
            assert forall|index: u32| index < capacity implies (!free.contains(index)
                <==> #[trigger] set.data[index as int] == set.taken_mark()) by {
                assert(free[index as int] == index);
            }
        }
        set
    }

    /// True if the set was created without memory for its links and the
    /// memory was not acquired yet.
    pub closed spec fn is_uninit(&self) -> bool {
        &&& !self.is_memory_initialized
        &&& self.data.len() == 0
        &&& self.head == 0
        &&& self.aba == 0
        &&& self.borrowed_indices == 0
    }

    /// The number of bytes that a set of the given capacity asks an
    /// allocator for.
    pub open spec fn spec_data_size(capacity: u32) -> int {
        LINK_SIZE * (capacity + 1)
    }

    /// The amount of memory that suffices for a set of the given capacity
    /// wherever the memory starts.
    pub open spec fn spec_memory_size(capacity: u32) -> int {
        Self::spec_data_size(capacity) + LINK_ALIGNMENT - 1
    }

    /// What the acquisition of the memory of a set of the given capacity
    /// from `allocator` comes to.
    pub open spec fn init_result(allocator: &BumpAllocator, capacity: u32) -> Result<
        (),
        AllocationError,
    > {
        if Self::spec_memory_size(capacity) > usize::MAX || capacity > MAX_CAPACITY {
            Err(AllocationError::SizeTooLarge)
        } else if spec_align(allocator.spec_position() as int, LINK_ALIGNMENT as int)
            + Self::spec_data_size(capacity) > allocator.spec_start() + allocator.spec_size() {
            Err(AllocationError::OutOfMemory)
        } else {
            Ok(())
        }
    }

    /// Creates a set of the indices `0..capacity` that has no memory for
    /// its links yet. The memory is acquired with [`Self::init()`].
    pub fn new_uninit(capacity: u32) -> (set: Self)
        ensures
            set.is_uninit(),
            set.spec_capacity() == capacity,
    {
        Self {
            data: Vec::new(),
            capacity,
            head: 0,
            aba: 0,
            borrowed_indices: 0,
            free: Ghost(Seq::empty()),
            is_memory_initialized: false,
        }
    }

    /// Acquires the memory for the links from `allocator` and makes all
    /// indices free. The set must not have its memory yet. When the
    /// allocator cannot provide the memory nothing changes.
    pub fn init(&mut self, allocator: &mut BumpAllocator) -> (result: Result<(), AllocationError>)
        requires
            old(self).is_uninit(),
            old(allocator).wf(),
        ensures
            final(allocator).wf(),
            final(allocator).spec_start() == old(allocator).spec_start(),
            final(allocator).spec_size() == old(allocator).spec_size(),
            final(self).spec_capacity() == old(self).spec_capacity(),
            result == Self::init_result(old(allocator), old(self).spec_capacity()),
            result.is_err() ==> final(self).is_uninit() && final(allocator).spec_position() == old(allocator).spec_position(),
            result.is_ok() ==> final(self).wf() && final(self)@ == Seq::new(
                old(self).spec_capacity() as nat,
                |i: int| i as u32,
            ) && final(allocator).spec_position() == spec_align(
                old(allocator).spec_position() as int,
                LINK_ALIGNMENT as int,
            ) + Self::spec_data_size(old(self).spec_capacity()) && final(allocator).spec_position() - old(allocator).spec_position() <= Self::spec_memory_size(
                old(self).spec_capacity(),
            ),
    {
        let capacity: u32 = self.capacity;
        if capacity > MAX_CAPACITY || capacity as usize >= (usize::MAX - (LINK_ALIGNMENT - 1))
            / LINK_SIZE {
            return Err(AllocationError::SizeTooLarge);
        }
        let layout = match Layout::from_size_align(
            LINK_SIZE * (capacity as usize + 1),
            LINK_ALIGNMENT,
        ) {
            Some(layout) => layout,
            None => {
                return Err(AllocationError::AlignmentFailure);
            },
        };
        proof {
            lemma_align_properties(allocator.spec_position() as int, LINK_ALIGNMENT as int);
            allocator.lemma_position_in_region();
        }
        match allocator.allocate(layout) {
            Ok(_) => {},
            Err(error) => {
                return Err(error);
            },
        }
        let initialized = Self::new(capacity);
        *self = initialized;
        Ok(())
    }

    /// Returns the amount of memory that suffices for a set of the given
    /// capacity.
    pub fn memory_size(capacity: u32) -> (size: usize)
        requires
            Self::spec_memory_size(capacity) <= usize::MAX,
        ensures
            size == Self::spec_memory_size(capacity),
    {
        LINK_SIZE * (capacity as usize + 1) + (LINK_ALIGNMENT - 1)
    }

    /// Returns the capacity of the set.
    pub fn capacity(&self) -> (capacity: u32)
        ensures
            capacity == self.spec_capacity(),
    {
        self.capacity
    }

    /// Returns the number of indices that are borrowed at the moment.
    pub fn borrowed_indices(&self) -> (borrowed: u32)
        requires
            self.wf(),
        ensures
            borrowed == self.spec_capacity() - self@.len(),
    {
        self.borrowed_indices
    }

    /// Returns true if `index` is borrowed at the moment.
    pub fn contains_borrowed(&self, index: u32) -> (borrowed: bool)
        requires
            self.wf(),
        ensures
            borrowed == self.is_borrowed(index),
    {
        index < self.capacity && self.data[index as usize] == self.capacity + 1
    }

    /// Acquires the free index that is on top of the stack. Returns
    /// [`None`] when every index is borrowed.
    pub fn acquire(&mut self) -> (index: Option<UniqueIndex>)
        requires
            old(self).wf(),
        ensures
            final(self).wf(),
            final(self).spec_capacity() == old(self).spec_capacity(),
            old(self)@.len() == 0 ==> index.is_none() && final(self)@ == old(self)@,
            old(self)@.len() > 0 ==> index.is_some() && index.unwrap().spec_value() == old(self)@[0]
                && final(self)@ == old(self)@.drop_first(),
    {
        match self.acquire_raw_index() {
            Some(value) => Some(UniqueIndex { value }),
            None => None,
        }
    }

    /// Puts a borrowed index back on top of the stack.
    pub fn release(&mut self, index: UniqueIndex)
        requires
            old(self).wf(),
            old(self).is_borrowed(index.spec_value()),
        ensures
            final(self).wf(),
            final(self).spec_capacity() == old(self).spec_capacity(),
            final(self)@ == seq![index.spec_value()] + old(self)@,
    {
        self.release_raw_index(index.value)
    }

    /// Acquires the free index that is on top of the stack, without a guard
    /// around it. Returns [`None`] when every index is borrowed.
    pub fn acquire_raw_index(&mut self) -> (index: Option<u32>)
        requires
            old(self).wf(),
        ensures
            final(self).wf(),
            final(self).spec_capacity() == old(self).spec_capacity(),
            old(self)@.len() == 0 ==> index.is_none() && final(self)@ == old(self)@,
            old(self)@.len() > 0 ==> index == Some(old(self)@[0]) && final(self)@ == old(self)@.drop_first(),
            index.is_some() ==> final(self).generation() == old(self).generation().wrapping_add(1),
    {
        let old_head: u32 = self.head;
        if old_head == self.capacity {
            return None;
        }
        let ghost before = self.free@;
        assert(before[0] == old_head);

        let next: u32 = self.data[old_head as usize];
        self.head = next;
        self.aba = self.aba.wrapping_add(1);
        self.borrowed_indices = self.borrowed_indices + 1;
        self.data[old_head as usize] = self.capacity + 1;
        self.free = Ghost(before.drop_first());

        proof {
            let after = self.free@;
            assert forall|i: int| 0 <= i < after.len() implies after[i] != old_head by {
                assert(after[i] == before[i + 1]);
            }
            assert forall|i: int| 0 <= i < after.len() implies #[trigger] self.data[after[i] as int]
                == (if i + 1 < after.len() {
                after[i + 1]
            } else {
                self.capacity
            }) by {
                assert(after[i] == before[i + 1]);
            }
            assert forall|index: u32| index < self.capacity implies (!after.contains(index)
                <==> #[trigger] self.data[index as int] == self.taken_mark()) by {
                if index == old_head {
                    assert(!after.contains(index));
                } else {
                    if before.contains(index) {
                        let k = choose|k: int| 0 <= k < before.len() && before[k] == index;
                        assert(after[k - 1] == index);
                    }
                    if after.contains(index) {
                        let k = choose|k: int| 0 <= k < after.len() && after[k] == index;
                        assert(before[k + 1] == index);
                    }
                }
            }
            assert(after.no_duplicates()) by {
                assert forall|i: int, j: int|
                    0 <= i < after.len() && 0 <= j < after.len() && i != j implies after[i]
                    != after[j] by {
                    assert(after[i] == before[i + 1]);
                    assert(after[j] == before[j + 1]);
                }
            }
        }
        Some(old_head)
    }

    /// Puts a borrowed index back on top of the stack.
    pub fn release_raw_index(&mut self, index: u32)
        requires
            old(self).wf(),
            old(self).is_borrowed(index),
        ensures
            final(self).wf(),
            final(self).spec_capacity() == old(self).spec_capacity(),
            final(self)@ == seq![index] + old(self)@,
            final(self).generation() == old(self).generation().wrapping_add(1),
    {
        let ghost before = self.free@;
        proof {
            if self.borrowed_indices == 0 {
                // every index is free, so `index` would be among them
                lemma_full_stack_contains(before, self.capacity, index);
            }
        }
        self.data[index as usize] = self.head;
        self.head = index;
        self.aba = self.aba.wrapping_add(1);
        self.borrowed_indices = self.borrowed_indices - 1;
        self.free = Ghost(seq![index] + before);

        proof {
            let after = self.free@;
            assert(after.len() == before.len() + 1);
            assert(after[0] == index);
            assert forall|i: int| 1 <= i < after.len() implies after[i] == before[i - 1] by {}
            assert forall|i: int| 0 <= i < after.len() implies #[trigger] after[i]
                < self.capacity by {
                if i > 0 {
                    assert(after[i] == before[i - 1]);
                }
            }
            assert forall|i: int| 0 <= i < after.len() implies #[trigger] self.data[after[i] as int]
                == (if i + 1 < after.len() {
                after[i + 1]
            } else {
                self.capacity
            }) by {
                if i > 0 {
                    assert(after[i] == before[i - 1]);
                    assert(before.contains(before[i - 1]));
                    if i + 1 < after.len() {
                        assert(after[i + 1] == before[i]);
                    }
                } else if after.len() > 1 {
                    assert(after[1] == before[0]);
                }
            }
            assert forall|other: u32| other < self.capacity implies (!after.contains(other)
                <==> #[trigger] self.data[other as int] == self.taken_mark()) by {
                if other == index {
                    assert(after.contains(index));
                } else {
                    if before.contains(other) {
                        let k = choose|k: int| 0 <= k < before.len() && before[k] == other;
                        assert(after[k + 1] == other);
                    }
                    if after.contains(other) {
                        let k = choose|k: int| 0 <= k < after.len() && after[k] == other;
                        assert(before[k - 1] == other);
                    }
                }
            }
            assert(after.no_duplicates()) by {
                assert forall|i: int, j: int|
                    0 <= i < after.len() && 0 <= j < after.len() && i != j implies after[i]
                    != after[j] by {
                    if i > 0 {
                        assert(after[i] == before[i - 1]);
                        assert(before.contains(before[i - 1]));
                    }
                    if j > 0 {
                        assert(after[j] == before[j - 1]);
                        assert(before.contains(before[j - 1]));
                    }
                }
            }
        }
    }
}

/// A stack of `capacity` distinct indices below `capacity` holds every such
/// index.
proof fn lemma_full_stack_contains(stack: Seq<u32>, capacity: u32, index: u32)
    requires
        stack.no_duplicates(),
        stack.len() == capacity,
        forall|i: int| 0 <= i < stack.len() ==> #[trigger] stack[i] < capacity,
        index < capacity,
    ensures
        stack.contains(index),
{
    let members = stack.to_set();
    let all = Set::new(|value: u32| value < capacity);
    stack.unique_seq_to_set();
    assert(members.len() == capacity);
    assert(members.subset_of(all)) by {
        assert forall|value: u32| members.contains(value) implies all.contains(value) by {
            let k = choose|k: int| 0 <= k < stack.len() && stack[k] == value;
        }
    }
    lemma_indices_below(capacity);
    vstd::set_lib::lemma_subset_equality(members, all);
    assert(all.contains(index));
}

/// Distinct indices below `capacity` number at most `capacity`.
pub proof fn lemma_distinct_indices_are_few(stack: Seq<u32>, capacity: u32)
    requires
        stack.no_duplicates(),
        forall|i: int| 0 <= i < stack.len() ==> #[trigger] stack[i] < capacity,
    ensures
        stack.len() <= capacity,
{
    let members = stack.to_set();
    let all = Set::new(|value: u32| value < capacity);
    stack.unique_seq_to_set();
    assert(members.subset_of(all)) by {
        assert forall|value: u32| members.contains(value) implies all.contains(value) by {
            let k = choose|k: int| 0 <= k < stack.len() && stack[k] == value;
        }
    }
    lemma_indices_below(capacity);
    vstd::set_lib::lemma_len_subset(members, all);
}

/// There are exactly `capacity` indices below `capacity`.
pub proof fn lemma_indices_below(capacity: u32)
    ensures
        Set::new(|value: u32| value < capacity).finite(),
        Set::new(|value: u32| value < capacity).len() == capacity,
    decreases capacity,
{
    let all = Set::new(|value: u32| value < capacity);
    if capacity == 0 {
        assert(all =~= Set::<u32>::empty());
    } else {
        let smaller = (capacity - 1) as u32;
        lemma_indices_below(smaller);
        let fewer = Set::new(|value: u32| value < smaller);
        assert(all =~= fewer.insert(smaller));
    }
}

} // verus!
