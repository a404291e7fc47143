//! A bounded single producer single consumer queue of [`usize`] integers or
//! indices.
//!
//! The queue hands out at most one [`Producer`] and one [`Consumer`] token at a
//! time. A push into a full queue is rejected, a pop from an empty queue
//! yields nothing, and values leave in the order in which they were accepted.

use crate::elementary::allocator::{AllocationError, Layout};
use crate::elementary::math::{lemma_align_properties, spec_align};
use crate::memory::bump_allocator::BumpAllocator;
use vstd::prelude::*;

verus! {

/// The size of a cell of the queue in bytes.
pub const CELL_SIZE: usize = 8;

/// The alignment of a cell of the queue in bytes.
pub const CELL_ALIGNMENT: usize = 8;

/// The largest capacity a queue can be created with.
pub const MAX_CAPACITY: usize = usize::MAX / 2;

/// Contents of a bounded queue after an attempt to add `value`.
pub open spec fn push_contents(contents: Seq<usize>, capacity: nat, value: usize) -> Seq<usize> {
    if contents.len() < capacity {
        contents.push(value)
    } else {
        contents
    }
}

/// Contents of a queue after an attempt to take its oldest value.
pub open spec fn pop_contents(contents: Seq<usize>) -> Seq<usize> {
    if contents.len() > 0 {
        contents.drop_first()
    } else {
        contents
    }
}

/// The value that an attempt to take the oldest value yields.
pub open spec fn pop_value(contents: Seq<usize>) -> Option<usize> {
    if contents.len() > 0 {
        Some(contents[0])
    } else {
        None
    }
}

/// One use of a queue by its producer or by its consumer.
pub enum Operation {
    /// The producer offers a value.
    Push(usize),
    /// The consumer asks for the oldest value.
    Pop,
}

/// Contents of a queue of the given capacity that started empty and went
/// through `trace`.
pub open spec fn contents_after(trace: Seq<Operation>, capacity: nat) -> Seq<usize>
    decreases trace.len(),
{
    if trace.len() == 0 {
        Seq::empty()
    } else {
        let before = contents_after(trace.drop_last(), capacity);
        match trace.last() {
            Operation::Push(value) => push_contents(before, capacity, value),
            Operation::Pop => pop_contents(before),
        }
    }
}

/// The values whose push returned true during `trace`, in the order of the
/// pushes.
pub open spec fn accepted_values(trace: Seq<Operation>, capacity: nat) -> Seq<usize>
    decreases trace.len(),
{
    if trace.len() == 0 {
        Seq::empty()
    } else {
        let earlier = accepted_values(trace.drop_last(), capacity);
        let before = contents_after(trace.drop_last(), capacity);
        match trace.last() {
            Operation::Push(value) => if before.len() < capacity {
                earlier.push(value)
            } else {
                earlier
            },
            Operation::Pop => earlier,
        }
    }
}

/// The values that the pops of `trace` returned, in the order of the pops.
pub open spec fn popped_values(trace: Seq<Operation>, capacity: nat) -> Seq<usize>
    decreases trace.len(),
{
    if trace.len() == 0 {
        Seq::empty()
    } else {
        let earlier = popped_values(trace.drop_last(), capacity);
        let before = contents_after(trace.drop_last(), capacity);
        match trace.last() {
            Operation::Push(value) => earlier,
            Operation::Pop => match pop_value(before) {
                Some(value) => earlier.push(value),
                None => earlier,
            },
        }
    }
}

/// Whatever the producer and the consumer do, the popped values followed by
/// the values still in the queue are exactly the accepted values, in order.
/// The popped values are thus a prefix of the accepted ones: nothing is
/// reordered, duplicated or made up.
pub proof fn lemma_pops_are_prefix_of_accepted_pushes(trace: Seq<Operation>, capacity: nat)
    ensures
        accepted_values(trace, capacity) == popped_values(trace, capacity) + contents_after(
            trace,
            capacity,
        ),
        popped_values(trace, capacity).is_prefix_of(accepted_values(trace, capacity)),
        contents_after(trace, capacity).len() <= capacity,
    decreases trace.len(),
{
    let accepted = accepted_values(trace, capacity);
    let popped = popped_values(trace, capacity);
    let contents = contents_after(trace, capacity);
    if trace.len() == 0 {
        assert(accepted =~= popped + contents);
    } else {
        lemma_pops_are_prefix_of_accepted_pushes(trace.drop_last(), capacity);
        let before = contents_after(trace.drop_last(), capacity);
        let popped_before = popped_values(trace.drop_last(), capacity);
        match trace.last() {
            Operation::Push(value) => {
                assert(accepted =~= popped + contents);
            },
            Operation::Pop => {
                if before.len() > 0 {
                    assert(popped_before + before =~= popped_before.push(before[0])
                        + before.drop_first());
                }
                assert(accepted =~= popped + contents);
            },
        }
    }
    assert(popped =~= accepted.subrange(0, popped.len() as int));
}

/// The token of the single producer of an [`IndexQueue`] or
/// [`FixedSizeIndexQueue`]. It is obtained from `acquire_producer` and handed
/// back with `release_producer`.
#[derive(Debug)]
pub struct Producer {
    token: (),
}

impl Producer {
    /// Adds a new value to the queue. Returns false when the queue is full,
    /// otherwise true.
    pub fn push(&mut self, queue: &mut IndexQueue, t: usize) -> (accepted: bool)
        requires
            old(queue).wf(),
        ensures
            final(queue).wf(),
            final(queue).spec_capacity() == old(queue).spec_capacity(),
            final(queue).producer_available() == old(queue).producer_available(),
            final(queue).consumer_available() == old(queue).consumer_available(),
            accepted == (old(queue)@.len() < old(queue).spec_capacity()),
            final(queue)@ == push_contents(old(queue)@, old(queue).spec_capacity() as nat, t),
    {
        queue.push(t)
    }
}

/// The token of the single consumer of an [`IndexQueue`] or
/// [`FixedSizeIndexQueue`]. It is obtained from `acquire_consumer` and handed
/// back with `release_consumer`.
#[derive(Debug)]
pub struct Consumer {
    token: (),
}

impl Consumer {
    /// Takes the oldest value out of the queue. Returns [`None`] when the
    /// queue is empty.
    pub fn pop(&mut self, queue: &mut IndexQueue) -> (value: Option<usize>)
        requires
            old(queue).wf(),
        ensures
            final(queue).wf(),
            final(queue).spec_capacity() == old(queue).spec_capacity(),
            final(queue).producer_available() == old(queue).producer_available(),
            final(queue).consumer_available() == old(queue).consumer_available(),
            value == pop_value(old(queue)@),
            final(queue)@ == pop_contents(old(queue)@),
    {
        queue.pop()
    }
}

/// An index queue with a capacity which is set when the queue is created.
#[derive(Debug)]
pub struct IndexQueue {
    data: Vec<usize>,
    capacity: usize,
    write_position: usize,
    read_position: usize,
    has_producer: bool,
    has_consumer: bool,
    is_memory_initialized: bool,
}

impl View for IndexQueue {
    type V = Seq<usize>;

    /// The stored values, oldest first.
    closed spec fn view(&self) -> Seq<usize> {
        Seq::new(
            (self.write_position - self.read_position) as nat,
            |i: int| self.data[self.slot(self.read_position + i)],
        )
    }
}

impl IndexQueue {
    /// The cell of the ring in which the value at `position` lives.
    pub closed spec fn slot(&self, position: int) -> int {
        if position >= self.capacity {
            position - self.capacity
        } else {
            position
        }
    }

    /// The invariant that every operation keeps.
    pub closed spec fn wf(&self) -> bool {
        &&& self.is_memory_initialized
        &&& self.data.len() == self.capacity
        &&& self.capacity <= MAX_CAPACITY
        &&& self.read_position <= self.write_position
        &&& self.write_position - self.read_position <= self.capacity
        &&& (self.capacity == 0 ==> self.read_position == 0)
        &&& (self.capacity > 0 ==> self.read_position < self.capacity)
    }

    /// The number of values the queue can hold.
    pub closed spec fn spec_capacity(&self) -> usize {
        self.capacity
    }

    /// True while no [`Producer`] token is handed out.
    pub closed spec fn producer_available(&self) -> bool {
        self.has_producer
    }

    /// True while no [`Consumer`] token is handed out.
    pub closed spec fn consumer_available(&self) -> bool {
        self.has_consumer
    }

    /// A well-formed queue never holds more values than its capacity.
    pub proof fn lemma_len_bounded(&self)
        requires
            self.wf(),
        ensures
            self@.len() <= self.spec_capacity(),
    {
    }

    /// Creates an empty queue for up to `capacity` values.
    pub fn new(capacity: usize) -> (queue: Self)
        requires
            capacity <= MAX_CAPACITY,
        ensures
            queue.wf(),
            queue@ == Seq::<usize>::empty(),
            queue.spec_capacity() == capacity,
            queue.producer_available(),
            queue.consumer_available(),
    {
        let queue = Self {
            data: vec![0usize; capacity],
            capacity,
            write_position: 0,
            read_position: 0,
            has_producer: true,
            has_consumer: true,
            is_memory_initialized: true,
        };
        assert(queue@ =~= Seq::<usize>::empty());
        queue
    }

    /// True if the queue was created without memory for its values and
    /// the memory was not acquired yet.
    pub closed spec fn is_uninit(&self) -> bool {
        &&& !self.is_memory_initialized
        &&& self.data.len() == 0
        &&& self.write_position == 0
        &&& self.read_position == 0
        &&& self.has_producer
        &&& self.has_consumer
    }

    /// The number of cells of a queue of the given capacity.
    pub open spec fn spec_cells(capacity: usize) -> int {
        capacity as int
    }

    /// The number of bytes that a queue of the given capacity asks an
    /// allocator for.
    pub open spec fn spec_data_size(capacity: usize) -> int {
        CELL_SIZE * Self::spec_cells(capacity)
    }

    /// The amount of memory that suffices for a queue of the given
    /// capacity wherever the memory starts.
    pub open spec fn spec_memory_size(capacity: usize) -> int {
        Self::spec_data_size(capacity) + CELL_ALIGNMENT - 1
    }

    /// What the acquisition of the memory of a queue of the given
    /// capacity from `allocator` comes to.
    pub open spec fn init_result(allocator: &BumpAllocator, capacity: usize) -> Result<
        (),
        AllocationError,
    > {
        if Self::spec_memory_size(capacity) > usize::MAX || capacity > MAX_CAPACITY {
            Err(AllocationError::SizeTooLarge)
        } else if Self::spec_data_size(capacity) == 0 {
            Err(AllocationError::SizeIsZero)
        } else if spec_align(allocator.spec_position() as int, CELL_ALIGNMENT as int)
            + Self::spec_data_size(capacity) > allocator.spec_start() + allocator.spec_size() {
            Err(AllocationError::OutOfMemory)
        } else {
            Ok(())
        }
    }

    /// Creates a queue for up to `capacity` values that has no memory for
    /// its values yet. The memory is acquired with [`Self::init()`].
    pub fn new_uninit(capacity: usize) -> (queue: Self)
        ensures
            queue.is_uninit(),
            queue.spec_capacity() == capacity,
    {
        Self {
            data: Vec::new(),
            capacity,
            write_position: 0,
            read_position: 0,
            has_producer: true,
            has_consumer: true,
            is_memory_initialized: false,
        }
    }

    /// Acquires the memory for the values from `allocator`. The queue must
    /// not have its memory yet. When the allocator cannot provide the
    /// memory nothing changes.
    pub fn init(&mut self, allocator: &mut BumpAllocator) -> (result: Result<(), AllocationError>)
        requires
            old(self).is_uninit(),
            old(allocator).wf(),
        ensures
            final(allocator).wf(),
            final(allocator).spec_start() == old(allocator).spec_start(),
            final(allocator).spec_size() == old(allocator).spec_size(),
            final(self).spec_capacity() == old(self).spec_capacity(),
            result == Self::init_result(old(allocator), old(self).spec_capacity()),
            result.is_err() ==> final(self).is_uninit() && final(allocator).spec_position() == old(allocator).spec_position(),
            result.is_ok() ==> final(self).wf() && final(self)@ == Seq::<usize>::empty()
                && final(self).producer_available() && final(self).consumer_available() && final(allocator).spec_position() == spec_align(
                old(allocator).spec_position() as int,
                CELL_ALIGNMENT as int,
            ) + Self::spec_data_size(old(self).spec_capacity()) && final(allocator).spec_position() - old(allocator).spec_position() <= Self::spec_memory_size(
                old(self).spec_capacity(),
            ),
    {
        let capacity: usize = self.capacity;
        if capacity > MAX_CAPACITY || capacity > (usize::MAX - (CELL_ALIGNMENT - 1)) / CELL_SIZE {
            return Err(AllocationError::SizeTooLarge);
        }
        let cells: usize = capacity;
        let layout = match Layout::from_size_align(CELL_SIZE * cells, CELL_ALIGNMENT) {
            Some(layout) => layout,
            None => {
                return Err(AllocationError::AlignmentFailure);
            },
        };
        proof {
            lemma_align_properties(allocator.spec_position() as int, CELL_ALIGNMENT as int);
            allocator.lemma_position_in_region();
        }
        match allocator.allocate(layout) {
            Ok(_) => {},
            Err(error) => {
                return Err(error);
            },
        }
        self.data = vec![0usize; cells];
        self.is_memory_initialized = true;
        assert(self@ =~= Seq::<usize>::empty());
        Ok(())
    }

    /// Returns the amount of memory that suffices for a queue of the given
    /// capacity.
    pub fn memory_size(capacity: usize) -> (size: usize)
        requires
            Self::spec_memory_size(capacity) <= usize::MAX,
        ensures
            size == Self::spec_memory_size(capacity),
    {
        Self::const_memory_size(capacity)
    }

    /// Returns the amount of memory that suffices for a queue of the given
    /// capacity.
    pub fn const_memory_size(capacity: usize) -> (size: usize)
        requires
            Self::spec_memory_size(capacity) <= usize::MAX,
        ensures
            size == Self::spec_memory_size(capacity),
    {
        CELL_SIZE * (capacity) + (CELL_ALIGNMENT - 1)
    }

    fn at(&self, position: usize) -> (index: usize)
        requires
            self.wf(),
            self.capacity > 0,
            position < 2 * self.capacity,
        ensures
            index == self.slot(position as int),
            index < self.capacity,
    {
        let capacity: usize = self.capacity;
        assert(position % capacity == if position >= capacity {
            position - capacity
        } else {
            position as int
        }) by (nonlinear_arith)
            requires
                capacity > 0,
                position < 2 * capacity,
        ;
        position % self.capacity
    }

    /// Acquires the [`Producer`] of the queue. Returns [`None`] while the
    /// token is handed out, since the queue has a single producer.
    pub fn acquire_producer(&mut self) -> (producer: Option<Producer>)
        requires
            old(self).wf(),
        ensures
            final(self).wf(),
            producer.is_some() == old(self).producer_available(),
            !final(self).producer_available(),
            final(self).consumer_available() == old(self).consumer_available(),
            final(self).spec_capacity() == old(self).spec_capacity(),
            final(self)@ == old(self)@,
    {
        if self.has_producer {
            self.has_producer = false;
            assert(self@ =~= old(self)@);
            Some(Producer { token: () })
        } else {
            None
        }
    }

    /// Takes the [`Producer`] token back, after which it can be acquired
    /// again.
    pub fn release_producer(&mut self, producer: Producer)
        requires
            old(self).wf(),
        ensures
            final(self).wf(),
            final(self).producer_available(),
            final(self).consumer_available() == old(self).consumer_available(),
            final(self).spec_capacity() == old(self).spec_capacity(),
            final(self)@ == old(self)@,
    {
        self.has_producer = true;
        assert(self@ =~= old(self)@);
    }

    /// Acquires the [`Consumer`] of the queue. Returns [`None`] while the
    /// token is handed out, since the queue has a single consumer.
    pub fn acquire_consumer(&mut self) -> (consumer: Option<Consumer>)
        requires
            old(self).wf(),
        ensures
            final(self).wf(),
            consumer.is_some() == old(self).consumer_available(),
            !final(self).consumer_available(),
            final(self).producer_available() == old(self).producer_available(),
            final(self).spec_capacity() == old(self).spec_capacity(),
            final(self)@ == old(self)@,
    {
        if self.has_consumer {
            self.has_consumer = false;
            assert(self@ =~= old(self)@);
            Some(Consumer { token: () })
        } else {
            None
        }
    }

    /// Takes the [`Consumer`] token back, after which it can be acquired
    /// again.
    pub fn release_consumer(&mut self, consumer: Consumer)
        requires
            old(self).wf(),
        ensures
            final(self).wf(),
            final(self).consumer_available(),
            final(self).producer_available() == old(self).producer_available(),
            final(self).spec_capacity() == old(self).spec_capacity(),
            final(self)@ == old(self)@,
    {
        self.has_consumer = true;
        assert(self@ =~= old(self)@);
    }

    /// Pushes a value into the queue. Returns false, and leaves the queue
    /// as it is, when the queue is full.
    pub fn push(&mut self, value: usize) -> (accepted: bool)
        requires
            old(self).wf(),
        ensures
            final(self).wf(),
            final(self).spec_capacity() == old(self).spec_capacity(),
            final(self).producer_available() == old(self).producer_available(),
            final(self).consumer_available() == old(self).consumer_available(),
            accepted == (old(self)@.len() < old(self).spec_capacity()),
            final(self)@ == push_contents(old(self)@, old(self).spec_capacity() as nat, value),
    {
        let write_position: usize = self.write_position;
        let is_full = write_position - self.read_position == self.capacity;

        if is_full {
            return false;
        }

        let index: usize = self.at(write_position);
        self.data[index] = value;
        self.write_position = write_position + 1;

        proof {
            let before = old(self)@;
            let after = self@;
            assert(after.len() == before.len() + 1);
            assert forall|i: int| 0 <= i < after.len() implies after[i] == before.push(value)[i] by {
                if i < before.len() {
                    assert(self.slot(self.read_position + i) != index);
                }
            }
            assert(after =~= before.push(value));
        }
        true
    }

    /// Takes the oldest value out of the queue. Returns [`None`] when the
    /// queue is empty.
    pub fn pop(&mut self) -> (value: Option<usize>)
        requires
            old(self).wf(),
        ensures
            final(self).wf(),
            final(self).spec_capacity() == old(self).spec_capacity(),
            final(self).producer_available() == old(self).producer_available(),
            final(self).consumer_available() == old(self).consumer_available(),
            value == pop_value(old(self)@),
            final(self)@ == pop_contents(old(self)@),
    {
        let read_position: usize = self.read_position;
        let is_empty = read_position == self.write_position;

        if is_empty {
            return None;
        }

        let index: usize = self.at(read_position);
        let value: usize = self.data[index];
        assert(value == old(self)@[0]);

        if read_position + 1 == self.capacity {
            // both positions move back by one round; the cells they name stay the same
            self.read_position = 0;
            self.write_position = self.write_position - self.capacity;
        } else {
            self.read_position = read_position + 1;
        }

        proof {
            let before = old(self)@;
            let after = self@;
            assert(after.len() == before.len() - 1);
            assert forall|i: int| 0 <= i < after.len() implies after[i] == before.drop_first()[i] by {
                assert(self.slot(self.read_position + i) == old(self).slot(
                    old(self).read_position + i + 1,
                ));
            }
            assert(after =~= before.drop_first());
        }
        Some(value)
    }

    fn acquire_read_and_write_position(&self) -> (positions: (usize, usize))
        ensures
            positions.0 == self.write_position,
            positions.1 == self.read_position,
    {
        (self.write_position, self.read_position)
    }

    /// Returns true when the queue is empty, otherwise false.
    pub fn is_empty(&self) -> (empty: bool)
        requires
            self.wf(),
        ensures
            empty == (self@.len() == 0),
    {
        let (write_position, read_position) = self.acquire_read_and_write_position();
        write_position == read_position
    }

    /// Returns the number of values in the queue.
    pub fn len(&self) -> (len: usize)
        requires
            self.wf(),
        ensures
            len == self@.len(),
    {
        let (write_position, read_position) = self.acquire_read_and_write_position();
        write_position - read_position
    }

    /// Returns the capacity of the queue.
    pub fn capacity(&self) -> (capacity: usize)
        ensures
            capacity == self.spec_capacity(),
    {
        self.capacity
    }

    /// Returns true when the queue is full, otherwise false.
    pub fn is_full(&self) -> (full: bool)
        requires
            self.wf(),
        ensures
            full == (self@.len() == self.spec_capacity()),
    {
        let (write_position, read_position) = self.acquire_read_and_write_position();
        write_position - read_position == self.capacity
    }
}

/// The index queue with a capacity that is fixed at compile time.
#[derive(Debug)]
pub struct FixedSizeIndexQueue<const CAPACITY: usize> {
    state: IndexQueue,
}

impl<const CAPACITY: usize> View for FixedSizeIndexQueue<CAPACITY> {
    type V = Seq<usize>;

    /// The stored values, oldest first.
    closed spec fn view(&self) -> Seq<usize> {
        self.state@
    }
}

impl<const CAPACITY: usize> FixedSizeIndexQueue<CAPACITY> {
    /// The invariant that every operation keeps.
    pub closed spec fn wf(&self) -> bool {
        self.state.wf() && self.state.spec_capacity() == CAPACITY
    }

    /// True while no [`Producer`] token is handed out.
    pub closed spec fn producer_available(&self) -> bool {
        self.state.producer_available()
    }

    /// True while no [`Consumer`] token is handed out.
    pub closed spec fn consumer_available(&self) -> bool {
        self.state.consumer_available()
    }

    /// Creates a new empty queue.
    pub fn new() -> (queue: Self)
        requires
            CAPACITY <= MAX_CAPACITY,
        ensures
            queue.wf(),
            queue@ == Seq::<usize>::empty(),
            queue.producer_available(),
            queue.consumer_available(),
    {
        Self { state: IndexQueue::new(CAPACITY) }
    }

    /// The queue behind the fixed capacity, for use with a [`Producer`] or
    /// [`Consumer`] token. Whatever is done to it is done to this queue.
    pub fn state_mut(&mut self) -> (state: &mut IndexQueue)
        requires
            old(self).wf(),
        ensures
            state.wf(),
            state.spec_capacity() == CAPACITY,
            state@ == old(self)@,
            state.producer_available() == old(self).producer_available(),
            state.consumer_available() == old(self).consumer_available(),
            final(self)@ == final(state)@,
            final(self).producer_available() == final(state).producer_available(),
            final(self).consumer_available() == final(state).consumer_available(),
            final(self).wf() == (final(state).wf() && final(state).spec_capacity() == CAPACITY),
    {
        &mut self.state
    }

    /// See [`IndexQueue::acquire_producer()`]
    pub fn acquire_producer(&mut self) -> (producer: Option<Producer>)
        requires
            old(self).wf(),
        ensures
            final(self).wf(),
            producer.is_some() == old(self).producer_available(),
            !final(self).producer_available(),
            final(self).consumer_available() == old(self).consumer_available(),
            final(self)@ == old(self)@,
    {
        self.state.acquire_producer()
    }

    /// See [`IndexQueue::release_producer()`]
    pub fn release_producer(&mut self, producer: Producer)
        requires
            old(self).wf(),
        ensures
            final(self).wf(),
            final(self).producer_available(),
            final(self).consumer_available() == old(self).consumer_available(),
            final(self)@ == old(self)@,
    {
        self.state.release_producer(producer)
    }

    /// See [`IndexQueue::acquire_consumer()`]
    pub fn acquire_consumer(&mut self) -> (consumer: Option<Consumer>)
        requires
            old(self).wf(),
        ensures
            final(self).wf(),
            consumer.is_some() == old(self).consumer_available(),
            !final(self).consumer_available(),
            final(self).producer_available() == old(self).producer_available(),
            final(self)@ == old(self)@,
    {
        self.state.acquire_consumer()
    }

    /// See [`IndexQueue::release_consumer()`]
    pub fn release_consumer(&mut self, consumer: Consumer)
        requires
            old(self).wf(),
        ensures
            final(self).wf(),
            final(self).consumer_available(),
            final(self).producer_available() == old(self).producer_available(),
            final(self)@ == old(self)@,
    {
        self.state.release_consumer(consumer)
    }

    /// See [`IndexQueue::is_empty()`]
    pub fn is_empty(&self) -> (empty: bool)
        requires
            self.wf(),
        ensures
            empty == (self@.len() == 0),
    {
        self.state.is_empty()
    }

    /// See [`IndexQueue::len()`]
    pub fn len(&self) -> (len: usize)
        requires
            self.wf(),
        ensures
            len == self@.len(),
            len <= CAPACITY,
    {
        proof {
            self.state.lemma_len_bounded();
        }
        self.state.len()
    }

    /// See [`IndexQueue::capacity()`]
    pub fn capacity(&self) -> (capacity: usize)
        requires
            self.wf(),
        ensures
            capacity == CAPACITY,
    {
        self.state.capacity()
    }

    /// See [`IndexQueue::is_full()`]
    pub fn is_full(&self) -> (full: bool)
        requires
            self.wf(),
        ensures
            full == (self@.len() == CAPACITY),
    {
        self.state.is_full()
    }

    /// See [`IndexQueue::push()`]
    pub fn push(&mut self, value: usize) -> (accepted: bool)
        requires
            old(self).wf(),
        ensures
            final(self).wf(),
            final(self).producer_available() == old(self).producer_available(),
            final(self).consumer_available() == old(self).consumer_available(),
            accepted == (old(self)@.len() < CAPACITY),
            final(self)@ == push_contents(old(self)@, CAPACITY as nat, value),
    {
        self.state.push(value)
    }

    /// See [`IndexQueue::pop()`]
    pub fn pop(&mut self) -> (value: Option<usize>)
        requires
            old(self).wf(),
        ensures
            final(self).wf(),
            final(self).producer_available() == old(self).producer_available(),
            final(self).consumer_available() == old(self).consumer_available(),
            value == pop_value(old(self)@),
            final(self)@ == pop_contents(old(self)@),
    {
        self.state.pop()
    }
}

} // verus!
