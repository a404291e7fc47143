//! A bounded single producer single consumer queue of [`usize`] integers or
//! indices with overflow behavior. When the queue is full the oldest value is
//! handed back to the producer and replaced with the newest.

use crate::elementary::allocator::{AllocationError, Layout};
use crate::elementary::math::{lemma_align_properties, spec_align};
use crate::memory::bump_allocator::BumpAllocator;
use vstd::prelude::*;

verus! {

/// The size of a cell of the queue in bytes.
pub const CELL_SIZE: usize = 8;

/// The alignment of a cell of the queue in bytes.
pub const CELL_ALIGNMENT: usize = 8;

/// The largest capacity a queue can be created with.
pub const MAX_CAPACITY: usize = usize::MAX / 2 - 1;

/// Contents of an overflowing queue after `value` was pushed: the value is
/// always taken, and a full queue gives up its oldest value for it.
pub open spec fn push_contents(contents: Seq<usize>, capacity: nat, value: usize) -> Seq<usize> {
    if contents.len() < capacity {
        contents.push(value)
    } else {
        contents.push(value).drop_first()
    }
}

/// The value that a push into an overflowing queue hands back: the oldest
/// one when the queue was full, nothing otherwise. A queue of capacity zero
/// hands every value straight back.
pub open spec fn push_evicted(contents: Seq<usize>, capacity: nat, value: usize) -> Option<usize> {
    if contents.len() < capacity {
        None
    } else {
        Some(contents.push(value)[0])
    }
}

/// Contents of a queue after an attempt to take its oldest value.
pub open spec fn pop_contents(contents: Seq<usize>) -> Seq<usize> {
    if contents.len() > 0 {
        contents.drop_first()
    } else {
        contents
    }
}

/// The value that an attempt to take the oldest value yields.
pub open spec fn pop_value(contents: Seq<usize>) -> Option<usize> {
    if contents.len() > 0 {
        Some(contents[0])
    } else {
        None
    }
}

/// Contents of an overflowing queue of the given capacity that started empty
/// and took `values` one after the other.
pub open spec fn contents_after_pushes(values: Seq<usize>, capacity: nat) -> Seq<usize>
    decreases values.len(),
{
    if values.len() == 0 {
        Seq::empty()
    } else {
        push_contents(contents_after_pushes(values.drop_last(), capacity), capacity, values.last())
    }
}

/// After any run of pushes the queue holds exactly the last `capacity`
/// values in order (all of them while fewer were pushed), and the push that
/// overflowed handed back the value pushed `capacity` pushes earlier.
pub proof fn lemma_overflow_keeps_newest(values: Seq<usize>, capacity: nat)
    ensures
        values.len() <= capacity ==> contents_after_pushes(values, capacity) == values,
        values.len() > capacity ==> contents_after_pushes(values, capacity) == values.subrange(
            values.len() - capacity,
            values.len() as int,
        ),
        values.len() > 0 && values.len() <= capacity ==> push_evicted(
            contents_after_pushes(values.drop_last(), capacity),
            capacity,
            values.last(),
        ) == None::<usize>,
        values.len() > capacity ==> push_evicted(
            contents_after_pushes(values.drop_last(), capacity),
            capacity,
            values.last(),
        ) == Some(values[values.len() - 1 - capacity]),
    decreases values.len(),
{
    let contents = contents_after_pushes(values, capacity);
    if values.len() == 0 {
        assert(contents =~= values);
    } else {
        let earlier = values.drop_last();
        lemma_overflow_keeps_newest(earlier, capacity);
        let before = contents_after_pushes(earlier, capacity);
        if values.len() <= capacity {
            assert(before == earlier);
            assert(contents =~= values);
        } else {
            if earlier.len() <= capacity {
                assert(before == earlier);
            } else {
                assert(before == earlier.subrange(earlier.len() - capacity, earlier.len() as int));
            }
            assert(before.len() == capacity);
            assert(contents =~= values.subrange(values.len() - capacity, values.len() as int));
            assert(before.push(values.last())[0] == values[values.len() - 1 - capacity]);
        }
    }
}

/// The token of the single producer of a [`SafelyOverflowingIndexQueue`] or
/// [`FixedSizeSafelyOverflowingIndexQueue`]. It is obtained from
/// `acquire_producer` and handed back with `release_producer`.
#[derive(Debug)]
pub struct Producer {
    token: (),
}

impl Producer {
    /// Adds a new value to the queue. When the queue is full the oldest
    /// value is taken out and returned.
    pub fn push(&mut self, queue: &mut SafelyOverflowingIndexQueue, t: usize) -> (evicted: Option<
        usize,
    >)
        requires
            old(queue).wf(),
        ensures
            final(queue).wf(),
            final(queue).spec_capacity() == old(queue).spec_capacity(),
            final(queue).producer_available() == old(queue).producer_available(),
            final(queue).consumer_available() == old(queue).consumer_available(),
            evicted == push_evicted(old(queue)@, old(queue).spec_capacity() as nat, t),
            final(queue)@ == push_contents(old(queue)@, old(queue).spec_capacity() as nat, t),
    {
        queue.push(t)
    }
}

/// The token of the single consumer of a [`SafelyOverflowingIndexQueue`] or
/// [`FixedSizeSafelyOverflowingIndexQueue`]. It is obtained from
/// `acquire_consumer` and handed back with `release_consumer`.
#[derive(Debug)]
pub struct Consumer {
    token: (),
}

impl Consumer {
    /// Takes the oldest value out of the queue. Returns [`None`] when the
    /// queue is empty.
    pub fn pop(&mut self, queue: &mut SafelyOverflowingIndexQueue) -> (value: Option<usize>)
        requires
            old(queue).wf(),
        ensures
            final(queue).wf(),
            final(queue).spec_capacity() == old(queue).spec_capacity(),
            final(queue).producer_available() == old(queue).producer_available(),
            final(queue).consumer_available() == old(queue).consumer_available(),
            value == pop_value(old(queue)@),
            final(queue)@ == pop_contents(old(queue)@),
    {
        queue.pop()
    }
}

/// An overflowing index queue with a capacity which is set when the queue is
/// created. It keeps one cell more than its capacity, so that the newest
/// value is stored before the oldest one leaves.
#[derive(Debug)]
pub struct SafelyOverflowingIndexQueue {
    data: Vec<usize>,
    capacity: usize,
    write_position: usize,
    read_position: usize,
    has_producer: bool,
    has_consumer: bool,
    is_memory_initialized: bool,
}

impl View for SafelyOverflowingIndexQueue {
    type V = Seq<usize>;

    /// The stored values, oldest first.
    closed spec fn view(&self) -> Seq<usize> {
        self.values_between(self.read_position as int, self.write_position as int)
    }
}

impl SafelyOverflowingIndexQueue {
    /// The cell of the ring in which the value at `position` lives.
    pub closed spec fn slot(&self, position: int) -> int {
        if position > self.capacity {
            position - self.capacity - 1
        } else {
            position
        }
    }

    /// The values in the cells from position `read` up to `write`.
    pub closed spec fn values_between(&self, read: int, write: int) -> Seq<usize> {
        Seq::new((write - read) as nat, |i: int| self.data[self.slot(read + i)])
    }

    /// The invariant that every operation keeps.
    pub closed spec fn wf(&self) -> bool {
        &&& self.is_memory_initialized
        &&& self.data.len() == self.capacity + 1
        &&& self.capacity <= MAX_CAPACITY
        &&& self.read_position <= self.write_position
        &&& self.write_position - self.read_position <= self.capacity
        &&& self.read_position <= self.capacity
    }

    /// The number of values the queue can hold.
    pub closed spec fn spec_capacity(&self) -> usize {
        self.capacity
    }

    /// True while no [`Producer`] token is handed out.
    pub closed spec fn producer_available(&self) -> bool {
        self.has_producer
    }

    /// True while no [`Consumer`] token is handed out.
    pub closed spec fn consumer_available(&self) -> bool {
        self.has_consumer
    }

    /// A well-formed queue never holds more values than its capacity.
    pub proof fn lemma_len_bounded(&self)
        requires
            self.wf(),
        ensures
            self@.len() <= self.spec_capacity(),
    {
    }

    /// Creates an empty queue for up to `capacity` values.
    pub fn new(capacity: usize) -> (queue: Self)
        requires
            capacity <= MAX_CAPACITY,
        ensures
            queue.wf(),
            queue@ == Seq::<usize>::empty(),
            queue.spec_capacity() == capacity,
            queue.producer_available(),
            queue.consumer_available(),
    {
        let queue = Self {
            data: vec![0usize; capacity + 1],
            capacity,
            write_position: 0,
            read_position: 0,
            has_producer: true,
            has_consumer: true,
            is_memory_initialized: true,
        };
        assert(queue@ =~= Seq::<usize>::empty());
        queue
    }

    /// True if the queue was created without memory for its values and
    /// the memory was not acquired yet.
    pub closed spec fn is_uninit(&self) -> bool {
        &&& !self.is_memory_initialized
        &&& self.data.len() == 0
        &&& self.write_position == 0
        &&& self.read_position == 0
        &&& self.has_producer
        &&& self.has_consumer
    }

    /// The number of cells of a queue of the given capacity.
    pub open spec fn spec_cells(capacity: usize) -> int {
        capacity + 1
    }

    /// The number of bytes that a queue of the given capacity asks an
    /// allocator for.
    pub open spec fn spec_data_size(capacity: usize) -> int {
        CELL_SIZE * Self::spec_cells(capacity)
    }

    /// The amount of memory that suffices for a queue of the given
    /// capacity wherever the memory starts.
    pub open spec fn spec_memory_size(capacity: usize) -> int {
        Self::spec_data_size(capacity) + CELL_ALIGNMENT - 1
    }

    /// What the acquisition of the memory of a queue of the given
    /// capacity from `allocator` comes to.
    pub open spec fn init_result(allocator: &BumpAllocator, capacity: usize) -> Result<
        (),
        AllocationError,
    > {
        if Self::spec_memory_size(capacity) > usize::MAX || capacity > MAX_CAPACITY {
            Err(AllocationError::SizeTooLarge)
        } else if Self::spec_data_size(capacity) == 0 {
            Err(AllocationError::SizeIsZero)
        } else if spec_align(allocator.spec_position() as int, CELL_ALIGNMENT as int)
            + Self::spec_data_size(capacity) > allocator.spec_start() + allocator.spec_size() {
            Err(AllocationError::OutOfMemory)
        } else {
            Ok(())
        }
    }

    /// Creates a queue for up to `capacity` values that has no memory for
    /// its values yet. The memory is acquired with [`Self::init()`].
    pub fn new_uninit(capacity: usize) -> (queue: Self)
        ensures
            queue.is_uninit(),
            queue.spec_capacity() == capacity,
    {
        Self {
            data: Vec::new(),
            capacity,
            write_position: 0,
            read_position: 0,
            has_producer: true,
            has_consumer: true,
            is_memory_initialized: false,
        }
    }

    /// Acquires the memory for the values from `allocator`. The queue must
    /// not have its memory yet. When the allocator cannot provide the
    /// memory nothing changes.
    pub fn init(&mut self, allocator: &mut BumpAllocator) -> (result: Result<(), AllocationError>)
        requires
            old(self).is_uninit(),
            old(allocator).wf(),
        ensures
            final(allocator).wf(),
            final(allocator).spec_start() == old(allocator).spec_start(),
            final(allocator).spec_size() == old(allocator).spec_size(),
            final(self).spec_capacity() == old(self).spec_capacity(),
            result == Self::init_result(old(allocator), old(self).spec_capacity()),
            result.is_err() ==> final(self).is_uninit() && final(allocator).spec_position() == old(allocator).spec_position(),
            result.is_ok() ==> final(self).wf() && final(self)@ == Seq::<usize>::empty()
                && final(self).producer_available() && final(self).consumer_available() && final(allocator).spec_position() == spec_align(
                old(allocator).spec_position() as int,
                CELL_ALIGNMENT as int,
            ) + Self::spec_data_size(old(self).spec_capacity()) && final(allocator).spec_position() - old(allocator).spec_position() <= Self::spec_memory_size(
                old(self).spec_capacity(),
            ),
    {
        let capacity: usize = self.capacity;
        if capacity > MAX_CAPACITY || capacity >= (usize::MAX - (CELL_ALIGNMENT - 1)) / CELL_SIZE {
            return Err(AllocationError::SizeTooLarge);
        }
        let cells: usize = capacity + 1;
        let layout = match Layout::from_size_align(CELL_SIZE * cells, CELL_ALIGNMENT) {
            Some(layout) => layout,
            None => {
                return Err(AllocationError::AlignmentFailure);
            },
        };
        proof {
            lemma_align_properties(allocator.spec_position() as int, CELL_ALIGNMENT as int);
            allocator.lemma_position_in_region();
        }
        match allocator.allocate(layout) {
            Ok(_) => {},
            Err(error) => {
                return Err(error);
            },
        }
        self.data = vec![0usize; cells];
        self.is_memory_initialized = true;
        assert(self@ =~= Seq::<usize>::empty());
        Ok(())
    }

    /// Returns the amount of memory that suffices for a queue of the given
    /// capacity.
    pub fn memory_size(capacity: usize) -> (size: usize)
        requires
            Self::spec_memory_size(capacity) <= usize::MAX,
        ensures
            size == Self::spec_memory_size(capacity),
    {
        Self::const_memory_size(capacity)
    }

    /// Returns the amount of memory that suffices for a queue of the given
    /// capacity.
    pub fn const_memory_size(capacity: usize) -> (size: usize)
        requires
            Self::spec_memory_size(capacity) <= usize::MAX,
        ensures
            size == Self::spec_memory_size(capacity),
    {
        CELL_SIZE * (capacity + 1) + (CELL_ALIGNMENT - 1)
    }

    fn at(&self, position: usize) -> (index: usize)
        requires
            self.data.len() == self.capacity + 1,
            self.capacity <= MAX_CAPACITY,
            position < 2 * (self.capacity + 1),
        ensures
            index == self.slot(position as int),
            index <= self.capacity,
    {
        let cells: usize = self.capacity + 1;
        assert(position % cells == if position >= cells {
            position - cells
        } else {
            position as int
        }) by (nonlinear_arith)
            requires
                cells > 0,
                position < 2 * cells,
        ;
        position % cells
    }

    /// Acquires the [`Producer`] of the queue. Returns [`None`] while the
    /// token is handed out, since the queue has a single producer.
    pub fn acquire_producer(&mut self) -> (producer: Option<Producer>)
        requires
            old(self).wf(),
        ensures
            final(self).wf(),
            producer.is_some() == old(self).producer_available(),
            !final(self).producer_available(),
            final(self).consumer_available() == old(self).consumer_available(),
            final(self).spec_capacity() == old(self).spec_capacity(),
            final(self)@ == old(self)@,
    {
        if self.has_producer {
            self.has_producer = false;
            assert(self@ =~= old(self)@);
            Some(Producer { token: () })
        } else {
            None
        }
    }

    /// Takes the [`Producer`] token back, after which it can be acquired
    /// again.
    pub fn release_producer(&mut self, producer: Producer)
        requires
            old(self).wf(),
        ensures
            final(self).wf(),
            final(self).producer_available(),
            final(self).consumer_available() == old(self).consumer_available(),
            final(self).spec_capacity() == old(self).spec_capacity(),
            final(self)@ == old(self)@,
    {
        self.has_producer = true;
        assert(self@ =~= old(self)@);
    }

    /// Acquires the [`Consumer`] of the queue. Returns [`None`] while the
    /// token is handed out, since the queue has a single consumer.
    pub fn acquire_consumer(&mut self) -> (consumer: Option<Consumer>)
        requires
            old(self).wf(),
        ensures
            final(self).wf(),
            consumer.is_some() == old(self).consumer_available(),
            !final(self).consumer_available(),
            final(self).producer_available() == old(self).producer_available(),
            final(self).spec_capacity() == old(self).spec_capacity(),
            final(self)@ == old(self)@,
    {
        if self.has_consumer {
            self.has_consumer = false;
            assert(self@ =~= old(self)@);
            Some(Consumer { token: () })
        } else {
            None
        }
    }

    /// Takes the [`Consumer`] token back, after which it can be acquired
    /// again.
    pub fn release_consumer(&mut self, consumer: Consumer)
        requires
            old(self).wf(),
        ensures
            final(self).wf(),
            final(self).consumer_available(),
            final(self).producer_available() == old(self).producer_available(),
            final(self).spec_capacity() == old(self).spec_capacity(),
            final(self)@ == old(self)@,
    {
        self.has_consumer = true;
        assert(self@ =~= old(self)@);
    }

    /// Pushes a value into the queue. When the queue is full the oldest
    /// value makes room for it and is returned.
    pub fn push(&mut self, value: usize) -> (evicted: Option<usize>)
        requires
            old(self).wf(),
        ensures
            final(self).wf(),
            final(self).spec_capacity() == old(self).spec_capacity(),
            final(self).producer_available() == old(self).producer_available(),
            final(self).consumer_available() == old(self).consumer_available(),
            evicted == push_evicted(old(self)@, old(self).spec_capacity() as nat, value),
            final(self)@ == push_contents(old(self)@, old(self).spec_capacity() as nat, value),
    {
        let write_position: usize = self.write_position;
        let read_position: usize = self.read_position;
        let is_full = write_position - read_position == self.capacity;

        let index: usize = self.at(write_position);
        self.data[index] = value;
        self.write_position = write_position + 1;

        let ghost extended = self.values_between(read_position as int, write_position + 1);
        proof {
            let before = old(self)@;
            assert forall|i: int| 0 <= i < extended.len() implies extended[i] == before.push(
                value,
            )[i] by {
                if i < before.len() {
                    assert(self.slot(read_position + i) != index);
                }
            }
            assert(extended =~= before.push(value));
        }

        if is_full {
            let oldest: usize = self.at(read_position);
            let evicted: usize = self.data[oldest];
            assert(evicted == extended[0]);
            if read_position == self.capacity {
                // both positions move back by one round; the cells they name stay the same
                self.read_position = 0;
                self.write_position = self.write_position - self.capacity - 1;
            } else {
                self.read_position = read_position + 1;
            }
            proof {
                let after = self@;
                assert forall|i: int| 0 <= i < after.len() implies after[i]
                    == extended.drop_first()[i] by {
                    assert(self.slot(self.read_position + i) == self.slot(read_position + i + 1));
                }
                assert(after =~= extended.drop_first());
            }
            Some(evicted)
        } else {
            assert(self@ =~= extended);
            None
        }
    }

    /// Takes the oldest value out of the queue. Returns [`None`] when the
    /// queue is empty.
    pub fn pop(&mut self) -> (value: Option<usize>)
        requires
            old(self).wf(),
        ensures
            final(self).wf(),
            final(self).spec_capacity() == old(self).spec_capacity(),
            final(self).producer_available() == old(self).producer_available(),
            final(self).consumer_available() == old(self).consumer_available(),
            value == pop_value(old(self)@),
            final(self)@ == pop_contents(old(self)@),
    {
        let read_position: usize = self.read_position;
        let is_empty = read_position == self.write_position;

        if is_empty {
            return None;
        }

        let index: usize = self.at(read_position);
        let value: usize = self.data[index];
        assert(value == old(self)@[0]);

        if read_position == self.capacity {
            // both positions move back by one round; the cells they name stay the same
            self.read_position = 0;
            self.write_position = self.write_position - self.capacity - 1;
        } else {
            self.read_position = read_position + 1;
        }

        proof {
            let before = old(self)@;
            let after = self@;
            assert(after.len() == before.len() - 1);
            assert forall|i: int| 0 <= i < after.len() implies after[i] == before.drop_first()[i] by {
                assert(self.slot(self.read_position + i) == old(self).slot(
                    old(self).read_position + i + 1,
                ));
            }
            assert(after =~= before.drop_first());
        }
        Some(value)
    }

    fn acquire_read_and_write_position(&self) -> (positions: (usize, usize))
        ensures
            positions.0 == self.write_position,
            positions.1 == self.read_position,
    {
        (self.write_position, self.read_position)
    }

    /// Returns true when the queue is empty, otherwise false.
    pub fn is_empty(&self) -> (empty: bool)
        requires
            self.wf(),
        ensures
            empty == (self@.len() == 0),
    {
        let (write_position, read_position) = self.acquire_read_and_write_position();
        write_position == read_position
    }

    /// Returns the number of values in the queue.
    pub fn len(&self) -> (len: usize)
        requires
            self.wf(),
        ensures
            len == self@.len(),
    {
        let (write_position, read_position) = self.acquire_read_and_write_position();
        write_position - read_position
    }

    /// Returns the capacity of the queue.
    pub fn capacity(&self) -> (capacity: usize)
        ensures
            capacity == self.spec_capacity(),
    {
        self.capacity
    }

    /// Returns true when the queue is full, otherwise false.
    pub fn is_full(&self) -> (full: bool)
        requires
            self.wf(),
        ensures
            full == (self@.len() == self.spec_capacity()),
    {
        let (write_position, read_position) = self.acquire_read_and_write_position();
        write_position - read_position == self.capacity
    }
}

/// The overflowing index queue with a capacity that is fixed at compile
/// time.
#[derive(Debug)]
pub struct FixedSizeSafelyOverflowingIndexQueue<const CAPACITY: usize> {
    state: SafelyOverflowingIndexQueue,
}

impl<const CAPACITY: usize> View for FixedSizeSafelyOverflowingIndexQueue<CAPACITY> {
    type V = Seq<usize>;

    /// The stored values, oldest first.
    closed spec fn view(&self) -> Seq<usize> {
        self.state@
    }
}

impl<const CAPACITY: usize> FixedSizeSafelyOverflowingIndexQueue<CAPACITY> {
    /// The invariant that every operation keeps.
    pub closed spec fn wf(&self) -> bool {
        self.state.wf() && self.state.spec_capacity() == CAPACITY
    }

    /// True while no [`Producer`] token is handed out.
    pub closed spec fn producer_available(&self) -> bool {
        self.state.producer_available()
    }

    /// True while no [`Consumer`] token is handed out.
    pub closed spec fn consumer_available(&self) -> bool {
        self.state.consumer_available()
    }

    /// Creates a new empty queue.
    pub fn new() -> (queue: Self)
        requires
            CAPACITY <= MAX_CAPACITY,
        ensures
            queue.wf(),
            queue@ == Seq::<usize>::empty(),
            queue.producer_available(),
            queue.consumer_available(),
    {
        Self { state: SafelyOverflowingIndexQueue::new(CAPACITY) }
    }

    /// The queue behind the fixed capacity, for use with a [`Producer`] or
    /// [`Consumer`] token. Whatever is done to it is done to this queue.
    pub fn state_mut(&mut self) -> (state: &mut SafelyOverflowingIndexQueue)
        requires
            old(self).wf(),
        ensures
            state.wf(),
            state.spec_capacity() == CAPACITY,
            state@ == old(self)@,
            state.producer_available() == old(self).producer_available(),
            state.consumer_available() == old(self).consumer_available(),
            final(self)@ == final(state)@,
            final(self).producer_available() == final(state).producer_available(),
            final(self).consumer_available() == final(state).consumer_available(),
            final(self).wf() == (final(state).wf() && final(state).spec_capacity() == CAPACITY),
    {
        &mut self.state
    }

    /// See [`SafelyOverflowingIndexQueue::acquire_producer()`]
    pub fn acquire_producer(&mut self) -> (producer: Option<Producer>)
        requires
            old(self).wf(),
        ensures
            final(self).wf(),
            producer.is_some() == old(self).producer_available(),
            !final(self).producer_available(),
            final(self).consumer_available() == old(self).consumer_available(),
            final(self)@ == old(self)@,
    {
        self.state.acquire_producer()
    }

    /// See [`SafelyOverflowingIndexQueue::release_producer()`]
    pub fn release_producer(&mut self, producer: Producer)
        requires
            old(self).wf(),
        ensures
            final(self).wf(),
            final(self).producer_available(),
            final(self).consumer_available() == old(self).consumer_available(),
            final(self)@ == old(self)@,
    {
        self.state.release_producer(producer)
    }

    /// See [`SafelyOverflowingIndexQueue::acquire_consumer()`]
    pub fn acquire_consumer(&mut self) -> (consumer: Option<Consumer>)
        requires
            old(self).wf(),
        ensures
            final(self).wf(),
            consumer.is_some() == old(self).consumer_available(),
            !final(self).consumer_available(),
            final(self).producer_available() == old(self).producer_available(),
            final(self)@ == old(self)@,
    {
        self.state.acquire_consumer()
    }

    /// See [`SafelyOverflowingIndexQueue::release_consumer()`]
    pub fn release_consumer(&mut self, consumer: Consumer)
        requires
            old(self).wf(),
        ensures
            final(self).wf(),
            final(self).consumer_available(),
            final(self).producer_available() == old(self).producer_available(),
            final(self)@ == old(self)@,
    {
        self.state.release_consumer(consumer)
    }

    /// See [`SafelyOverflowingIndexQueue::is_empty()`]
    pub fn is_empty(&self) -> (empty: bool)
        requires
            self.wf(),
        ensures
            empty == (self@.len() == 0),
    {
        self.state.is_empty()
    }

    /// See [`SafelyOverflowingIndexQueue::len()`]
    pub fn len(&self) -> (len: usize)
        requires
            self.wf(),
        ensures
            len == self@.len(),
            len <= CAPACITY,
    {
        proof {
            self.state.lemma_len_bounded();
        }
        self.state.len()
    }

    /// See [`SafelyOverflowingIndexQueue::push()`]
    pub fn push(&mut self, value: usize) -> (evicted: Option<usize>)
        requires
            old(self).wf(),
        ensures
            final(self).wf(),
            final(self).producer_available() == old(self).producer_available(),
            final(self).consumer_available() == old(self).consumer_available(),
            evicted == push_evicted(old(self)@, CAPACITY as nat, value),
            final(self)@ == push_contents(old(self)@, CAPACITY as nat, value),
    {
        self.state.push(value)
    }

    /// See [`SafelyOverflowingIndexQueue::pop()`]
    pub fn pop(&mut self) -> (value: Option<usize>)
        requires
            old(self).wf(),
        ensures
            final(self).wf(),
            final(self).producer_available() == old(self).producer_available(),
            final(self).consumer_available() == old(self).consumer_available(),
            value == pop_value(old(self)@),
            final(self)@ == pop_contents(old(self)@),
    {
        self.state.pop()
    }

    /// See [`SafelyOverflowingIndexQueue::capacity()`]
    pub fn capacity(&self) -> (capacity: usize)
        requires
            self.wf(),
        ensures
            capacity == CAPACITY,
    {
        self.state.capacity()
    }

    /// See [`SafelyOverflowingIndexQueue::is_full()`]
    pub fn is_full(&self) -> (full: bool)
        requires
            self.wf(),
        ensures
            full == (self@.len() == CAPACITY),
    {
        self.state.is_full()
    }
}

} // verus!
