//! A bounded single producer single consumer queue for values of any
//! copyable type, with a capacity that is fixed at compile time.

use vstd::prelude::*;

verus! {

/// The largest capacity a queue can be created with.
pub const MAX_CAPACITY: usize = usize::MAX / 2;

/// The token of the single producer of a [`Queue`]. It is obtained from
/// [`Queue::acquire_producer()`] and handed back with
/// [`Queue::release_producer()`].
pub struct Producer<T: Copy, const CAPACITY: usize> {
    token: Ghost<Option<T>>,
}

impl<T: Copy, const CAPACITY: usize> Producer<T, CAPACITY> {
    /// Adds a new value to the queue. Returns false when the queue is full,
    /// otherwise true.
    pub fn push(&mut self, queue: &mut Queue<T, CAPACITY>, t: &T) -> (accepted: bool)
        requires
            old(queue).wf(),
        ensures
            final(queue).wf(),
            final(queue).producer_available() == old(queue).producer_available(),
            final(queue).consumer_available() == old(queue).consumer_available(),
            accepted == (old(queue)@.len() < CAPACITY),
            accepted ==> final(queue)@ == old(queue)@.push(*t),
            !accepted ==> final(queue)@ == old(queue)@,
    {
        queue.push(t)
    }
}

/// The token of the single consumer of a [`Queue`]. It is obtained from
/// [`Queue::acquire_consumer()`] and handed back with
/// [`Queue::release_consumer()`].
pub struct Consumer<T: Copy, const CAPACITY: usize> {
    token: Ghost<Option<T>>,
}

impl<T: Copy, const CAPACITY: usize> Consumer<T, CAPACITY> {
    /// Takes the oldest value out of the queue. Returns [`None`] when the
    /// queue is empty.
    pub fn pop(&mut self, queue: &mut Queue<T, CAPACITY>) -> (value: Option<T>)
        requires
            old(queue).wf(),
        ensures
            final(queue).wf(),
            final(queue).producer_available() == old(queue).producer_available(),
            final(queue).consumer_available() == old(queue).consumer_available(),
            old(queue)@.len() == 0 ==> value.is_none() && final(queue)@ == old(queue)@,
            old(queue)@.len() > 0 ==> value == Some(old(queue)@[0]) && final(queue)@ == old(queue)@.drop_first(),
    {
        queue.pop()
    }
}

/// The queue. Values leave it in the order in which they were accepted.
pub struct Queue<T: Copy, const CAPACITY: usize> {
    data: Vec<Option<T>>,
    write_position: usize,
    read_position: usize,
    has_producer: bool,
    has_consumer: bool,
}

impl<T: Copy, const CAPACITY: usize> View for Queue<T, CAPACITY> {
    type V = Seq<T>;

    /// The stored values, oldest first.
    closed spec fn view(&self) -> Seq<T> {
        Seq::new(
            (self.write_position - self.read_position) as nat,
            |i: int| self.data[Self::slot(self.read_position + i)].unwrap(),
        )
    }
}

impl<T: Copy, const CAPACITY: usize> Queue<T, CAPACITY> {
    /// The cell of the ring in which the value at `position` lives.
    pub closed spec fn slot(position: int) -> int {
        if position >= CAPACITY {
            position - CAPACITY
        } else {
            position
        }
    }

    /// The invariant that every operation keeps.
    pub closed spec fn wf(&self) -> bool {
        &&& self.data.len() == CAPACITY
        &&& CAPACITY <= MAX_CAPACITY
        &&& self.read_position <= self.write_position
        &&& self.write_position - self.read_position <= CAPACITY
        &&& (CAPACITY == 0 ==> self.read_position == 0)
        &&& (CAPACITY > 0 ==> self.read_position < CAPACITY)
        &&& forall|i: int|
            0 <= i < self.write_position - self.read_position ==> (#[trigger] self.data[Self::slot(
                self.read_position + i,
            )]).is_some()
    }

    /// True while no [`Producer`] token is handed out.
    pub closed spec fn producer_available(&self) -> bool {
        self.has_producer
    }

    /// True while no [`Consumer`] token is handed out.
    pub closed spec fn consumer_available(&self) -> bool {
        self.has_consumer
    }

    /// Creates a new empty queue.
    pub fn new() -> (queue: Self)
        requires
            CAPACITY <= MAX_CAPACITY,
        ensures
            queue.wf(),
            queue@ == Seq::<T>::empty(),
            queue.producer_available(),
            queue.consumer_available(),
    {
        let mut data: Vec<Option<T>> = Vec::new();
        let mut i: usize = 0;
        while i < CAPACITY
            invariant
                i <= CAPACITY,
                data.len() == i,
            decreases CAPACITY - i,
        {
            data.push(None);
            i += 1;
        }
        let queue = Self {
            data,
            write_position: 0,
            read_position: 0,
            has_producer: true,
            has_consumer: true,
        };
        assert(queue@ =~= Seq::<T>::empty());
        queue
    }

    /// Acquires the [`Producer`] of the queue. Returns [`None`] while the
    /// token is handed out, since the queue has a single producer.
    pub fn acquire_producer(&mut self) -> (producer: Option<Producer<T, CAPACITY>>)
        requires
            old(self).wf(),
        ensures
            final(self).wf(),
            producer.is_some() == old(self).producer_available(),
            !final(self).producer_available(),
            final(self).consumer_available() == old(self).consumer_available(),
            final(self)@ == old(self)@,
    {
        if self.has_producer {
            self.has_producer = false;
            assert(self@ =~= old(self)@);
            Some(Producer { token: Ghost(None) })
        } else {
            None
        }
    }

    /// Takes the [`Producer`] token back, after which it can be acquired
    /// again.
    pub fn release_producer(&mut self, producer: Producer<T, CAPACITY>)
        requires
            old(self).wf(),
        ensures
            final(self).wf(),
            final(self).producer_available(),
            final(self).consumer_available() == old(self).consumer_available(),
            final(self)@ == old(self)@,
    {
        self.has_producer = true;
        assert(self@ =~= old(self)@);
    }

    /// Acquires the [`Consumer`] of the queue. Returns [`None`] while the
    /// token is handed out, since the queue has a single consumer.
    pub fn acquire_consumer(&mut self) -> (consumer: Option<Consumer<T, CAPACITY>>)
        requires
            old(self).wf(),
        ensures
            final(self).wf(),
            consumer.is_some() == old(self).consumer_available(),
            !final(self).consumer_available(),
            final(self).producer_available() == old(self).producer_available(),
            final(self)@ == old(self)@,
    {
        if self.has_consumer {
            self.has_consumer = false;
            assert(self@ =~= old(self)@);
            Some(Consumer { token: Ghost(None) })
        } else {
            None
        }
    }

    /// Takes the [`Consumer`] token back, after which it can be acquired
    /// again.
    pub fn release_consumer(&mut self, consumer: Consumer<T, CAPACITY>)
        requires
            old(self).wf(),
        ensures
            final(self).wf(),
            final(self).consumer_available(),
            final(self).producer_available() == old(self).producer_available(),
            final(self)@ == old(self)@,
    {
        self.has_consumer = true;
        assert(self@ =~= old(self)@);
    }

    fn at(position: usize) -> (index: usize)
        requires
            CAPACITY > 0,
            CAPACITY <= MAX_CAPACITY,
            position < 2 * CAPACITY,
        ensures
            index == Self::slot(position as int),
            index < CAPACITY,
    {
        assert(position % CAPACITY == if position >= CAPACITY {
            position - CAPACITY
        } else {
            position as int
        }) by (nonlinear_arith)
            requires
                CAPACITY > 0,
                position < 2 * CAPACITY,
        ;
        position % CAPACITY
    }

    /// Pushes a value into the queue. Returns false, and leaves the queue
    /// as it is, when the queue is full.
    pub fn push(&mut self, t: &T) -> (accepted: bool)
        requires
            old(self).wf(),
        ensures
            final(self).wf(),
            final(self).producer_available() == old(self).producer_available(),
            final(self).consumer_available() == old(self).consumer_available(),
            accepted == (old(self)@.len() < CAPACITY),
            accepted ==> final(self)@ == old(self)@.push(*t),
            !accepted ==> final(self)@ == old(self)@,
    {
        let current_write_pos: usize = self.write_position;
        let is_full = current_write_pos - self.read_position == CAPACITY;

        if is_full {
            return false;
        }

        let index: usize = Self::at(current_write_pos);
        self.data[index] = Some(*t);
        self.write_position = current_write_pos + 1;

        proof {
            let before = old(self)@;
            let after = self@;
            assert forall|i: int| 0 <= i < after.len() implies after[i] == before.push(*t)[i]
                && (#[trigger] self.data[Self::slot(self.read_position + i)]).is_some() by {
                if i < before.len() {
                    assert(Self::slot(self.read_position + i) != index);
                    assert(old(self).data[Self::slot(old(self).read_position + i)].is_some());
                }
            }
            assert(after =~= before.push(*t));
        }
        true
    }

    /// Takes the oldest value out of the queue. Returns [`None`] when the
    /// queue is empty.
    pub fn pop(&mut self) -> (value: Option<T>)
        requires
            old(self).wf(),
        ensures
            final(self).wf(),
            final(self).producer_available() == old(self).producer_available(),
            final(self).consumer_available() == old(self).consumer_available(),
            old(self)@.len() == 0 ==> value.is_none() && final(self)@ == old(self)@,
            old(self)@.len() > 0 ==> value == Some(old(self)@[0]) && final(self)@ == old(self)@.drop_first(),
    {
        let current_read_pos: usize = self.read_position;
        let is_empty = current_read_pos == self.write_position;

        if is_empty {
            return None;
        }

        let index: usize = Self::at(current_read_pos);
        assert(self.data[Self::slot(self.read_position + 0)].is_some());
        let out: T = self.data[index].unwrap();
        assert(out == old(self)@[0]);

        if current_read_pos + 1 == CAPACITY {
            // both positions move back by one round; the cells they name stay the same
            self.read_position = 0;
            self.write_position = self.write_position - CAPACITY;
        } else {
            self.read_position = current_read_pos + 1;
        }

        proof {
            let before = old(self)@;
            let after = self@;
            assert forall|i: int| 0 <= i < after.len() implies after[i] == before.drop_first()[i]
                && (#[trigger] self.data[Self::slot(self.read_position + i)]).is_some() by {
                assert(Self::slot(self.read_position + i) == Self::slot(
                    old(self).read_position + i + 1,
                ));
                assert(old(self).data[Self::slot(old(self).read_position + (i + 1))].is_some());
            }
            assert(after =~= before.drop_first());
        }
        Some(out)
    }

    fn acquire_read_and_write_position(&self) -> (positions: (usize, usize))
        ensures
            positions.0 == self.write_position,
            positions.1 == self.read_position,
    {
        (self.write_position, self.read_position)
    }

    /// Returns true when the queue is empty, otherwise false.
    pub fn is_empty(&self) -> (empty: bool)
        requires
            self.wf(),
        ensures
            empty == (self@.len() == 0),
    {
        let (write_position, read_position) = self.acquire_read_and_write_position();
        write_position == read_position
    }

    /// Returns the number of values in the queue.
    pub fn len(&self) -> (len: usize)
        requires
            self.wf(),
        ensures
            len == self@.len(),
            len <= CAPACITY,
    {
        let (write_position, read_position) = self.acquire_read_and_write_position();
        write_position - read_position
    }

    /// Returns the capacity of the queue.
    pub fn capacity(&self) -> (capacity: usize)
        ensures
            capacity == CAPACITY,
    {
        CAPACITY
    }

    /// Returns true when the queue is full, otherwise false.
    pub fn is_full(&self) -> (full: bool)
        requires
            self.wf(),
        ensures
            full == (self@.len() == CAPACITY),
    {
        let (write_position, read_position) = self.acquire_read_and_write_position();
        write_position - read_position == CAPACITY
    }
}

} // verus!
