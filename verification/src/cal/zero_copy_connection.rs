//! Named connections between one sender and one receiver that carry offsets
//! of samples. A connection has a submission channel from the sender to the
//! receiver and a retrieve channel on which the receiver returns what it no
//! longer uses. The receiver never holds more samples than it is allowed to
//! borrow, and the connection never holds more samples than its retrieve
//! channel can take back.

use crate::cal::registry::{copy_name, Registry};
use crate::lock_free::spsc::index_queue;
use crate::lock_free::spsc::index_queue::IndexQueue;
use crate::lock_free::spsc::safely_overflowing_index_queue;
use crate::lock_free::spsc::safely_overflowing_index_queue::SafelyOverflowingIndexQueue;
use vstd::prelude::*;

verus! {

/// Failures when one side of a connection is created.
#[derive(Debug, PartialEq, Eq, Clone, Copy)]
pub enum ZeroCopyCreationError {
    InternalError,
    AnotherInstanceIsAlreadyConnected,
    InsufficientPermissions,
    VersionMismatch,
    ConnectionMaybeCorrupted,
    IncompatibleBufferSize,
    IncompatibleMaxBorrowedSampleSetting,
    IncompatibleOverflowSetting,
}

/// Failures when a sample is sent.
#[derive(Debug, PartialEq, Eq, Clone, Copy)]
pub enum ZeroCopySendError {
    ClearRetrieveChannelBeforeSend,
    ReceiveBufferFull,
    ConnectionBroken,
}

/// Failures when a sample is received.
#[derive(Debug, PartialEq, Eq, Clone, Copy)]
pub enum ZeroCopyReceiveError {
    ReceiveWouldExceedMaxBorrowValue,
    ConnectionBroken,
}

/// Failures when returned samples are reclaimed.
#[derive(Debug, PartialEq, Eq, Clone, Copy)]
pub enum ZeroCopyReclaimError {
    ConnectionBroken,
}

/// Failures when a sample is returned.
#[derive(Debug, PartialEq, Eq, Clone, Copy)]
pub enum ZeroCopyReleaseError {
    RetrieveBufferFull,
    NoSampleBorrowed,
    ConnectionBroken,
}

/// The largest buffer size and the largest number of borrowed samples that
/// a connection can be created with.
pub const MAX_SETTING: usize = usize::MAX / 8;

/// What a connection holds.
pub struct ConnectionState {
    /// The offsets that were sent and not received yet, oldest first.
    pub submission: Seq<usize>,
    /// The offsets that were returned and not reclaimed yet, oldest first.
    pub retrieve: Seq<usize>,
    /// The offsets of the samples that the receiver holds.
    pub borrowed: Seq<usize>,
    /// The capacity of the submission channel.
    pub buffer_size: usize,
    /// The number of samples that the receiver may hold.
    pub max_borrowed_samples: usize,
    /// True if a send into a full submission channel replaces the oldest
    /// offset.
    pub enable_safe_overflow: bool,
    /// True while a sender is connected.
    pub has_sender: bool,
    /// True while a receiver is connected.
    pub has_receiver: bool,
}

impl ConnectionState {
    /// The number of samples that the connection accounts for.
    pub open spec fn in_flight(&self) -> nat {
        self.submission.len() + self.retrieve.len() + self.borrowed.len()
    }

    /// The capacity of the retrieve channel, which is also the largest
    /// number of samples that the connection accounts for.
    pub open spec fn retrieve_capacity(&self) -> nat {
        (self.buffer_size + self.max_borrowed_samples) as nat
    }

    /// What every connection satisfies.
    pub open spec fn wf(&self) -> bool {
        &&& self.buffer_size <= MAX_SETTING
        &&& self.max_borrowed_samples <= MAX_SETTING
        &&& self.submission.len() <= self.buffer_size
        &&& self.borrowed.len() <= self.max_borrowed_samples
        &&& self.in_flight() <= self.retrieve_capacity()
        &&& (self.has_sender || self.has_receiver)
    }

    /// True if the two states have the same settings and the same sides
    /// connected.
    pub open spec fn same_setup(&self, other: &ConnectionState) -> bool {
        &&& self.buffer_size == other.buffer_size
        &&& self.max_borrowed_samples == other.max_borrowed_samples
        &&& self.enable_safe_overflow == other.enable_safe_overflow
        &&& self.has_sender == other.has_sender
        &&& self.has_receiver == other.has_receiver
    }

    /// What sending `offset` comes to: the offset that was replaced, if
    /// one was, or the reason for which the offset was not taken.
    pub open spec fn send_result(&self, offset: usize) -> Result<Option<usize>, ZeroCopySendError> {
        if self.submission.len() == self.buffer_size {
            if !self.enable_safe_overflow {
                Err(ZeroCopySendError::ReceiveBufferFull)
            } else {
                Ok(Some(self.submission.push(offset)[0]))
            }
        } else if self.in_flight() == self.retrieve_capacity() {
            Err(ZeroCopySendError::ClearRetrieveChannelBeforeSend)
        } else {
            Ok(None)
        }
    }

    /// The connection after `offset` was sent.
    pub open spec fn after_send(&self, offset: usize) -> ConnectionState {
        match self.send_result(offset) {
            Err(_) => *self,
            Ok(Some(_)) => ConnectionState {
                submission: self.submission.push(offset).drop_first(),
                ..*self
            },
            Ok(None) => ConnectionState { submission: self.submission.push(offset), ..*self },
        }
    }

    /// What receiving comes to: the oldest offset of the submission
    /// channel, nothing when the channel is empty, or a failure when the
    /// receiver holds as many samples as it may.
    pub open spec fn receive_result(&self) -> Result<Option<usize>, ZeroCopyReceiveError> {
        if self.borrowed.len() >= self.max_borrowed_samples {
            Err(ZeroCopyReceiveError::ReceiveWouldExceedMaxBorrowValue)
        } else if self.submission.len() == 0 {
            Ok(None)
        } else {
            Ok(Some(self.submission[0]))
        }
    }

    /// The connection after a receive.
    pub open spec fn after_receive(&self) -> ConnectionState {
        match self.receive_result() {
            Ok(Some(offset)) => ConnectionState {
                submission: self.submission.drop_first(),
                borrowed: self.borrowed.push(offset),
                ..*self
            },
            _ => *self,
        }
    }

    /// What returning a sample comes to.
    pub open spec fn release_result(&self) -> Result<(), ZeroCopyReleaseError> {
        if self.borrowed.len() == 0 {
            Err(ZeroCopyReleaseError::NoSampleBorrowed)
        } else {
            Ok(())
        }
    }

    /// The offsets that the receiver holds after it has returned the
    /// sample at `offset`: one of the samples at that offset is held no
    /// more. Where the receiver holds no sample at that offset, it has
    /// returned what was not its own, and the sample that it borrowed last
    /// counts as returned.
    pub open spec fn borrowed_without(&self, offset: usize) -> Seq<usize> {
        if self.borrowed.contains(offset) {
            self.borrowed.remove(self.borrowed.index_of(offset))
        } else {
            self.borrowed.drop_last()
        }
    }

    /// The connection after the sample at `offset` was returned.
    pub open spec fn after_release(&self, offset: usize) -> ConnectionState {
        if self.borrowed.len() == 0 {
            *self
        } else {
            ConnectionState {
                retrieve: self.retrieve.push(offset),
                borrowed: self.borrowed_without(offset),
                ..*self
            }
        }
    }

    /// What reclaiming comes to: the oldest returned offset, if there is
    /// one.
    pub open spec fn reclaim_result(&self) -> Option<usize> {
        if self.retrieve.len() == 0 {
            None
        } else {
            Some(self.retrieve[0])
        }
    }

    /// The connection after a reclaim.
    pub open spec fn after_reclaim(&self) -> ConnectionState {
        if self.retrieve.len() == 0 {
            *self
        } else {
            ConnectionState { retrieve: self.retrieve.drop_first(), ..*self }
        }
    }
}

/// Whatever is done to a connection, the samples that it accounts for
/// number at most the capacity of its retrieve channel, so that a borrowed
/// sample can always be returned; and the receiver never holds more samples
/// than it may borrow.
pub proof fn lemma_operations_keep_connection_well_formed(state: ConnectionState, offset: usize)
    requires
        state.wf(),
    ensures
        state.after_send(offset).wf(),
        state.after_receive().wf(),
        state.after_release(offset).wf(),
        state.after_reclaim().wf(),
        state.borrowed.len() > 0 ==> state.release_result().is_ok(),
        state.after_receive().borrowed.len() <= state.max_borrowed_samples,
{
    if state.borrowed.contains(offset) {
        let index = state.borrowed.index_of(offset);
        assert(state.borrowed.remove(index).len() == state.borrowed.len() - 1);
    }
}

/// One connection.
pub struct Connection {
    submission_channel: SafelyOverflowingIndexQueue,
    retrieve_channel: IndexQueue,
    buffer_size: usize,
    max_borrowed_samples: usize,
    enable_safe_overflow: bool,
    borrow_counter: usize,
    borrowed: Ghost<Seq<usize>>,
    has_sender: bool,
    has_receiver: bool,
}

impl View for Connection {
    type V = ConnectionState;

    closed spec fn view(&self) -> ConnectionState {
        ConnectionState {
            submission: self.submission_channel@,
            retrieve: self.retrieve_channel@,
            borrowed: self.borrowed@,
            buffer_size: self.buffer_size,
            max_borrowed_samples: self.max_borrowed_samples,
            enable_safe_overflow: self.enable_safe_overflow,
            has_sender: self.has_sender,
            has_receiver: self.has_receiver,
        }
    }
}

impl Connection {
    /// The invariant that every operation keeps.
    pub closed spec fn wf(&self) -> bool {
        &&& self.submission_channel.wf()
        &&& self.retrieve_channel.wf()
        &&& self.submission_channel.spec_capacity() == self.buffer_size
        &&& self.retrieve_channel.spec_capacity() == self.buffer_size + self.max_borrowed_samples
        &&& self.borrow_counter == self.borrowed@.len()
        &&& self@.wf()
    }

    /// What a well-formed connection holds is well-formed.
    pub proof fn lemma_view_wf(&self)
        requires
            self.wf(),
        ensures
            self@.wf(),
    {
    }

    fn new(buffer_size: usize, max_borrowed_samples: usize, enable_safe_overflow: bool) -> (connection:
        Self)
        requires
            buffer_size <= MAX_SETTING,
            max_borrowed_samples <= MAX_SETTING,
        ensures
            connection.submission_channel.wf(),
            connection.retrieve_channel.wf(),
            connection.submission_channel.spec_capacity() == buffer_size,
            connection.retrieve_channel.spec_capacity() == buffer_size + max_borrowed_samples,
            connection.borrow_counter == 0,
            connection@ == (ConnectionState {
                submission: Seq::empty(),
                retrieve: Seq::empty(),
                borrowed: Seq::empty(),
                buffer_size,
                max_borrowed_samples,
                enable_safe_overflow,
                has_sender: false,
                has_receiver: false,
            }),
    {
        Connection {
            submission_channel: SafelyOverflowingIndexQueue::new(buffer_size),
            retrieve_channel: IndexQueue::new(buffer_size + max_borrowed_samples),
            buffer_size,
            max_borrowed_samples,
            enable_safe_overflow,
            borrow_counter: 0,
            borrowed: Ghost(Seq::empty()),
            has_sender: false,
            has_receiver: false,
        }
    }

    fn try_send(&mut self, offset: usize) -> (result: Result<Option<usize>, ZeroCopySendError>)
        requires
            old(self).wf(),
        ensures
            final(self).wf(),
            result == old(self)@.send_result(offset),
            final(self)@ == old(self)@.after_send(offset),
    {
        let is_full: bool = self.submission_channel.is_full();
        if !self.enable_safe_overflow && is_full {
            return Err(ZeroCopySendError::ReceiveBufferFull);
        }
        if !is_full {
            let in_flight: usize = self.submission_channel.len() + self.retrieve_channel.len()
                + self.borrow_counter;
            if in_flight == self.buffer_size + self.max_borrowed_samples {
                return Err(ZeroCopySendError::ClearRetrieveChannelBeforeSend);
            }
        }
        let evicted = self.submission_channel.push(offset);
        Ok(evicted)
    }

    fn reclaim(&mut self) -> (result: Option<usize>)
        requires
            old(self).wf(),
        ensures
            final(self).wf(),
            result == old(self)@.reclaim_result(),
            final(self)@ == old(self)@.after_reclaim(),
    {
        self.retrieve_channel.pop()
    }

    fn receive(&mut self) -> (result: Result<Option<usize>, ZeroCopyReceiveError>)
        requires
            old(self).wf(),
        ensures
            final(self).wf(),
            result == old(self)@.receive_result(),
            final(self)@ == old(self)@.after_receive(),
    {
        if self.borrow_counter >= self.max_borrowed_samples {
            return Err(ZeroCopyReceiveError::ReceiveWouldExceedMaxBorrowValue);
        }
        match self.submission_channel.pop() {
            None => Ok(None),
            Some(offset) => {
                self.borrow_counter = self.borrow_counter + 1;
                self.borrowed = Ghost(self.borrowed@.push(offset));
                Ok(Some(offset))
            },
        }
    }

    fn release(&mut self, offset: usize) -> (result: Result<(), ZeroCopyReleaseError>)
        requires
            old(self).wf(),
        ensures
            final(self).wf(),
            result == old(self)@.release_result(),
            final(self)@ == old(self)@.after_release(offset),
    {
        if self.borrow_counter == 0 {
            return Err(ZeroCopyReleaseError::NoSampleBorrowed);
        }
        let accepted: bool = self.retrieve_channel.push(offset);
        assert(accepted);
        proof {
            if self@.borrowed.contains(offset) {
                let index = self@.borrowed.index_of(offset);
                assert(self@.borrowed.remove(index).len() == self@.borrowed.len() - 1);
            }
        }
        self.borrowed = Ghost(old(self)@.borrowed_without(offset));
        self.borrow_counter = self.borrow_counter - 1;
        Ok(())
    }
}

/// The namespace of the connections of one host.
pub struct Connections {
    connections: Registry<Connection>,
}

impl View for Connections {
    type V = Map<Seq<u8>, ConnectionState>;

    /// What every connection holds, by the name of the connection.
    closed spec fn view(&self) -> Map<Seq<u8>, ConnectionState> {
        Map::new(
            |name: Seq<u8>| self.connections@.contains_key(name),
            |name: Seq<u8>| self.connections@[name]@,
        )
    }
}

impl Connections {
    /// The invariant that every operation keeps.
    pub closed spec fn wf(&self) -> bool {
        &&& self.connections.wf()
        &&& forall|name: Seq<u8>| #[trigger]
            self.connections@.contains_key(name) ==> self.connections@[name].wf()
    }

    /// True if `other` holds the same connections in the same state but
    /// for the one with the given name.
    pub open spec fn same_except(&self, other: &Self, name: Seq<u8>) -> bool {
        self@.remove(name) == other@.remove(name)
    }

    /// Every connection of a well-formed namespace is well-formed.
    pub proof fn lemma_connections_wf(&self)
        requires
            self.wf(),
        ensures
            forall|name: Seq<u8>| #[trigger] self@.contains_key(name) ==> self@[name].wf(),
    {
        assert forall|name: Seq<u8>| #[trigger] self@.contains_key(name) implies self@[name].wf() by {
            self.connections@[name].lemma_view_wf();
        }
    }

    /// Creates a namespace without connections.
    pub fn new() -> (connections: Self)
        ensures
            connections.wf(),
            connections@ == Map::<Seq<u8>, ConnectionState>::empty(),
    {
        let connections = Connections { connections: Registry::new() };
        assert(connections@ =~= Map::<Seq<u8>, ConnectionState>::empty());
        connections
    }

    /// Returns true if there is a connection with the given name.
    pub fn does_exist(&self, name: &Vec<u8>) -> (exists: bool)
        requires
            self.wf(),
        ensures
            exists == self@.contains_key(name@),
    {
        self.connections.contains(name)
    }
}

/// Which side of a connection is created.
#[derive(Debug, PartialEq, Eq, Clone, Copy, Structural)]
pub enum Side {
    Sender,
    Receiver,
}

/// Creates one side of a connection. The side that comes first creates the
/// connection, the other side must ask for the same settings.
#[derive(Debug)]
pub struct Builder {
    name: Vec<u8>,
    buffer_size: usize,
    max_borrowed_samples: usize,
    enable_safe_overflow: bool,
}

/// The buffer size of a connection unless another one is asked for.
pub const DEFAULT_BUFFER_SIZE: usize = 4;

/// The number of samples that can be borrowed unless another one is asked
/// for.
pub const DEFAULT_MAX_BORROWED_SAMPLES: usize = 4;

/// The overflow mode of a connection unless another one is asked for.
pub const DEFAULT_ENABLE_SAFE_OVERFLOW: bool = false;

impl Builder {
    /// The name of the connection.
    pub closed spec fn spec_name(&self) -> Seq<u8> {
        self.name@
    }

    /// The capacity of the submission channel that is asked for.
    pub closed spec fn spec_buffer_size(&self) -> usize {
        self.buffer_size
    }

    /// The number of samples that the receiver may hold.
    pub closed spec fn spec_max_borrowed_samples(&self) -> usize {
        self.max_borrowed_samples
    }

    /// The overflow mode that is asked for.
    pub closed spec fn spec_enable_safe_overflow(&self) -> bool {
        self.enable_safe_overflow
    }

    /// The connection that this builder creates when there is none.
    pub open spec fn fresh(&self, side: Side) -> ConnectionState {
        ConnectionState {
            submission: Seq::empty(),
            retrieve: Seq::empty(),
            borrowed: Seq::empty(),
            buffer_size: self.spec_buffer_size(),
            max_borrowed_samples: self.spec_max_borrowed_samples(),
            enable_safe_overflow: self.spec_enable_safe_overflow(),
            has_sender: side == Side::Sender,
            has_receiver: side == Side::Receiver,
        }
    }

    /// What the creation of the given side comes to.
    pub open spec fn create_result(&self, connections: &Connections, side: Side) -> Result<
        (),
        ZeroCopyCreationError,
    > {
        if self.spec_buffer_size() > MAX_SETTING || self.spec_max_borrowed_samples()
            > MAX_SETTING {
            Err(ZeroCopyCreationError::InternalError)
        } else if !connections@.contains_key(self.spec_name()) {
            Ok(())
        } else {
            let existing = connections@[self.spec_name()];
            if existing.buffer_size != self.spec_buffer_size() {
                Err(ZeroCopyCreationError::IncompatibleBufferSize)
            } else if existing.max_borrowed_samples != self.spec_max_borrowed_samples() {
                Err(ZeroCopyCreationError::IncompatibleMaxBorrowedSampleSetting)
            } else if existing.enable_safe_overflow != self.spec_enable_safe_overflow() {
                Err(ZeroCopyCreationError::IncompatibleOverflowSetting)
            } else if (side == Side::Sender && existing.has_sender) || (side == Side::Receiver
                && existing.has_receiver) {
                Err(ZeroCopyCreationError::AnotherInstanceIsAlreadyConnected)
            } else {
                Ok(())
            }
        }
    }

    /// The state of the connection after the given side was created.
    pub open spec fn created(&self, connections: &Connections, side: Side) -> ConnectionState {
        if !connections@.contains_key(self.spec_name()) {
            self.fresh(side)
        } else {
            let existing = connections@[self.spec_name()];
            ConnectionState {
                has_sender: existing.has_sender || side == Side::Sender,
                has_receiver: existing.has_receiver || side == Side::Receiver,
                ..existing
            }
        }
    }

    /// Starts to create a side of the connection with the given name.
    pub fn new(name: &Vec<u8>) -> (builder: Self)
        ensures
            builder.spec_name() == name@,
            builder.spec_buffer_size() == DEFAULT_BUFFER_SIZE,
            builder.spec_max_borrowed_samples() == DEFAULT_MAX_BORROWED_SAMPLES,
            builder.spec_enable_safe_overflow() == DEFAULT_ENABLE_SAFE_OVERFLOW,
    {
        Builder {
            name: copy_name(name),
            buffer_size: DEFAULT_BUFFER_SIZE,
            max_borrowed_samples: DEFAULT_MAX_BORROWED_SAMPLES,
            enable_safe_overflow: DEFAULT_ENABLE_SAFE_OVERFLOW,
        }
    }

    /// Sets the capacity of the submission channel.
    pub fn buffer_size(self, value: usize) -> (builder: Self)
        ensures
            builder.spec_name() == self.spec_name(),
            builder.spec_buffer_size() == value,
            builder.spec_max_borrowed_samples() == self.spec_max_borrowed_samples(),
            builder.spec_enable_safe_overflow() == self.spec_enable_safe_overflow(),
    {
        let mut builder = self;
        builder.buffer_size = value;
        builder
    }

    /// Sets the number of samples that the receiver may hold.
    pub fn max_borrowed_samples(self, value: usize) -> (builder: Self)
        ensures
            builder.spec_name() == self.spec_name(),
            builder.spec_buffer_size() == self.spec_buffer_size(),
            builder.spec_max_borrowed_samples() == value,
            builder.spec_enable_safe_overflow() == self.spec_enable_safe_overflow(),
    {
        let mut builder = self;
        builder.max_borrowed_samples = value;
        builder
    }

    /// Chooses what a send into a full submission channel does.
    pub fn enable_safe_overflow(self, value: bool) -> (builder: Self)
        ensures
            builder.spec_name() == self.spec_name(),
            builder.spec_buffer_size() == self.spec_buffer_size(),
            builder.spec_max_borrowed_samples() == self.spec_max_borrowed_samples(),
            builder.spec_enable_safe_overflow() == value,
    {
        let mut builder = self;
        builder.enable_safe_overflow = value;
        builder
    }

    fn connect(&self, connections: &mut Connections, side: Side) -> (result: Result<
        (),
        ZeroCopyCreationError,
    >)
        requires
            old(connections).wf(),
        ensures
            final(connections).wf(),
            result == self.create_result(old(connections), side),
            result.is_err() ==> final(connections)@ == old(connections)@,
            result.is_ok() ==> final(connections)@ == old(connections)@.insert(
                self.spec_name(),
                self.created(old(connections), side),
            ),
    {
        if self.buffer_size > MAX_SETTING || self.max_borrowed_samples > MAX_SETTING {
            return Err(ZeroCopyCreationError::InternalError);
        }
        match connections.connections.find(&self.name) {
            None => {
                let mut connection = Connection::new(
                    self.buffer_size,
                    self.max_borrowed_samples,
                    self.enable_safe_overflow,
                );
                match side {
                    Side::Sender => {
                        connection.has_sender = true;
                    },
                    Side::Receiver => {
                        connection.has_receiver = true;
                    },
                }
                let rejected = connections.connections.insert(copy_name(&self.name), connection);
                assert(rejected.is_none());
                assert(connections@ =~= old(connections)@.insert(
                    self.spec_name(),
                    self.created(old(connections), side),
                ));
                Ok(())
            },
            Some(position) => {
                proof {
                    connections.connections.lemma_positions();
                }
                let existing = connections.connections.value(position);
                if existing.buffer_size != self.buffer_size {
                    return Err(ZeroCopyCreationError::IncompatibleBufferSize);
                }
                if existing.max_borrowed_samples != self.max_borrowed_samples {
                    return Err(ZeroCopyCreationError::IncompatibleMaxBorrowedSampleSetting);
                }
                if existing.enable_safe_overflow != self.enable_safe_overflow {
                    return Err(ZeroCopyCreationError::IncompatibleOverflowSetting);
                }
                let connected: bool = match side {
                    Side::Sender => existing.has_sender,
                    Side::Receiver => existing.has_receiver,
                };
                if connected {
                    return Err(ZeroCopyCreationError::AnotherInstanceIsAlreadyConnected);
                }
                let connection = connections.connections.value_mut(position);
                match side {
                    Side::Sender => {
                        connection.has_sender = true;
                    },
                    Side::Receiver => {
                        connection.has_receiver = true;
                    },
                }
                assert(connections@ =~= old(connections)@.insert(
                    self.spec_name(),
                    self.created(old(connections), side),
                ));
                Ok(())
            },
        }
    }

    /// Creates the sending side of the connection.
    pub fn create_sender(self, connections: &mut Connections) -> (result: Result<
        Sender,
        ZeroCopyCreationError,
    >)
        requires
            old(connections).wf(),
        ensures
            final(connections).wf(),
            result.is_ok() == self.create_result(old(connections), Side::Sender).is_ok(),
            result.is_err() ==> Err::<(), _>(result.unwrap_err()) == self.create_result(
                old(connections),
                Side::Sender,
            ) && final(connections)@ == old(connections)@,
            result.is_ok() ==> result.unwrap().spec_name() == self.spec_name() && final(connections)@ == old(connections)@.insert(
                self.spec_name(),
                self.created(old(connections), Side::Sender),
            ),
    {
        match self.connect(connections, Side::Sender) {
            Ok(()) => Ok(Sender { name: self.name }),
            Err(error) => Err(error),
        }
    }

    /// Creates the receiving side of the connection.
    pub fn create_receiver(self, connections: &mut Connections) -> (result: Result<
        Receiver,
        ZeroCopyCreationError,
    >)
        requires
            old(connections).wf(),
        ensures
            final(connections).wf(),
            result.is_ok() == self.create_result(old(connections), Side::Receiver).is_ok(),
            result.is_err() ==> Err::<(), _>(result.unwrap_err()) == self.create_result(
                old(connections),
                Side::Receiver,
            ) && final(connections)@ == old(connections)@,
            result.is_ok() ==> result.unwrap().spec_name() == self.spec_name() && final(connections)@ == old(connections)@.insert(
                self.spec_name(),
                self.created(old(connections), Side::Receiver),
            ),
    {
        match self.connect(connections, Side::Receiver) {
            Ok(()) => Ok(Receiver { name: self.name }),
            Err(error) => Err(error),
        }
    }
}

/// The connections after the given side of the one with the given name
/// was closed: the connection loses that side, and it is removed when the
/// other side is not connected either.
pub open spec fn after_close(
    connections: Map<Seq<u8>, ConnectionState>,
    name: Seq<u8>,
    side: Side,
) -> Map<Seq<u8>, ConnectionState> {
    if !connections.contains_key(name) {
        connections
    } else {
        let existing = connections[name];
        let has_sender = existing.has_sender && side != Side::Sender;
        let has_receiver = existing.has_receiver && side != Side::Receiver;
        if !has_sender && !has_receiver {
            connections.remove(name)
        } else {
            connections.insert(name, ConnectionState { has_sender, has_receiver, ..existing })
        }
    }
}

fn close(connections: &mut Connections, name: &Vec<u8>, side: Side)
    requires
        old(connections).wf(),
    ensures
        final(connections).wf(),
        final(connections)@ == after_close(old(connections)@, name@, side),
{
    match connections.connections.find(name) {
        None => {},
        Some(position) => {
            proof {
                connections.connections.lemma_positions();
            }
            let existing = connections.connections.value(position);
            let has_sender: bool = existing.has_sender && !matches!(side, Side::Sender);
            let has_receiver: bool = existing.has_receiver && !matches!(side, Side::Receiver);
            if !has_sender && !has_receiver {
                let _ = connections.connections.remove(name);
                assert(connections@ =~= after_close(old(connections)@, name@, side));
            } else {
                let connection = connections.connections.value_mut(position);
                connection.has_sender = has_sender;
                connection.has_receiver = has_receiver;
                assert(connections@ =~= after_close(old(connections)@, name@, side));
            }
        },
    }
}

/// The sending side of a connection.
#[derive(Debug)]
pub struct Sender {
    name: Vec<u8>,
}

impl Sender {
    /// The name of the connection.
    pub closed spec fn spec_name(&self) -> Seq<u8> {
        self.name@
    }

    /// Returns the name of the connection.
    pub fn name(&self) -> (name: &Vec<u8>)
        ensures
            name@ == self.spec_name(),
    {
        &self.name
    }

    /// Sends `offset`. With safe overflow a full submission channel gives
    /// up its oldest offset, which is returned; without it the offset is
    /// rejected. An offset is also rejected while the connection accounts
    /// for as many samples as its retrieve channel can take back.
    pub fn try_send(&self, connections: &mut Connections, offset: usize) -> (result: Result<
        Option<usize>,
        ZeroCopySendError,
    >)
        requires
            old(connections).wf(),
        ensures
            final(connections).wf(),
            !old(connections)@.contains_key(self.spec_name()) ==> result == Err::<Option<usize>, _>(
                ZeroCopySendError::ConnectionBroken,
            ) && final(connections)@ == old(connections)@,
            old(connections)@.contains_key(self.spec_name()) ==> result == old(connections)@[self.spec_name()].send_result(offset) && final(connections)@ == old(connections)@.insert(self.spec_name(), old(connections)@[self.spec_name()].after_send(offset)),
    {
        match connections.connections.find(&self.name) {
            None => Err(ZeroCopySendError::ConnectionBroken),
            Some(position) => {
                proof {
                    connections.connections.lemma_positions();
                }
                let connection = connections.connections.value_mut(position);
                let result = connection.try_send(offset);
                assert(connections@ =~= old(connections)@.insert(
                    self.spec_name(),
                    old(connections)@[self.spec_name()].after_send(offset),
                ));
                result
            },
        }
    }

    /// Takes the oldest returned offset out of the retrieve channel.
    pub fn reclaim(&self, connections: &mut Connections) -> (result: Result<
        Option<usize>,
        ZeroCopyReclaimError,
    >)
        requires
            old(connections).wf(),
        ensures
            final(connections).wf(),
            !old(connections)@.contains_key(self.spec_name()) ==> result == Err::<Option<usize>, _>(
                ZeroCopyReclaimError::ConnectionBroken,
            ) && final(connections)@ == old(connections)@,
            old(connections)@.contains_key(self.spec_name()) ==> result == Ok::<
                _,
                ZeroCopyReclaimError,
            >(old(connections)@[self.spec_name()].reclaim_result()) && final(connections)@ == old(connections)@.insert(self.spec_name(), old(connections)@[self.spec_name()].after_reclaim()),
    {
        match connections.connections.find(&self.name) {
            None => Err(ZeroCopyReclaimError::ConnectionBroken),
            Some(position) => {
                proof {
                    connections.connections.lemma_positions();
                }
                let connection = connections.connections.value_mut(position);
                let result = connection.reclaim();
                assert(connections@ =~= old(connections)@.insert(
                    self.spec_name(),
                    old(connections)@[self.spec_name()].after_reclaim(),
                ));
                Ok(result)
            },
        }
    }

    /// Closes the sending side. The connection is removed when the
    /// receiving side is not connected either.
    pub fn close(self, connections: &mut Connections)
        requires
            old(connections).wf(),
        ensures
            final(connections).wf(),
            final(connections)@ == after_close(old(connections)@, self.spec_name(), Side::Sender),
    {
        close(connections, &self.name, Side::Sender)
    }
}

/// The receiving side of a connection.
#[derive(Debug)]
pub struct Receiver {
    name: Vec<u8>,
}

impl Receiver {
    /// The name of the connection.
    pub closed spec fn spec_name(&self) -> Seq<u8> {
        self.name@
    }

    /// Returns the name of the connection.
    pub fn name(&self) -> (name: &Vec<u8>)
        ensures
            name@ == self.spec_name(),
    {
        &self.name
    }

    /// Takes the oldest offset out of the submission channel and counts it
    /// as borrowed. Fails while as many samples are borrowed as may be.
    pub fn receive(&self, connections: &mut Connections) -> (result: Result<
        Option<usize>,
        ZeroCopyReceiveError,
    >)
        requires
            old(connections).wf(),
        ensures
            final(connections).wf(),
            !old(connections)@.contains_key(self.spec_name()) ==> result == Err::<Option<usize>, _>(
                ZeroCopyReceiveError::ConnectionBroken,
            ) && final(connections)@ == old(connections)@,
            old(connections)@.contains_key(self.spec_name()) ==> result == old(connections)@[self.spec_name()].receive_result() && final(connections)@ == old(connections)@.insert(self.spec_name(), old(connections)@[self.spec_name()].after_receive()),
    {
        match connections.connections.find(&self.name) {
            None => Err(ZeroCopyReceiveError::ConnectionBroken),
            Some(position) => {
                proof {
                    connections.connections.lemma_positions();
                }
                let connection = connections.connections.value_mut(position);
                let result = connection.receive();
                assert(connections@ =~= old(connections)@.insert(
                    self.spec_name(),
                    old(connections)@[self.spec_name()].after_receive(),
                ));
                result
            },
        }
    }

    /// Returns the sample at `offset`: the offset goes into the retrieve
    /// channel and one sample less is borrowed. Fails when no sample is
    /// borrowed.
    pub fn release(&self, connections: &mut Connections, offset: usize) -> (result: Result<
        (),
        ZeroCopyReleaseError,
    >)
        requires
            old(connections).wf(),
        ensures
            final(connections).wf(),
            !old(connections)@.contains_key(self.spec_name()) ==> result == Err::<(), _>(
                ZeroCopyReleaseError::ConnectionBroken,
            ) && final(connections)@ == old(connections)@,
            old(connections)@.contains_key(self.spec_name()) ==> result == old(connections)@[self.spec_name()].release_result() && final(connections)@ == old(connections)@.insert(self.spec_name(), old(connections)@[self.spec_name()].after_release(offset)),
    {
        match connections.connections.find(&self.name) {
            None => Err(ZeroCopyReleaseError::ConnectionBroken),
            Some(position) => {
                proof {
                    connections.connections.lemma_positions();
                }
                let connection = connections.connections.value_mut(position);
                let result = connection.release(offset);
                assert(connections@ =~= old(connections)@.insert(
                    self.spec_name(),
                    old(connections)@[self.spec_name()].after_release(offset),
                ));
                result
            },
        }
    }

    /// Closes the receiving side. The connection is removed when the
    /// sending side is not connected either.
    pub fn close(self, connections: &mut Connections)
        requires
            old(connections).wf(),
        ensures
            final(connections).wf(),
            final(connections)@ == after_close(old(connections)@, self.spec_name(), Side::Receiver),
    {
        close(connections, &self.name, Side::Receiver)
    }
}

} // verus!
