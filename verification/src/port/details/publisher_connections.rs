//! The connections of a subscriber to the publishers of its service, by
//! the slot of the publisher. A connection consists of the receiving side
//! of the zero copy connection with the publisher and of the data segment
//! of the publisher.

use crate::cal::shared_memory;
use crate::cal::shared_memory::{SegmentState, Segments, SharedMemory, SharedMemoryOpenError};
use crate::cal::zero_copy_connection;
use crate::cal::zero_copy_connection::{
    after_close,
    ConnectionState,
    Connections,
    Receiver,
    Side,
    ZeroCopyCreationError,
};
use crate::port::port_identifiers::{
    connection_name,
    id_name,
    spec_connection_name,
    spec_id_name,
};
use vstd::prelude::*;

verus! {

/// Failures when a port connects to a peer.
#[derive(Debug, PartialEq, Eq, Copy, Clone)]
pub enum ConnectionFailure {
    FailedToEstablishConnection(ZeroCopyCreationError),
    UnableToMapPublishersDataSegment(SharedMemoryOpenError),
}

/// The settings of the connections of a service.
#[derive(Debug, PartialEq, Eq, Copy, Clone, Structural)]
pub struct ConnectionSettings {
    pub buffer_size: usize,
    pub max_borrowed_samples: usize,
    pub enable_safe_overflow: bool,
}

/// The builder of the connection with the given name and settings.
pub open spec fn spec_builder(
    name: Seq<u8>,
    settings: ConnectionSettings,
    builder: &zero_copy_connection::Builder,
) -> bool {
    &&& builder.spec_name() == name
    &&& builder.spec_buffer_size() == settings.buffer_size
    &&& builder.spec_max_borrowed_samples() == settings.max_borrowed_samples
    &&& builder.spec_enable_safe_overflow() == settings.enable_safe_overflow
}

/// What the creation of one side of the connection with the given name
/// and settings comes to.
pub open spec fn connect_result(
    connections: Map<Seq<u8>, ConnectionState>,
    name: Seq<u8>,
    settings: ConnectionSettings,
    side: Side,
) -> Result<(), ZeroCopyCreationError> {
    if settings.buffer_size > zero_copy_connection::MAX_SETTING || settings.max_borrowed_samples
        > zero_copy_connection::MAX_SETTING {
        Err(ZeroCopyCreationError::InternalError)
    } else if !connections.contains_key(name) {
        Ok(())
    } else {
        let existing = connections[name];
        if existing.buffer_size != settings.buffer_size {
            Err(ZeroCopyCreationError::IncompatibleBufferSize)
        } else if existing.max_borrowed_samples != settings.max_borrowed_samples {
            Err(ZeroCopyCreationError::IncompatibleMaxBorrowedSampleSetting)
        } else if existing.enable_safe_overflow != settings.enable_safe_overflow {
            Err(ZeroCopyCreationError::IncompatibleOverflowSetting)
        } else if (side == Side::Sender && existing.has_sender) || (side == Side::Receiver
            && existing.has_receiver) {
            Err(ZeroCopyCreationError::AnotherInstanceIsAlreadyConnected)
        } else {
            Ok(())
        }
    }
}

/// The connections after one side of the connection with the given name
/// and settings was created.
pub open spec fn after_connect(
    connections: Map<Seq<u8>, ConnectionState>,
    name: Seq<u8>,
    settings: ConnectionSettings,
    side: Side,
) -> Map<Seq<u8>, ConnectionState> {
    if connect_result(connections, name, settings, side).is_err() {
        connections
    } else if !connections.contains_key(name) {
        connections.insert(
            name,
            ConnectionState {
                submission: Seq::empty(),
                retrieve: Seq::empty(),
                borrowed: Seq::empty(),
                buffer_size: settings.buffer_size,
                max_borrowed_samples: settings.max_borrowed_samples,
                enable_safe_overflow: settings.enable_safe_overflow,
                has_sender: side == Side::Sender,
                has_receiver: side == Side::Receiver,
            },
        )
    } else {
        let existing = connections[name];
        connections.insert(
            name,
            ConnectionState {
                has_sender: existing.has_sender || side == Side::Sender,
                has_receiver: existing.has_receiver || side == Side::Receiver,
                ..existing
            },
        )
    }
}

/// Creates the builder of the connection with the given name and
/// settings.
pub fn builder(name: &Vec<u8>, settings: ConnectionSettings) -> (builder:
    zero_copy_connection::Builder)
    ensures
        spec_builder(name@, settings, &builder),
{
    zero_copy_connection::Builder::new(name).buffer_size(settings.buffer_size).max_borrowed_samples(
        settings.max_borrowed_samples,
    ).enable_safe_overflow(settings.enable_safe_overflow)
}

/// What a builder creates is what the connection with its name and
/// settings becomes.
pub proof fn lemma_builder(
    builder: &zero_copy_connection::Builder,
    connections: &Connections,
    name: Seq<u8>,
    settings: ConnectionSettings,
    side: Side,
)
    requires
        spec_builder(name, settings, builder),
    ensures
        builder.create_result(connections, side) == connect_result(
            connections@,
            name,
            settings,
            side,
        ),
        builder.create_result(connections, side).is_ok() ==> connections@.insert(
            name,
            builder.created(connections, side),
        ) == after_connect(connections@, name, settings, side),
{
}

/// The connection of a subscriber to one publisher.
#[derive(Debug)]
pub struct Connection {
    pub(crate) receiver: Receiver,
    pub(crate) data_segment: SharedMemory,
    pub(crate) publisher_id: u128,
}

impl Connection {
    /// What holds of every connection: its two parts carry the names that
    /// belong to the publisher.
    pub closed spec fn wf(&self, subscriber_id: u128) -> bool {
        &&& self.receiver.spec_name() == spec_connection_name(self.publisher_id, subscriber_id)
        &&& self.data_segment.spec_name() == spec_id_name(self.publisher_id)
        &&& !self.data_segment.owns()
    }

    /// The identity of the publisher.
    pub closed spec fn spec_publisher_id(&self) -> u128 {
        self.publisher_id
    }

    /// The name of the zero copy connection with the publisher.
    pub closed spec fn receiver_name(&self) -> Seq<u8> {
        self.receiver.spec_name()
    }

    /// The name of the data segment of the publisher.
    pub closed spec fn segment_name(&self) -> Seq<u8> {
        self.data_segment.spec_name()
    }

    /// The parts of a well-formed connection carry the names that belong
    /// to the publisher.
    pub proof fn lemma_names(&self, subscriber_id: u128)
        requires
            self.wf(subscriber_id),
        ensures
            self.receiver_name() == spec_connection_name(self.spec_publisher_id(), subscriber_id),
            self.segment_name() == spec_id_name(self.spec_publisher_id()),
    {
    }

    /// Returns the receiving side of the zero copy connection with the
    /// publisher.
    pub fn receiver(&self) -> (receiver: &Receiver)
        ensures
            receiver.spec_name() == self.receiver_name(),
    {
        &self.receiver
    }

    /// Returns the data segment of the publisher.
    pub fn data_segment(&self) -> (data_segment: &SharedMemory)
        ensures
            data_segment.spec_name() == self.segment_name(),
    {
        &self.data_segment
    }

    /// Returns the identity of the publisher.
    pub fn publisher_id(&self) -> (id: u128)
        ensures
            id == self.spec_publisher_id(),
    {
        self.publisher_id
    }
}

/// What connecting the subscriber with the given identity to the
/// publisher with the given identity comes to.
pub open spec fn connection_result(
    connections: Map<Seq<u8>, ConnectionState>,
    segments: Map<Seq<u8>, SegmentState>,
    publisher_id: u128,
    subscriber_id: u128,
    settings: ConnectionSettings,
) -> Result<(), ConnectionFailure> {
    match connect_result(
        connections,
        spec_connection_name(publisher_id, subscriber_id),
        settings,
        Side::Receiver,
    ) {
        Err(error) => Err(ConnectionFailure::FailedToEstablishConnection(error)),
        Ok(()) => if segments.contains_key(spec_id_name(publisher_id)) {
            Ok(())
        } else {
            Err(
                ConnectionFailure::UnableToMapPublishersDataSegment(
                    SharedMemoryOpenError::DoesNotExist,
                ),
            )
        },
    }
}

/// The connections after the subscriber with the given identity was
/// connected to the publisher with the given identity.
pub open spec fn after_connection(
    connections: Map<Seq<u8>, ConnectionState>,
    segments: Map<Seq<u8>, SegmentState>,
    publisher_id: u128,
    subscriber_id: u128,
    settings: ConnectionSettings,
) -> Map<Seq<u8>, ConnectionState> {
    if connection_result(connections, segments, publisher_id, subscriber_id, settings).is_ok() {
        after_connect(
            connections,
            spec_connection_name(publisher_id, subscriber_id),
            settings,
            Side::Receiver,
        )
    } else {
        connections
    }
}

/// The connections of a subscriber to the publishers of its service.
#[derive(Debug)]
pub struct PublisherConnections {
    connections: Vec<Option<Connection>>,
    subscriber_id: u128,
    settings: ConnectionSettings,
}

impl PublisherConnections {
    /// The identities of the publishers that the subscriber is connected
    /// to, by the slot of the publisher.
    pub closed spec fn table(&self) -> Seq<Option<u128>> {
        Seq::new(
            self.connections@.len(),
            |i: int|
                match self.connections@[i] {
                    Some(connection) => Some(connection.publisher_id),
                    None => None,
                },
        )
    }

    /// The identity of the subscriber.
    pub closed spec fn spec_subscriber_id(&self) -> u128 {
        self.subscriber_id
    }

    /// The settings of the connections.
    pub closed spec fn spec_settings(&self) -> ConnectionSettings {
        self.settings
    }

    /// What holds of all connections.
    pub closed spec fn wf(&self) -> bool {
        forall|i: int|
            0 <= i < self.connections@.len() && (#[trigger] self.connections@[i]).is_some()
                ==> self.connections@[i].unwrap().wf(self.subscriber_id)
    }

    /// Creates the table for `capacity` publishers; no publisher is
    /// connected.
    pub fn new(capacity: usize, subscriber_id: u128, settings: ConnectionSettings) -> (connections:
        Self)
        ensures
            connections.wf(),
            connections.table() == Seq::new(capacity as nat, |i: int| None::<u128>),
            connections.spec_subscriber_id() == subscriber_id,
            connections.spec_settings() == settings,
    {
        let mut new_self = Self { connections: Vec::new(), subscriber_id, settings };
        let mut i: usize = 0;
        while i < capacity
            invariant
                i <= capacity,
                new_self.connections@.len() == i,
                new_self.subscriber_id == subscriber_id,
                new_self.settings == settings,
                forall|k: int| 0 <= k < i ==> (#[trigger] new_self.connections@[k]).is_none(),
            decreases capacity - i,
        {
            new_self.connections.push(None);
            i += 1;
        }
        assert(new_self.table() =~= Seq::new(capacity as nat, |i: int| None::<u128>));
        new_self
    }

    /// Returns the identity of the subscriber.
    pub fn subscriber_id(&self) -> (id: u128)
        ensures
            id == self.spec_subscriber_id(),
    {
        self.subscriber_id
    }

    /// Returns the number of slots.
    pub fn len(&self) -> (len: usize)
        ensures
            len == self.table().len(),
    {
        self.connections.len()
    }

    /// Returns the number of slots.
    pub fn capacity(&self) -> (capacity: usize)
        ensures
            capacity == self.table().len(),
    {
        self.connections.len()
    }

    /// Returns the number of publishers that the subscriber is connected
    /// to.
    pub fn number_of_publishers(&self) -> (number: usize)
        ensures
            number == crate::lock_free::mpmc::container::occupied_slots(self.table()),
    {
        let mut count: usize = 0;
        let mut i: usize = 0;
        let ghost table = self.table();
        while i < self.connections.len()
            invariant
                i <= self.connections.len(),
                table == self.table(),
                table.len() == self.connections@.len(),
                count == crate::lock_free::mpmc::container::occupied_slots(
                    table.subrange(0, i as int),
                ),
                count <= i,
            decreases self.connections.len() - i,
        {
            proof {
                let next = table.subrange(0, i + 1);
                assert(next.drop_last() =~= table.subrange(0, i as int));
            }
            if self.connections[i].is_some() {
                count += 1;
            }
            i += 1;
        }
        assert(table.subrange(0, i as int) =~= table);
        count
    }

    /// Returns the connection of the given slot.
    pub fn get(&self, index: usize) -> (connection: &Option<Connection>)
        requires
            self.wf(),
            index < self.table().len(),
        ensures
            connection.is_some() == self.table()[index as int].is_some(),
            connection.is_some() ==> Some(connection.unwrap().spec_publisher_id())
                == self.table()[index as int] && connection.unwrap().wf(
                self.spec_subscriber_id(),
            ),
    {
        &self.connections[index]
    }

    /// Connects the given slot to the publisher with the given identity
    /// unless the slot is connected already: the receiving side of the
    /// zero copy connection is created and the data segment of the
    /// publisher is opened.
    pub fn create(
        &mut self,
        index: usize,
        publisher_id: u128,
        connections: &mut Connections,
        segments: &Segments,
    ) -> (result: Result<(), ConnectionFailure>)
        requires
            old(self).wf(),
            index < old(self).table().len(),
            old(connections).wf(),
            segments.wf(),
        ensures
            final(self).wf(),
            final(connections).wf(),
            final(self).spec_subscriber_id() == old(self).spec_subscriber_id(),
            final(self).spec_settings() == old(self).spec_settings(),
            final(self).table().len() == old(self).table().len(),
            old(self).table()[index as int].is_some() ==> result.is_ok() && final(self).table()
                == old(self).table() && final(connections)@ == old(connections)@,
            old(self).table()[index as int].is_none() ==> result == connection_result(
                old(connections)@,
                segments@,
                publisher_id,
                old(self).spec_subscriber_id(),
                old(self).spec_settings(),
            ) && final(connections)@ == after_connection(
                old(connections)@,
                segments@,
                publisher_id,
                old(self).spec_subscriber_id(),
                old(self).spec_settings(),
            ),
            old(self).table()[index as int].is_none() && result.is_ok() ==> final(self).table()
                == old(self).table().update(index as int, Some(publisher_id)),
            result.is_err() ==> final(self).table() == old(self).table(),
    {
        if self.connections[index].is_some() {
            assert(self.table() =~= old(self).table());
            return Ok(());
        }
        let name = connection_name(publisher_id, self.subscriber_id);
        let connection_builder = builder(&name, self.settings);
        proof {
            lemma_builder(
                &connection_builder,
                connections,
                name@,
                self.settings,
                Side::Receiver,
            );
        }
        let receiver = match connection_builder.create_receiver(connections) {
            Ok(receiver) => receiver,
            Err(error) => {
                assert(self.table() =~= old(self).table());
                return Err(ConnectionFailure::FailedToEstablishConnection(error));
            },
        };
        let segment_name = id_name(publisher_id);
        let data_segment = match shared_memory::Builder::new(&segment_name).open(segments) {
            Ok(data_segment) => data_segment,
            Err(error) => {
                let ghost connected = connections@;
                receiver.close(connections);
                proof {
                    assert(self.table() =~= old(self).table());
                    old(connections).lemma_connections_wf();
                    lemma_close_undoes_connect(
                        old(connections)@,
                        name@,
                        self.settings,
                        Side::Receiver,
                    );
                }
                return Err(
                    ConnectionFailure::UnableToMapPublishersDataSegment(
                        SharedMemoryOpenError::DoesNotExist,
                    ),
                );
            },
        };
        self.connections[index] = Some(Connection { receiver, data_segment, publisher_id });
        assert(self.table() =~= old(self).table().update(index as int, Some(publisher_id)));
        Ok(())
    }

    /// Drops the connection of the given slot, if there is one: the
    /// receiving side of the zero copy connection is closed.
    pub fn remove(&mut self, index: usize, connections: &mut Connections)
        requires
            old(self).wf(),
            index < old(self).table().len(),
            old(connections).wf(),
        ensures
            final(self).wf(),
            final(connections).wf(),
            final(self).spec_subscriber_id() == old(self).spec_subscriber_id(),
            final(self).spec_settings() == old(self).spec_settings(),
            final(self).table() == old(self).table().update(index as int, None),
            old(self).table()[index as int].is_none() ==> final(connections)@ == old(connections)@,
            old(self).table()[index as int].is_some() ==> final(connections)@ == after_close(
                old(connections)@,
                spec_connection_name(
                    old(self).table()[index as int].unwrap(),
                    old(self).spec_subscriber_id(),
                ),
                Side::Receiver,
            ),
    {
        let mut removed: Option<Connection> = None;
        std::mem::swap(&mut self.connections[index], &mut removed);
        assert(self.table() =~= old(self).table().update(index as int, None));
        match removed {
            Some(connection) => {
                connection.receiver.close(connections);
            },
            None => {},
        }
    }
}

/// Closing the side of a connection that was just created leaves the
/// connections as they were before.
pub proof fn lemma_close_undoes_connect(
    connections: Map<Seq<u8>, ConnectionState>,
    name: Seq<u8>,
    settings: ConnectionSettings,
    side: Side,
)
    requires
        connect_result(connections, name, settings, side).is_ok(),
        connections.contains_key(name) ==> connections[name].has_sender
            || connections[name].has_receiver,
    ensures
        after_close(after_connect(connections, name, settings, side), name, side) == connections,
{
    let connected = after_connect(connections, name, settings, side);
    let closed = after_close(connected, name, side);
    if connections.contains_key(name) {
        assert(closed =~= connections);
    } else {
        assert(closed =~= connections);
    }
}

} // verus!
