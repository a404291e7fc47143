//! The connections of a publisher to the subscribers of its service, by
//! the slot of the subscriber. A connection is the sending side of the
//! zero copy connection with the subscriber.

use crate::cal::zero_copy_connection::{
    after_close,
    Connections,
    Sender,
    Side,
    ZeroCopyCreationError,
};
use crate::port::details::publisher_connections::{
    after_connect,
    builder,
    connect_result,
    lemma_builder,
    ConnectionSettings,
};
use crate::port::port_identifiers::{connection_name, spec_connection_name};
use vstd::prelude::*;

verus! {

/// The connection of a publisher to one subscriber.
#[derive(Debug)]
pub struct Connection {
    sender: Sender,
    subscriber_id: u128,
}

impl Connection {
    /// What holds of every connection: it carries the name that belongs to
    /// the publisher and the subscriber.
    pub closed spec fn wf(&self, publisher_id: u128) -> bool {
        self.sender.spec_name() == spec_connection_name(publisher_id, self.subscriber_id)
    }

    /// The identity of the subscriber.
    pub closed spec fn spec_subscriber_id(&self) -> u128 {
        self.subscriber_id
    }

    /// The name of the zero copy connection with the subscriber.
    pub closed spec fn sender_name(&self) -> Seq<u8> {
        self.sender.spec_name()
    }

    /// A well-formed connection carries the name that belongs to the
    /// publisher and the subscriber.
    pub proof fn lemma_names(&self, publisher_id: u128)
        requires
            self.wf(publisher_id),
        ensures
            self.sender_name() == spec_connection_name(publisher_id, self.spec_subscriber_id()),
    {
    }

    /// Returns the sending side of the zero copy connection with the
    /// subscriber.
    pub fn sender(&self) -> (sender: &Sender)
        ensures
            sender.spec_name() == self.sender_name(),
    {
        &self.sender
    }

    /// Returns the identity of the subscriber.
    pub fn subscriber_id(&self) -> (id: u128)
        ensures
            id == self.spec_subscriber_id(),
    {
        self.subscriber_id
    }
}

/// The connections of a publisher to the subscribers of its service.
#[derive(Debug)]
pub struct SubscriberConnections {
    connections: Vec<Option<Connection>>,
    publisher_id: u128,
    settings: ConnectionSettings,
}

impl SubscriberConnections {
    /// The identities of the subscribers that the publisher is connected
    /// to, by the slot of the subscriber.
    pub closed spec fn table(&self) -> Seq<Option<u128>> {
        Seq::new(
            self.connections@.len(),
            |i: int|
                match self.connections@[i] {
                    Some(connection) => Some(connection.subscriber_id),
                    None => None,
                },
        )
    }

    /// The identity of the publisher.
    pub closed spec fn spec_publisher_id(&self) -> u128 {
        self.publisher_id
    }

    /// The settings of the connections.
    pub closed spec fn spec_settings(&self) -> ConnectionSettings {
        self.settings
    }

    /// What holds of all connections.
    pub closed spec fn wf(&self) -> bool {
        forall|i: int|
            0 <= i < self.connections@.len() && (#[trigger] self.connections@[i]).is_some()
                ==> self.connections@[i].unwrap().wf(self.publisher_id)
    }

    /// Creates the table for `capacity` subscribers; no subscriber is
    /// connected.
    pub fn new(capacity: usize, publisher_id: u128, settings: ConnectionSettings) -> (connections:
        Self)
        ensures
            connections.wf(),
            connections.table() == Seq::new(capacity as nat, |i: int| None::<u128>),
            connections.spec_publisher_id() == publisher_id,
            connections.spec_settings() == settings,
    {
        let mut new_self = Self { connections: Vec::new(), publisher_id, settings };
        let mut i: usize = 0;
        while i < capacity
            invariant
                i <= capacity,
                new_self.connections@.len() == i,
                new_self.publisher_id == publisher_id,
                new_self.settings == settings,
                forall|k: int| 0 <= k < i ==> (#[trigger] new_self.connections@[k]).is_none(),
            decreases capacity - i,
        {
            new_self.connections.push(None);
            i += 1;
        }
        assert(new_self.table() =~= Seq::new(capacity as nat, |i: int| None::<u128>));
        new_self
    }

    /// Returns the number of slots.
    pub fn len(&self) -> (len: usize)
        ensures
            len == self.table().len(),
    {
        self.connections.len()
    }

    /// Returns the connection of the given slot.
    pub fn get(&self, index: usize) -> (connection: &Option<Connection>)
        requires
            self.wf(),
            index < self.table().len(),
        ensures
            connection.is_some() == self.table()[index as int].is_some(),
            connection.is_some() ==> Some(connection.unwrap().spec_subscriber_id())
                == self.table()[index as int] && connection.unwrap().wf(self.spec_publisher_id()),
    {
        &self.connections[index]
    }

    /// Connects the given slot to the subscriber with the given identity
    /// unless the slot is connected already: the sending side of the zero
    /// copy connection is created.
    pub fn create(&mut self, index: usize, subscriber_id: u128, connections: &mut Connections) -> (result:
        Result<(), ZeroCopyCreationError>)
        requires
            old(self).wf(),
            index < old(self).table().len(),
            old(connections).wf(),
        ensures
            final(self).wf(),
            final(connections).wf(),
            final(self).spec_publisher_id() == old(self).spec_publisher_id(),
            final(self).spec_settings() == old(self).spec_settings(),
            final(self).table().len() == old(self).table().len(),
            old(self).table()[index as int].is_some() ==> result.is_ok() && final(self).table()
                == old(self).table() && final(connections)@ == old(connections)@,
            old(self).table()[index as int].is_none() ==> result == connect_result(
                old(connections)@,
                spec_connection_name(old(self).spec_publisher_id(), subscriber_id),
                old(self).spec_settings(),
                Side::Sender,
            ) && final(connections)@ == after_connect(
                old(connections)@,
                spec_connection_name(old(self).spec_publisher_id(), subscriber_id),
                old(self).spec_settings(),
                Side::Sender,
            ),
            old(self).table()[index as int].is_none() && result.is_ok() ==> final(self).table()
                == old(self).table().update(index as int, Some(subscriber_id)),
            result.is_err() ==> final(self).table() == old(self).table(),
    {
        if self.connections[index].is_some() {
            assert(self.table() =~= old(self).table());
            return Ok(());
        }
        let name = connection_name(self.publisher_id, subscriber_id);
        let connection_builder = builder(&name, self.settings);
        proof {
            lemma_builder(&connection_builder, connections, name@, self.settings, Side::Sender);
        }
        let sender = match connection_builder.create_sender(connections) {
            Ok(sender) => sender,
            Err(error) => {
                assert(self.table() =~= old(self).table());
                return Err(error);
            },
        };
        self.connections[index] = Some(Connection { sender, subscriber_id });
        assert(self.table() =~= old(self).table().update(index as int, Some(subscriber_id)));
        Ok(())
    }

    /// Drops the connection of the given slot, if there is one: the
    /// sending side of the zero copy connection is closed.
    pub fn remove(&mut self, index: usize, connections: &mut Connections)
        requires
            old(self).wf(),
            index < old(self).table().len(),
            old(connections).wf(),
        ensures
            final(self).wf(),
            final(connections).wf(),
            final(self).spec_publisher_id() == old(self).spec_publisher_id(),
            final(self).spec_settings() == old(self).spec_settings(),
            final(self).table() == old(self).table().update(index as int, None),
            old(self).table()[index as int].is_none() ==> final(connections)@ == old(connections)@,
            old(self).table()[index as int].is_some() ==> final(connections)@ == after_close(
                old(connections)@,
                spec_connection_name(
                    old(self).spec_publisher_id(),
                    old(self).table()[index as int].unwrap(),
                ),
                Side::Sender,
            ),
    {
        let mut removed: Option<Connection> = None;
        std::mem::swap(&mut self.connections[index], &mut removed);
        assert(self.table() =~= old(self).table().update(index as int, None));
        match removed {
            Some(connection) => {
                connection.sender.close(connections);
            },
            None => {},
        }
    }
}

} // verus!
