//! The port that receives the samples of a publish subscribe service.
//!
//! A subscriber keeps a table with one entry per slot of the registry of
//! the publishers. Whenever the registry has changed the subscriber goes
//! through it once: it connects to every publisher that it is not
//! connected to and drops the connection of every slot that holds no
//! publisher any more. A sample that was received is borrowed until it is
//! released, and a subscriber never borrows more samples than its service
//! allows.

use crate::cal::shared_memory::{PointerOffset, SegmentState};
use crate::cal::zero_copy_connection::{after_close, ConnectionState, Side};
use crate::host::{Host, PortKind};
use crate::lock_free::mpmc::container::ContainerState;
use crate::lock_free::mpmc::unique_index_set::UniqueIndex;
use crate::port::details::publisher_connections::{
    after_connection,
    connection_result,
    ConnectionFailure,
    ConnectionSettings,
    PublisherConnections,
};
use crate::port::port_identifiers::{
    spec_connection_name,
    spec_id_name,
    UniquePublisherId,
    UniqueSubscriberId,
};
use crate::port::{DegrationAction, DegrationCallback};
use crate::service::dynamic_config::spec_can_increment;
use crate::service::service_name::ServiceName;
use crate::service::static_config::publish_subscribe::StaticConfig;
use vstd::prelude::*;

verus! {

/// Failures when a sample is received.
#[derive(Debug, PartialEq, Eq, Copy, Clone)]
pub enum ReceiveError {
    ExceedsMaxBorrowedSamples,
    ConnectionFailure(ConnectionFailure),
}

/// Failures when a subscriber is created.
#[derive(Debug, PartialEq, Eq, Copy, Clone)]
pub enum SubscriberCreateError {
    ExceedsMaxSupportedSubscribers,
    ServiceDoesNotExist,
}

/// A sample that a subscriber has borrowed: the slot of the publisher that
/// it came from and its offset in the data segment of that publisher.
#[derive(Debug)]
pub struct Sample {
    channel_id: usize,
    offset: PointerOffset,
    publisher_id: u128,
}

impl Sample {
    /// The slot of the publisher that the sample came from.
    pub closed spec fn spec_channel_id(&self) -> usize {
        self.channel_id
    }

    /// The offset of the sample in the data segment of its publisher.
    pub closed spec fn spec_offset(&self) -> usize {
        self.offset.spec_value()
    }

    /// The identity of the publisher that the sample came from.
    pub closed spec fn spec_publisher_id(&self) -> u128 {
        self.publisher_id
    }

    /// Returns the slot of the publisher that the sample came from.
    pub fn channel_id(&self) -> (channel_id: usize)
        ensures
            channel_id == self.spec_channel_id(),
    {
        self.channel_id
    }

    /// Returns the offset of the sample in the data segment of its
    /// publisher.
    pub fn offset(&self) -> (offset: PointerOffset)
        ensures
            offset.spec_value() == self.spec_offset(),
    {
        self.offset
    }

    /// Returns the identity of the publisher that the sample came from.
    pub fn publisher_id(&self) -> (id: UniquePublisherId)
        ensures
            id.value == self.spec_publisher_id(),
    {
        UniquePublisherId { value: self.publisher_id }
    }
}

/// The slot that lies `steps` slots behind `cursor` in a table of `len`
/// slots that is walked in a circle.
pub open spec fn spec_slot_after(cursor: int, steps: int, len: int) -> int {
    if cursor + steps >= len {
        cursor + steps - len
    } else {
        cursor + steps
    }
}

/// The table of the connections of a subscriber and the connections of
/// the host after the subscriber went through the slots from `index` on,
/// and whether it got through: a slot with a publisher that the subscriber
/// is not connected to is connected, a slot without a publisher loses its
/// connection. Where a publisher cannot be connected to, the callback
/// decides: without a callback the publisher is skipped, and so it is when
/// the callback says to ignore or to warn; when it says to fail the walk
/// ends with the failure.
pub open spec fn populate_from(
    table: Seq<Option<u128>>,
    publishers: Seq<Option<u128>>,
    connections: Map<Seq<u8>, ConnectionState>,
    segments: Map<Seq<u8>, SegmentState>,
    subscriber_id: u128,
    settings: ConnectionSettings,
    callback: Option<DegrationCallback>,
    index: int,
) -> (Seq<Option<u128>>, Map<Seq<u8>, ConnectionState>, Result<(), ConnectionFailure>)
    decreases table.len() - index,
{
    if index < 0 || index >= table.len() || index >= publishers.len() {
        (table, connections, Ok(()))
    } else {
        match publishers[index] {
            None => populate_from(
                table.update(index, None),
                publishers,
                match table[index] {
                    Some(publisher_id) => after_close(
                        connections,
                        spec_connection_name(publisher_id, subscriber_id),
                        Side::Receiver,
                    ),
                    None => connections,
                },
                segments,
                subscriber_id,
                settings,
                callback,
                index + 1,
            ),
            Some(publisher_id) => if table[index].is_some() {
                populate_from(
                    table,
                    publishers,
                    connections,
                    segments,
                    subscriber_id,
                    settings,
                    callback,
                    index + 1,
                )
            } else {
                match connection_result(
                    connections,
                    segments,
                    publisher_id,
                    subscriber_id,
                    settings,
                ) {
                    Ok(()) => populate_from(
                        table.update(index, Some(publisher_id)),
                        publishers,
                        after_connection(
                            connections,
                            segments,
                            publisher_id,
                            subscriber_id,
                            settings,
                        ),
                        segments,
                        subscriber_id,
                        settings,
                        callback,
                        index + 1,
                    ),
                    Err(error) => if callback.is_some() && callback.unwrap().spec_call(
                        publisher_id,
                    ) == DegrationAction::Fail {
                        (table, connections, Err(error))
                    } else {
                        populate_from(
                            table,
                            publishers,
                            connections,
                            segments,
                            subscriber_id,
                            settings,
                            callback,
                            index + 1,
                        )
                    },
                }
            },
        }
    }
}

/// The connections of the host after a subscriber has looked for a sample
/// in the slots that lie `steps` and more slots behind its cursor, and
/// what it found: the slot and the offset of the first sample that waits
/// in a connection, nothing when no sample waits, or a failure when a
/// connection has lent out as many samples as it may.
pub open spec fn receive_from(
    table: Seq<Option<u128>>,
    connections: Map<Seq<u8>, ConnectionState>,
    subscriber_id: u128,
    cursor: int,
    steps: int,
) -> (Map<Seq<u8>, ConnectionState>, Result<Option<(int, usize)>, ReceiveError>)
    decreases table.len() - steps,
{
    if steps < 0 || steps >= table.len() {
        (connections, Ok(None))
    } else {
        let slot = spec_slot_after(cursor, steps, table.len() as int);
        if slot < 0 || slot >= table.len() {
            (connections, Ok(None))
        } else {
            match table[slot] {
                None => receive_from(table, connections, subscriber_id, cursor, steps + 1),
                Some(publisher_id) => {
                    let name = spec_connection_name(publisher_id, subscriber_id);
                    if !connections.contains_key(name) {
                        receive_from(table, connections, subscriber_id, cursor, steps + 1)
                    } else {
                        match connections[name].receive_result() {
                            Ok(None) => receive_from(
                                table,
                                connections,
                                subscriber_id,
                                cursor,
                                steps + 1,
                            ),
                            Ok(Some(offset)) => (
                                connections.insert(name, connections[name].after_receive()),
                                Ok(Some((slot, offset))),
                            ),
                            Err(_) => (connections, Err(ReceiveError::ExceedsMaxBorrowedSamples)),
                        }
                    }
                },
            }
        }
    }
}

/// The port that receives the samples of a publish subscribe service. A
/// subscriber is a holder of its service.
#[derive(Debug)]
pub struct Subscriber {
    dynamic_config_guard: UniqueIndex,
    publisher_connections: PublisherConnections,
    service_id: ServiceName,
    port_id: u128,
    degration_callback: Option<DegrationCallback>,
    publisher_list_state: ContainerState<u128>,
    borrowed_samples: usize,
    max_borrowed_samples: usize,
    payload_size: usize,
    cursor: usize,
}

/// What the creation of a subscriber of the service with the given id
/// comes to.
pub open spec fn create_result(host: &Host, service_id: Seq<u8>) -> Result<
    (),
    SubscriberCreateError,
> {
    if !host.has_registry(service_id, PortKind::Subscriber) {
        Err(SubscriberCreateError::ServiceDoesNotExist)
    } else if !spec_can_increment(host.holders(service_id)) {
        Err(SubscriberCreateError::ServiceDoesNotExist)
    } else if host.next_free_slot(service_id, PortKind::Subscriber).is_none() {
        Err(SubscriberCreateError::ExceedsMaxSupportedSubscribers)
    } else {
        Ok(())
    }
}

/// The settings of the connections of a service with the given settings.
pub open spec fn spec_connection_settings(static_config: &StaticConfig) -> ConnectionSettings {
    ConnectionSettings {
        buffer_size: static_config.subscriber_max_buffer_size,
        max_borrowed_samples: static_config.subscriber_max_borrowed_samples,
        enable_safe_overflow: static_config.enable_safe_overflow,
    }
}

/// Returns the settings of the connections of a service with the given
/// settings.
pub fn connection_settings(static_config: &StaticConfig) -> (settings: ConnectionSettings)
    ensures
        settings == spec_connection_settings(static_config),
{
    ConnectionSettings {
        buffer_size: static_config.subscriber_max_buffer_size,
        max_borrowed_samples: static_config.subscriber_max_borrowed_samples,
        enable_safe_overflow: static_config.enable_safe_overflow,
    }
}

impl Subscriber {
    /// The identity of the port.
    pub closed spec fn spec_port_id(&self) -> u128 {
        self.port_id
    }

    /// The name of the service of the port.
    pub closed spec fn spec_service_id(&self) -> Seq<u8> {
        self.service_id@
    }

    /// The slot of the port in the registry of its service.
    pub closed spec fn spec_slot(&self) -> u32 {
        self.dynamic_config_guard.spec_value()
    }

    /// The identities of the publishers that the subscriber is connected
    /// to, by the slot of the publisher.
    pub closed spec fn table(&self) -> Seq<Option<u128>> {
        self.publisher_connections.table()
    }

    /// The settings of the connections of the subscriber.
    pub closed spec fn settings(&self) -> ConnectionSettings {
        self.publisher_connections.spec_settings()
    }

    /// The registry of the publishers as the subscriber saw it last.
    pub closed spec fn snapshot(&self) -> Seq<Option<u128>> {
        self.publisher_list_state@
    }

    /// The change counter of the registry of the publishers when the
    /// subscriber saw it last.
    pub closed spec fn observed_change_counter(&self) -> u64 {
        self.publisher_list_state.observed_change_counter()
    }

    /// The number of samples that the subscriber has borrowed.
    pub closed spec fn borrowed(&self) -> usize {
        self.borrowed_samples
    }

    /// The number of samples that the subscriber may borrow.
    pub closed spec fn spec_max_borrowed_samples(&self) -> usize {
        self.max_borrowed_samples
    }

    /// The size of the payload of a sample in bytes.
    pub closed spec fn spec_payload_size(&self) -> usize {
        self.payload_size
    }

    /// The slot at which the subscriber looks for a sample first.
    pub closed spec fn spec_cursor(&self) -> usize {
        self.cursor
    }

    /// What decides about the publishers that the subscriber cannot
    /// connect to.
    pub closed spec fn callback(&self) -> Option<DegrationCallback> {
        self.degration_callback
    }

    /// What holds of every subscriber: its table has an entry for every
    /// slot of the registry, its cursor lies in the table, and it has not
    /// borrowed more samples than it may.
    pub closed spec fn wf(&self) -> bool {
        &&& self.publisher_connections.wf()
        &&& self.publisher_connections.spec_subscriber_id() == self.port_id
        &&& self.publisher_connections.table().len() == self.publisher_list_state@.len()
        &&& self.borrowed_samples <= self.max_borrowed_samples
        &&& (self.cursor < self.publisher_connections.table().len() || self.cursor == 0)
        &&& (self.degration_callback.is_some() ==> self.degration_callback.unwrap().wf())
    }

    /// A well-formed subscriber has not borrowed more samples than it may.
    pub proof fn lemma_borrowed_samples_are_bounded(&self)
        requires
            self.wf(),
        ensures
            self.borrowed() <= self.spec_max_borrowed_samples(),
            self.table().len() == self.snapshot().len(),
            self.spec_cursor() < self.table().len() || self.spec_cursor() == 0,
    {
    }

    /// True if `other` is this subscriber with, at most, other
    /// connections, another view of the registry, another number of
    /// borrowed samples and another cursor.
    pub open spec fn same_port(&self, other: &Subscriber) -> bool {
        &&& self.spec_port_id() == other.spec_port_id()
        &&& self.spec_service_id() == other.spec_service_id()
        &&& self.spec_slot() == other.spec_slot()
        &&& self.settings() == other.settings()
        &&& self.spec_max_borrowed_samples() == other.spec_max_borrowed_samples()
        &&& self.spec_payload_size() == other.spec_payload_size()
        &&& self.callback() == other.callback()
    }

    /// True if the subscriber sees a change of the registry of the
    /// publishers of its service on `host`.
    pub open spec fn sees_change(&self, host: &Host) -> bool {
        host.has_registry(self.spec_service_id(), PortKind::Publisher)
            && self.observed_change_counter() != host.registry_container(
            self.spec_service_id(),
            PortKind::Publisher,
        ).spec_change_counter() && host.registry(
            self.spec_service_id(),
            PortKind::Publisher,
        ).len() == self.table().len()
    }

    /// The table of the subscriber and the connections of the host after
    /// the subscriber has brought its connections up to date, and whether
    /// it got through.
    pub open spec fn updated(&self, host: &Host) -> (
        Seq<Option<u128>>,
        Map<Seq<u8>, ConnectionState>,
        Result<(), ConnectionFailure>,
    ) {
        if self.sees_change(host) {
            populate_from(
                self.table(),
                host.registry(self.spec_service_id(), PortKind::Publisher),
                host.connections(),
                host.segments(),
                self.spec_port_id(),
                self.settings(),
                self.callback(),
                0,
            )
        } else {
            (self.table(), host.connections(), Ok(()))
        }
    }

    /// True if `after` differs from `before` in its connections only.
    pub open spec fn only_connections_changed(before: &Host, after: &Host) -> bool {
        &&& after.services() == before.services()
        &&& after.file_system() == before.file_system()
        &&& after.segments() == before.segments()
        &&& after.events() == before.events()
        &&& after.ids() == before.ids()
        &&& after.same_layout(before)
    }

    /// True if `after` is the host after `subscriber` was created on
    /// `before` for a service with the given settings.
    pub open spec fn has_created(
        before: &Host,
        after: &Host,
        subscriber: &Subscriber,
        static_config: &StaticConfig,
    ) -> bool {
        let name = subscriber.spec_service_id();
        let populated = populate_from(
            Seq::new(before.registry(name, PortKind::Publisher).len(), |i: int| None::<u128>),
            before.registry(name, PortKind::Publisher),
            before.connections(),
            before.segments(),
            subscriber.spec_port_id(),
            spec_connection_settings(static_config),
            None,
            0,
        );
        &&& subscriber.wf()
        &&& subscriber.spec_port_id() == before.ids().spec_next()
        &&& Some(subscriber.spec_slot()) == before.next_free_slot(name, PortKind::Subscriber)
        &&& subscriber.settings() == spec_connection_settings(static_config)
        &&& subscriber.spec_max_borrowed_samples() == static_config.subscriber_max_borrowed_samples
        &&& subscriber.spec_payload_size() == static_config.type_size
        &&& subscriber.callback().is_none()
        &&& subscriber.borrowed() == 0
        &&& subscriber.spec_cursor() == 0
        &&& subscriber.snapshot() == before.registry(name, PortKind::Publisher)
        &&& subscriber.observed_change_counter() == before.registry_container(
            name,
            PortKind::Publisher,
        ).spec_change_counter()
        &&& subscriber.table() == populated.0
        &&& after.connections() == populated.1
        &&& after.has_registry(name, PortKind::Subscriber)
        &&& subscriber.spec_slot() < before.registry(name, PortKind::Subscriber).len()
        &&& subscriber.table().len() == before.registry(name, PortKind::Publisher).len()
        &&& after.registry(name, PortKind::Publisher) == before.registry(name, PortKind::Publisher)
        &&& after.change_counter(name, PortKind::Subscriber) == before.change_counter(
            name,
            PortKind::Subscriber,
        ).wrapping_add(1)
        &&& after.registry(name, PortKind::Subscriber) == before.registry(
            name,
            PortKind::Subscriber,
        ).update(subscriber.spec_slot() as int, Some(subscriber.spec_port_id()))
        &&& after.registry_container(name, PortKind::Publisher) == before.registry_container(
            name,
            PortKind::Publisher,
        )
        &&& after.holders(name) == before.holders(name) + 1
        &&& after.settings(name) == before.settings(name)
        &&& after.same_services_except(before, name)
        &&& after.file_system() == before.file_system()
        &&& after.segments() == before.segments()
        &&& after.events() == before.events()
        &&& after.same_layout(before)
    }

    /// Creates a subscriber of the service with the given id and
    /// settings: its connections are set up first and its identity is
    /// registered last.
    pub(crate) fn new(host: &mut Host, service_id: &ServiceName, static_config: &StaticConfig) -> (result:
        Result<Subscriber, SubscriberCreateError>)
        requires
            old(host).wf(),
        ensures
            final(host).wf(),
            final(host).ids().spec_counter() == old(host).ids().spec_counter().wrapping_add(1),
            result.is_ok() == create_result(old(host), service_id@).is_ok(),
            result.is_err() ==> Err::<(), _>(result.unwrap_err()) == create_result(
                old(host),
                service_id@,
            ) && final(host).services() == old(host).services() && final(host).events() == old(host).events() && final(host).file_system() == old(host).file_system() && final(host).segments() == old(host).segments() && final(host).connections() == old(host).connections(),
            result.is_ok() ==> result.unwrap().spec_service_id() == service_id@
                && Self::has_created(old(host), final(host), &result.unwrap(), static_config),
    {
        let port_id: u128 = host.next_port_id();
        let publisher_list_state = match host.port_snapshot(service_id, PortKind::Publisher) {
            Some(state) => state,
            None => {
                return Err(SubscriberCreateError::ServiceDoesNotExist);
            },
        };
        if !host.can_take_port(service_id, PortKind::Subscriber) {
            proof {
                host.lemma_registry(service_id@, PortKind::Subscriber);
            }
            let has_room: bool = host.has_free_port_slot(service_id, PortKind::Subscriber);
            if has_room {
                return Err(SubscriberCreateError::ServiceDoesNotExist);
            } else {
                if host.can_have_more_holders(service_id) {
                    return Err(SubscriberCreateError::ExceedsMaxSupportedSubscribers);
                } else {
                    return Err(SubscriberCreateError::ServiceDoesNotExist);
                }
            }
        }
        let ghost started = *host;
        let mut new_self = Self {
            dynamic_config_guard: UniqueIndex::placeholder(),
            publisher_connections: PublisherConnections::new(
                publisher_list_state.capacity(),
                port_id,
                connection_settings(static_config),
            ),
            service_id: service_id.clone(),
            port_id,
            degration_callback: None,
            publisher_list_state,
            borrowed_samples: 0,
            max_borrowed_samples: static_config.subscriber_max_borrowed_samples,
            payload_size: static_config.type_size,
            cursor: 0,
        };
        let _ = new_self.populate_publisher_channels(host);

        // !MUST! be the last task otherwise a subscriber is added to the dynamic
        // config without the creation of all required channels
        match host.take_port(service_id, PortKind::Subscriber, port_id) {
            Some(unique_index) => {
                new_self.dynamic_config_guard = unique_index;
                Ok(new_self)
            },
            None => Err(SubscriberCreateError::ExceedsMaxSupportedSubscribers),
        }
    }

    /// Returns the identity of the port.
    pub fn id(&self) -> (id: UniqueSubscriberId)
        ensures
            id.value == self.spec_port_id(),
    {
        UniqueSubscriberId { value: self.port_id }
    }

    /// Returns a sample to its publisher: the offset of the sample goes
    /// into the retrieve channel of the connection that the sample came
    /// from, and the subscriber has borrowed one sample less. When the
    /// connection does not exist any more the sample is discarded.
    pub fn release_sample(&mut self, host: &mut Host, sample: Sample)
        requires
            old(self).wf(),
            old(host).wf(),
        ensures
            final(self).wf(),
            final(host).wf(),
            final(self).same_port(old(self)),
            final(self).table() == old(self).table(),
            final(self).snapshot() == old(self).snapshot(),
            final(self).observed_change_counter() == old(self).observed_change_counter(),
            final(self).spec_cursor() == old(self).spec_cursor(),
            final(self).borrowed() == (if old(self).borrowed() > 0 {
                old(self).borrowed() - 1
            } else {
                0
            }),
            Self::only_connections_changed(old(host), final(host)),
            final(host).connections() == Self::released(
                old(self).table(),
                old(host).connections(),
                old(self).spec_port_id(),
                sample.spec_channel_id(),
                sample.spec_offset(),
            ),
    {
        proof {
            host.lemma_accessors();
        }
        if sample.channel_id < self.publisher_connections.len() {
            match self.publisher_connections.get(sample.channel_id) {
                Some(c) => {
                    proof {
                        c.lemma_names(self.port_id);
                    }
                    let _ = c.receiver().release(&mut host.connections, sample.offset.value());
                },
                None => {},
            }
        }
        if self.borrowed_samples > 0 {
            self.borrowed_samples = self.borrowed_samples - 1;
        }
        proof {
            host.lemma_accessors();
            host.lemma_transport_changed(old(host));
        }
    }

    /// The connections after the subscriber with the given table and
    /// identity has released the sample of the given slot and offset.
    pub open spec fn released(
        table: Seq<Option<u128>>,
        connections: Map<Seq<u8>, ConnectionState>,
        subscriber_id: u128,
        channel_id: usize,
        offset: usize,
    ) -> Map<Seq<u8>, ConnectionState> {
        if channel_id < table.len() && table[channel_id as int].is_some() {
            let name = spec_connection_name(table[channel_id as int].unwrap(), subscriber_id);
            if connections.contains_key(name) {
                connections.insert(name, connections[name].after_release(offset))
            } else {
                connections
            }
        } else {
            connections
        }
    }

    /// Returns the payload of a sample: the bytes of the sample in the
    /// data segment of its publisher, or [`None`] when the connection to
    /// the publisher or the data segment do not exist any more.
    pub fn payload(&self, host: &Host, sample: &Sample) -> (bytes: Option<Vec<u8>>)
        requires
            self.wf(),
            host.wf(),
        ensures
            bytes.is_some() == Self::has_payload(
                self.table(),
                host.segments(),
                sample.spec_channel_id(),
                sample.spec_offset(),
                self.spec_payload_size(),
            ),
            bytes.is_some() ==> bytes.unwrap()@ == host.segments()[spec_id_name(
                self.table()[sample.spec_channel_id() as int].unwrap(),
            )].payload.subrange(
                sample.spec_offset() as int,
                sample.spec_offset() + self.spec_payload_size(),
            ),
    {
        proof {
            host.lemma_accessors();
        }
        if sample.channel_id >= self.publisher_connections.len() {
            return None;
        }
        match self.publisher_connections.get(sample.channel_id) {
            Some(c) => {
                proof {
                    c.lemma_names(self.port_id);
                }
                c.data_segment().read(&host.segments, sample.offset, self.payload_size)
            },
            None => None,
        }
    }

    /// True if the payload of the sample of the given slot and offset can
    /// be read.
    pub open spec fn has_payload(
        table: Seq<Option<u128>>,
        segments: Map<Seq<u8>, SegmentState>,
        channel_id: usize,
        offset: usize,
        payload_size: usize,
    ) -> bool {
        &&& channel_id < table.len()
        &&& table[channel_id as int].is_some()
        &&& segments.contains_key(spec_id_name(table[channel_id as int].unwrap()))
        &&& segments[spec_id_name(table[channel_id as int].unwrap())].in_bounds(
            offset,
            payload_size as nat,
        )
    }

    fn populate_publisher_channels(&mut self, host: &mut Host) -> (result: Result<
        (),
        ConnectionFailure,
    >)
        requires
            old(self).publisher_connections.wf(),
            old(self).publisher_connections.table().len() == old(self).publisher_list_state@.len(),
            old(self).degration_callback.is_some() ==> old(self).degration_callback.unwrap().wf(),
            old(host).wf(),
        ensures
            final(host).wf(),
            Self::only_connections_changed(old(host), final(host)),
            final(self).publisher_connections.wf(),
            final(self).dynamic_config_guard == old(self).dynamic_config_guard,
            final(self).service_id == old(self).service_id,
            final(self).port_id == old(self).port_id,
            final(self).degration_callback == old(self).degration_callback,
            final(self).publisher_list_state == old(self).publisher_list_state,
            final(self).borrowed_samples == old(self).borrowed_samples,
            final(self).max_borrowed_samples == old(self).max_borrowed_samples,
            final(self).payload_size == old(self).payload_size,
            final(self).cursor == old(self).cursor,
            final(self).publisher_connections.spec_subscriber_id() == old(self).publisher_connections.spec_subscriber_id(),
            final(self).publisher_connections.spec_settings() == old(self).publisher_connections.spec_settings(),
            final(self).publisher_connections.table().len() == old(self).publisher_connections.table().len(),
            (final(self).publisher_connections.table(), final(host).connections(), result)
                == populate_from(
                old(self).publisher_connections.table(),
                old(self).publisher_list_state@,
                old(host).connections(),
                old(host).segments(),
                old(self).publisher_connections.spec_subscriber_id(),
                old(self).publisher_connections.spec_settings(),
                old(self).degration_callback,
                0,
            ),
    {
        proof {
            host.lemma_accessors();
        }
        let ghost subscriber_id = self.publisher_connections.spec_subscriber_id();
        let ghost settings = self.publisher_connections.spec_settings();
        let mut i: usize = 0;
        while i < self.publisher_connections.capacity()
            invariant
                old(host).wf(),
                host.connections.wf(),
                host.segments.wf(),
                host.events.wf(),
                host.file_system == old(host).file_system,
                host.services == old(host).services,
                host.static_storage == old(host).static_storage,
                host.segments == old(host).segments,
                host.events == old(host).events,
                host.ids == old(host).ids,
                self.publisher_connections.wf(),
                self.dynamic_config_guard == old(self).dynamic_config_guard,
                self.service_id == old(self).service_id,
                self.port_id == old(self).port_id,
                self.degration_callback == old(self).degration_callback,
                self.publisher_list_state == old(self).publisher_list_state,
                self.borrowed_samples == old(self).borrowed_samples,
                self.max_borrowed_samples == old(self).max_borrowed_samples,
                self.payload_size == old(self).payload_size,
                self.cursor == old(self).cursor,
                self.degration_callback.is_some() ==> self.degration_callback.unwrap().wf(),
                self.publisher_connections.spec_subscriber_id() == subscriber_id,
                self.publisher_connections.spec_settings() == settings,
                subscriber_id == old(self).publisher_connections.spec_subscriber_id(),
                settings == old(self).publisher_connections.spec_settings(),
                self.publisher_connections.table().len() == self.publisher_list_state@.len(),
                self.publisher_connections.table().len() == old(self).publisher_connections.table().len(),
                i <= self.publisher_connections.table().len(),
                populate_from(
                    self.publisher_connections.table(),
                    self.publisher_list_state@,
                    host.connections@,
                    host.segments@,
                    subscriber_id,
                    settings,
                    self.degration_callback,
                    i as int,
                ) == populate_from(
                    old(self).publisher_connections.table(),
                    old(self).publisher_list_state@,
                    old(host).connections(),
                    old(host).segments(),
                    subscriber_id,
                    settings,
                    old(self).degration_callback,
                    0,
                ),
            decreases self.publisher_connections.table().len() - i,
        {
            proof {
                old(host).lemma_accessors();
            }
            match self.publisher_list_state.get(i) {
                Some(publisher_id) => match self.publisher_connections.create(
                    i,
                    publisher_id,
                    &mut host.connections,
                    &host.segments,
                ) {
                    Ok(()) => (),
                    Err(e) => match &self.degration_callback {
                        None => {},
                        Some(c) => {
                            match c.call(
                                UniquePublisherId { value: publisher_id },
                                UniqueSubscriberId {
                                    value: self.publisher_connections.subscriber_id(),
                                },
                            ) {
                                DegrationAction::Ignore => (),
                                DegrationAction::Warn => {},
                                DegrationAction::Fail => {
                                    proof {
                                        host.lemma_accessors();
                                        host.lemma_transport_changed(old(host));
                                    }
                                    return Err(e);
                                },
                            }
                        },
                    },
                },
                None => self.publisher_connections.remove(i, &mut host.connections),
            }
            i += 1;
        }
        proof {
            host.lemma_accessors();
            host.lemma_transport_changed(old(host));
        }
        Ok(())
    }

    /// Sets or removes what decides about the publishers that the
    /// subscriber cannot connect to.
    pub fn set_degration_callback(&mut self, callback: Option<DegrationCallback>)
        requires
            old(self).wf(),
            callback.is_some() ==> callback.unwrap().wf(),
        ensures
            final(self).wf(),
            final(self).callback() == callback,
            final(self).spec_port_id() == old(self).spec_port_id(),
            final(self).spec_service_id() == old(self).spec_service_id(),
            final(self).spec_slot() == old(self).spec_slot(),
            final(self).settings() == old(self).settings(),
            final(self).spec_max_borrowed_samples() == old(self).spec_max_borrowed_samples(),
            final(self).spec_payload_size() == old(self).spec_payload_size(),
            final(self).table() == old(self).table(),
            final(self).snapshot() == old(self).snapshot(),
            final(self).observed_change_counter() == old(self).observed_change_counter(),
            final(self).borrowed() == old(self).borrowed(),
            final(self).spec_cursor() == old(self).spec_cursor(),
    {
        match callback {
            Some(c) => self.degration_callback = Some(c),
            None => self.degration_callback = None,
        }
    }

    /// True if `after` and `host_after` are the subscriber and the host
    /// after the subscriber `before` has tried to receive a sample on
    /// `host_before` with the given result: the connections are brought up
    /// to date first; when that fails, or when the subscriber has borrowed
    /// as many samples as it may, nothing is received; otherwise the
    /// subscriber takes the first sample that waits in a connection,
    /// starting at its cursor, and moves its cursor behind that
    /// connection.
    pub open spec fn has_received(
        before: &Subscriber,
        after: &Subscriber,
        host_before: &Host,
        host_after: &Host,
        result: Result<Option<Sample>, ReceiveError>,
    ) -> bool {
        let updated = before.updated(host_before);
        let received = receive_from(
            updated.0,
            updated.1,
            before.spec_port_id(),
            before.spec_cursor() as int,
            0,
        );
        &&& after.same_port(before)
        &&& after.table() == updated.0
        &&& Self::only_connections_changed(host_before, host_after)
        &&& match updated.2 {
            Err(error) => {
                &&& result == Err::<Option<Sample>, _>(ReceiveError::ConnectionFailure(error))
                &&& host_after.connections() == updated.1
                &&& after.borrowed() == before.borrowed()
                &&& after.spec_cursor() == before.spec_cursor()
            },
            Ok(()) => if before.borrowed() >= before.spec_max_borrowed_samples() {
                &&& result == Err::<Option<Sample>, _>(ReceiveError::ExceedsMaxBorrowedSamples)
                &&& host_after.connections() == updated.1
                &&& after.borrowed() == before.borrowed()
                &&& after.spec_cursor() == before.spec_cursor()
            } else {
                &&& host_after.connections() == received.0
                &&& match received.1 {
                    Err(error) => {
                        &&& result == Err::<Option<Sample>, _>(error)
                        &&& after.borrowed() == before.borrowed()
                        &&& after.spec_cursor() == before.spec_cursor()
                    },
                    Ok(None) => {
                        &&& result == Ok::<Option<Sample>, ReceiveError>(None)
                        &&& after.borrowed() == before.borrowed()
                        &&& after.spec_cursor() == before.spec_cursor()
                    },
                    Ok(Some((slot, offset))) => {
                        &&& result.is_ok()
                        &&& result.unwrap().is_some()
                        &&& result.unwrap().unwrap().spec_channel_id() == slot
                        &&& result.unwrap().unwrap().spec_offset() == offset
                        &&& Some(result.unwrap().unwrap().spec_publisher_id()) == updated.0[slot]
                        &&& after.borrowed() == before.borrowed() + 1
                        &&& after.spec_cursor() == spec_slot_after(
                            slot,
                            1,
                            updated.0.len() as int,
                        )
                    },
                }
            },
        }
    }

    /// A subscriber that has borrowed as many samples as it may receives
    /// no other: unless its connections cannot be brought up to date,
    /// which is reported first, the receive fails because of the samples
    /// that are borrowed, and no sample leaves its connection.
    pub proof fn lemma_receive_at_the_ceiling_fails(
        before: &Subscriber,
        after: &Subscriber,
        host_before: &Host,
        host_after: &Host,
        result: Result<Option<Sample>, ReceiveError>,
    )
        requires
            before.borrowed() >= before.spec_max_borrowed_samples(),
            Self::has_received(before, after, host_before, host_after, result),
        ensures
            result.is_err(),
            before.updated(host_before).2.is_ok() ==> result == Err::<Option<Sample>, _>(
                ReceiveError::ExceedsMaxBorrowedSamples,
            ),
            host_after.connections() == before.updated(host_before).1,
            after.borrowed() == before.borrowed(),
    {
    }

    /// Receives the next sample. Returns [`None`] when no sample waits in
    /// any connection, and fails when the subscriber has borrowed as many
    /// samples as it may or when its connections could not be brought up
    /// to date.
    pub fn receive(&mut self, host: &mut Host) -> (result: Result<Option<Sample>, ReceiveError>)
        requires
            old(self).wf(),
            old(host).wf(),
        ensures
            final(self).wf(),
            final(host).wf(),
            Self::has_received(old(self), final(self), old(host), final(host), result),
    {
        match self.update_connections(host) {
            Err(e) => {
                return Err(ReceiveError::ConnectionFailure(e));
            },
            Ok(()) => {},
        }
        if self.borrowed_samples >= self.max_borrowed_samples {
            return Err(ReceiveError::ExceedsMaxBorrowedSamples);
        }
        proof {
            host.lemma_accessors();
        }
        let ghost updated = *host;
        let ghost table = self.table();
        let ghost subscriber_id = self.port_id;
        let length: usize = self.publisher_connections.len();
        let cursor: usize = self.cursor;
        let mut steps: usize = 0;
        while steps < length
            invariant
                self.wf(),
                self.same_port(old(self)),
                self.table() == table,
                self.port_id == subscriber_id,
                self.cursor == cursor,
                self.borrowed_samples == old(self).borrowed_samples,
                self.borrowed_samples < self.max_borrowed_samples,
                length == table.len(),
                steps <= length,
                table == old(self).updated(old(host)).0,
                updated.connections() == old(self).updated(old(host)).1,
                old(self).updated(old(host)).2.is_ok(),
                Self::only_connections_changed(old(host), &updated),
                old(self).borrowed() < old(self).spec_max_borrowed_samples(),
                cursor == old(self).spec_cursor(),
                subscriber_id == old(self).spec_port_id(),
                updated.wf(),
                host.connections.wf(),
                host.file_system == updated.file_system,
                host.services == updated.services,
                host.static_storage == updated.static_storage,
                host.segments == updated.segments,
                host.events == updated.events,
                host.ids == updated.ids,
                receive_from(table, host.connections@, subscriber_id, cursor as int, steps as int)
                    == receive_from(
                    table,
                    updated.connections(),
                    subscriber_id,
                    cursor as int,
                    0,
                ),
            decreases length - steps,
        {
            proof {
                updated.lemma_accessors();
            }
            let id: usize = if steps >= length - cursor {
                steps - (length - cursor)
            } else {
                cursor + steps
            };
            let ghost current = host.connections@;
            match self.publisher_connections.get(id) {
                Some(connection) => {
                    proof {
                        connection.lemma_names(subscriber_id);
                    }
                    let publisher_id: u128 = connection.publisher_id();
                    match connection.receiver().receive(&mut host.connections) {
                        Ok(Some(offset)) => {
                            proof {
                                assert(spec_slot_after(cursor as int, steps as int, length as int)
                                    == id);
                                assert(table[id as int] == Some(publisher_id));
                                let name = spec_connection_name(publisher_id, subscriber_id);
                                assert(current.contains_key(name));
                                assert(receive_from(
                                    table,
                                    current,
                                    subscriber_id,
                                    cursor as int,
                                    steps as int,
                                ) == (host.connections@, Ok::<_, ReceiveError>(Some((id as int, offset)))));
                            }
                            self.borrowed_samples = self.borrowed_samples + 1;
                            self.cursor = if id + 1 >= length {
                                0
                            } else {
                                id + 1
                            };
                            proof {
                                host.lemma_accessors();
                                host.lemma_transport_changed(&updated);
                            }
                            return Ok(
                                Some(
                                    Sample {
                                        channel_id: id,
                                        offset: PointerOffset::new(offset),
                                        publisher_id,
                                    },
                                ),
                            );
                        },
                        Ok(None) => {
                            assert(host.connections@ =~= current);
                        },
                        Err(crate::cal::zero_copy_connection::ZeroCopyReceiveError::ReceiveWouldExceedMaxBorrowValue) => {
                            proof {
                                assert(host.connections@ =~= current);
                                host.lemma_accessors();
                                host.lemma_transport_changed(&updated);
                            }
                            return Err(ReceiveError::ExceedsMaxBorrowedSamples);
                        },
                        Err(_) => {
                            assert(host.connections@ =~= current);
                        },
                    }
                },
                None => (),
            }
            steps += 1;
        }
        proof {
            host.lemma_accessors();
            host.lemma_transport_changed(&updated);
        }
        Ok(None)
    }

    /// Brings the connections up to date when the registry of the
    /// publishers has changed.
    pub fn update_connections(&mut self, host: &mut Host) -> (result: Result<
        (),
        ConnectionFailure,
    >)
        requires
            old(self).wf(),
            old(host).wf(),
        ensures
            final(self).wf(),
            final(host).wf(),
            final(self).same_port(old(self)),
            final(self).borrowed() == old(self).borrowed(),
            final(self).spec_cursor() == old(self).spec_cursor(),
            Self::only_connections_changed(old(host), final(host)),
            (final(self).table(), final(host).connections(), result) == old(self).updated(
                old(host),
            ),
            old(self).sees_change(old(host)) ==> final(self).snapshot() == old(host).registry(
                old(self).spec_service_id(),
                PortKind::Publisher,
            ) && final(self).observed_change_counter() == old(host).registry_container(
                old(self).spec_service_id(),
                PortKind::Publisher,
            ).spec_change_counter(),
            !old(self).sees_change(old(host)) ==> final(self).snapshot() == old(self).snapshot()
                && final(self).observed_change_counter() == old(self).observed_change_counter(),
    {
        let capacity: usize = match host.port_snapshot(&self.service_id, PortKind::Publisher) {
            Some(state) => state.capacity(),
            None => self.publisher_connections.len(),
        };
        if self.publisher_connections.len() != capacity {
            return Ok(());
        }
        match host.update_port_snapshot(
            &self.service_id,
            PortKind::Publisher,
            &mut self.publisher_list_state,
        ) {
            Some(true) => self.populate_publisher_channels(host),
            _ => Ok(()),
        }
    }

    /// Returns the number of publishers that the subscriber is connected
    /// to.
    pub fn number_of_publishers(&self) -> (number: usize)
        ensures
            number == crate::lock_free::mpmc::container::occupied_slots(self.table()),
    {
        self.publisher_connections.number_of_publishers()
    }

    /// Closes the subscriber: its connections are closed, its identity
    /// leaves the registry of the service and the service loses a holder.
    /// Returns true if the service was taken down.
    pub fn close(self, host: &mut Host) -> (taken_down: bool)
        requires
            self.wf(),
            old(host).wf(),
        ensures
            final(host).wf(),
            final(host).segments() == old(host).segments(),
            final(host).events() == old(host).events(),
            final(host).ids() == old(host).ids(),
            final(host).same_layout(old(host)),
            final(host).same_services_except(old(host), self.spec_service_id()),
            final(host).connections() == Self::closed_from(
                self.table(),
                old(host).connections(),
                self.spec_port_id(),
                0,
            ),
            taken_down == (old(host).has_service(self.spec_service_id()) && old(host).holders(
                self.spec_service_id(),
            ) == 1),
            taken_down ==> !final(host).has_service(self.spec_service_id()),
            old(host).has_service(self.spec_service_id()) && !taken_down ==> final(host).has_service(self.spec_service_id()) && final(host).holders(
                self.spec_service_id(),
            ) == old(host).holders(self.spec_service_id()) - 1,
            Host::has_dropped_port(
                old(host),
                final(host),
                self.spec_service_id(),
                PortKind::Subscriber,
                self.spec_slot(),
                taken_down,
            ),
    {
        let mut subscriber = self;
        proof {
            host.lemma_accessors();
        }
        let ghost table = subscriber.table();
        let ghost subscriber_id = subscriber.port_id;
        let mut i: usize = 0;
        while i < subscriber.publisher_connections.len()
            invariant
                old(host).wf(),
                host.connections.wf(),
                host.file_system == old(host).file_system,
                host.services == old(host).services,
                host.static_storage == old(host).static_storage,
                host.segments == old(host).segments,
                host.events == old(host).events,
                host.ids == old(host).ids,
                subscriber.publisher_connections.wf(),
                subscriber.service_id == self.service_id,
                subscriber.dynamic_config_guard == self.dynamic_config_guard,
                subscriber.publisher_connections.spec_subscriber_id() == subscriber_id,
                subscriber.publisher_connections.table().len() == table.len(),
                i <= table.len(),
                forall|k: int|
                    i <= k < table.len() ==> subscriber.publisher_connections.table()[k]
                        == table[k],
                Self::closed_from(table, host.connections@, subscriber_id, i as int)
                    == Self::closed_from(table, old(host).connections(), subscriber_id, 0),
            decreases table.len() - i,
        {
            proof {
                old(host).lemma_accessors();
            }
            subscriber.publisher_connections.remove(i, &mut host.connections);
            i += 1;
        }
        proof {
            host.lemma_accessors();
            host.lemma_transport_changed(old(host));
        }
        host.drop_port(
            &subscriber.service_id,
            PortKind::Subscriber,
            subscriber.dynamic_config_guard,
        )
    }

    /// The connections after a subscriber with the given table and
    /// identity has closed its connections of the slots from `index` on.
    pub open spec fn closed_from(
        table: Seq<Option<u128>>,
        connections: Map<Seq<u8>, ConnectionState>,
        subscriber_id: u128,
        index: int,
    ) -> Map<Seq<u8>, ConnectionState>
        decreases table.len() - index,
    {
        if index < 0 || index >= table.len() {
            connections
        } else {
            Self::closed_from(
                table,
                match table[index] {
                    Some(publisher_id) => after_close(
                        connections,
                        spec_connection_name(publisher_id, subscriber_id),
                        Side::Receiver,
                    ),
                    None => connections,
                },
                subscriber_id,
                index + 1,
            )
        }
    }
}

} // verus!
