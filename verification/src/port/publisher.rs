//! The port that sends the samples of a publish subscribe service.
//!
//! A publisher owns a data segment that is partitioned into buckets, one
//! for each sample. It counts for every bucket who refers to it: the one
//! who has loaned it, and every connection that the sample was sent over
//! and that has not given it back. A bucket goes back to the segment when
//! nobody refers to it any more. Before it loans or sends, the publisher
//! takes back what the subscribers have returned.

use crate::cal::shared_memory;
use crate::cal::shared_memory::{PointerOffset, SegmentState, SharedMemory};
use crate::cal::zero_copy_connection::{after_close, ConnectionState, Side};
use crate::elementary::allocator::Layout;
use crate::host::{Host, PortKind};
use crate::lock_free::mpmc::container::ContainerState;
use crate::lock_free::mpmc::unique_index_set::UniqueIndex;
use crate::port::details::publisher_connections::{
    after_connect,
    connect_result,
    ConnectionSettings,
};
use crate::port::details::subscriber_connections::SubscriberConnections;
use crate::port::port_identifiers::{
    id_name,
    spec_connection_name,
    spec_id_name,
    UniquePublisherId,
};
use crate::port::subscriber::{connection_settings, spec_connection_settings};
use crate::service::dynamic_config::spec_can_increment;
use crate::service::service_name::ServiceName;
use crate::service::static_config::publish_subscribe::StaticConfig;
use vstd::prelude::*;

verus! {

/// Failures when a publisher is created.
#[derive(Debug, PartialEq, Eq, Copy, Clone)]
pub enum PublisherCreateError {
    ExceedsMaxSupportedPublishers,
    UnableToCreateDataSegment,
    ServiceDoesNotExist,
}

/// Failures when a sample is loaned.
#[derive(Debug, PartialEq, Eq, Copy, Clone)]
pub enum LoanError {
    OutOfMemory,
    ExceedsPayloadSize,
    InternalFailure,
}

/// The number of buckets that a publisher has besides the ones for the
/// samples that its subscribers hold and for its history.
pub const EXTRA_SAMPLES: usize = 1;

/// A sample that a publisher has loaned, by its offset in the data segment
/// of the publisher.
#[derive(Debug)]
pub struct SampleMut {
    offset: PointerOffset,
}

impl SampleMut {
    /// The offset of the sample in the data segment of its publisher.
    pub closed spec fn spec_offset(&self) -> usize {
        self.offset.spec_value()
    }

    /// Returns the offset of the sample in the data segment of its
    /// publisher.
    pub fn offset(&self) -> (offset: PointerOffset)
        ensures
            offset.spec_value() == self.spec_offset(),
    {
        self.offset
    }
}

/// What a publisher works on: the connections and the segments of its
/// host and its count of the references to each of its buckets.
pub struct Transport {
    pub connections: Map<Seq<u8>, ConnectionState>,
    pub segments: Map<Seq<u8>, SegmentState>,
    pub reference_counters: Seq<u64>,
}

/// The data segment and the buckets of a publisher.
pub struct Pool {
    pub segment_name: Seq<u8>,
    pub bucket_size: usize,
}

/// The index of the bucket that `offset` lies in.
pub open spec fn spec_bucket_index(pool: Pool, offset: usize) -> int {
    offset as int / pool.bucket_size as int
}

/// True if the publisher counts references to the bucket that `offset`
/// lies in.
pub open spec fn is_referenced(pool: Pool, transport: Transport, offset: usize) -> bool {
    &&& pool.bucket_size > 0
    &&& spec_bucket_index(pool, offset) < transport.reference_counters.len()
    &&& transport.reference_counters[spec_bucket_index(pool, offset)] > 0
}

/// The transport after one reference to the bucket at `offset` was given
/// up: when it was the last one the bucket goes back to the segment.
pub open spec fn release_sample(pool: Pool, transport: Transport, offset: usize) -> Transport {
    if is_referenced(pool, transport, offset) {
        let index = spec_bucket_index(pool, offset);
        let references = (transport.reference_counters[index] - 1) as u64;
        Transport {
            reference_counters: transport.reference_counters.update(index, references),
            segments: if references == 0 && transport.segments.contains_key(pool.segment_name) {
                transport.segments.insert(
                    pool.segment_name,
                    transport.segments[pool.segment_name].after_deallocate(offset),
                )
            } else {
                transport.segments
            },
            ..transport
        }
    } else {
        transport
    }
}

/// The transport after another reference to the bucket at `offset` was
/// counted.
pub open spec fn borrow_sample(pool: Pool, transport: Transport, offset: usize) -> Transport {
    let index = spec_bucket_index(pool, offset);
    if pool.bucket_size > 0 && index < transport.reference_counters.len()
        && transport.reference_counters[index] < u64::MAX {
        Transport {
            reference_counters: transport.reference_counters.update(
                index,
                (transport.reference_counters[index] + 1) as u64,
            ),
            ..transport
        }
    } else {
        transport
    }
}

/// The number of offsets that wait in the retrieve channel of the
/// connection with the given name.
pub open spec fn returned(transport: Transport, name: Seq<u8>) -> nat {
    if transport.connections.contains_key(name) {
        transport.connections[name].retrieve.len()
    } else {
        0
    }
}

/// The transport after the publisher has taken back everything that waits
/// in the retrieve channel of the connection with the given name.
pub open spec fn drain(pool: Pool, transport: Transport, name: Seq<u8>) -> Transport
    decreases returned(transport, name),
{
    if returned(transport, name) == 0 {
        transport
    } else {
        let connection = transport.connections[name];
        drain(
            pool,
            release_sample(
                pool,
                Transport {
                    connections: transport.connections.insert(name, connection.after_reclaim()),
                    ..transport
                },
                connection.retrieve[0],
            ),
            name,
        )
    }
}

/// The transport after the publisher has taken back what waits in the
/// retrieve channels of its connections of the slots from `index` on.
pub open spec fn reclaim_from(
    pool: Pool,
    table: Seq<Option<u128>>,
    transport: Transport,
    publisher_id: u128,
    index: int,
) -> Transport
    decreases table.len() - index,
{
    if index < 0 || index >= table.len() {
        transport
    } else {
        reclaim_from(
            pool,
            table,
            match table[index] {
                Some(subscriber_id) => drain(
                    pool,
                    transport,
                    spec_connection_name(publisher_id, subscriber_id),
                ),
                None => transport,
            },
            publisher_id,
            index + 1,
        )
    }
}

/// The transport after the sample at `offset` was sent over the
/// connections of the slots from `index` on, and the number of connections
/// that took it, added to `count`. A connection that takes the sample
/// refers to it, and the sample that it gave up for it is released.
pub open spec fn deliver_from(
    pool: Pool,
    table: Seq<Option<u128>>,
    transport: Transport,
    publisher_id: u128,
    offset: usize,
    index: int,
    count: nat,
) -> (Transport, nat)
    decreases table.len() - index,
{
    if index < 0 || index >= table.len() {
        (transport, count)
    } else {
        match table[index] {
            None => deliver_from(pool, table, transport, publisher_id, offset, index + 1, count),
            Some(subscriber_id) => {
                let name = spec_connection_name(publisher_id, subscriber_id);
                if !transport.connections.contains_key(name) {
                    deliver_from(pool, table, transport, publisher_id, offset, index + 1, count)
                } else {
                    let connection = transport.connections[name];
                    match connection.send_result(offset) {
                        Err(_) => deliver_from(
                            pool,
                            table,
                            transport,
                            publisher_id,
                            offset,
                            index + 1,
                            count,
                        ),
                        Ok(evicted) => {
                            let sent = borrow_sample(
                                pool,
                                Transport {
                                    connections: transport.connections.insert(
                                        name,
                                        connection.after_send(offset),
                                    ),
                                    ..transport
                                },
                                offset,
                            );
                            deliver_from(
                                pool,
                                table,
                                match evicted {
                                    Some(old) => release_sample(pool, sent, old),
                                    None => sent,
                                },
                                publisher_id,
                                offset,
                                index + 1,
                                count + 1,
                            )
                        },
                    }
                }
            },
        }
    }
}

/// The table of the connections of a publisher and the transport after
/// the publisher went through the slots from `index` on: a slot with a
/// subscriber that the publisher is not connected to is connected when
/// that is possible, and a slot without a subscriber loses its connection
/// after the publisher has taken back what the subscriber had returned.
pub open spec fn populate_from(
    pool: Pool,
    table: Seq<Option<u128>>,
    subscribers: Seq<Option<u128>>,
    transport: Transport,
    publisher_id: u128,
    settings: ConnectionSettings,
    index: int,
) -> (Seq<Option<u128>>, Transport)
    decreases table.len() - index,
{
    if index < 0 || index >= table.len() || index >= subscribers.len() {
        (table, transport)
    } else {
        match subscribers[index] {
            None => match table[index] {
                Some(subscriber_id) => {
                    let name = spec_connection_name(publisher_id, subscriber_id);
                    let drained = drain(pool, transport, name);
                    populate_from(
                        pool,
                        table.update(index, None),
                        subscribers,
                        Transport {
                            connections: after_close(drained.connections, name, Side::Sender),
                            ..drained
                        },
                        publisher_id,
                        settings,
                        index + 1,
                    )
                },
                None => populate_from(
                    pool,
                    table.update(index, None),
                    subscribers,
                    transport,
                    publisher_id,
                    settings,
                    index + 1,
                ),
            },
            Some(subscriber_id) => if table[index].is_some() {
                populate_from(
                    pool,
                    table,
                    subscribers,
                    transport,
                    publisher_id,
                    settings,
                    index + 1,
                )
            } else {
                let name = spec_connection_name(publisher_id, subscriber_id);
                if connect_result(transport.connections, name, settings, Side::Sender).is_ok() {
                    populate_from(
                        pool,
                        table.update(index, Some(subscriber_id)),
                        subscribers,
                        Transport {
                            connections: after_connect(
                                transport.connections,
                                name,
                                settings,
                                Side::Sender,
                            ),
                            ..transport
                        },
                        publisher_id,
                        settings,
                        index + 1,
                    )
                } else {
                    populate_from(
                        pool,
                        table,
                        subscribers,
                        transport,
                        publisher_id,
                        settings,
                        index + 1,
                    )
                }
            },
        }
    }
}

/// The number of bytes of the data segment of a publisher of a service
/// with the given settings, or [`None`] when the number does not fit the
/// machine: one bucket for each sample that the subscribers of a
/// publisher can hold, for each sample of the history and for the extra
/// samples, times the number of publishers.
pub open spec fn spec_segment_size(static_config: &StaticConfig, bucket_size: int) -> Option<
    usize,
> {
    let samples = static_config.subscriber_max_buffer_size + static_config.history_size
        + static_config.subscriber_max_borrowed_samples + EXTRA_SAMPLES;
    let size = static_config.max_publishers * samples * bucket_size;
    if samples <= usize::MAX && static_config.max_publishers * samples <= usize::MAX && size
        <= usize::MAX {
        Some(size as usize)
    } else {
        None
    }
}

/// The port that sends the samples of a publish subscribe service. A
/// publisher is a holder of its service.
#[derive(Debug)]
pub struct Publisher {
    port_id: u128,
    service_id: ServiceName,
    sample_reference_counter: Vec<u64>,
    data_segment: SharedMemory,
    subscriber_connections: SubscriberConnections,
    subscriber_list_state: ContainerState<u128>,
    payload_layout: Layout,
    bucket_size: usize,
    dynamic_config_guard: UniqueIndex,
}

impl Publisher {
    /// The identity of the port.
    pub closed spec fn spec_port_id(&self) -> u128 {
        self.port_id
    }

    /// The name of the service of the port.
    pub closed spec fn spec_service_id(&self) -> Seq<u8> {
        self.service_id@
    }

    /// The slot of the port in the registry of its service.
    pub closed spec fn spec_slot(&self) -> u32 {
        self.dynamic_config_guard.spec_value()
    }

    /// The identities of the subscribers that the publisher is connected
    /// to, by the slot of the subscriber.
    pub closed spec fn table(&self) -> Seq<Option<u128>> {
        self.subscriber_connections.table()
    }

    /// The settings of the connections of the publisher.
    pub closed spec fn settings(&self) -> ConnectionSettings {
        self.subscriber_connections.spec_settings()
    }

    /// The registry of the subscribers as the publisher saw it last.
    pub closed spec fn snapshot(&self) -> Seq<Option<u128>> {
        self.subscriber_list_state@
    }

    /// The change counter of the registry of the subscribers when the
    /// publisher saw it last.
    pub closed spec fn observed_change_counter(&self) -> u64 {
        self.subscriber_list_state.observed_change_counter()
    }

    /// The number of references to each bucket.
    pub closed spec fn reference_counters(&self) -> Seq<u64> {
        self.sample_reference_counter@
    }

    /// The layout of the payload of a sample.
    pub closed spec fn spec_payload_layout(&self) -> Layout {
        self.payload_layout
    }

    /// The data segment and the buckets of the publisher.
    pub closed spec fn pool(&self) -> Pool {
        Pool { segment_name: self.data_segment.spec_name(), bucket_size: self.bucket_size }
    }

    /// What holds of every publisher: its table has an entry for every
    /// slot of the registry, and its data segment carries its name.
    pub closed spec fn wf(&self) -> bool {
        &&& self.subscriber_connections.wf()
        &&& self.subscriber_connections.spec_publisher_id() == self.port_id
        &&& self.subscriber_connections.table().len() == self.subscriber_list_state@.len()
        &&& self.data_segment.spec_name() == spec_id_name(self.port_id)
        &&& self.data_segment.owns()
    }

    /// The data segment of a well-formed publisher carries the name of the
    /// publisher, and its table has an entry for every slot of its
    /// snapshot.
    pub proof fn lemma_pool(&self)
        requires
            self.wf(),
        ensures
            self.pool().segment_name == spec_id_name(self.spec_port_id()),
            self.table().len() == self.snapshot().len(),
    {
    }

    /// What the publisher works on.
    pub open spec fn transport(&self, host: &Host) -> Transport {
        Transport {
            connections: host.connections(),
            segments: host.segments(),
            reference_counters: self.reference_counters(),
        }
    }

    /// True if `other` is this publisher with, at most, other connections,
    /// another view of the registry and other reference counters.
    pub open spec fn same_port(&self, other: &Publisher) -> bool {
        &&& self.spec_port_id() == other.spec_port_id()
        &&& self.spec_service_id() == other.spec_service_id()
        &&& self.spec_slot() == other.spec_slot()
        &&& self.settings() == other.settings()
        &&& self.spec_payload_layout() == other.spec_payload_layout()
        &&& self.pool() == other.pool()
    }

    /// True if `after` differs from `before` in its connections and
    /// segments only.
    pub open spec fn only_transport_changed(before: &Host, after: &Host) -> bool {
        &&& after.services() == before.services()
        &&& after.file_system() == before.file_system()
        &&& after.events() == before.events()
        &&& after.ids() == before.ids()
        &&& after.same_layout(before)
    }

    /// True if the publisher sees a change of the registry of the
    /// subscribers of its service on `host`.
    pub open spec fn sees_change(&self, host: &Host) -> bool {
        host.has_registry(self.spec_service_id(), PortKind::Subscriber)
            && self.observed_change_counter() != host.registry_container(
            self.spec_service_id(),
            PortKind::Subscriber,
        ).spec_change_counter() && host.registry(
            self.spec_service_id(),
            PortKind::Subscriber,
        ).len() == self.table().len()
    }

    /// The table of the publisher and the transport after the publisher
    /// has brought its connections up to date.
    pub open spec fn updated(&self, host: &Host) -> (Seq<Option<u128>>, Transport) {
        if self.sees_change(host) {
            populate_from(
                self.pool(),
                self.table(),
                host.registry(self.spec_service_id(), PortKind::Subscriber),
                self.transport(host),
                self.spec_port_id(),
                self.settings(),
                0,
            )
        } else {
            (self.table(), self.transport(host))
        }
    }

    /// Returns the identity of the port.
    pub fn id(&self) -> (id: UniquePublisherId)
        ensures
            id.value == self.spec_port_id(),
    {
        UniquePublisherId { value: self.port_id }
    }

    fn release_sample(&mut self, host: &mut Host, offset: usize)
        requires
            old(self).wf(),
            old(host).wf(),
        ensures
            final(self).wf(),
            final(host).wf(),
            final(self).same_port(old(self)),
            final(self).table() == old(self).table(),
            final(self).snapshot() == old(self).snapshot(),
            final(self).observed_change_counter() == old(self).observed_change_counter(),
            Self::only_transport_changed(old(host), final(host)),
            final(self).transport(final(host)) == release_sample(
                old(self).pool(),
                old(self).transport(old(host)),
                offset,
            ),
    {
        proof {
            host.lemma_accessors();
        }
        if self.bucket_size == 0 {
            return ;
        }
        let index: usize = offset / self.bucket_size;
        if index >= self.sample_reference_counter.len() {
            return ;
        }
        let references: u64 = self.sample_reference_counter[index];
        if references == 0 {
            return ;
        }
        self.sample_reference_counter[index] = references - 1;
        if references - 1 == 0 {
            let _ = self.data_segment.deallocate(
                &mut host.segments,
                PointerOffset::new(offset),
                self.payload_layout,
            );
            proof {
                if !old(host).segments().contains_key(self.data_segment.spec_name()) {
                    assert(host.segments@ =~= old(host).segments());
                }
                host.lemma_accessors();
                host.lemma_transport_changed(old(host));
            }
        }
    }

    fn borrow_sample(&mut self, offset: usize)
        requires
            old(self).wf(),
        ensures
            final(self).wf(),
            final(self).same_port(old(self)),
            final(self).table() == old(self).table(),
            final(self).snapshot() == old(self).snapshot(),
            final(self).observed_change_counter() == old(self).observed_change_counter(),
            forall|transport: Transport|
                transport.reference_counters == old(self).reference_counters() ==> (
                #[trigger] borrow_sample(old(self).pool(), transport, offset)).reference_counters
                    == final(self).reference_counters(),
    {
        if self.bucket_size == 0 {
            return ;
        }
        let index: usize = offset / self.bucket_size;
        if index >= self.sample_reference_counter.len() {
            return ;
        }
        let references: u64 = self.sample_reference_counter[index];
        if references == u64::MAX {
            return ;
        }
        self.sample_reference_counter[index] = references + 1;
    }

    fn retrieve_returned_samples(&mut self, host: &mut Host)
        requires
            old(self).wf(),
            old(host).wf(),
        ensures
            final(self).wf(),
            final(host).wf(),
            final(self).same_port(old(self)),
            final(self).table() == old(self).table(),
            final(self).snapshot() == old(self).snapshot(),
            final(self).observed_change_counter() == old(self).observed_change_counter(),
            Self::only_transport_changed(old(host), final(host)),
            final(self).transport(final(host)) == reclaim_from(
                old(self).pool(),
                old(self).table(),
                old(self).transport(old(host)),
                old(self).spec_port_id(),
                0,
            ),
    {
        let ghost pool = self.pool();
        let ghost table = self.table();
        let ghost publisher_id = self.port_id;
        let mut i: usize = 0;
        while i < self.subscriber_connections.len()
            invariant
                self.wf(),
                host.wf(),
                self.same_port(old(self)),
                self.table() == table,
                table == old(self).table(),
                pool == old(self).pool(),
                publisher_id == old(self).spec_port_id(),
                self.snapshot() == old(self).snapshot(),
                self.observed_change_counter() == old(self).observed_change_counter(),
                Self::only_transport_changed(old(host), host),
                i <= table.len(),
                reclaim_from(pool, table, self.transport(host), publisher_id, i as int)
                    == reclaim_from(
                    pool,
                    table,
                    old(self).transport(old(host)),
                    publisher_id,
                    0,
                ),
            decreases table.len() - i,
        {
            if self.subscriber_connections.get(i).is_some() {
                self.drain_connection(host, i);
            }
            i += 1;
        }
    }

    fn drain_connection(&mut self, host: &mut Host, index: usize)
        requires
            old(self).wf(),
            old(host).wf(),
            index < old(self).table().len(),
            old(self).table()[index as int].is_some(),
        ensures
            final(self).wf(),
            final(host).wf(),
            final(self).same_port(old(self)),
            final(self).table() == old(self).table(),
            final(self).snapshot() == old(self).snapshot(),
            final(self).observed_change_counter() == old(self).observed_change_counter(),
            Self::only_transport_changed(old(host), final(host)),
            final(self).transport(final(host)) == drain(
                old(self).pool(),
                old(self).transport(old(host)),
                spec_connection_name(
                    old(self).spec_port_id(),
                    old(self).table()[index as int].unwrap(),
                ),
            ),
    {
        let ghost pool = self.pool();
        let ghost name = spec_connection_name(self.port_id, self.table()[index as int].unwrap());
        loop
            invariant
                self.wf(),
                host.wf(),
                self.same_port(old(self)),
                self.table() == old(self).table(),
                index < self.table().len(),
                self.table()[index as int].is_some(),
                pool == old(self).pool(),
                name == spec_connection_name(
                    old(self).spec_port_id(),
                    old(self).table()[index as int].unwrap(),
                ),
                self.snapshot() == old(self).snapshot(),
                self.observed_change_counter() == old(self).observed_change_counter(),
                Self::only_transport_changed(old(host), host),
                drain(pool, self.transport(host), name) == drain(
                    pool,
                    old(self).transport(old(host)),
                    name,
                ),
            decreases returned(self.transport(host), name),
        {
            proof {
                host.lemma_accessors();
            }
            let ghost before = *host;
            let reclaimed = match self.subscriber_connections.get(index) {
                Some(connection) => {
                    proof {
                        connection.lemma_names(self.port_id);
                    }
                    connection.sender().reclaim(&mut host.connections)
                },
                None => Ok(None),
            };
            proof {
                host.lemma_accessors();
                host.lemma_transport_changed(&before);
            }
            match reclaimed {
                Ok(Some(offset)) => {
                    self.release_sample(host, offset);
                },
                _ => {
                    proof {
                        if before.connections().contains_key(name) {
                            assert(host.connections() =~= before.connections());
                        }
                    }
                    return ;
                },
            }
        }
    }

    fn populate_subscriber_channels(&mut self, host: &mut Host)
        requires
            old(self).wf(),
            old(host).wf(),
        ensures
            final(self).wf(),
            final(host).wf(),
            final(self).same_port(old(self)),
            final(self).snapshot() == old(self).snapshot(),
            final(self).observed_change_counter() == old(self).observed_change_counter(),
            Self::only_transport_changed(old(host), final(host)),
            (final(self).table(), final(self).transport(final(host))) == populate_from(
                old(self).pool(),
                old(self).table(),
                old(self).snapshot(),
                old(self).transport(old(host)),
                old(self).spec_port_id(),
                old(self).settings(),
                0,
            ),
    {
        let ghost pool = self.pool();
        let ghost publisher_id = self.port_id;
        let ghost settings = self.settings();
        let ghost subscribers = self.snapshot();
        let mut i: usize = 0;
        while i < self.subscriber_connections.len()
            invariant
                self.wf(),
                host.wf(),
                self.same_port(old(self)),
                pool == old(self).pool(),
                publisher_id == old(self).spec_port_id(),
                settings == old(self).settings(),
                subscribers == old(self).snapshot(),
                self.snapshot() == old(self).snapshot(),
                self.observed_change_counter() == old(self).observed_change_counter(),
                self.table().len() == subscribers.len(),
                Self::only_transport_changed(old(host), host),
                i <= self.table().len(),
                populate_from(
                    pool,
                    self.table(),
                    subscribers,
                    self.transport(host),
                    publisher_id,
                    settings,
                    i as int,
                ) == populate_from(
                    pool,
                    old(self).table(),
                    subscribers,
                    old(self).transport(old(host)),
                    publisher_id,
                    settings,
                    0,
                ),
            decreases self.table().len() - i,
        {
            match self.subscriber_list_state.get(i) {
                Some(subscriber_id) => {
                    proof {
                        host.lemma_accessors();
                    }
                    let ghost before = *host;
                    let _ = self.subscriber_connections.create(
                        i,
                        subscriber_id,
                        &mut host.connections,
                    );
                    proof {
                        host.lemma_accessors();
                        host.lemma_transport_changed(&before);
                    }
                },
                None => {
                    if self.subscriber_connections.get(i).is_some() {
                        self.drain_connection(host, i);
                    }
                    proof {
                        host.lemma_accessors();
                    }
                    let ghost before = *host;
                    self.subscriber_connections.remove(i, &mut host.connections);
                    proof {
                        host.lemma_accessors();
                        host.lemma_transport_changed(&before);
                    }
                },
            }
            i += 1;
        }
    }

    /// Brings the connections up to date when the registry of the
    /// subscribers has changed. A subscriber that cannot be connected to
    /// is skipped.
    pub fn update_connections(&mut self, host: &mut Host)
        requires
            old(self).wf(),
            old(host).wf(),
        ensures
            final(self).wf(),
            final(host).wf(),
            final(self).same_port(old(self)),
            Self::only_transport_changed(old(host), final(host)),
            (final(self).table(), final(self).transport(final(host))) == old(self).updated(
                old(host),
            ),
            old(self).sees_change(old(host)) ==> final(self).snapshot() == old(host).registry(
                old(self).spec_service_id(),
                PortKind::Subscriber,
            ) && final(self).observed_change_counter() == old(host).registry_container(
                old(self).spec_service_id(),
                PortKind::Subscriber,
            ).spec_change_counter(),
            !old(self).sees_change(old(host)) ==> final(self).snapshot() == old(self).snapshot()
                && final(self).observed_change_counter() == old(self).observed_change_counter(),
    {
        let capacity: usize = match host.port_snapshot(&self.service_id, PortKind::Subscriber) {
            Some(state) => state.capacity(),
            None => self.subscriber_connections.len(),
        };
        if self.subscriber_connections.len() != capacity {
            return ;
        }
        match host.update_port_snapshot(
            &self.service_id,
            PortKind::Subscriber,
            &mut self.subscriber_list_state,
        ) {
            Some(true) => self.populate_subscriber_channels(host),
            _ => {},
        }
    }

    fn deliver_sample(&mut self, host: &mut Host, offset: usize) -> (number_of_recipients: usize)
        requires
            old(self).wf(),
            old(host).wf(),
        ensures
            final(self).wf(),
            final(host).wf(),
            final(self).same_port(old(self)),
            final(self).table() == old(self).table(),
            final(self).snapshot() == old(self).snapshot(),
            final(self).observed_change_counter() == old(self).observed_change_counter(),
            Self::only_transport_changed(old(host), final(host)),
            (final(self).transport(final(host)), number_of_recipients as nat) == deliver_from(
                old(self).pool(),
                old(self).table(),
                old(self).transport(old(host)),
                old(self).spec_port_id(),
                offset,
                0,
                0,
            ),
    {
        let ghost pool = self.pool();
        let ghost table = self.table();
        let ghost publisher_id = self.port_id;
        let mut number_of_recipients: usize = 0;
        let mut i: usize = 0;
        while i < self.subscriber_connections.len()
            invariant
                self.wf(),
                host.wf(),
                self.same_port(old(self)),
                self.table() == table,
                table == old(self).table(),
                pool == old(self).pool(),
                publisher_id == old(self).spec_port_id(),
                self.snapshot() == old(self).snapshot(),
                self.observed_change_counter() == old(self).observed_change_counter(),
                Self::only_transport_changed(old(host), host),
                i <= table.len(),
                number_of_recipients <= i,
                deliver_from(
                    pool,
                    table,
                    self.transport(host),
                    publisher_id,
                    offset,
                    i as int,
                    number_of_recipients as nat,
                ) == deliver_from(
                    pool,
                    table,
                    old(self).transport(old(host)),
                    publisher_id,
                    offset,
                    0,
                    0,
                ),
            decreases table.len() - i,
        {
            proof {
                host.lemma_accessors();
            }
            let ghost before = *host;
            let ghost counters = self.reference_counters();
            let sent = match self.subscriber_connections.get(i) {
                Some(connection) => {
                    proof {
                        connection.lemma_names(self.port_id);
                    }
                    Some(connection.sender().try_send(&mut host.connections, offset))
                },
                None => None,
            };
            proof {
                host.lemma_accessors();
                host.lemma_transport_changed(&before);
            }
            match sent {
                Some(Ok(overflow)) => {
                    self.borrow_sample(offset);
                    number_of_recipients += 1;
                    proof {
                        let name = spec_connection_name(publisher_id, table[i as int].unwrap());
                        let connection = before.connections()[name];
                        let taken = Transport {
                            connections: before.connections().insert(
                                name,
                                connection.after_send(offset),
                            ),
                            segments: before.segments(),
                            reference_counters: counters,
                        };
                        assert(borrow_sample(pool, taken, offset).reference_counters
                            == self.reference_counters());
                        assert(self.transport(host) == borrow_sample(pool, taken, offset));
                    }
                    if let Some(old) = overflow {
                        self.release_sample(host, old)
                    }
                },
                Some(Err(_)) => {
                    proof {
                        let name = spec_connection_name(publisher_id, table[i as int].unwrap());
                        if before.connections().contains_key(name) {
                            assert(host.connections() =~= before.connections());
                        }
                    }
                },
                None => {},
            }
            i += 1;
        }
        number_of_recipients
    }

    /// True if `after` and `host_after` are the publisher and the host
    /// after the publisher `before` has tried to loan a sample on
    /// `host_before` with the given result: the publisher takes back what
    /// the subscribers have returned and then takes the next free bucket
    /// of its data segment, to which it holds the only reference.
    pub open spec fn has_loaned(
        before: &Publisher,
        after: &Publisher,
        host_before: &Host,
        host_after: &Host,
        result: Result<SampleMut, LoanError>,
    ) -> bool {
        let pool = before.pool();
        let reclaimed = reclaim_from(
            pool,
            before.table(),
            before.transport(host_before),
            before.spec_port_id(),
            0,
        );
        &&& after.same_port(before)
        &&& after.table() == before.table()
        &&& after.snapshot() == before.snapshot()
        &&& after.observed_change_counter() == before.observed_change_counter()
        &&& Self::only_transport_changed(host_before, host_after)
        &&& host_after.connections() == reclaimed.connections
        &&& if !reclaimed.segments.contains_key(pool.segment_name) {
            &&& result == Err::<SampleMut, _>(LoanError::InternalFailure)
            &&& after.transport(host_after) == reclaimed
        } else {
            match reclaimed.segments[pool.segment_name].allocate_result(
                before.spec_payload_layout(),
            ) {
                Err(_) => {
                    &&& result == Err::<SampleMut, _>(LoanError::OutOfMemory)
                    &&& after.transport(host_after) == reclaimed
                },
                Ok(offset) => {
                    &&& result.is_ok()
                    &&& result.unwrap().spec_offset() == offset.spec_value()
                    &&& host_after.segments() == reclaimed.segments.insert(
                        pool.segment_name,
                        reclaimed.segments[pool.segment_name].after_allocate(
                            before.spec_payload_layout(),
                        ),
                    )
                    &&& after.reference_counters() == (if pool.bucket_size > 0
                        && spec_bucket_index(pool, offset.spec_value())
                        < reclaimed.reference_counters.len() {
                        reclaimed.reference_counters.update(
                            spec_bucket_index(pool, offset.spec_value()),
                            1,
                        )
                    } else {
                        reclaimed.reference_counters
                    })
                },
            }
        }
    }

    /// Loans a sample: a bucket of the data segment that the publisher can
    /// fill and send. Fails when no bucket is free.
    pub fn loan(&mut self, host: &mut Host) -> (result: Result<SampleMut, LoanError>)
        requires
            old(self).wf(),
            old(host).wf(),
        ensures
            final(self).wf(),
            final(host).wf(),
            Self::has_loaned(old(self), final(self), old(host), final(host), result),
    {
        self.retrieve_returned_samples(host);
        proof {
            host.lemma_accessors();
        }
        let ghost before = *host;
        let allocated = self.data_segment.allocate(&mut host.segments, self.payload_layout);
        proof {
            host.lemma_accessors();
            host.lemma_transport_changed(&before);
        }
        match allocated {
            Ok(offset) => {
                if self.bucket_size > 0 {
                    let index: usize = offset.value() / self.bucket_size;
                    if index < self.sample_reference_counter.len() {
                        self.sample_reference_counter[index] = 1;
                    }
                }
                Ok(SampleMut { offset })
            },
            Err(shared_memory::ShmAllocationError::SegmentDoesNotExist) => Err(
                LoanError::InternalFailure,
            ),
            Err(_) => {
                proof {
                    assert(host.segments() =~= before.segments());
                }
                Err(LoanError::OutOfMemory)
            },
        }
    }

    /// Copies `bytes` to the front of the payload of a loaned sample.
    /// Returns false, and changes nothing, when the bytes do not fit the
    /// payload or when the sample does not lie in the data segment.
    pub fn write_payload(&self, host: &mut Host, sample: &SampleMut, bytes: &Vec<u8>) -> (written:
        bool)
        requires
            self.wf(),
            old(host).wf(),
        ensures
            final(host).wf(),
            Self::only_transport_changed(old(host), final(host)),
            final(host).connections() == old(host).connections(),
            written == (bytes@.len() <= self.spec_payload_layout().spec_size() && old(host).segments().contains_key(self.pool().segment_name) && old(host).segments()[self.pool().segment_name].in_bounds(sample.spec_offset(), bytes@.len())),
            !written ==> final(host).segments() == old(host).segments(),
            written ==> final(host).segments() == old(host).segments().insert(
                self.pool().segment_name,
                old(host).segments()[self.pool().segment_name].after_write(
                    sample.spec_offset(),
                    bytes@,
                ),
            ),
    {
        proof {
            host.lemma_accessors();
        }
        if bytes.len() > self.payload_layout.size() {
            return false;
        }
        let written = self.data_segment.write(&mut host.segments, sample.offset, bytes);
        proof {
            host.lemma_accessors();
            host.lemma_transport_changed(old(host));
        }
        written
    }

    /// True if `after` and `host_after` are the publisher and the host
    /// after the publisher `before` has sent the sample at `offset` on
    /// `host_before` to `recipients` subscribers: the publisher brings its
    /// connections up to date, takes back what the subscribers have
    /// returned, sends the sample over every connection and gives up its
    /// own reference to the sample.
    pub open spec fn has_sent(
        before: &Publisher,
        after: &Publisher,
        host_before: &Host,
        host_after: &Host,
        offset: usize,
        recipients: usize,
    ) -> bool {
        let pool = before.pool();
        let updated = before.updated(host_before);
        let reclaimed = reclaim_from(pool, updated.0, updated.1, before.spec_port_id(), 0);
        let delivered = deliver_from(
            pool,
            updated.0,
            reclaimed,
            before.spec_port_id(),
            offset,
            0,
            0,
        );
        &&& after.same_port(before)
        &&& after.table() == updated.0
        &&& Self::only_transport_changed(host_before, host_after)
        &&& after.transport(host_after) == release_sample(pool, delivered.0, offset)
        &&& recipients == delivered.1
    }

    /// Sends a loaned sample to all subscribers that the publisher is
    /// connected to. Returns the number of subscribers whose connection
    /// took the sample.
    pub fn send(&mut self, host: &mut Host, sample: SampleMut) -> (recipients: usize)
        requires
            old(self).wf(),
            old(host).wf(),
        ensures
            final(self).wf(),
            final(host).wf(),
            Self::has_sent(
                old(self),
                final(self),
                old(host),
                final(host),
                sample.spec_offset(),
                recipients,
            ),
    {
        self.update_connections(host);
        self.retrieve_returned_samples(host);
        let recipients = self.deliver_sample(host, sample.offset.value());
        self.release_sample(host, sample.offset.value());
        recipients
    }

    /// The transport after a publisher with the given table has tried to
    /// loan a sample for a value of `layout`, and the offset of the sample
    /// or the reason for which there is none: the publisher takes back
    /// what the subscribers have returned and then takes the next free
    /// bucket of its data segment, to which it holds the only reference.
    pub open spec fn loaned(
        pool: Pool,
        table: Seq<Option<u128>>,
        transport: Transport,
        publisher_id: u128,
        layout: Layout,
    ) -> (Transport, Result<usize, LoanError>) {
        let reclaimed = reclaim_from(pool, table, transport, publisher_id, 0);
        if !reclaimed.segments.contains_key(pool.segment_name) {
            (reclaimed, Err(LoanError::InternalFailure))
        } else {
            match reclaimed.segments[pool.segment_name].allocate_result(layout) {
                Err(_) => (reclaimed, Err(LoanError::OutOfMemory)),
                Ok(offset) => (
                    Transport {
                        connections: reclaimed.connections,
                        segments: reclaimed.segments.insert(
                            pool.segment_name,
                            reclaimed.segments[pool.segment_name].after_allocate(layout),
                        ),
                        reference_counters: if pool.bucket_size > 0 && spec_bucket_index(
                            pool,
                            offset.spec_value(),
                        ) < reclaimed.reference_counters.len() {
                            reclaimed.reference_counters.update(
                                spec_bucket_index(pool, offset.spec_value()),
                                1,
                            )
                        } else {
                            reclaimed.reference_counters
                        },
                    },
                    Ok(offset.spec_value()),
                ),
            }
        }
    }

    /// The transport after a publisher with the given table, which is up
    /// to date, has sent the sample at `offset`, and the number of
    /// subscribers whose connection took the sample: the publisher takes
    /// back what the subscribers have returned, sends the sample over
    /// every connection and gives up its own reference to the sample.
    pub open spec fn sent(
        pool: Pool,
        table: Seq<Option<u128>>,
        transport: Transport,
        publisher_id: u128,
        offset: usize,
    ) -> (Transport, nat) {
        let reclaimed = reclaim_from(pool, table, transport, publisher_id, 0);
        let delivered = deliver_from(pool, table, reclaimed, publisher_id, offset, 0, 0);
        (release_sample(pool, delivered.0, offset), delivered.1)
    }

    /// The table of the publisher and the transport after the publisher
    /// has loaned a sample on `host`, copied `value` into it and sent it,
    /// and the number of subscribers whose connection took the sample, or
    /// the reason for which no sample could be loaned. The connections are
    /// brought up to date after the sample was loaned and written.
    pub open spec fn copy_sent(before: &Publisher, host: &Host, value: Seq<u8>) -> (
        Seq<Option<u128>>,
        Transport,
        Result<nat, LoanError>,
    ) {
        let pool = before.pool();
        let loaned = Self::loaned(
            pool,
            before.table(),
            before.transport(host),
            before.spec_port_id(),
            before.spec_payload_layout(),
        );
        match loaned.1 {
            Err(error) => (before.table(), loaned.0, Err(error)),
            Ok(offset) => {
                let written = Transport {
                    segments: Self::written(loaned.0.segments, pool, offset, value),
                    ..loaned.0
                };
                let updated = if before.sees_change(host) {
                    populate_from(
                        pool,
                        before.table(),
                        host.registry(before.spec_service_id(), PortKind::Subscriber),
                        written,
                        before.spec_port_id(),
                        before.settings(),
                        0,
                    )
                } else {
                    (before.table(), written)
                };
                let sent = Self::sent(pool, updated.0, updated.1, before.spec_port_id(), offset);
                (updated.0, sent.0, Ok(sent.1))
            },
        }
    }

    /// Loans a sample, copies `value` into it and sends it. Returns the
    /// number of subscribers whose connection took the sample.
    pub fn send_copy(&mut self, host: &mut Host, value: &Vec<u8>) -> (result: Result<
        usize,
        LoanError,
    >)
        requires
            old(self).wf(),
            old(host).wf(),
        ensures
            final(self).wf(),
            final(host).wf(),
            final(self).same_port(old(self)),
            Self::only_transport_changed(old(host), final(host)),
            value@.len() > old(self).spec_payload_layout().spec_size() ==> result == Err::<
                usize,
                _,
            >(LoanError::ExceedsPayloadSize) && final(self).transport(final(host)) == old(self).transport(old(host)) && final(self).table() == old(self).table(),
            value@.len() <= old(self).spec_payload_layout().spec_size() ==> final(self).table()
                == Self::copy_sent(old(self), old(host), value@).0 && final(self).transport(
                final(host),
            ) == Self::copy_sent(old(self), old(host), value@).1 && match result {
                Ok(recipients) => Ok::<nat, LoanError>(recipients as nat) == Self::copy_sent(
                    old(self),
                    old(host),
                    value@,
                ).2,
                Err(error) => Err::<nat, LoanError>(error) == Self::copy_sent(
                    old(self),
                    old(host),
                    value@,
                ).2,
            },
    {
        if value.len() > self.payload_layout.size() {
            return Err(LoanError::ExceedsPayloadSize);
        }
        let ghost before = *self;
        let loan = self.loan(host);
        let ghost loaned = *self;
        let ghost host_loaned = *host;
        match loan {
            Err(error) => Err(error),
            Ok(sample) => {
                let ghost offset = sample.spec_offset();
                let _ = self.write_payload(host, &sample, value);
                let ghost written = *host;
                let recipients = self.send(host, sample);
                proof {
                    let expected = Self::loaned(
                        before.pool(),
                        before.table(),
                        before.transport(old(host)),
                        before.spec_port_id(),
                        before.spec_payload_layout(),
                    );
                    assert(expected.1 == Ok::<usize, LoanError>(offset));
                    assert(loaned.transport(&host_loaned) == expected.0);
                    assert(loaned.transport(&written) == Transport {
                        segments: Self::written(expected.0.segments, before.pool(), offset, value@),
                        ..expected.0
                    });
                    assert(loaned.sees_change(&written) == before.sees_change(old(host)));
                }
                Ok(recipients)
            },
        }
    }

    /// The segments after `bytes` were written at `offset` into the data
    /// segment of the given pool, when they lie in it.
    pub open spec fn written(
        segments: Map<Seq<u8>, SegmentState>,
        pool: Pool,
        offset: usize,
        bytes: Seq<u8>,
    ) -> Map<Seq<u8>, SegmentState> {
        if segments.contains_key(pool.segment_name) && segments[pool.segment_name].in_bounds(
            offset,
            bytes.len(),
        ) {
            segments.insert(
                pool.segment_name,
                segments[pool.segment_name].after_write(offset, bytes),
            )
        } else {
            segments
        }
    }

    /// True if `after` is the host after `publisher` was created on
    /// `before` for a service with the given settings.
    pub open spec fn has_created(
        before: &Host,
        after: &Host,
        publisher: &Publisher,
        static_config: &StaticConfig,
    ) -> bool {
        let name = publisher.spec_service_id();
        let layout = spec_payload_layout(static_config);
        let size = spec_segment_size(
            static_config,
            crate::memory::pool_allocator::spec_bucket_size(layout),
        ).unwrap();
        let segment = shared_memory::spec_fresh_segment(layout, size);
        let populated = populate_from(
            publisher.pool(),
            Seq::new(before.registry(name, PortKind::Subscriber).len(), |i: int| None::<u128>),
            before.registry(name, PortKind::Subscriber),
            Transport {
                connections: before.connections(),
                segments: before.segments().insert(spec_id_name(publisher.spec_port_id()), segment),
                reference_counters: Seq::new(segment.number_of_buckets as nat, |i: int| 0u64),
            },
            publisher.spec_port_id(),
            spec_connection_settings(static_config),
            0,
        );
        &&& publisher.wf()
        &&& publisher.spec_port_id() == before.ids().spec_next()
        &&& Some(publisher.spec_slot()) == before.next_free_slot(name, PortKind::Publisher)
        &&& publisher.settings() == spec_connection_settings(static_config)
        &&& publisher.spec_payload_layout() == layout
        &&& publisher.pool() == (Pool {
            segment_name: spec_id_name(publisher.spec_port_id()),
            bucket_size: segment.bucket_size,
        })
        &&& publisher.snapshot() == before.registry(name, PortKind::Subscriber)
        &&& publisher.observed_change_counter() == before.registry_container(
            name,
            PortKind::Subscriber,
        ).spec_change_counter()
        &&& publisher.table() == populated.0
        &&& publisher.transport(after) == populated.1
        &&& after.has_registry(name, PortKind::Publisher)
        &&& publisher.spec_slot() < before.registry(name, PortKind::Publisher).len()
        &&& publisher.table().len() == before.registry(name, PortKind::Subscriber).len()
        &&& after.registry(name, PortKind::Subscriber) == before.registry(name, PortKind::Subscriber)
        &&& after.change_counter(name, PortKind::Publisher) == before.change_counter(
            name,
            PortKind::Publisher,
        ).wrapping_add(1)
        &&& after.registry(name, PortKind::Publisher) == before.registry(
            name,
            PortKind::Publisher,
        ).update(publisher.spec_slot() as int, Some(publisher.spec_port_id()))
        &&& after.registry_container(name, PortKind::Subscriber) == before.registry_container(
            name,
            PortKind::Subscriber,
        )
        &&& after.holders(name) == before.holders(name) + 1
        &&& after.settings(name) == before.settings(name)
        &&& after.same_services_except(before, name)
        &&& after.file_system() == before.file_system()
        &&& after.events() == before.events()
        &&& after.same_layout(before)
    }

    /// Creates a publisher of the service with the given id and
    /// settings: its data segment and its connections are set up first and
    /// its identity is registered last.
    pub(crate) fn new(host: &mut Host, service_id: &ServiceName, static_config: &StaticConfig) -> (result:
        Result<Publisher, PublisherCreateError>)
        requires
            old(host).wf(),
        ensures
            final(host).wf(),
            final(host).ids().spec_counter() == old(host).ids().spec_counter().wrapping_add(1),
            result.is_ok() == create_result(old(host), service_id@, static_config).is_ok(),
            result.is_err() ==> Err::<(), _>(result.unwrap_err()) == create_result(
                old(host),
                service_id@,
                static_config,
            ) && final(host).services() == old(host).services() && final(host).events() == old(host).events() && final(host).file_system() == old(host).file_system() && final(host).segments() == old(host).segments() && final(host).connections() == old(host).connections(),
            result.is_ok() ==> result.unwrap().spec_service_id() == service_id@
                && Self::has_created(old(host), final(host), &result.unwrap(), static_config),
    {
        let port_id: u128 = host.next_port_id();
        let subscriber_list_state = match host.port_snapshot(service_id, PortKind::Subscriber) {
            Some(state) => state,
            None => {
                return Err(PublisherCreateError::ServiceDoesNotExist);
            },
        };
        if !host.can_take_port(service_id, PortKind::Publisher) {
            proof {
                host.lemma_registry(service_id@, PortKind::Publisher);
            }
            if host.has_free_port_slot(service_id, PortKind::Publisher) {
                return Err(PublisherCreateError::ServiceDoesNotExist);
            } else {
                if host.can_have_more_holders(service_id) {
                    return Err(PublisherCreateError::ExceedsMaxSupportedPublishers);
                } else {
                    return Err(PublisherCreateError::ServiceDoesNotExist);
                }
            }
        }
        let payload_layout = match Layout::from_size_align(
            static_config.type_size,
            static_config.type_alignment,
        ) {
            Some(payload_layout) => payload_layout,
            None => {
                return Err(PublisherCreateError::UnableToCreateDataSegment);
            },
        };
        let bucket_size: usize = match aligned_size(payload_layout) {
            Some(bucket_size) => bucket_size,
            None => {
                return Err(PublisherCreateError::UnableToCreateDataSegment);
            },
        };
        let size: usize = match segment_size(static_config, bucket_size) {
            Some(size) => size,
            None => {
                return Err(PublisherCreateError::UnableToCreateDataSegment);
            },
        };
        proof {
            host.lemma_accessors();
        }
        let ghost started = *host;
        let segment_name = id_name(port_id);
        let data_segment = match shared_memory::Builder::new(&segment_name).size(size).create(
            &mut host.segments,
            payload_layout,
        ) {
            Ok(data_segment) => data_segment,
            Err(_) => {
                proof {
                    host.lemma_accessors();
                    host.lemma_transport_changed(&started);
                }
                return Err(PublisherCreateError::UnableToCreateDataSegment);
            },
        };
        proof {
            host.lemma_accessors();
            host.lemma_transport_changed(&started);
        }
        let (number_of_buckets, created_bucket_size) = match data_segment.buckets(&host.segments) {
            Some(buckets) => buckets,
            None => (0, bucket_size),
        };
        let sample_reference_counter: Vec<u64> = vec![0u64; number_of_buckets as usize];
        assert(sample_reference_counter@ =~= Seq::new(number_of_buckets as nat, |i: int| 0u64));
        let mut new_self = Self {
            port_id,
            service_id: service_id.clone(),
            sample_reference_counter,
            data_segment,
            subscriber_connections: SubscriberConnections::new(
                subscriber_list_state.capacity(),
                port_id,
                connection_settings(static_config),
            ),
            subscriber_list_state,
            payload_layout,
            bucket_size: created_bucket_size,
            dynamic_config_guard: UniqueIndex::placeholder(),
        };
        new_self.populate_subscriber_channels(host);

        // !MUST! be the last task otherwise a publisher is added to the dynamic
        // config without the creation of all required resources
        match host.take_port(service_id, PortKind::Publisher, port_id) {
            Some(unique_index) => {
                new_self.dynamic_config_guard = unique_index;
                Ok(new_self)
            },
            None => Err(PublisherCreateError::ExceedsMaxSupportedPublishers),
        }
    }

    /// The transport after a publisher with the given table has closed
    /// its connections of the slots from `index` on, taking back first
    /// what the subscribers had returned.
    pub open spec fn closed_from(
        pool: Pool,
        table: Seq<Option<u128>>,
        transport: Transport,
        publisher_id: u128,
        index: int,
    ) -> Transport
        decreases table.len() - index,
    {
        if index < 0 || index >= table.len() {
            transport
        } else {
            Self::closed_from(
                pool,
                table,
                match table[index] {
                    Some(subscriber_id) => {
                        let name = spec_connection_name(publisher_id, subscriber_id);
                        let drained = drain(pool, transport, name);
                        Transport {
                            connections: after_close(drained.connections, name, Side::Sender),
                            ..drained
                        }
                    },
                    None => transport,
                },
                publisher_id,
                index + 1,
            )
        }
    }

    /// Closes the publisher: its connections are closed, its data segment
    /// is removed, its identity leaves the registry of the service and the
    /// service loses a holder. Returns true if the service was taken down.
    pub fn close(self, host: &mut Host) -> (taken_down: bool)
        requires
            self.wf(),
            old(host).wf(),
        ensures
            final(host).wf(),
            final(host).events() == old(host).events(),
            final(host).ids() == old(host).ids(),
            final(host).same_layout(old(host)),
            final(host).same_services_except(old(host), self.spec_service_id()),
            final(host).connections() == Self::closed_from(
                self.pool(),
                self.table(),
                self.transport(old(host)),
                self.spec_port_id(),
                0,
            ).connections,
            final(host).segments() == Self::closed_from(
                self.pool(),
                self.table(),
                self.transport(old(host)),
                self.spec_port_id(),
                0,
            ).segments.remove(self.pool().segment_name),
            taken_down == (old(host).has_service(self.spec_service_id()) && old(host).holders(
                self.spec_service_id(),
            ) == 1),
            taken_down ==> !final(host).has_service(self.spec_service_id()),
            old(host).has_service(self.spec_service_id()) && !taken_down ==> final(host).has_service(self.spec_service_id()) && final(host).holders(
                self.spec_service_id(),
            ) == old(host).holders(self.spec_service_id()) - 1,
            Host::has_dropped_port(
                old(host),
                final(host),
                self.spec_service_id(),
                PortKind::Publisher,
                self.spec_slot(),
                taken_down,
            ),
    {
        let mut publisher = self;
        let ghost pool = self.pool();
        let ghost table = self.table();
        let ghost publisher_id = self.port_id;
        let mut i: usize = 0;
        while i < publisher.subscriber_connections.len()
            invariant
                publisher.wf(),
                host.wf(),
                publisher.same_port(&self),
                pool == self.pool(),
                table == self.table(),
                publisher_id == self.spec_port_id(),
                publisher.table().len() == table.len(),
                Self::only_transport_changed(old(host), host),
                i <= table.len(),
                forall|k: int| i <= k < table.len() ==> publisher.table()[k] == table[k],
                Self::closed_from(pool, table, publisher.transport(host), publisher_id, i as int)
                    == Self::closed_from(pool, table, self.transport(old(host)), publisher_id, 0),
            decreases table.len() - i,
        {
            if publisher.subscriber_connections.get(i).is_some() {
                publisher.drain_connection(host, i);
            }
            proof {
                host.lemma_accessors();
            }
            let ghost before = *host;
            publisher.subscriber_connections.remove(i, &mut host.connections);
            proof {
                host.lemma_accessors();
                host.lemma_transport_changed(&before);
            }
            i += 1;
        }
        proof {
            host.lemma_accessors();
        }
        let ghost before = *host;
        publisher.data_segment.close(&mut host.segments);
        proof {
            host.lemma_accessors();
            host.lemma_transport_changed(&before);
        }
        host.drop_port(
            &publisher.service_id,
            PortKind::Publisher,
            publisher.dynamic_config_guard,
        )
    }
}

/// The layout of the payload of a sample of a service with the given
/// settings.
pub open spec fn spec_payload_layout(static_config: &StaticConfig) -> Layout {
    Layout::spec_from_size_align(static_config.type_size, static_config.type_alignment)
}

/// What the creation of a publisher of the service with the given id
/// and settings comes to.
pub open spec fn create_result(host: &Host, service_id: Seq<u8>, static_config: &StaticConfig) -> Result<
    (),
    PublisherCreateError,
> {
    if !host.has_registry(service_id, PortKind::Publisher) {
        Err(PublisherCreateError::ServiceDoesNotExist)
    } else if !spec_can_increment(host.holders(service_id)) {
        Err(PublisherCreateError::ServiceDoesNotExist)
    } else if host.next_free_slot(service_id, PortKind::Publisher).is_none() {
        Err(PublisherCreateError::ExceedsMaxSupportedPublishers)
    } else if static_config.type_alignment == 0 {
        Err(PublisherCreateError::UnableToCreateDataSegment)
    } else {
        let layout = spec_payload_layout(static_config);
        let bucket_size = crate::memory::pool_allocator::spec_bucket_size(layout);
        if bucket_size > usize::MAX {
            Err(PublisherCreateError::UnableToCreateDataSegment)
        } else {
            match spec_segment_size(static_config, bucket_size) {
                None => Err(PublisherCreateError::UnableToCreateDataSegment),
                Some(size) => if shared_memory::spec_create_result(
                    host.segments(),
                    spec_id_name(host.ids().spec_next()),
                    size,
                    layout,
                ).is_err() {
                    Err(PublisherCreateError::UnableToCreateDataSegment)
                } else {
                    Ok(())
                },
            }
        }
    }
}

/// Returns the size of a value of `layout` rounded up to its alignment,
/// or [`None`] when that size does not fit the machine.
fn aligned_size(layout: Layout) -> (size: Option<usize>)
    requires
        layout.wf(),
    ensures
        size.is_some() == (crate::memory::pool_allocator::spec_bucket_size(layout) <= usize::MAX),
        size.is_some() ==> size.unwrap() == crate::memory::pool_allocator::spec_bucket_size(layout),
{
    let remainder: usize = layout.size() % layout.align();
    if remainder == 0 {
        Some(layout.size())
    } else {
        let padding: usize = layout.align() - remainder;
        if padding > usize::MAX - layout.size() {
            None
        } else {
            Some(layout.size() + padding)
        }
    }
}

/// Returns the product of the two numbers, or [`None`] when it does not
/// fit the machine.
fn checked_product(first: usize, second: usize) -> (product: Option<usize>)
    ensures
        product.is_some() == (first * second <= usize::MAX),
        product.is_some() ==> product.unwrap() == first * second,
{
    if second == 0 {
        assert(first * second == 0) by (nonlinear_arith)
            requires
                second == 0,
        ;
        return Some(0);
    }
    let limit: usize = usize::MAX / second;
    if first > limit {
        assert(first * second > usize::MAX) by (nonlinear_arith)
            requires
                second > 0,
                first > usize::MAX as int / second as int,
        ;
        None
    } else {
        assert(first * second <= usize::MAX) by (nonlinear_arith)
            requires
                second > 0,
                first <= usize::MAX as int / second as int,
        ;
        Some(first * second)
    }
}

/// Returns the number of bytes of the data segment of a publisher of a
/// service with the given settings, or [`None`] when the number does not
/// fit the machine.
fn segment_size(static_config: &StaticConfig, bucket_size: usize) -> (size: Option<usize>)
    ensures
        size == spec_segment_size(static_config, bucket_size as int),
{
    let buffer: usize = static_config.subscriber_max_buffer_size;
    let history: usize = static_config.history_size;
    let borrowed: usize = static_config.subscriber_max_borrowed_samples;
    if history > usize::MAX - buffer {
        return None;
    }
    if borrowed > usize::MAX - buffer - history {
        return None;
    }
    if EXTRA_SAMPLES > usize::MAX - buffer - history - borrowed {
        return None;
    }
    let samples: usize = buffer + history + borrowed + EXTRA_SAMPLES;
    let buckets: usize = match checked_product(static_config.max_publishers, samples) {
        Some(buckets) => buckets,
        None => {
            return None;
        },
    };
    checked_product(buckets, bucket_size)
}

} // verus!
