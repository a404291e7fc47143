//! The bookkeeping of the buckets of a publisher, stated and proved: a
//! bucket lies in the pool exactly while nobody refers to it, and the
//! references that the publisher counts for a bucket are exactly the ones
//! that exist: the samples that the publisher holds itself, the offsets
//! that wait in its connections, and the samples that its subscribers have
//! borrowed or returned.

use crate::cal::shared_memory::{lemma_fresh_segment, spec_fresh_segment};
use crate::cal::zero_copy_connection::{after_close, ConnectionState, Side};
use crate::elementary::allocator::Layout;
use crate::host::{Host, PortKind};
use crate::memory::pool_allocator::spec_bucket_size;
use crate::port::details::publisher_connections::{
    after_connect,
    connect_result,
    ConnectionSettings,
};
use crate::port::port_identifiers::{
    lemma_connection_name_is_injective,
    spec_connection_name,
    spec_id_name,
};
use crate::port::publisher::{
    borrow_sample,
    create_result,
    deliver_from,
    drain,
    is_referenced,
    populate_from,
    reclaim_from,
    release_sample,
    returned,
    spec_bucket_index,
    spec_payload_layout,
    spec_segment_size,
    LoanError,
    Pool,
    Publisher,
    SampleMut,
    Transport,
};
use crate::cal::shared_memory::SegmentState;
use crate::port::details::publisher_connections::{after_connection, connection_result};
use crate::port::subscriber::{
    receive_from,
    spec_connection_settings,
    spec_slot_after,
    ReceiveError,
    Sample,
    Subscriber,
};
use crate::port::DegrationCallback;
use crate::service::static_config::publish_subscribe::StaticConfig;
use vstd::prelude::*;

verus! {

/// The number of offsets among `offsets` that lie in the bucket with the
/// given index.
pub open spec fn references_in(pool: Pool, offsets: Seq<usize>, bucket: int) -> nat
    decreases offsets.len(),
{
    if offsets.len() == 0 {
        0
    } else {
        references_in(pool, offsets.drop_last(), bucket) + (if spec_bucket_index(
            pool,
            offsets.last(),
        ) == bucket {
            1nat
        } else {
            0nat
        })
    }
}

/// The number of references to the bucket with the given index that a
/// connection holds: the offsets that wait in its two channels and the ones
/// that the receiver has borrowed.
pub open spec fn connection_references(pool: Pool, connection: ConnectionState, bucket: int) -> nat {
    references_in(pool, connection.submission, bucket) + references_in(
        pool,
        connection.retrieve,
        bucket,
    ) + references_in(pool, connection.borrowed, bucket)
}

/// The number of references to the bucket with the given index that the
/// connections of the slots from `index` on hold.
pub open spec fn table_references(
    pool: Pool,
    table: Seq<Option<u128>>,
    connections: Map<Seq<u8>, ConnectionState>,
    publisher_id: u128,
    bucket: int,
    index: int,
) -> nat
    decreases table.len() - index,
{
    if index < 0 || index >= table.len() {
        0
    } else {
        slot_references(pool, table, connections, publisher_id, bucket, index) + table_references(
            pool,
            table,
            connections,
            publisher_id,
            bucket,
            index + 1,
        )
    }
}

/// The number of references to the bucket with the given index that the
/// connection of the given slot holds.
pub open spec fn slot_references(
    pool: Pool,
    table: Seq<Option<u128>>,
    connections: Map<Seq<u8>, ConnectionState>,
    publisher_id: u128,
    bucket: int,
    index: int,
) -> nat {
    match table[index] {
        Some(subscriber_id) => {
            let name = spec_connection_name(publisher_id, subscriber_id);
            if connections.contains_key(name) {
                connection_references(pool, connections[name], bucket)
            } else {
                0
            }
        },
        None => 0,
    }
}

/// True if every offset among `offsets` lies in one of the first `buckets`
/// buckets.
pub open spec fn lie_in_buckets(pool: Pool, offsets: Seq<usize>, buckets: nat) -> bool {
    forall|i: int|
        0 <= i < offsets.len() ==> 0 <= spec_bucket_index(pool, #[trigger] offsets[i]) < buckets
}

/// True if no subscriber occupies two slots of the table.
pub open spec fn slots_are_distinct(table: Seq<Option<u128>>) -> bool {
    forall|i: int, j: int|
        0 <= i < table.len() && 0 <= j < table.len() && i != j && table[i].is_some()
            ==> #[trigger] table[i] != #[trigger] table[j]
}

/// True if the offsets in the connections of the table lie in the first
/// `buckets` buckets.
pub open spec fn connections_lie_in_buckets(
    pool: Pool,
    table: Seq<Option<u128>>,
    connections: Map<Seq<u8>, ConnectionState>,
    publisher_id: u128,
    buckets: nat,
) -> bool {
    forall|i: int|
        0 <= i < table.len() && (#[trigger] table[i]).is_some() && connections.contains_key(
            spec_connection_name(publisher_id, table[i].unwrap()),
        ) ==> {
            let connection = connections[spec_connection_name(publisher_id, table[i].unwrap())];
            &&& lie_in_buckets(pool, connection.submission, buckets)
            &&& lie_in_buckets(pool, connection.retrieve, buckets)
            &&& lie_in_buckets(pool, connection.borrowed, buckets)
        }
}

/// The bookkeeping of a publisher is in order: the publisher counts for
/// every bucket exactly the references that exist, which are the samples
/// that it holds itself (`held`) and the offsets in its connections, and a
/// bucket lies in the pool exactly while nobody refers to it.
pub open spec fn accounted(
    pool: Pool,
    table: Seq<Option<u128>>,
    transport: Transport,
    publisher_id: u128,
    held: Seq<usize>,
) -> bool {
    let buckets = transport.reference_counters.len();
    &&& pool.bucket_size > 0
    &&& transport.segments.contains_key(pool.segment_name)
    &&& transport.segments[pool.segment_name].wf()
    &&& transport.segments[pool.segment_name].bucket_size == pool.bucket_size
    &&& transport.segments[pool.segment_name].number_of_buckets == buckets
    &&& slots_are_distinct(table)
    &&& lie_in_buckets(pool, held, buckets)
    &&& connections_lie_in_buckets(pool, table, transport.connections, publisher_id, buckets)
    &&& (forall|bucket: int|
        0 <= bucket < buckets ==> #[trigger] transport.reference_counters[bucket] == references_in(
            pool,
            held,
            bucket,
        ) + table_references(pool, table, transport.connections, publisher_id, bucket, 0))
    &&& (forall|bucket: int|
        0 <= bucket < buckets ==> (transport.segments[pool.segment_name].is_allocated(bucket)
            <==> #[trigger] transport.reference_counters[bucket] > 0))
}

/// An offset that is added counts for its bucket.
pub proof fn lemma_references_push(pool: Pool, offsets: Seq<usize>, offset: usize, bucket: int)
    ensures
        references_in(pool, offsets.push(offset), bucket) == references_in(pool, offsets, bucket)
            + (if spec_bucket_index(pool, offset) == bucket {
            1nat
        } else {
            0nat
        }),
{
    assert(offsets.push(offset).drop_last() =~= offsets);
}

/// An offset that is taken away counts no more for its bucket.
pub proof fn lemma_references_remove(pool: Pool, offsets: Seq<usize>, index: int, bucket: int)
    requires
        0 <= index < offsets.len(),
    ensures
        references_in(pool, offsets.remove(index), bucket) + (if spec_bucket_index(
            pool,
            offsets[index],
        ) == bucket {
            1nat
        } else {
            0nat
        }) == references_in(pool, offsets, bucket),
    decreases offsets.len(),
{
    if index == offsets.len() - 1 {
        assert(offsets.remove(index) =~= offsets.drop_last());
    } else {
        lemma_references_remove(pool, offsets.drop_last(), index, bucket);
        assert(offsets.remove(index).drop_last() =~= offsets.drop_last().remove(index));
        assert(offsets.remove(index).last() == offsets.last());
    }
}

/// Offsets that lie in buckets still do after one of them was taken away
/// or one that lies in a bucket was added.
pub proof fn lemma_lie_in_buckets(pool: Pool, offsets: Seq<usize>, buckets: nat, index: int, offset: usize)
    requires
        lie_in_buckets(pool, offsets, buckets),
    ensures
        0 <= index < offsets.len() ==> lie_in_buckets(pool, offsets.remove(index), buckets),
        0 <= spec_bucket_index(pool, offset) < buckets ==> lie_in_buckets(
            pool,
            offsets.push(offset),
            buckets,
        ),
        offsets.len() > 0 ==> lie_in_buckets(pool, offsets.drop_first(), buckets)
            && lie_in_buckets(pool, offsets.drop_last(), buckets),
{
    if 0 <= index < offsets.len() {
        let shorter = offsets.remove(index);
        assert forall|i: int| 0 <= i < shorter.len() implies 0 <= spec_bucket_index(
            pool,
            #[trigger] shorter[i],
        ) < buckets by {
            if i < index {
                assert(shorter[i] == offsets[i]);
            } else {
                assert(shorter[i] == offsets[i + 1]);
            }
        }
    }
    if 0 <= spec_bucket_index(pool, offset) < buckets {
        let longer = offsets.push(offset);
        assert forall|i: int| 0 <= i < longer.len() implies 0 <= spec_bucket_index(
            pool,
            #[trigger] longer[i],
        ) < buckets by {
            if i < offsets.len() {
                assert(longer[i] == offsets[i]);
            }
        }
    }
    if offsets.len() > 0 {
        let tail = offsets.drop_first();
        assert forall|i: int| 0 <= i < tail.len() implies 0 <= spec_bucket_index(
            pool,
            #[trigger] tail[i],
        ) < buckets by {
            assert(tail[i] == offsets[i + 1]);
        }
        let front = offsets.drop_last();
        assert forall|i: int| 0 <= i < front.len() implies 0 <= spec_bucket_index(
            pool,
            #[trigger] front[i],
        ) < buckets by {
            assert(front[i] == offsets[i]);
        }
    }
}

/// The references of the connections of a table change by what the one
/// connection changes that is replaced: the connections of the other slots
/// carry other names.
pub proof fn lemma_table_references_replace(
    pool: Pool,
    table: Seq<Option<u128>>,
    connections: Map<Seq<u8>, ConnectionState>,
    publisher_id: u128,
    bucket: int,
    slot: int,
    replacement: ConnectionState,
    index: int,
)
    requires
        slots_are_distinct(table),
        0 <= slot < table.len(),
        table[slot].is_some(),
        0 <= index <= table.len(),
    ensures
        index > slot ==> table_references(
            pool,
            table,
            connections.insert(
                spec_connection_name(publisher_id, table[slot].unwrap()),
                replacement,
            ),
            publisher_id,
            bucket,
            index,
        ) == table_references(pool, table, connections, publisher_id, bucket, index),
        index <= slot ==> table_references(
            pool,
            table,
            connections.insert(
                spec_connection_name(publisher_id, table[slot].unwrap()),
                replacement,
            ),
            publisher_id,
            bucket,
            index,
        ) + slot_references(pool, table, connections, publisher_id, bucket, slot)
            == table_references(pool, table, connections, publisher_id, bucket, index)
            + connection_references(pool, replacement, bucket),
    decreases table.len() - index,
{
    let name = spec_connection_name(publisher_id, table[slot].unwrap());
    let replaced = connections.insert(name, replacement);
    if index < table.len() {
        lemma_table_references_replace(
            pool,
            table,
            connections,
            publisher_id,
            bucket,
            slot,
            replacement,
            index + 1,
        );
        if index != slot {
            match table[index] {
                Some(subscriber_id) => {
                    let other = spec_connection_name(publisher_id, subscriber_id);
                    assert(table[index] != table[slot]);
                    if other == name {
                        lemma_connection_name_is_injective(
                            publisher_id,
                            subscriber_id,
                            publisher_id,
                            table[slot].unwrap(),
                        );
                    }
                    assert(replaced.contains_key(other) == connections.contains_key(other));
                    if connections.contains_key(other) {
                        assert(replaced[other] == connections[other]);
                    }
                },
                None => {},
            }
            assert(slot_references(pool, table, replaced, publisher_id, bucket, index)
                == slot_references(pool, table, connections, publisher_id, bucket, index));
        } else {
            assert(slot_references(pool, table, replaced, publisher_id, bucket, slot)
                == connection_references(pool, replacement, bucket));
        }
    }
}

/// The bookkeeping stays in order when the publisher gives up one of the
/// samples that it holds.
pub proof fn lemma_release_keeps_account(
    pool: Pool,
    table: Seq<Option<u128>>,
    transport: Transport,
    publisher_id: u128,
    held: Seq<usize>,
    index: int,
)
    requires
        accounted(pool, table, transport, publisher_id, held),
        0 <= index < held.len(),
    ensures
        is_referenced(pool, transport, held[index]),
        accounted(
            pool,
            table,
            release_sample(pool, transport, held[index]),
            publisher_id,
            held.remove(index),
        ),
{
    let offset = held[index];
    let bucket = spec_bucket_index(pool, offset);
    let buckets = transport.reference_counters.len();
    let after = release_sample(pool, transport, offset);
    let segment = transport.segments[pool.segment_name];
    lemma_references_remove(pool, held, index, bucket);
    assert(transport.reference_counters[bucket] > 0);
    lemma_lie_in_buckets(pool, held, buckets, index, offset);
    assert(segment.bucket_of(offset) == bucket);
    assert(segment.is_allocated(bucket));
    if after.reference_counters[bucket] == 0 {
        segment.lemma_deallocate(offset);
        assert(after.segments[pool.segment_name] == segment.after_deallocate(offset));
    } else {
        assert(after.segments[pool.segment_name] == segment);
    }
    assert forall|other: int| 0 <= other < buckets implies #[trigger] after.reference_counters[other]
        == references_in(pool, held.remove(index), other) + table_references(
        pool,
        table,
        after.connections,
        publisher_id,
        other,
        0,
    ) by {
        lemma_references_remove(pool, held, index, other);
        assert(transport.reference_counters[other] == references_in(pool, held, other)
            + table_references(pool, table, transport.connections, publisher_id, other, 0));
    }
    assert forall|other: int| 0 <= other < buckets implies (
    after.segments[pool.segment_name].is_allocated(other)
        <==> #[trigger] after.reference_counters[other] > 0) by {
        assert(segment.is_allocated(other) <==> transport.reference_counters[other] > 0);
    }
}

/// The bookkeeping stays in order when one connection of the table is
/// replaced, and with it the counters and the samples that the publisher
/// holds, as long as for every bucket the counter still is the number of
/// references and is zero only where it was.
pub proof fn lemma_replace_keeps_account(
    pool: Pool,
    table: Seq<Option<u128>>,
    transport: Transport,
    publisher_id: u128,
    held: Seq<usize>,
    slot: int,
    replacement: ConnectionState,
    counters: Seq<u64>,
    kept: Seq<usize>,
)
    requires
        accounted(pool, table, transport, publisher_id, held),
        0 <= slot < table.len(),
        table[slot].is_some(),
        transport.connections.contains_key(
            spec_connection_name(publisher_id, table[slot].unwrap()),
        ),
        counters.len() == transport.reference_counters.len(),
        lie_in_buckets(pool, kept, counters.len()),
        lie_in_buckets(pool, replacement.submission, counters.len()),
        lie_in_buckets(pool, replacement.retrieve, counters.len()),
        lie_in_buckets(pool, replacement.borrowed, counters.len()),
        forall|bucket: int|
            0 <= bucket < counters.len() ==> #[trigger] counters[bucket] + connection_references(
                pool,
                transport.connections[spec_connection_name(publisher_id, table[slot].unwrap())],
                bucket,
            ) + references_in(pool, held, bucket) == transport.reference_counters[bucket]
                + connection_references(pool, replacement, bucket) + references_in(
                pool,
                kept,
                bucket,
            ),
        forall|bucket: int|
            0 <= bucket < counters.len() ==> (#[trigger] counters[bucket] > 0
                <==> transport.reference_counters[bucket] > 0),
    ensures
        accounted(
            pool,
            table,
            Transport {
                connections: transport.connections.insert(
                    spec_connection_name(publisher_id, table[slot].unwrap()),
                    replacement,
                ),
                reference_counters: counters,
                segments: transport.segments,
            },
            publisher_id,
            kept,
        ),
{
    let name = spec_connection_name(publisher_id, table[slot].unwrap());
    let connections = transport.connections.insert(name, replacement);
    let after = Transport { connections, reference_counters: counters, segments: transport.segments };
    let buckets = counters.len();
    assert forall|i: int|
        0 <= i < table.len() && (#[trigger] table[i]).is_some() && connections.contains_key(
            spec_connection_name(publisher_id, table[i].unwrap()),
        ) implies {
        let connection = connections[spec_connection_name(publisher_id, table[i].unwrap())];
        &&& lie_in_buckets(pool, connection.submission, buckets)
        &&& lie_in_buckets(pool, connection.retrieve, buckets)
        &&& lie_in_buckets(pool, connection.borrowed, buckets)
    } by {
        let other = spec_connection_name(publisher_id, table[i].unwrap());
        if other != name {
            assert(transport.connections.contains_key(other));
            assert(connections[other] == transport.connections[other]);
        }
    }
    assert forall|bucket: int| 0 <= bucket < buckets implies #[trigger] after.reference_counters[bucket]
        == references_in(pool, kept, bucket) + table_references(
        pool,
        table,
        connections,
        publisher_id,
        bucket,
        0,
    ) by {
        lemma_table_references_replace(
            pool,
            table,
            transport.connections,
            publisher_id,
            bucket,
            slot,
            replacement,
            0,
        );
        assert(transport.reference_counters[bucket] == references_in(pool, held, bucket)
            + table_references(pool, table, transport.connections, publisher_id, bucket, 0));
        assert(counters[bucket] > 0 <==> transport.reference_counters[bucket] > 0);
    }
    assert forall|bucket: int| 0 <= bucket < buckets implies (
    after.segments[pool.segment_name].is_allocated(bucket)
        <==> #[trigger] after.reference_counters[bucket] > 0) by {
        assert(counters[bucket] > 0 <==> transport.reference_counters[bucket] > 0);
        assert(transport.segments[pool.segment_name].is_allocated(bucket)
            <==> transport.reference_counters[bucket] > 0);
    }
}

/// The bookkeeping stays in order when the publisher takes back what waits
/// in the retrieve channel of one of its connections.
pub proof fn lemma_drain_keeps_account(
    pool: Pool,
    table: Seq<Option<u128>>,
    transport: Transport,
    publisher_id: u128,
    held: Seq<usize>,
    slot: int,
)
    requires
        accounted(pool, table, transport, publisher_id, held),
        0 <= slot < table.len(),
        table[slot].is_some(),
    ensures
        accounted(
            pool,
            table,
            drain(pool, transport, spec_connection_name(publisher_id, table[slot].unwrap())),
            publisher_id,
            held,
        ),
        drain(
            pool,
            transport,
            spec_connection_name(publisher_id, table[slot].unwrap()),
        ).reference_counters.len() == transport.reference_counters.len(),
        forall|bucket: int|
            0 <= bucket < transport.reference_counters.len() ==> #[trigger] drain(
                pool,
                transport,
                spec_connection_name(publisher_id, table[slot].unwrap()),
            ).reference_counters[bucket] <= transport.reference_counters[bucket],
    decreases returned(transport, spec_connection_name(publisher_id, table[slot].unwrap())),
{
    let name = spec_connection_name(publisher_id, table[slot].unwrap());
    if returned(transport, name) > 0 {
        let connection = transport.connections[name];
        let offset = connection.retrieve[0];
        let reclaimed = connection.after_reclaim();
        let buckets = transport.reference_counters.len();
        let kept = held.push(offset);
        assert(connection.retrieve.drop_first() =~= connection.retrieve.remove(0));
        lemma_lie_in_buckets(pool, connection.retrieve, buckets, 0, offset);
        lemma_lie_in_buckets(pool, held, buckets, 0, offset);
        assert forall|bucket: int| 0 <= bucket < buckets implies #[trigger] transport.reference_counters[bucket]
            + connection_references(pool, connection, bucket) + references_in(pool, held, bucket)
            == transport.reference_counters[bucket] + connection_references(
            pool,
            reclaimed,
            bucket,
        ) + references_in(pool, kept, bucket) by {
            lemma_references_remove(pool, connection.retrieve, 0, bucket);
            lemma_references_push(pool, held, offset, bucket);
        }
        lemma_replace_keeps_account(
            pool,
            table,
            transport,
            publisher_id,
            held,
            slot,
            reclaimed,
            transport.reference_counters,
            kept,
        );
        let taken = Transport {
            connections: transport.connections.insert(name, reclaimed),
            ..transport
        };
        lemma_release_keeps_account(pool, table, taken, publisher_id, kept, held.len() as int);
        assert(kept.remove(held.len() as int) =~= held);
        let released = release_sample(pool, taken, offset);
        lemma_drain_keeps_account(pool, table, released, publisher_id, held, slot);
    }
}

/// The bookkeeping stays in order when the publisher takes back what waits
/// in the retrieve channels of its connections.
pub proof fn lemma_reclaim_keeps_account(
    pool: Pool,
    table: Seq<Option<u128>>,
    transport: Transport,
    publisher_id: u128,
    held: Seq<usize>,
    index: int,
)
    requires
        accounted(pool, table, transport, publisher_id, held),
        0 <= index,
    ensures
        accounted(
            pool,
            table,
            reclaim_from(pool, table, transport, publisher_id, index),
            publisher_id,
            held,
        ),
        reclaim_from(pool, table, transport, publisher_id, index).reference_counters.len()
            == transport.reference_counters.len(),
        forall|bucket: int|
            0 <= bucket < transport.reference_counters.len() ==> #[trigger] reclaim_from(
                pool,
                table,
                transport,
                publisher_id,
                index,
            ).reference_counters[bucket] <= transport.reference_counters[bucket],
    decreases table.len() - index,
{
    if index < table.len() {
        match table[index] {
            Some(subscriber_id) => {
                let name = spec_connection_name(publisher_id, subscriber_id);
                lemma_drain_keeps_account(pool, table, transport, publisher_id, held, index);
                let drained = drain(pool, transport, name);
                lemma_reclaim_keeps_account(pool, table, drained, publisher_id, held, index + 1);
                let after = reclaim_from(pool, table, transport, publisher_id, index);
                assert forall|bucket: int|
                    0 <= bucket < transport.reference_counters.len() implies #[trigger] after.reference_counters[bucket]
                    <= transport.reference_counters[bucket] by {
                    assert(drained.reference_counters[bucket]
                        <= transport.reference_counters[bucket]);
                }
            },
            None => {
                lemma_reclaim_keeps_account(pool, table, transport, publisher_id, held, index + 1);
            },
        }
    }
}

/// The bookkeeping stays in order when the publisher sends one of the
/// samples that it holds over its connections, as long as the counter of
/// the sample can take a reference for every connection.
pub proof fn lemma_deliver_keeps_account(
    pool: Pool,
    table: Seq<Option<u128>>,
    transport: Transport,
    publisher_id: u128,
    held: Seq<usize>,
    position: int,
    index: int,
    count: nat,
)
    requires
        accounted(pool, table, transport, publisher_id, held),
        0 <= position < held.len(),
        0 <= index,
        transport.reference_counters[spec_bucket_index(pool, held[position])] + (table.len()
            - index) <= u64::MAX,
    ensures
        accounted(
            pool,
            table,
            deliver_from(pool, table, transport, publisher_id, held[position], index, count).0,
            publisher_id,
            held,
        ),
    decreases table.len() - index,
{
    let offset = held[position];
    let bucket = spec_bucket_index(pool, offset);
    let buckets = transport.reference_counters.len();
    if index < table.len() {
        match table[index] {
            None => {
                lemma_deliver_keeps_account(
                    pool,
                    table,
                    transport,
                    publisher_id,
                    held,
                    position,
                    index + 1,
                    count,
                );
            },
            Some(subscriber_id) => {
                let name = spec_connection_name(publisher_id, subscriber_id);
                if !transport.connections.contains_key(name) {
                    lemma_deliver_keeps_account(
                        pool,
                        table,
                        transport,
                        publisher_id,
                        held,
                        position,
                        index + 1,
                        count,
                    );
                } else {
                    let connection = transport.connections[name];
                    match connection.send_result(offset) {
                        Err(_) => {
                            lemma_deliver_keeps_account(
                                pool,
                                table,
                                transport,
                                publisher_id,
                                held,
                                position,
                                index + 1,
                                count,
                            );
                        },
                        Ok(evicted) => {
                            let taken = connection.after_send(offset);
                            let counters = transport.reference_counters.update(
                                bucket,
                                (transport.reference_counters[bucket] + 1) as u64,
                            );
                            let longer = connection.submission.push(offset);
                            lemma_references_remove(pool, held, position, bucket);
                            lemma_lie_in_buckets(
                                pool,
                                connection.submission,
                                buckets,
                                0,
                                offset,
                            );
                            let kept = match evicted {
                                Some(old) => held.push(old),
                                None => held,
                            };
                            match evicted {
                                Some(old) => {
                                    assert(old == longer[0]);
                                    assert(longer.drop_first() =~= longer.remove(0));
                                    lemma_lie_in_buckets(pool, longer, buckets, 0, offset);
                                    lemma_lie_in_buckets(pool, held, buckets, 0, old);
                                },
                                None => {},
                            }
                            assert forall|other: int| 0 <= other < buckets implies #[trigger] counters[other]
                                + connection_references(pool, connection, other) + references_in(
                                pool,
                                held,
                                other,
                            ) == transport.reference_counters[other] + connection_references(
                                pool,
                                taken,
                                other,
                            ) + references_in(pool, kept, other) by {
                                lemma_references_push(pool, connection.submission, offset, other);
                                match evicted {
                                    Some(old) => {
                                        lemma_references_remove(pool, longer, 0, other);
                                        lemma_references_push(pool, held, old, other);
                                    },
                                    None => {},
                                }
                            }
                            lemma_replace_keeps_account(
                                pool,
                                table,
                                transport,
                                publisher_id,
                                held,
                                index,
                                taken,
                                counters,
                                kept,
                            );
                            let sent = borrow_sample(
                                pool,
                                Transport {
                                    connections: transport.connections.insert(name, taken),
                                    ..transport
                                },
                                offset,
                            );
                            assert(sent == Transport {
                                connections: transport.connections.insert(name, taken),
                                reference_counters: counters,
                                segments: transport.segments,
                            });
                            let next = match evicted {
                                Some(old) => release_sample(pool, sent, old),
                                None => sent,
                            };
                            match evicted {
                                Some(old) => {
                                    lemma_release_keeps_account(
                                        pool,
                                        table,
                                        sent,
                                        publisher_id,
                                        kept,
                                        held.len() as int,
                                    );
                                    assert(kept.remove(held.len() as int) =~= held);
                                },
                                None => {},
                            }
                            lemma_deliver_keeps_account(
                                pool,
                                table,
                                next,
                                publisher_id,
                                held,
                                position,
                                index + 1,
                                count + 1,
                            );
                        },
                    }
                }
            },
        }
    }
}

/// The references of the connections of two tables differ by what the
/// one slot makes out in which the tables or their connections differ.
pub proof fn lemma_table_references_differ_in_slot(
    pool: Pool,
    table: Seq<Option<u128>>,
    connections: Map<Seq<u8>, ConnectionState>,
    other_table: Seq<Option<u128>>,
    other_connections: Map<Seq<u8>, ConnectionState>,
    publisher_id: u128,
    bucket: int,
    slot: int,
    index: int,
)
    requires
        table.len() == other_table.len(),
        0 <= slot < table.len(),
        0 <= index <= table.len(),
        forall|i: int|
            0 <= i < table.len() && i != slot ==> #[trigger] slot_references(
                pool,
                table,
                connections,
                publisher_id,
                bucket,
                i,
            ) == slot_references(pool, other_table, other_connections, publisher_id, bucket, i),
    ensures
        index > slot ==> table_references(
            pool,
            other_table,
            other_connections,
            publisher_id,
            bucket,
            index,
        ) == table_references(pool, table, connections, publisher_id, bucket, index),
        index <= slot ==> table_references(
            pool,
            other_table,
            other_connections,
            publisher_id,
            bucket,
            index,
        ) + slot_references(pool, table, connections, publisher_id, bucket, slot)
            == table_references(pool, table, connections, publisher_id, bucket, index)
            + slot_references(pool, other_table, other_connections, publisher_id, bucket, slot),
    decreases table.len() - index,
{
    if index < table.len() {
        lemma_table_references_differ_in_slot(
            pool,
            table,
            connections,
            other_table,
            other_connections,
            publisher_id,
            bucket,
            slot,
            index + 1,
        );
        if index != slot {
            assert(slot_references(pool, table, connections, publisher_id, bucket, index)
                == slot_references(
                pool,
                other_table,
                other_connections,
                publisher_id,
                bucket,
                index,
            ));
        }
    }
}

/// Taking back what waits in the retrieve channel of a connection empties
/// that channel and leaves the rest of the connection and all other
/// connections as they are.
pub proof fn lemma_drain_empties_retrieve_channel(pool: Pool, transport: Transport, name: Seq<u8>)
    ensures
        drain(pool, transport, name).connections.dom() == transport.connections.dom(),
        forall|other: Seq<u8>|
            other != name && transport.connections.contains_key(other) ==> #[trigger] drain(
                pool,
                transport,
                name,
            ).connections[other] == transport.connections[other],
        transport.connections.contains_key(name) ==> drain(pool, transport, name).connections[name]
            == (ConnectionState { retrieve: Seq::empty(), ..transport.connections[name] }),
    decreases returned(transport, name),
{
    if returned(transport, name) > 0 {
        let connection = transport.connections[name];
        let taken = Transport {
            connections: transport.connections.insert(name, connection.after_reclaim()),
            ..transport
        };
        let released = release_sample(pool, taken, connection.retrieve[0]);
        lemma_drain_empties_retrieve_channel(pool, released, name);
        assert(released.connections == taken.connections);
        assert(taken.connections.dom() =~= transport.connections.dom());
    } else if transport.connections.contains_key(name) {
        assert(transport.connections[name].retrieve =~= Seq::empty());
    }
}

/// True if the connection holds no offset but the ones that wait in its
/// retrieve channel.
pub open spec fn holds_returned_only(connection: ConnectionState) -> bool {
    connection.submission.len() == 0 && connection.borrowed.len() == 0
}

/// True if the publisher can bring the slots from `index` on up to date
/// without losing a bucket. A subscriber that joins is no subscriber of
/// another slot, and its connection, if it exists already, holds no
/// offset. The connection of a subscriber that has left holds no offset
/// but the ones that this subscriber has returned: what still waits for
/// it, or what it has borrowed, would never come back.
pub open spec fn can_be_updated(
    table: Seq<Option<u128>>,
    subscribers: Seq<Option<u128>>,
    connections: Map<Seq<u8>, ConnectionState>,
    publisher_id: u128,
    index: int,
) -> bool {
    &&& forall|i: int, j: int|
        index <= i < table.len() && i < subscribers.len() && table[i].is_none() && (
        #[trigger] subscribers[i]).is_some() && 0 <= j < table.len() && j != i
            ==> #[trigger] table[j] != subscribers[i]
    &&& forall|i: int, j: int|
        index <= i < table.len() && i < subscribers.len() && table[i].is_none() && (
        #[trigger] subscribers[i]).is_some() && index <= j < table.len() && j < subscribers.len()
            && j != i && table[j].is_none() ==> #[trigger] subscribers[j] != subscribers[i]
    &&& forall|i: int|
        index <= i < table.len() && i < subscribers.len() && table[i].is_none() && (
        #[trigger] subscribers[i]).is_some() && connections.contains_key(
            spec_connection_name(publisher_id, subscribers[i].unwrap()),
        ) ==> {
            let connection = connections[spec_connection_name(
                publisher_id,
                subscribers[i].unwrap(),
            )];
            holds_returned_only(connection) && connection.retrieve.len() == 0
        }
    &&& forall|i: int|
        index <= i < table.len() && i < subscribers.len() && (#[trigger] subscribers[i]).is_none()
            && table[i].is_some() && connections.contains_key(
            spec_connection_name(publisher_id, table[i].unwrap()),
        ) ==> holds_returned_only(
            connections[spec_connection_name(publisher_id, table[i].unwrap())],
        )
}

/// A bucket counts no reference in a sequence without offsets.
pub proof fn lemma_no_offsets_no_references(pool: Pool, offsets: Seq<usize>, bucket: int)
    requires
        offsets.len() == 0,
    ensures
        references_in(pool, offsets, bucket) == 0,
        lie_in_buckets(pool, offsets, 0),
{
}

/// True if the connection holds no offset at all.
pub open spec fn holds_nothing(connection: ConnectionState) -> bool {
    holds_returned_only(connection) && connection.retrieve.len() == 0
}

/// The bookkeeping stays in order when the entry of one slot of the table
/// changes, as long as the connection of the slot holds no offset before
/// and after the change, the new entry is no subscriber of another slot,
/// and the connections of the other slots stay as they are.
pub proof fn lemma_slot_change_keeps_account(
    pool: Pool,
    table: Seq<Option<u128>>,
    transport: Transport,
    publisher_id: u128,
    held: Seq<usize>,
    slot: int,
    entry: Option<u128>,
    connections: Map<Seq<u8>, ConnectionState>,
)
    requires
        accounted(pool, table, transport, publisher_id, held),
        0 <= slot < table.len(),
        table[slot].is_some() && transport.connections.contains_key(
            spec_connection_name(publisher_id, table[slot].unwrap()),
        ) ==> holds_nothing(
            transport.connections[spec_connection_name(publisher_id, table[slot].unwrap())],
        ),
        entry.is_some() && connections.contains_key(
            spec_connection_name(publisher_id, entry.unwrap()),
        ) ==> holds_nothing(connections[spec_connection_name(publisher_id, entry.unwrap())]),
        entry.is_some() ==> forall|j: int|
            0 <= j < table.len() && j != slot ==> #[trigger] table[j] != entry,
        forall|j: int|
            0 <= j < table.len() && j != slot && (#[trigger] table[j]).is_some() ==> {
                let name = spec_connection_name(publisher_id, table[j].unwrap());
                &&& connections.contains_key(name) == transport.connections.contains_key(name)
                &&& connections.contains_key(name) ==> connections[name]
                    == transport.connections[name]
            },
    ensures
        accounted(
            pool,
            table.update(slot, entry),
            Transport { connections, ..transport },
            publisher_id,
            held,
        ),
{
    let changed = table.update(slot, entry);
    let after = Transport { connections, ..transport };
    let buckets = transport.reference_counters.len();
    assert forall|i: int, j: int|
        0 <= i < changed.len() && 0 <= j < changed.len() && i != j
            && changed[i].is_some() implies #[trigger] changed[i] != #[trigger] changed[j] by {
        if i != slot && j != slot {
            assert(table[i] != table[j]);
        } else if i == slot {
            assert(table[j] != entry);
        } else {
            if entry.is_some() {
                assert(table[i] != entry);
            }
        }
    }
    assert forall|i: int|
        0 <= i < changed.len() && (#[trigger] changed[i]).is_some() && connections.contains_key(
            spec_connection_name(publisher_id, changed[i].unwrap()),
        ) implies {
        let connection = connections[spec_connection_name(publisher_id, changed[i].unwrap())];
        &&& lie_in_buckets(pool, connection.submission, buckets)
        &&& lie_in_buckets(pool, connection.retrieve, buckets)
        &&& lie_in_buckets(pool, connection.borrowed, buckets)
    } by {
        if i != slot {
            assert(table[i].is_some());
        }
    }
    assert forall|bucket: int| 0 <= bucket < buckets implies #[trigger] after.reference_counters[bucket]
        == references_in(pool, held, bucket) + table_references(
        pool,
        changed,
        connections,
        publisher_id,
        bucket,
        0,
    ) by {
        assert forall|i: int| 0 <= i < table.len() && i != slot implies #[trigger] slot_references(
            pool,
            table,
            transport.connections,
            publisher_id,
            bucket,
            i,
        ) == slot_references(pool, changed, connections, publisher_id, bucket, i) by {
            assert(changed[i] == table[i]);
            if table[i].is_some() {
                assert(connections.contains_key(
                    spec_connection_name(publisher_id, table[i].unwrap()),
                ) == transport.connections.contains_key(
                    spec_connection_name(publisher_id, table[i].unwrap()),
                ));
            }
        }
        lemma_table_references_differ_in_slot(
            pool,
            table,
            transport.connections,
            changed,
            connections,
            publisher_id,
            bucket,
            slot,
            0,
        );
        assert(slot_references(pool, table, transport.connections, publisher_id, bucket, slot)
            == 0) by {
            if table[slot].is_some() && transport.connections.contains_key(
                spec_connection_name(publisher_id, table[slot].unwrap()),
            ) {
                let connection = transport.connections[spec_connection_name(
                    publisher_id,
                    table[slot].unwrap(),
                )];
                lemma_no_offsets_no_references(pool, connection.submission, bucket);
                lemma_no_offsets_no_references(pool, connection.retrieve, bucket);
                lemma_no_offsets_no_references(pool, connection.borrowed, bucket);
            }
        }
        assert(slot_references(pool, changed, connections, publisher_id, bucket, slot) == 0) by {
            if entry.is_some() && connections.contains_key(
                spec_connection_name(publisher_id, entry.unwrap()),
            ) {
                let connection = connections[spec_connection_name(publisher_id, entry.unwrap())];
                lemma_no_offsets_no_references(pool, connection.submission, bucket);
                lemma_no_offsets_no_references(pool, connection.retrieve, bucket);
                lemma_no_offsets_no_references(pool, connection.borrowed, bucket);
            }
        }
        assert(transport.reference_counters[bucket] == references_in(pool, held, bucket)
            + table_references(pool, table, transport.connections, publisher_id, bucket, 0));
    }
    assert forall|bucket: int| 0 <= bucket < buckets implies (
    after.segments[pool.segment_name].is_allocated(bucket)
        <==> #[trigger] after.reference_counters[bucket] > 0) by {
        assert(transport.segments[pool.segment_name].is_allocated(bucket)
            <==> transport.reference_counters[bucket] > 0);
    }
}

/// True if every connection of the table exists and its sender is
/// connected: the publisher has not closed its side of a connection that
/// it still lists.
pub open spec fn senders_are_connected(
    table: Seq<Option<u128>>,
    connections: Map<Seq<u8>, ConnectionState>,
    publisher_id: u128,
) -> bool {
    forall|j: int|
        0 <= j < table.len() && (#[trigger] table[j]).is_some() ==> connections.contains_key(
            spec_connection_name(publisher_id, table[j].unwrap()),
        ) && connections[spec_connection_name(publisher_id, table[j].unwrap())].has_sender
}

/// The bookkeeping stays in order when the publisher brings its
/// connections up to date, as long as it can do so without losing a
/// bucket. The table keeps its length, and no counter grows.
pub proof fn lemma_update_keeps_account(
    pool: Pool,
    table: Seq<Option<u128>>,
    subscribers: Seq<Option<u128>>,
    transport: Transport,
    publisher_id: u128,
    settings: ConnectionSettings,
    held: Seq<usize>,
    index: int,
)
    requires
        accounted(pool, table, transport, publisher_id, held),
        can_be_updated(table, subscribers, transport.connections, publisher_id, index),
        0 <= index,
    ensures
        accounted(
            pool,
            populate_from(pool, table, subscribers, transport, publisher_id, settings, index).0,
            populate_from(pool, table, subscribers, transport, publisher_id, settings, index).1,
            publisher_id,
            held,
        ),
        populate_from(pool, table, subscribers, transport, publisher_id, settings, index).0.len()
            == table.len(),
        populate_from(
            pool,
            table,
            subscribers,
            transport,
            publisher_id,
            settings,
            index,
        ).1.reference_counters.len() == transport.reference_counters.len(),
        forall|bucket: int|
            0 <= bucket < transport.reference_counters.len() ==> #[trigger] populate_from(
                pool,
                table,
                subscribers,
                transport,
                publisher_id,
                settings,
                index,
            ).1.reference_counters[bucket] <= transport.reference_counters[bucket],
        senders_are_connected(table, transport.connections, publisher_id)
            ==> senders_are_connected(
            populate_from(pool, table, subscribers, transport, publisher_id, settings, index).0,
            populate_from(
                pool,
                table,
                subscribers,
                transport,
                publisher_id,
                settings,
                index,
            ).1.connections,
            publisher_id,
        ),
    decreases table.len() - index,
{
    if index < table.len() && index < subscribers.len() {
        match (subscribers[index], table[index]) {
            (None, Some(subscriber_id)) => {
                let name = spec_connection_name(publisher_id, subscriber_id);
                lemma_drain_keeps_account(pool, table, transport, publisher_id, held, index);
                lemma_drain_empties_retrieve_channel(pool, transport, name);
                let drained = drain(pool, transport, name);
                let connections = after_close(drained.connections, name, Side::Sender);
                let changed = table.update(index, None);
                assert(drained.connections.contains_key(name) == transport.connections.contains_key(
                    name,
                ));
                assert forall|j: int|
                    0 <= j < table.len() && j != index && (#[trigger] table[j]).is_some() implies {
                    let other = spec_connection_name(publisher_id, table[j].unwrap());
                    &&& other != name
                    &&& connections.contains_key(other) == transport.connections.contains_key(other)
                    &&& connections.contains_key(other) ==> connections[other]
                        == transport.connections[other]
                    &&& drained.connections.contains_key(other)
                        == transport.connections.contains_key(other)
                    &&& drained.connections.contains_key(other) ==> drained.connections[other]
                        == transport.connections[other]
                } by {
                    let other = spec_connection_name(publisher_id, table[j].unwrap());
                    assert(table[j] != table[index]);
                    if other == name {
                        lemma_connection_name_is_injective(
                            publisher_id,
                            table[j].unwrap(),
                            publisher_id,
                            subscriber_id,
                        );
                    }
                }
                lemma_slot_change_keeps_account(
                    pool,
                    table,
                    drained,
                    publisher_id,
                    held,
                    index,
                    None,
                    connections,
                );
                let closed = Transport { connections, ..drained };
                assert forall|i: int|
                    index + 1 <= i < changed.len() && i < subscribers.len() && changed[i].is_none()
                        && (#[trigger] subscribers[i]).is_some() && connections.contains_key(
                        spec_connection_name(publisher_id, subscribers[i].unwrap()),
                    ) implies holds_nothing(
                    connections[spec_connection_name(publisher_id, subscribers[i].unwrap())],
                ) by {
                    let other = spec_connection_name(publisher_id, subscribers[i].unwrap());
                    assert(table[index] != subscribers[i]);
                    if other == name {
                        lemma_connection_name_is_injective(
                            publisher_id,
                            subscribers[i].unwrap(),
                            publisher_id,
                            subscriber_id,
                        );
                    }
                    assert(drained.connections.contains_key(other));
                    assert(drained.connections[other] == transport.connections[other]);
                }
                assert forall|i: int|
                    index + 1 <= i < changed.len() && i < subscribers.len() && (
                    #[trigger] subscribers[i]).is_none() && changed[i].is_some()
                        && connections.contains_key(
                        spec_connection_name(publisher_id, changed[i].unwrap()),
                    ) implies holds_returned_only(
                    connections[spec_connection_name(publisher_id, changed[i].unwrap())],
                ) by {
                    assert(table[i].is_some());
                }
                assert(can_be_updated(changed, subscribers, connections, publisher_id, index + 1));
                if senders_are_connected(table, transport.connections, publisher_id) {
                    assert forall|k: int|
                        0 <= k < changed.len() && (
                        #[trigger] changed[k]).is_some() implies connections.contains_key(
                        spec_connection_name(publisher_id, changed[k].unwrap()),
                    ) && connections[spec_connection_name(
                        publisher_id,
                        changed[k].unwrap(),
                    )].has_sender by {
                        assert(k != index);
                        assert(table[k].is_some());
                        let other = spec_connection_name(publisher_id, table[k].unwrap());
                        assert(transport.connections.contains_key(other)
                            && transport.connections[other].has_sender);
                    }
                }
                lemma_update_keeps_account(
                    pool,
                    changed,
                    subscribers,
                    closed,
                    publisher_id,
                    settings,
                    held,
                    index + 1,
                );
                let after = populate_from(
                    pool,
                    table,
                    subscribers,
                    transport,
                    publisher_id,
                    settings,
                    index,
                );
                assert forall|bucket: int|
                    0 <= bucket < transport.reference_counters.len() implies #[trigger] after.1.reference_counters[bucket]
                    <= transport.reference_counters[bucket] by {
                    assert(drained.reference_counters[bucket]
                        <= transport.reference_counters[bucket]);
                }
            },
            (None, None) => {
                assert(table.update(index, None) =~= table);
                lemma_update_keeps_account(
                    pool,
                    table,
                    subscribers,
                    transport,
                    publisher_id,
                    settings,
                    held,
                    index + 1,
                );
            },
            (Some(_), Some(_)) => {
                lemma_update_keeps_account(
                    pool,
                    table,
                    subscribers,
                    transport,
                    publisher_id,
                    settings,
                    held,
                    index + 1,
                );
            },
            (Some(subscriber_id), None) => {
                let name = spec_connection_name(publisher_id, subscriber_id);
                if connect_result(transport.connections, name, settings, Side::Sender).is_ok() {
                    let connections = after_connect(
                        transport.connections,
                        name,
                        settings,
                        Side::Sender,
                    );
                    let changed = table.update(index, Some(subscriber_id));
                    assert(subscribers[index].is_some());
                    assert forall|j: int|
                        0 <= j < table.len() && j != index implies #[trigger] table[j] != Some(
                        subscriber_id,
                    ) by {
                        assert(table[j] != subscribers[index]);
                    }
                    assert forall|j: int|
                        0 <= j < table.len() && j != index && (
                        #[trigger] table[j]).is_some() implies {
                        let other = spec_connection_name(publisher_id, table[j].unwrap());
                        &&& other != name
                        &&& connections.contains_key(other) == transport.connections.contains_key(
                            other,
                        )
                        &&& connections.contains_key(other) ==> connections[other]
                            == transport.connections[other]
                    } by {
                        let other = spec_connection_name(publisher_id, table[j].unwrap());
                        assert(table[j] != subscribers[index]);
                        if other == name {
                            lemma_connection_name_is_injective(
                                publisher_id,
                                table[j].unwrap(),
                                publisher_id,
                                subscriber_id,
                            );
                        }
                    }
                    lemma_slot_change_keeps_account(
                        pool,
                        table,
                        transport,
                        publisher_id,
                        held,
                        index,
                        Some(subscriber_id),
                        connections,
                    );
                    let connected = Transport { connections, ..transport };
                    assert forall|i: int, j: int|
                        index + 1 <= i < changed.len() && i < subscribers.len()
                            && changed[i].is_none() && (#[trigger] subscribers[i]).is_some() && 0
                            <= j < changed.len() && j != i implies #[trigger] changed[j]
                        != subscribers[i] by {
                        if j == index {
                            assert(subscribers[index] != subscribers[i]);
                        } else {
                            assert(table[j] != subscribers[i]);
                        }
                    }
                    assert forall|i: int|
                        index + 1 <= i < changed.len() && i < subscribers.len()
                            && changed[i].is_none() && (#[trigger] subscribers[i]).is_some()
                            && connections.contains_key(
                            spec_connection_name(publisher_id, subscribers[i].unwrap()),
                        ) implies holds_nothing(
                        connections[spec_connection_name(publisher_id, subscribers[i].unwrap())],
                    ) by {
                        let other = spec_connection_name(publisher_id, subscribers[i].unwrap());
                        assert(subscribers[index] != subscribers[i]);
                        if other == name {
                            lemma_connection_name_is_injective(
                                publisher_id,
                                subscribers[i].unwrap(),
                                publisher_id,
                                subscriber_id,
                            );
                        }
                    }
                    assert forall|i: int|
                        index + 1 <= i < changed.len() && i < subscribers.len() && (
                        #[trigger] subscribers[i]).is_none() && changed[i].is_some()
                            && connections.contains_key(
                            spec_connection_name(publisher_id, changed[i].unwrap()),
                        ) implies holds_returned_only(
                        connections[spec_connection_name(publisher_id, changed[i].unwrap())],
                    ) by {
                        let other = spec_connection_name(publisher_id, table[i].unwrap());
                        assert(table[i] != subscribers[index]);
                        if other == name {
                            lemma_connection_name_is_injective(
                                publisher_id,
                                table[i].unwrap(),
                                publisher_id,
                                subscriber_id,
                            );
                        }
                    }
                    assert(can_be_updated(
                        changed,
                        subscribers,
                        connections,
                        publisher_id,
                        index + 1,
                    ));
                    if senders_are_connected(table, transport.connections, publisher_id) {
                        assert forall|k: int|
                            0 <= k < changed.len() && (
                            #[trigger] changed[k]).is_some() implies connections.contains_key(
                            spec_connection_name(publisher_id, changed[k].unwrap()),
                        ) && connections[spec_connection_name(
                            publisher_id,
                            changed[k].unwrap(),
                        )].has_sender by {
                            if k != index {
                                assert(table[k].is_some());
                                let other = spec_connection_name(publisher_id, table[k].unwrap());
                                assert(transport.connections.contains_key(other)
                                    && transport.connections[other].has_sender);
                            }
                        }
                    }
                    lemma_update_keeps_account(
                        pool,
                        changed,
                        subscribers,
                        connected,
                        publisher_id,
                        settings,
                        held,
                        index + 1,
                    );
                } else {
                    lemma_update_keeps_account(
                        pool,
                        table,
                        subscribers,
                        transport,
                        publisher_id,
                        settings,
                        held,
                        index + 1,
                    );
                }
            },
        }
    }
}

/// The references of a table without connections are none.
pub proof fn lemma_empty_table_has_no_references(
    pool: Pool,
    table: Seq<Option<u128>>,
    connections: Map<Seq<u8>, ConnectionState>,
    publisher_id: u128,
    bucket: int,
    index: int,
)
    requires
        forall|i: int| 0 <= i < table.len() ==> (#[trigger] table[i]).is_none(),
    ensures
        table_references(pool, table, connections, publisher_id, bucket, index) == 0,
    decreases table.len() - index,
{
    if 0 <= index < table.len() {
        lemma_empty_table_has_no_references(
            pool,
            table,
            connections,
            publisher_id,
            bucket,
            index + 1,
        );
    }
}

/// The bookkeeping of a publisher that has no connection, holds no sample
/// and counts no reference is in order when all buckets of its segment
/// are free.
pub proof fn lemma_account_starts_in_order(
    pool: Pool,
    table: Seq<Option<u128>>,
    transport: Transport,
    publisher_id: u128,
)
    requires
        forall|i: int| 0 <= i < table.len() ==> (#[trigger] table[i]).is_none(),
        transport.segments.contains_key(pool.segment_name),
        transport.segments[pool.segment_name].wf(),
        transport.segments[pool.segment_name].bucket_size == pool.bucket_size,
        transport.segments[pool.segment_name].number_of_buckets
            == transport.reference_counters.len(),
        transport.segments[pool.segment_name].free_buckets.len()
            == transport.reference_counters.len(),
        forall|bucket: int|
            0 <= bucket < transport.reference_counters.len()
                ==> #[trigger] transport.reference_counters[bucket] == 0,
    ensures
        accounted(pool, table, transport, publisher_id, Seq::empty()),
{
    let segment = transport.segments[pool.segment_name];
    segment.lemma_buckets_are_free_or_allocated();
    assert forall|bucket: int|
        0 <= bucket < transport.reference_counters.len() implies !segment.is_allocated(bucket) by {
        if segment.is_allocated(bucket) {
            assert(segment.allocated_buckets().contains(bucket as u32));
        }
    }
    assert forall|bucket: int|
        0 <= bucket < transport.reference_counters.len() implies #[trigger] transport.reference_counters[bucket]
        == references_in(pool, Seq::<usize>::empty(), bucket) + table_references(
        pool,
        table,
        transport.connections,
        publisher_id,
        bucket,
        0,
    ) by {
        lemma_empty_table_has_no_references(
            pool,
            table,
            transport.connections,
            publisher_id,
            bucket,
            0,
        );
    }
}

/// While the bookkeeping is in order, every bucket is either free or
/// referred to, by a sample that the publisher holds or by an offset in a
/// connection, and never both: the free buckets and the buckets that are
/// referred to add up to the buckets of the segment.
pub proof fn lemma_buckets_are_conserved(
    pool: Pool,
    table: Seq<Option<u128>>,
    transport: Transport,
    publisher_id: u128,
    held: Seq<usize>,
)
    requires
        accounted(pool, table, transport, publisher_id, held),
    ensures
        transport.segments[pool.segment_name].allocated_buckets().finite(),
        transport.segments[pool.segment_name].free_buckets.len()
            + transport.segments[pool.segment_name].allocated_buckets().len()
            == transport.segments[pool.segment_name].number_of_buckets,
        forall|bucket: u32|
            #[trigger] transport.segments[pool.segment_name].allocated_buckets().contains(bucket)
                <==> (bucket < transport.segments[pool.segment_name].number_of_buckets
                && references_in(pool, held, bucket as int) + table_references(
                pool,
                table,
                transport.connections,
                publisher_id,
                bucket as int,
                0,
            ) > 0),
{
    let segment = transport.segments[pool.segment_name];
    segment.lemma_buckets_are_free_or_allocated();
    assert forall|bucket: u32| #[trigger]
        segment.allocated_buckets().contains(bucket) <==> (bucket < segment.number_of_buckets
            && references_in(pool, held, bucket as int) + table_references(
            pool,
            table,
            transport.connections,
            publisher_id,
            bucket as int,
            0,
        ) > 0) by {
        if bucket < segment.number_of_buckets {
            assert(segment.is_allocated(bucket as int) <==> transport.reference_counters[bucket as int]
                > 0);
        }
    }
}

/// The bookkeeping stays in order when the publisher loans a sample: it
/// then holds the sample that it got.
pub proof fn lemma_loan_keeps_account(
    before: &Publisher,
    after: &Publisher,
    host_before: &Host,
    host_after: &Host,
    result: Result<SampleMut, LoanError>,
    held: Seq<usize>,
)
    requires
        accounted(
            before.pool(),
            before.table(),
            before.transport(host_before),
            before.spec_port_id(),
            held,
        ),
        Publisher::has_loaned(before, after, host_before, host_after, result),
    ensures
        accounted(
            after.pool(),
            after.table(),
            after.transport(host_after),
            after.spec_port_id(),
            match result {
                Ok(sample) => held.push(sample.spec_offset()),
                Err(_) => held,
            },
        ),
{
    let pool = before.pool();
    let table = before.table();
    let publisher_id = before.spec_port_id();
    lemma_reclaim_keeps_account(pool, table, before.transport(host_before), publisher_id, held, 0);
    let reclaimed = reclaim_from(pool, table, before.transport(host_before), publisher_id, 0);
    let segment = reclaimed.segments[pool.segment_name];
    let buckets = reclaimed.reference_counters.len();
    match segment.allocate_result(before.spec_payload_layout()) {
        Ok(offset) => {
            let value = offset.spec_value();
            let bucket = spec_bucket_index(pool, value);
            let now = after.transport(host_after);
            let kept = held.push(value);
            segment.lemma_allocate(before.spec_payload_layout());
            assert(bucket == segment.free_buckets[0]);
            assert(segment.free_buckets.contains(segment.free_buckets[0]));
            assert(reclaimed.reference_counters[bucket] == 0);
            lemma_lie_in_buckets(pool, held, buckets, 0, value);
            assert(now.segments[pool.segment_name] == segment.after_allocate(
                before.spec_payload_layout(),
            ));
            assert(now.connections == reclaimed.connections);
            assert forall|other: int| 0 <= other < buckets implies #[trigger] now.reference_counters[other]
                == references_in(pool, kept, other) + table_references(
                pool,
                table,
                now.connections,
                publisher_id,
                other,
                0,
            ) by {
                lemma_references_push(pool, held, value, other);
                assert(reclaimed.reference_counters[other] == references_in(pool, held, other)
                    + table_references(pool, table, reclaimed.connections, publisher_id, other, 0));
            }
            assert forall|other: int| 0 <= other < buckets implies (
            now.segments[pool.segment_name].is_allocated(other)
                <==> #[trigger] now.reference_counters[other] > 0) by {
                assert(segment.is_allocated(other) <==> reclaimed.reference_counters[other] > 0);
            }
        },
        Err(_) => {},
    }
}

/// True if the publisher can bring its connections on `host` up to date
/// without losing a bucket.
pub open spec fn can_update(publisher: &Publisher, host: &Host) -> bool {
    publisher.sees_change(host) ==> can_be_updated(
        publisher.table(),
        host.registry(publisher.spec_service_id(), PortKind::Subscriber),
        host.connections(),
        publisher.spec_port_id(),
        0,
    )
}

/// The bookkeeping of a publisher stays in order when the publisher has
/// brought its connections up to date, as long as it could do so without
/// losing a bucket.
pub proof fn lemma_update_connections_keeps_account(
    before: &Publisher,
    after: &Publisher,
    host_before: &Host,
    host_after: &Host,
    held: Seq<usize>,
)
    requires
        accounted(
            before.pool(),
            before.table(),
            before.transport(host_before),
            before.spec_port_id(),
            held,
        ),
        can_update(before, host_before),
        after.same_port(before),
        (after.table(), after.transport(host_after)) == before.updated(host_before),
    ensures
        accounted(
            after.pool(),
            after.table(),
            after.transport(host_after),
            after.spec_port_id(),
            held,
        ),
{
    if before.sees_change(host_before) {
        lemma_update_keeps_account(
            before.pool(),
            before.table(),
            host_before.registry(before.spec_service_id(), PortKind::Subscriber),
            before.transport(host_before),
            before.spec_port_id(),
            before.settings(),
            held,
            0,
        );
    }
}

/// The bookkeeping stays in order when a publisher sends one of the
/// samples that it holds, as long as it can bring its connections up to
/// date without losing a bucket and the counter of the sample can take a
/// reference for every connection: the publisher then holds the sample no
/// more.
pub proof fn lemma_send_keeps_account(
    before: &Publisher,
    after: &Publisher,
    host_before: &Host,
    host_after: &Host,
    recipients: usize,
    held: Seq<usize>,
    position: int,
)
    requires
        accounted(
            before.pool(),
            before.table(),
            before.transport(host_before),
            before.spec_port_id(),
            held,
        ),
        0 <= position < held.len(),
        can_update(before, host_before),
        before.reference_counters()[spec_bucket_index(before.pool(), held[position])]
            + before.table().len() <= u64::MAX,
        Publisher::has_sent(before, after, host_before, host_after, held[position], recipients),
    ensures
        accounted(
            after.pool(),
            after.table(),
            after.transport(host_after),
            after.spec_port_id(),
            held.remove(position),
        ),
{
    let pool = before.pool();
    let publisher_id = before.spec_port_id();
    let bucket = spec_bucket_index(pool, held[position]);
    let updated = before.updated(host_before);
    if before.sees_change(host_before) {
        lemma_update_keeps_account(
            pool,
            before.table(),
            host_before.registry(before.spec_service_id(), PortKind::Subscriber),
            before.transport(host_before),
            publisher_id,
            before.settings(),
            held,
            0,
        );
    }
    assert(updated.1.reference_counters[bucket] <= before.reference_counters()[bucket]);
    lemma_reclaim_keeps_account(pool, updated.0, updated.1, publisher_id, held, 0);
    let reclaimed = reclaim_from(pool, updated.0, updated.1, publisher_id, 0);
    assert(reclaimed.reference_counters[bucket] <= updated.1.reference_counters[bucket]);
    lemma_deliver_keeps_account(pool, updated.0, reclaimed, publisher_id, held, position, 0, 0);
    let delivered = deliver_from(pool, updated.0, reclaimed, publisher_id, held[position], 0, 0);
    lemma_release_keeps_account(pool, updated.0, delivered.0, publisher_id, held, position);
}

/// The bookkeeping of a publisher stays in order when the subscriber of
/// one of its connections receives a sample, and when that subscriber
/// returns a sample that it has borrowed.
pub proof fn lemma_subscriber_keeps_account(
    pool: Pool,
    table: Seq<Option<u128>>,
    transport: Transport,
    publisher_id: u128,
    held: Seq<usize>,
    slot: int,
    offset: usize,
)
    requires
        accounted(pool, table, transport, publisher_id, held),
        0 <= slot < table.len(),
        table[slot].is_some(),
        transport.connections.contains_key(
            spec_connection_name(publisher_id, table[slot].unwrap()),
        ),
    ensures
        accounted(
            pool,
            table,
            Transport {
                connections: transport.connections.insert(
                    spec_connection_name(publisher_id, table[slot].unwrap()),
                    transport.connections[spec_connection_name(
                        publisher_id,
                        table[slot].unwrap(),
                    )].after_receive(),
                ),
                ..transport
            },
            publisher_id,
            held,
        ),
        transport.connections[spec_connection_name(
            publisher_id,
            table[slot].unwrap(),
        )].borrowed.contains(offset) ==> accounted(
            pool,
            table,
            Transport {
                connections: transport.connections.insert(
                    spec_connection_name(publisher_id, table[slot].unwrap()),
                    transport.connections[spec_connection_name(
                        publisher_id,
                        table[slot].unwrap(),
                    )].after_release(offset),
                ),
                ..transport
            },
            publisher_id,
            held,
        ),
{
    let name = spec_connection_name(publisher_id, table[slot].unwrap());
    let connection = transport.connections[name];
    let buckets = transport.reference_counters.len();
    let received = connection.after_receive();
    match connection.receive_result() {
        Ok(Some(taken)) => {
            assert(connection.submission.drop_first() =~= connection.submission.remove(0));
            lemma_lie_in_buckets(pool, connection.submission, buckets, 0, taken);
            lemma_lie_in_buckets(pool, connection.borrowed, buckets, 0, taken);
            assert forall|bucket: int| 0 <= bucket < buckets implies connection_references(
                pool,
                connection,
                bucket,
            ) == connection_references(pool, received, bucket) by {
                lemma_references_remove(pool, connection.submission, 0, bucket);
                lemma_references_push(pool, connection.borrowed, taken, bucket);
            }
        },
        _ => {},
    }
    lemma_replace_keeps_account(
        pool,
        table,
        transport,
        publisher_id,
        held,
        slot,
        received,
        transport.reference_counters,
        held,
    );
    if connection.borrowed.contains(offset) {
        let returned = connection.after_release(offset);
        let position = connection.borrowed.index_of(offset);
        lemma_lie_in_buckets(pool, connection.borrowed, buckets, position, offset);
        lemma_lie_in_buckets(pool, connection.retrieve, buckets, 0, offset);
        assert forall|bucket: int| 0 <= bucket < buckets implies connection_references(
            pool,
            connection,
            bucket,
        ) == connection_references(pool, returned, bucket) by {
            lemma_references_remove(pool, connection.borrowed, position, bucket);
            lemma_references_push(pool, connection.retrieve, offset, bucket);
        }
        lemma_replace_keeps_account(
            pool,
            table,
            transport,
            publisher_id,
            held,
            slot,
            returned,
            transport.reference_counters,
            held,
        );
    }
}

/// The bookkeeping of a publisher that was created is in order, as long
/// as no connection under its name held an offset before: the publisher
/// holds no sample, and every bucket is free.
pub proof fn lemma_create_starts_account(
    before: &Host,
    after: &Host,
    publisher: &Publisher,
    static_config: &StaticConfig,
)
    requires
        create_result(before, publisher.spec_service_id(), static_config).is_ok(),
        Publisher::has_created(before, after, publisher, static_config),
        can_be_updated(
            Seq::new(
                before.registry(publisher.spec_service_id(), PortKind::Subscriber).len(),
                |i: int| None::<u128>,
            ),
            before.registry(publisher.spec_service_id(), PortKind::Subscriber),
            before.connections(),
            publisher.spec_port_id(),
            0,
        ),
    ensures
        accounted(
            publisher.pool(),
            publisher.table(),
            publisher.transport(after),
            publisher.spec_port_id(),
            Seq::empty(),
        ),
        senders_are_connected(publisher.table(), after.connections(), publisher.spec_port_id()),
{
    let layout = spec_payload_layout(static_config);
    let size = spec_segment_size(static_config, spec_bucket_size(layout)).unwrap();
    let segment = spec_fresh_segment(layout, size);
    let subscribers = before.registry(publisher.spec_service_id(), PortKind::Subscriber);
    let table = Seq::new(subscribers.len(), |i: int| None::<u128>);
    let transport = Transport {
        connections: before.connections(),
        segments: before.segments().insert(spec_id_name(publisher.spec_port_id()), segment),
        reference_counters: Seq::new(segment.number_of_buckets as nat, |i: int| 0u64),
    };
    Layout::lemma_from_size_align(static_config.type_size, static_config.type_alignment);
    lemma_fresh_segment(layout, size);
    lemma_account_starts_in_order(publisher.pool(), table, transport, publisher.spec_port_id());
    lemma_update_keeps_account(
        publisher.pool(),
        table,
        subscribers,
        transport,
        publisher.spec_port_id(),
        spec_connection_settings(static_config),
        Seq::empty(),
        0,
    );
}

/// The bookkeeping of a publisher stays in order when one of its
/// connections changes in anything but the offsets that it holds, as it
/// does when the subscriber connects or closes its side.
pub proof fn lemma_sides_keep_account(
    pool: Pool,
    table: Seq<Option<u128>>,
    transport: Transport,
    publisher_id: u128,
    held: Seq<usize>,
    slot: int,
    replacement: ConnectionState,
)
    requires
        accounted(pool, table, transport, publisher_id, held),
        0 <= slot < table.len(),
        table[slot].is_some(),
        transport.connections.contains_key(
            spec_connection_name(publisher_id, table[slot].unwrap()),
        ),
        replacement.submission == transport.connections[spec_connection_name(
            publisher_id,
            table[slot].unwrap(),
        )].submission,
        replacement.retrieve == transport.connections[spec_connection_name(
            publisher_id,
            table[slot].unwrap(),
        )].retrieve,
        replacement.borrowed == transport.connections[spec_connection_name(
            publisher_id,
            table[slot].unwrap(),
        )].borrowed,
    ensures
        accounted(
            pool,
            table,
            Transport {
                connections: transport.connections.insert(
                    spec_connection_name(publisher_id, table[slot].unwrap()),
                    replacement,
                ),
                ..transport
            },
            publisher_id,
            held,
        ),
{
    lemma_replace_keeps_account(
        pool,
        table,
        transport,
        publisher_id,
        held,
        slot,
        replacement,
        transport.reference_counters,
        held,
    );
}

/// The references of the connections of a table stay what they are when
/// the connections of the table stay what they are.
pub proof fn lemma_table_references_elsewhere(
    pool: Pool,
    table: Seq<Option<u128>>,
    connections: Map<Seq<u8>, ConnectionState>,
    others: Map<Seq<u8>, ConnectionState>,
    publisher_id: u128,
    bucket: int,
    index: int,
)
    requires
        0 <= index,
        forall|j: int|
            0 <= j < table.len() && (#[trigger] table[j]).is_some() ==> {
                let name = spec_connection_name(publisher_id, table[j].unwrap());
                &&& others.contains_key(name) == connections.contains_key(name)
                &&& others.contains_key(name) ==> others[name] == connections[name]
            },
    ensures
        table_references(pool, table, others, publisher_id, bucket, index) == table_references(
            pool,
            table,
            connections,
            publisher_id,
            bucket,
            index,
        ),
    decreases table.len() - index,
{
    if index < table.len() {
        lemma_table_references_elsewhere(
            pool,
            table,
            connections,
            others,
            publisher_id,
            bucket,
            index + 1,
        );
        if table[index].is_some() {
            let name = spec_connection_name(publisher_id, table[index].unwrap());
            assert(others.contains_key(name) == connections.contains_key(name));
        }
    }
}

/// The bookkeeping of a publisher stays in order when a connection
/// changes that is none of the connections of its table.
pub proof fn lemma_other_connection_keeps_account(
    pool: Pool,
    table: Seq<Option<u128>>,
    transport: Transport,
    publisher_id: u128,
    held: Seq<usize>,
    name: Seq<u8>,
    replacement: ConnectionState,
)
    requires
        accounted(pool, table, transport, publisher_id, held),
        forall|j: int|
            0 <= j < table.len() && (#[trigger] table[j]).is_some() ==> spec_connection_name(
                publisher_id,
                table[j].unwrap(),
            ) != name,
    ensures
        accounted(
            pool,
            table,
            Transport { connections: transport.connections.insert(name, replacement), ..transport },
            publisher_id,
            held,
        ),
{
    let connections = transport.connections.insert(name, replacement);
    let after = Transport { connections, ..transport };
    let buckets = transport.reference_counters.len();
    assert forall|j: int| 0 <= j < table.len() && (#[trigger] table[j]).is_some() implies {
        let other = spec_connection_name(publisher_id, table[j].unwrap());
        &&& connections.contains_key(other) == transport.connections.contains_key(other)
        &&& connections.contains_key(other) ==> connections[other] == transport.connections[other]
    } by {}
    assert forall|bucket: int| 0 <= bucket < buckets implies #[trigger] after.reference_counters[bucket]
        == references_in(pool, held, bucket) + table_references(
        pool,
        table,
        connections,
        publisher_id,
        bucket,
        0,
    ) by {
        lemma_table_references_elsewhere(
            pool,
            table,
            transport.connections,
            connections,
            publisher_id,
            bucket,
            0,
        );
        assert(transport.reference_counters[bucket] == references_in(pool, held, bucket)
            + table_references(pool, table, transport.connections, publisher_id, bucket, 0));
    }
    assert forall|bucket: int| 0 <= bucket < buckets implies (
    after.segments[pool.segment_name].is_allocated(bucket)
        <==> #[trigger] after.reference_counters[bucket] > 0) by {
        assert(transport.segments[pool.segment_name].is_allocated(bucket)
            <==> transport.reference_counters[bucket] > 0);
    }
}

/// The bookkeeping of a publisher stays in order when the connection
/// between some publisher and some subscriber changes as it does when the
/// subscriber receives a sample.
pub proof fn lemma_receive_step_keeps_account(
    pool: Pool,
    table: Seq<Option<u128>>,
    transport: Transport,
    publisher_id: u128,
    held: Seq<usize>,
    sender: u128,
    receiver: u128,
)
    requires
        accounted(pool, table, transport, publisher_id, held),
        transport.connections.contains_key(spec_connection_name(sender, receiver)),
    ensures
        accounted(
            pool,
            table,
            Transport {
                connections: transport.connections.insert(
                    spec_connection_name(sender, receiver),
                    transport.connections[spec_connection_name(sender, receiver)].after_receive(),
                ),
                ..transport
            },
            publisher_id,
            held,
        ),
{
    let name = spec_connection_name(sender, receiver);
    if sender == publisher_id && exists|j: int|
        0 <= j < table.len() && table[j] == Some(receiver) {
        let j = choose|j: int| 0 <= j < table.len() && table[j] == Some(receiver);
        lemma_subscriber_keeps_account(pool, table, transport, publisher_id, held, j, 0);
    } else {
        assert forall|j: int|
            0 <= j < table.len() && (#[trigger] table[j]).is_some() implies spec_connection_name(
            publisher_id,
            table[j].unwrap(),
        ) != name by {
            if spec_connection_name(publisher_id, table[j].unwrap()) == name {
                lemma_connection_name_is_injective(
                    publisher_id,
                    table[j].unwrap(),
                    sender,
                    receiver,
                );
            }
        }
        lemma_other_connection_keeps_account(
            pool,
            table,
            transport,
            publisher_id,
            held,
            name,
            transport.connections[name].after_receive(),
        );
    }
}

/// The bookkeeping of a publisher stays in order when a subscriber looks
/// for a sample in its connections and takes the first that waits: the
/// offset leaves the submission channel of one connection and counts as
/// borrowed over that connection.
pub proof fn lemma_receive_from_keeps_account(
    pool: Pool,
    table: Seq<Option<u128>>,
    transport: Transport,
    publisher_id: u128,
    held: Seq<usize>,
    publishers: Seq<Option<u128>>,
    subscriber_id: u128,
    cursor: int,
    steps: int,
)
    requires
        accounted(pool, table, transport, publisher_id, held),
    ensures
        accounted(
            pool,
            table,
            Transport {
                connections: receive_from(
                    publishers,
                    transport.connections,
                    subscriber_id,
                    cursor,
                    steps,
                ).0,
                ..transport
            },
            publisher_id,
            held,
        ),
    decreases publishers.len() - steps,
{
    let same = Transport { connections: transport.connections, ..transport };
    assert(same == transport);
    if 0 <= steps < publishers.len() {
        let slot = spec_slot_after(cursor, steps, publishers.len() as int);
        if 0 <= slot < publishers.len() {
            match publishers[slot] {
                None => {
                    lemma_receive_from_keeps_account(
                        pool,
                        table,
                        transport,
                        publisher_id,
                        held,
                        publishers,
                        subscriber_id,
                        cursor,
                        steps + 1,
                    );
                },
                Some(sender) => {
                    let name = spec_connection_name(sender, subscriber_id);
                    if !transport.connections.contains_key(name) {
                        lemma_receive_from_keeps_account(
                            pool,
                            table,
                            transport,
                            publisher_id,
                            held,
                            publishers,
                            subscriber_id,
                            cursor,
                            steps + 1,
                        );
                    } else {
                        match transport.connections[name].receive_result() {
                            Ok(None) => {
                                lemma_receive_from_keeps_account(
                                    pool,
                                    table,
                                    transport,
                                    publisher_id,
                                    held,
                                    publishers,
                                    subscriber_id,
                                    cursor,
                                    steps + 1,
                                );
                            },
                            Ok(Some(_)) => {
                                lemma_receive_step_keeps_account(
                                    pool,
                                    table,
                                    transport,
                                    publisher_id,
                                    held,
                                    sender,
                                    subscriber_id,
                                );
                            },
                            Err(_) => {},
                        }
                    }
                },
            }
        }
    }
}

/// The bookkeeping of a publisher stays in order when the connections of
/// its table stay as they are, whatever happens to other connections.
pub proof fn lemma_elsewhere_keeps_account(
    pool: Pool,
    table: Seq<Option<u128>>,
    transport: Transport,
    publisher_id: u128,
    held: Seq<usize>,
    others: Map<Seq<u8>, ConnectionState>,
)
    requires
        accounted(pool, table, transport, publisher_id, held),
        forall|j: int|
            0 <= j < table.len() && (#[trigger] table[j]).is_some() ==> {
                let name = spec_connection_name(publisher_id, table[j].unwrap());
                &&& others.contains_key(name) == transport.connections.contains_key(name)
                &&& others.contains_key(name) ==> others[name] == transport.connections[name]
            },
    ensures
        accounted(pool, table, Transport { connections: others, ..transport }, publisher_id, held),
{
    let after = Transport { connections: others, ..transport };
    let buckets = transport.reference_counters.len();
    assert forall|bucket: int| 0 <= bucket < buckets implies #[trigger] after.reference_counters[bucket]
        == references_in(pool, held, bucket) + table_references(
        pool,
        table,
        others,
        publisher_id,
        bucket,
        0,
    ) by {
        lemma_table_references_elsewhere(
            pool,
            table,
            transport.connections,
            others,
            publisher_id,
            bucket,
            0,
        );
        assert(transport.reference_counters[bucket] == references_in(pool, held, bucket)
            + table_references(pool, table, transport.connections, publisher_id, bucket, 0));
    }
    assert forall|bucket: int| 0 <= bucket < buckets implies (
    after.segments[pool.segment_name].is_allocated(bucket)
        <==> #[trigger] after.reference_counters[bucket] > 0) by {
        assert(transport.segments[pool.segment_name].is_allocated(bucket)
            <==> transport.reference_counters[bucket] > 0);
    }
}

/// The bookkeeping of a publisher stays in order when a subscriber
/// connects its side of the connection between some publisher and itself,
/// or closes it: the offsets of a connection whose sender is connected
/// stay where they are.
pub proof fn lemma_receiver_side_keeps_account(
    pool: Pool,
    table: Seq<Option<u128>>,
    transport: Transport,
    publisher_id: u128,
    held: Seq<usize>,
    sender: u128,
    receiver: u128,
    settings: ConnectionSettings,
)
    requires
        accounted(pool, table, transport, publisher_id, held),
        senders_are_connected(table, transport.connections, publisher_id),
    ensures
        accounted(
            pool,
            table,
            Transport {
                connections: after_close(
                    transport.connections,
                    spec_connection_name(sender, receiver),
                    Side::Receiver,
                ),
                ..transport
            },
            publisher_id,
            held,
        ),
        senders_are_connected(
            table,
            after_close(
                transport.connections,
                spec_connection_name(sender, receiver),
                Side::Receiver,
            ),
            publisher_id,
        ),
        accounted(
            pool,
            table,
            Transport {
                connections: after_connect(
                    transport.connections,
                    spec_connection_name(sender, receiver),
                    settings,
                    Side::Receiver,
                ),
                ..transport
            },
            publisher_id,
            held,
        ),
        senders_are_connected(
            table,
            after_connect(
                transport.connections,
                spec_connection_name(sender, receiver),
                settings,
                Side::Receiver,
            ),
            publisher_id,
        ),
{
    let name = spec_connection_name(sender, receiver);
    let closed = after_close(transport.connections, name, Side::Receiver);
    let connected = after_connect(transport.connections, name, settings, Side::Receiver);
    let same = Transport { connections: transport.connections, ..transport };
    assert(same == transport);
    if sender == publisher_id && exists|j: int|
        0 <= j < table.len() && table[j] == Some(receiver) {
        let j = choose|j: int| 0 <= j < table.len() && table[j] == Some(receiver);
        assert(table[j].is_some());
        let existing = transport.connections[name];
        assert(transport.connections.contains_key(name) && existing.has_sender);
        lemma_sides_keep_account(
            pool,
            table,
            transport,
            publisher_id,
            held,
            j,
            ConnectionState { has_sender: true, has_receiver: false, ..existing },
        );
        assert(closed == transport.connections.insert(
            name,
            ConnectionState { has_sender: true, has_receiver: false, ..existing },
        ));
        if connect_result(transport.connections, name, settings, Side::Receiver).is_ok() {
            lemma_sides_keep_account(
                pool,
                table,
                transport,
                publisher_id,
                held,
                j,
                ConnectionState { has_sender: true, has_receiver: true, ..existing },
            );
            assert(connected == transport.connections.insert(
                name,
                ConnectionState { has_sender: true, has_receiver: true, ..existing },
            ));
        }
    } else {
        assert forall|k: int| 0 <= k < table.len() && (#[trigger] table[k]).is_some() implies {
            let other = spec_connection_name(publisher_id, table[k].unwrap());
            &&& other != name
        } by {
            if spec_connection_name(publisher_id, table[k].unwrap()) == name {
                lemma_connection_name_is_injective(
                    publisher_id,
                    table[k].unwrap(),
                    sender,
                    receiver,
                );
            }
        }
        lemma_elsewhere_keeps_account(pool, table, transport, publisher_id, held, closed);
        lemma_elsewhere_keeps_account(pool, table, transport, publisher_id, held, connected);
    }
    assert forall|k: int| 0 <= k < table.len() && (#[trigger] table[k]).is_some() implies closed.contains_key(
        spec_connection_name(publisher_id, table[k].unwrap()),
    ) && closed[spec_connection_name(publisher_id, table[k].unwrap())].has_sender by {
        let other = spec_connection_name(publisher_id, table[k].unwrap());
        assert(transport.connections.contains_key(other) && transport.connections[other].has_sender);
    }
    assert forall|k: int| 0 <= k < table.len() && (#[trigger] table[k]).is_some() implies connected.contains_key(
        spec_connection_name(publisher_id, table[k].unwrap()),
    ) && connected[spec_connection_name(publisher_id, table[k].unwrap())].has_sender by {
        let other = spec_connection_name(publisher_id, table[k].unwrap());
        assert(transport.connections.contains_key(other) && transport.connections[other].has_sender);
    }
}

/// The bookkeeping of a publisher stays in order when a subscriber
/// brings its connections up to date: it connects or closes its side of
/// connections and moves no offset.
pub proof fn lemma_subscriber_update_keeps_account(
    pool: Pool,
    table: Seq<Option<u128>>,
    transport: Transport,
    publisher_id: u128,
    held: Seq<usize>,
    connected_to: Seq<Option<u128>>,
    publishers: Seq<Option<u128>>,
    subscriber_id: u128,
    settings: ConnectionSettings,
    callback: Option<DegrationCallback>,
    index: int,
)
    requires
        accounted(pool, table, transport, publisher_id, held),
        senders_are_connected(table, transport.connections, publisher_id),
        0 <= index,
    ensures
        accounted(
            pool,
            table,
            Transport {
                connections: crate::port::subscriber::populate_from(
                    connected_to,
                    publishers,
                    transport.connections,
                    transport.segments,
                    subscriber_id,
                    settings,
                    callback,
                    index,
                ).1,
                ..transport
            },
            publisher_id,
            held,
        ),
        senders_are_connected(
            table,
            crate::port::subscriber::populate_from(
                connected_to,
                publishers,
                transport.connections,
                transport.segments,
                subscriber_id,
                settings,
                callback,
                index,
            ).1,
            publisher_id,
        ),
    decreases connected_to.len() - index,
{
    let same = Transport { connections: transport.connections, ..transport };
    assert(same == transport);
    if index < connected_to.len() && index < publishers.len() {
        match publishers[index] {
            None => {
                let connections = match connected_to[index] {
                    Some(sender) => after_close(
                        transport.connections,
                        spec_connection_name(sender, subscriber_id),
                        Side::Receiver,
                    ),
                    None => transport.connections,
                };
                match connected_to[index] {
                    Some(sender) => {
                        lemma_receiver_side_keeps_account(
                            pool,
                            table,
                            transport,
                            publisher_id,
                            held,
                            sender,
                            subscriber_id,
                            settings,
                        );
                    },
                    None => {},
                }
                lemma_subscriber_update_keeps_account(
                    pool,
                    table,
                    Transport { connections, ..transport },
                    publisher_id,
                    held,
                    connected_to.update(index, None),
                    publishers,
                    subscriber_id,
                    settings,
                    callback,
                    index + 1,
                );
            },
            Some(sender) => {
                if connected_to[index].is_some() {
                    lemma_subscriber_update_keeps_account(
                        pool,
                        table,
                        transport,
                        publisher_id,
                        held,
                        connected_to,
                        publishers,
                        subscriber_id,
                        settings,
                        callback,
                        index + 1,
                    );
                } else {
                    match connection_result(
                        transport.connections,
                        transport.segments,
                        sender,
                        subscriber_id,
                        settings,
                    ) {
                        Ok(()) => {
                            lemma_receiver_side_keeps_account(
                                pool,
                                table,
                                transport,
                                publisher_id,
                                held,
                                sender,
                                subscriber_id,
                                settings,
                            );
                            let connections = after_connection(
                                transport.connections,
                                transport.segments,
                                sender,
                                subscriber_id,
                                settings,
                            );
                            lemma_subscriber_update_keeps_account(
                                pool,
                                table,
                                Transport { connections, ..transport },
                                publisher_id,
                                held,
                                connected_to.update(index, Some(sender)),
                                publishers,
                                subscriber_id,
                                settings,
                                callback,
                                index + 1,
                            );
                        },
                        Err(_) => {
                            if !(callback.is_some() && callback.unwrap().spec_call(sender)
                                == crate::port::DegrationAction::Fail) {
                                lemma_subscriber_update_keeps_account(
                                    pool,
                                    table,
                                    transport,
                                    publisher_id,
                                    held,
                                    connected_to,
                                    publishers,
                                    subscriber_id,
                                    settings,
                                    callback,
                                    index + 1,
                                );
                            }
                        },
                    }
                }
            },
        }
    }
}

/// A subscriber that looks for a sample moves offsets and leaves the sides
/// of every connection connected as they are.
pub proof fn lemma_receive_from_keeps_sides(
    table: Seq<Option<u128>>,
    connections: Map<Seq<u8>, ConnectionState>,
    publisher_id: u128,
    publishers: Seq<Option<u128>>,
    subscriber_id: u128,
    cursor: int,
    steps: int,
)
    requires
        senders_are_connected(table, connections, publisher_id),
    ensures
        senders_are_connected(
            table,
            receive_from(publishers, connections, subscriber_id, cursor, steps).0,
            publisher_id,
        ),
    decreases publishers.len() - steps,
{
    if 0 <= steps < publishers.len() {
        let slot = spec_slot_after(cursor, steps, publishers.len() as int);
        if 0 <= slot < publishers.len() {
            lemma_receive_from_keeps_sides(
                table,
                connections,
                publisher_id,
                publishers,
                subscriber_id,
                cursor,
                steps + 1,
            );
            let after = receive_from(publishers, connections, subscriber_id, cursor, steps).0;
            assert forall|j: int| 0 <= j < table.len() && (#[trigger] table[j]).is_some() implies after.contains_key(
                spec_connection_name(publisher_id, table[j].unwrap()),
            ) && after[spec_connection_name(publisher_id, table[j].unwrap())].has_sender by {
                let name = spec_connection_name(publisher_id, table[j].unwrap());
                assert(connections.contains_key(name) && connections[name].has_sender);
            }
        }
    }
}

/// The bookkeeping of a publisher stays in order when a subscriber
/// receives, whether or not the subscriber brings its connections up to
/// date first: whatever the subscriber gets, no bucket is lost and none is
/// counted twice.
pub proof fn lemma_receive_keeps_account(
    publisher: &Publisher,
    before: &Subscriber,
    after: &Subscriber,
    host_before: &Host,
    host_after: &Host,
    result: Result<Option<Sample>, ReceiveError>,
    held: Seq<usize>,
)
    requires
        accounted(
            publisher.pool(),
            publisher.table(),
            publisher.transport(host_before),
            publisher.spec_port_id(),
            held,
        ),
        senders_are_connected(
            publisher.table(),
            host_before.connections(),
            publisher.spec_port_id(),
        ),
        Subscriber::has_received(before, after, host_before, host_after, result),
    ensures
        accounted(
            publisher.pool(),
            publisher.table(),
            publisher.transport(host_after),
            publisher.spec_port_id(),
            held,
        ),
        senders_are_connected(
            publisher.table(),
            host_after.connections(),
            publisher.spec_port_id(),
        ),
{
    let pool = publisher.pool();
    let table = publisher.table();
    let publisher_id = publisher.spec_port_id();
    let transport = publisher.transport(host_before);
    let updated = before.updated(host_before);
    if before.sees_change(host_before) {
        lemma_subscriber_update_keeps_account(
            pool,
            table,
            transport,
            publisher_id,
            held,
            before.table(),
            host_before.registry(before.spec_service_id(), PortKind::Publisher),
            before.spec_port_id(),
            before.settings(),
            before.callback(),
            0,
        );
    }
    let reconciled = Transport { connections: updated.1, ..transport };
    assert(accounted(pool, table, reconciled, publisher_id, held));
    lemma_receive_from_keeps_account(
        pool,
        table,
        reconciled,
        publisher_id,
        held,
        updated.0,
        before.spec_port_id(),
        before.spec_cursor() as int,
        0,
    );
    lemma_receive_from_keeps_sides(
        table,
        updated.1,
        publisher_id,
        updated.0,
        before.spec_port_id(),
        before.spec_cursor() as int,
        0,
    );
    if host_after.connections() == updated.1 {
        assert(publisher.transport(host_after) == reconciled);
    } else {
        assert(publisher.transport(host_after) == Transport {
            connections: receive_from(
                updated.0,
                updated.1,
                before.spec_port_id(),
                before.spec_cursor() as int,
                0,
            ).0,
            ..reconciled
        });
    }
}

/// The bookkeeping of a publisher stays in order when a subscriber returns
/// a sample that it has borrowed over the connection that it returns the
/// sample to: the offset then waits in the retrieve channel of that
/// connection.
pub proof fn lemma_release_sample_keeps_account(
    publisher: &Publisher,
    host_before: &Host,
    host_after: &Host,
    publishers: Seq<Option<u128>>,
    subscriber_id: u128,
    channel_id: usize,
    offset: usize,
    held: Seq<usize>,
)
    requires
        accounted(
            publisher.pool(),
            publisher.table(),
            publisher.transport(host_before),
            publisher.spec_port_id(),
            held,
        ),
        host_after.segments() == host_before.segments(),
        host_after.connections() == Subscriber::released(
            publishers,
            host_before.connections(),
            subscriber_id,
            channel_id,
            offset,
        ),
        channel_id < publishers.len() && publishers[channel_id as int].is_some()
            && host_before.connections().contains_key(
            spec_connection_name(publishers[channel_id as int].unwrap(), subscriber_id),
        ) ==> host_before.connections()[spec_connection_name(
            publishers[channel_id as int].unwrap(),
            subscriber_id,
        )].borrowed.contains(offset),
    ensures
        accounted(
            publisher.pool(),
            publisher.table(),
            publisher.transport(host_after),
            publisher.spec_port_id(),
            held,
        ),
{
    let pool = publisher.pool();
    let table = publisher.table();
    let publisher_id = publisher.spec_port_id();
    let transport = publisher.transport(host_before);
    if channel_id < publishers.len() && publishers[channel_id as int].is_some()
        && host_before.connections().contains_key(
        spec_connection_name(publishers[channel_id as int].unwrap(), subscriber_id),
    ) {
        let sender = publishers[channel_id as int].unwrap();
        let name = spec_connection_name(sender, subscriber_id);
        let returned = transport.connections[name].after_release(offset);
        if sender == publisher_id && exists|j: int|
            0 <= j < table.len() && table[j] == Some(subscriber_id) {
            let j = choose|j: int| 0 <= j < table.len() && table[j] == Some(subscriber_id);
            lemma_subscriber_keeps_account(pool, table, transport, publisher_id, held, j, offset);
        } else {
            assert forall|j: int|
                0 <= j < table.len() && (
                #[trigger] table[j]).is_some() implies spec_connection_name(
                publisher_id,
                table[j].unwrap(),
            ) != name by {
                if spec_connection_name(publisher_id, table[j].unwrap()) == name {
                    lemma_connection_name_is_injective(
                        publisher_id,
                        table[j].unwrap(),
                        sender,
                        subscriber_id,
                    );
                }
            }
            lemma_other_connection_keeps_account(
                pool,
                table,
                transport,
                publisher_id,
                held,
                name,
                returned,
            );
        }
        assert(publisher.transport(host_after) == Transport {
            connections: transport.connections.insert(name, returned),
            ..transport
        });
    } else {
        assert(publisher.transport(host_after) == transport);
    }
}

/// The bookkeeping stays in order when a publisher with the given table
/// loans a sample: it then holds the sample that it got. No counter grows
/// but the one of the sample, which is one.
pub proof fn lemma_loaned_keeps_account(
    pool: Pool,
    table: Seq<Option<u128>>,
    transport: Transport,
    publisher_id: u128,
    held: Seq<usize>,
    layout: Layout,
)
    requires
        accounted(pool, table, transport, publisher_id, held),
    ensures
        accounted(
            pool,
            table,
            Publisher::loaned(pool, table, transport, publisher_id, layout).0,
            publisher_id,
            match Publisher::loaned(pool, table, transport, publisher_id, layout).1 {
                Ok(offset) => held.push(offset),
                Err(_) => held,
            },
        ),
        Publisher::loaned(pool, table, transport, publisher_id, layout).0.connections
            == reclaim_from(pool, table, transport, publisher_id, 0).connections,
        Publisher::loaned(pool, table, transport, publisher_id, layout).0.reference_counters.len()
            == transport.reference_counters.len(),
        Publisher::loaned(pool, table, transport, publisher_id, layout).1.is_ok()
            ==> Publisher::loaned(
            pool,
            table,
            transport,
            publisher_id,
            layout,
        ).0.reference_counters[spec_bucket_index(
            pool,
            Publisher::loaned(pool, table, transport, publisher_id, layout).1.unwrap(),
        )] == 1,
{
    lemma_reclaim_keeps_account(pool, table, transport, publisher_id, held, 0);
    let reclaimed = reclaim_from(pool, table, transport, publisher_id, 0);
    let segment = reclaimed.segments[pool.segment_name];
    let buckets = reclaimed.reference_counters.len();
    let loaned = Publisher::loaned(pool, table, transport, publisher_id, layout);
    match segment.allocate_result(layout) {
        Ok(offset) => {
            let value = offset.spec_value();
            let bucket = spec_bucket_index(pool, value);
            let now = loaned.0;
            let kept = held.push(value);
            segment.lemma_allocate(layout);
            assert(bucket == segment.free_buckets[0]);
            assert(segment.free_buckets.contains(segment.free_buckets[0]));
            assert(reclaimed.reference_counters[bucket] == 0);
            lemma_lie_in_buckets(pool, held, buckets, 0, value);
            assert(now.segments[pool.segment_name] == segment.after_allocate(layout));
            assert forall|other: int| 0 <= other < buckets implies #[trigger] now.reference_counters[other]
                == references_in(pool, kept, other) + table_references(
                pool,
                table,
                now.connections,
                publisher_id,
                other,
                0,
            ) by {
                lemma_references_push(pool, held, value, other);
                assert(reclaimed.reference_counters[other] == references_in(pool, held, other)
                    + table_references(pool, table, reclaimed.connections, publisher_id, other, 0));
            }
            assert forall|other: int| 0 <= other < buckets implies (
            now.segments[pool.segment_name].is_allocated(other)
                <==> #[trigger] now.reference_counters[other] > 0) by {
                assert(segment.is_allocated(other) <==> reclaimed.reference_counters[other] > 0);
            }
        },
        Err(_) => {},
    }
}

/// The bookkeeping stays in order when bytes are written to a sample:
/// what a bucket holds does not count.
pub proof fn lemma_written_keeps_account(
    pool: Pool,
    table: Seq<Option<u128>>,
    transport: Transport,
    publisher_id: u128,
    held: Seq<usize>,
    offset: usize,
    value: Seq<u8>,
)
    requires
        accounted(pool, table, transport, publisher_id, held),
    ensures
        accounted(
            pool,
            table,
            Transport {
                segments: Publisher::written(transport.segments, pool, offset, value),
                ..transport
            },
            publisher_id,
            held,
        ),
{
    let segment = transport.segments[pool.segment_name];
    let after = Transport {
        segments: Publisher::written(transport.segments, pool, offset, value),
        ..transport
    };
    let buckets = transport.reference_counters.len();
    if segment.in_bounds(offset, value.len()) {
        assert(after.segments[pool.segment_name] == segment.after_write(offset, value));
        assert(segment.after_write(offset, value).payload.len() == segment.payload.len());
    }
    assert forall|bucket: int| 0 <= bucket < buckets implies #[trigger] after.reference_counters[bucket]
        == references_in(pool, held, bucket) + table_references(
        pool,
        table,
        after.connections,
        publisher_id,
        bucket,
        0,
    ) by {
        assert(transport.reference_counters[bucket] == references_in(pool, held, bucket)
            + table_references(pool, table, transport.connections, publisher_id, bucket, 0));
    }
    assert forall|bucket: int| 0 <= bucket < buckets implies (
    after.segments[pool.segment_name].is_allocated(bucket)
        <==> #[trigger] after.reference_counters[bucket] > 0) by {
        assert(segment.is_allocated(bucket) <==> transport.reference_counters[bucket] > 0);
    }
}

/// True if the connections `after` are the connections `before` but for
/// offsets that were taken out of retrieve channels.
pub open spec fn differ_in_returned_only(
    before: Map<Seq<u8>, ConnectionState>,
    after: Map<Seq<u8>, ConnectionState>,
) -> bool {
    &&& after.dom() == before.dom()
    &&& forall|name: Seq<u8>| #[trigger]
        before.contains_key(name) ==> after[name].submission == before[name].submission
            && after[name].borrowed == before[name].borrowed && after[name].has_sender
            == before[name].has_sender && (before[name].retrieve.len() == 0
            ==> after[name].retrieve.len() == 0)
}

/// When the publisher takes back what waits in the retrieve channels of
/// its connections, nothing else changes in the connections.
pub proof fn lemma_reclaim_takes_returned_only(
    pool: Pool,
    table: Seq<Option<u128>>,
    transport: Transport,
    publisher_id: u128,
    index: int,
)
    requires
        0 <= index,
    ensures
        differ_in_returned_only(
            transport.connections,
            reclaim_from(pool, table, transport, publisher_id, index).connections,
        ),
    decreases table.len() - index,
{
    if index < table.len() {
        match table[index] {
            Some(subscriber_id) => {
                let name = spec_connection_name(publisher_id, subscriber_id);
                lemma_drain_empties_retrieve_channel(pool, transport, name);
                let drained = drain(pool, transport, name);
                lemma_reclaim_takes_returned_only(pool, table, drained, publisher_id, index + 1);
                let after = reclaim_from(pool, table, transport, publisher_id, index);
                assert forall|other: Seq<u8>| #[trigger]
                    transport.connections.contains_key(other) implies after.connections[other].submission
                    == transport.connections[other].submission && after.connections[other].borrowed
                    == transport.connections[other].borrowed && after.connections[other].has_sender
                    == transport.connections[other].has_sender && (
                transport.connections[other].retrieve.len() == 0
                    ==> after.connections[other].retrieve.len() == 0) by {
                    assert(drained.connections.contains_key(other));
                }
            },
            None => {
                lemma_reclaim_takes_returned_only(pool, table, transport, publisher_id, index + 1);
            },
        }
    }
}

/// The bookkeeping stays in order when a publisher loans a sample, copies
/// a value into it and sends it, as long as it can bring its connections
/// up to date without losing a bucket: afterwards the publisher holds what
/// it held before.
pub proof fn lemma_send_copy_keeps_account(
    before: &Publisher,
    host: &Host,
    value: Seq<u8>,
    held: Seq<usize>,
)
    requires
        accounted(
            before.pool(),
            before.table(),
            before.transport(host),
            before.spec_port_id(),
            held,
        ),
        can_update(before, host),
        before.table().len() < u32::MAX,
    ensures
        accounted(
            before.pool(),
            Publisher::copy_sent(before, host, value).0,
            Publisher::copy_sent(before, host, value).1,
            before.spec_port_id(),
            held,
        ),
{
    let pool = before.pool();
    let table = before.table();
    let publisher_id = before.spec_port_id();
    let transport = before.transport(host);
    let layout = before.spec_payload_layout();
    lemma_loaned_keeps_account(pool, table, transport, publisher_id, held, layout);
    lemma_reclaim_takes_returned_only(pool, table, transport, publisher_id, 0);
    let loaned = Publisher::loaned(pool, table, transport, publisher_id, layout);
    match loaned.1 {
        Err(_) => {},
        Ok(offset) => {
            let kept = held.push(offset);
            let bucket = spec_bucket_index(pool, offset);
            let written = Transport {
                segments: Publisher::written(loaned.0.segments, pool, offset, value),
                ..loaned.0
            };
            lemma_written_keeps_account(pool, table, loaned.0, publisher_id, kept, offset, value);
            let subscribers = host.registry(before.spec_service_id(), PortKind::Subscriber);
            if before.sees_change(host) {
                assert(can_be_updated(table, subscribers, written.connections, publisher_id, 0));
                lemma_update_keeps_account(
                    pool,
                    table,
                    subscribers,
                    written,
                    publisher_id,
                    before.settings(),
                    kept,
                    0,
                );
            }
            let updated = if before.sees_change(host) {
                populate_from(
                    pool,
                    table,
                    subscribers,
                    written,
                    publisher_id,
                    before.settings(),
                    0,
                )
            } else {
                (table, written)
            };
            assert(updated.1.reference_counters[bucket] <= 1);
            lemma_reclaim_keeps_account(pool, updated.0, updated.1, publisher_id, kept, 0);
            let reclaimed = reclaim_from(pool, updated.0, updated.1, publisher_id, 0);
            assert(reclaimed.reference_counters[bucket] <= updated.1.reference_counters[bucket]);
            lemma_deliver_keeps_account(
                pool,
                updated.0,
                reclaimed,
                publisher_id,
                kept,
                held.len() as int,
                0,
                0,
            );
            let delivered = deliver_from(pool, updated.0, reclaimed, publisher_id, offset, 0, 0);
            lemma_release_keeps_account(
                pool,
                updated.0,
                delivered.0,
                publisher_id,
                kept,
                held.len() as int,
            );
            assert(kept.remove(held.len() as int) =~= held);
        },
    }
}

/// True if the connections `after` are the connections `before` with
/// the same sides connected.
pub open spec fn have_same_sides(
    before: Map<Seq<u8>, ConnectionState>,
    after: Map<Seq<u8>, ConnectionState>,
) -> bool {
    &&& after.dom() == before.dom()
    &&& forall|name: Seq<u8>| #[trigger]
        before.contains_key(name) ==> after[name].has_sender == before[name].has_sender
            && after[name].has_receiver == before[name].has_receiver
}

/// A publisher that sends a sample over its connections leaves the sides
/// of every connection connected as they are.
pub proof fn lemma_deliver_keeps_sides(
    pool: Pool,
    table: Seq<Option<u128>>,
    transport: Transport,
    publisher_id: u128,
    offset: usize,
    index: int,
    count: nat,
)
    requires
        0 <= index,
    ensures
        have_same_sides(
            transport.connections,
            deliver_from(pool, table, transport, publisher_id, offset, index, count).0.connections,
        ),
    decreases table.len() - index,
{
    if index < table.len() {
        match table[index] {
            None => {
                lemma_deliver_keeps_sides(
                    pool,
                    table,
                    transport,
                    publisher_id,
                    offset,
                    index + 1,
                    count,
                );
            },
            Some(subscriber_id) => {
                let name = spec_connection_name(publisher_id, subscriber_id);
                if !transport.connections.contains_key(name) {
                    lemma_deliver_keeps_sides(
                        pool,
                        table,
                        transport,
                        publisher_id,
                        offset,
                        index + 1,
                        count,
                    );
                } else {
                    let connection = transport.connections[name];
                    match connection.send_result(offset) {
                        Err(_) => {
                            lemma_deliver_keeps_sides(
                                pool,
                                table,
                                transport,
                                publisher_id,
                                offset,
                                index + 1,
                                count,
                            );
                        },
                        Ok(evicted) => {
                            let sent = borrow_sample(
                                pool,
                                Transport {
                                    connections: transport.connections.insert(
                                        name,
                                        connection.after_send(offset),
                                    ),
                                    ..transport
                                },
                                offset,
                            );
                            let next = match evicted {
                                Some(old) => release_sample(pool, sent, old),
                                None => sent,
                            };
                            assert(next.connections == transport.connections.insert(
                                name,
                                connection.after_send(offset),
                            ));
                            assert(next.connections.dom() =~= transport.connections.dom());
                            lemma_deliver_keeps_sides(
                                pool,
                                table,
                                next,
                                publisher_id,
                                offset,
                                index + 1,
                                count + 1,
                            );
                            let after = deliver_from(
                                pool,
                                table,
                                transport,
                                publisher_id,
                                offset,
                                index,
                                count,
                            ).0;
                            assert forall|other: Seq<u8>| #[trigger]
                                transport.connections.contains_key(other) implies after.connections[other].has_sender
                                == transport.connections[other].has_sender
                                && after.connections[other].has_receiver
                                == transport.connections[other].has_receiver by {
                                assert(next.connections.contains_key(other));
                            }
                        },
                    }
                }
            },
        }
    }
}

/// A publisher that loans a sample or sends one over a table that is up
/// to date keeps its senders connected.
pub proof fn lemma_loan_and_send_keep_senders(
    pool: Pool,
    table: Seq<Option<u128>>,
    transport: Transport,
    publisher_id: u128,
    layout: Layout,
    offset: usize,
)
    requires
        senders_are_connected(table, transport.connections, publisher_id),
    ensures
        senders_are_connected(
            table,
            Publisher::loaned(pool, table, transport, publisher_id, layout).0.connections,
            publisher_id,
        ),
        senders_are_connected(
            table,
            Publisher::sent(pool, table, transport, publisher_id, offset).0.connections,
            publisher_id,
        ),
{
    lemma_reclaim_takes_returned_only(pool, table, transport, publisher_id, 0);
    let reclaimed = reclaim_from(pool, table, transport, publisher_id, 0);
    lemma_deliver_keeps_sides(pool, table, reclaimed, publisher_id, offset, 0, 0);
    let delivered = deliver_from(pool, table, reclaimed, publisher_id, offset, 0, 0);
    let loaned = Publisher::loaned(pool, table, transport, publisher_id, layout).0;
    let sent = Publisher::sent(pool, table, transport, publisher_id, offset).0;
    assert(loaned.connections == reclaimed.connections);
    assert(sent.connections == delivered.0.connections);
    assert forall|j: int| 0 <= j < table.len() && (#[trigger] table[j]).is_some() implies reclaimed.connections.contains_key(
        spec_connection_name(publisher_id, table[j].unwrap()),
    ) && reclaimed.connections[spec_connection_name(publisher_id, table[j].unwrap())].has_sender by {
        let name = spec_connection_name(publisher_id, table[j].unwrap());
        assert(transport.connections.contains_key(name) && transport.connections[name].has_sender);
    }
    assert forall|j: int| 0 <= j < table.len() && (#[trigger] table[j]).is_some() implies delivered.0.connections.contains_key(
        spec_connection_name(publisher_id, table[j].unwrap()),
    ) && delivered.0.connections[spec_connection_name(
        publisher_id,
        table[j].unwrap(),
    )].has_sender by {
        let name = spec_connection_name(publisher_id, table[j].unwrap());
        assert(reclaimed.connections.contains_key(name) && reclaimed.connections[name].has_sender);
    }
}

} // verus!
