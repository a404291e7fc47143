//! The identities of ports. An identity is a 128 bit value made of the id of
//! the process, the time at which the process started and a counter, so
//! that no two ports of a host carry the same one.

use vstd::prelude::*;

verus! {

/// The value that is made of the given parts: the process id in the upper
/// 32 bits, the start time in the middle and the counter in the lower 32
/// bits.
pub open spec fn spec_compose(process_id: u32, startup_time: u64, counter: u32) -> u128 {
    ((process_id as u128) << 96) | ((startup_time as u128) << 32) | (counter as u128)
}

/// Values that are made of different parts are different.
pub proof fn lemma_compose_is_injective(
    process_id: u32,
    startup_time: u64,
    counter: u32,
    other_process_id: u32,
    other_startup_time: u64,
    other_counter: u32,
)
    requires
        spec_compose(process_id, startup_time, counter) == spec_compose(
            other_process_id,
            other_startup_time,
            other_counter,
        ),
    ensures
        process_id == other_process_id,
        startup_time == other_startup_time,
        counter == other_counter,
{
    assert(forall|p: u32, t: u64, c: u32|
        {
            let v = #[trigger] (((p as u128) << 96) | ((t as u128) << 32) | (c as u128));
            (v >> 96) as u32 == p && ((v >> 32) & 0xffff_ffff_ffff_ffff) as u64 == t && (v
                & 0xffff_ffff) as u32 == c
        }) by (bit_vector);
}

/// Hands out the identities of the ports of one process.
#[derive(Debug)]
pub struct UniqueSystemId {
    process_id: u32,
    startup_time: u64,
    counter: u32,
}

impl UniqueSystemId {
    /// The id of the process.
    pub closed spec fn spec_process_id(&self) -> u32 {
        self.process_id
    }

    /// The time at which the process started.
    pub closed spec fn spec_startup_time(&self) -> u64 {
        self.startup_time
    }

    /// The number of identities handed out so far, modulo 2^32.
    pub closed spec fn spec_counter(&self) -> u32 {
        self.counter
    }

    /// The identity that is handed out next.
    pub open spec fn spec_next(&self) -> u128 {
        spec_compose(self.spec_process_id(), self.spec_startup_time(), self.spec_counter())
    }

    /// Creates the source of identities of the process with the given id
    /// that started at the given time.
    pub fn new(process_id: u32, startup_time: u64) -> (generator: Self)
        ensures
            generator.spec_process_id() == process_id,
            generator.spec_startup_time() == startup_time,
            generator.spec_counter() == 0,
    {
        UniqueSystemId { process_id, startup_time, counter: 0 }
    }

    /// Hands out the next identity and advances the counter.
    pub fn next(&mut self) -> (value: u128)
        ensures
            value == old(self).spec_next(),
            final(self).spec_process_id() == old(self).spec_process_id(),
            final(self).spec_startup_time() == old(self).spec_startup_time(),
            final(self).spec_counter() == old(self).spec_counter().wrapping_add(1),
    {
        let value: u128 = ((self.process_id as u128) << 96) | ((self.startup_time as u128) << 32) | (
        self.counter as u128);
        self.counter = self.counter.wrapping_add(1);
        value
    }
}

/// The name under which the objects of the port with the given identity
/// are found: the 16 bytes of the value, the lowest first.
pub open spec fn spec_id_name(value: u128) -> Seq<u8> {
    vstd::bytes::spec_u128_to_le_bytes(value)
}

/// The name of the connection between the publisher and the subscriber
/// with the given identities: the name of the one followed by the name of
/// the other.
pub open spec fn spec_connection_name(publisher: u128, subscriber: u128) -> Seq<u8> {
    spec_id_name(publisher) + spec_id_name(subscriber)
}

/// Different identities have different names.
pub proof fn lemma_id_name_is_injective(first: u128, second: u128)
    requires
        spec_id_name(first) == spec_id_name(second),
    ensures
        first == second,
{
    vstd::bytes::lemma_auto_spec_u128_to_from_le_bytes();
    assert(vstd::bytes::spec_u128_to_le_bytes(first).len() == 16);
    assert(vstd::bytes::spec_u128_to_le_bytes(second).len() == 16);
}

/// Different pairs of identities have different connection names.
pub proof fn lemma_connection_name_is_injective(
    publisher: u128,
    subscriber: u128,
    other_publisher: u128,
    other_subscriber: u128,
)
    requires
        spec_connection_name(publisher, subscriber) == spec_connection_name(
            other_publisher,
            other_subscriber,
        ),
    ensures
        publisher == other_publisher,
        subscriber == other_subscriber,
{
    vstd::bytes::lemma_auto_spec_u128_to_from_le_bytes();
    let name = spec_connection_name(publisher, subscriber);
    let other = spec_connection_name(other_publisher, other_subscriber);
    assert(vstd::bytes::spec_u128_to_le_bytes(publisher).len() == 16);
    assert(vstd::bytes::spec_u128_to_le_bytes(subscriber).len() == 16);
    assert(vstd::bytes::spec_u128_to_le_bytes(other_publisher).len() == 16);
    assert(vstd::bytes::spec_u128_to_le_bytes(other_subscriber).len() == 16);
    assert(name.subrange(0, 16) =~= spec_id_name(publisher));
    assert(other.subrange(0, 16) =~= spec_id_name(other_publisher));
    assert(name.subrange(16, 32) =~= spec_id_name(subscriber));
    assert(other.subrange(16, 32) =~= spec_id_name(other_subscriber));
}

/// Returns the name under which the objects of the port with the given
/// identity are found.
pub fn id_name(value: u128) -> (name: Vec<u8>)
    ensures
        name@ == spec_id_name(value),
{
    vstd::bytes::u128_to_le_bytes(value)
}

/// Returns the name of the connection between the publisher and the
/// subscriber with the given identities.
pub fn connection_name(publisher: u128, subscriber: u128) -> (name: Vec<u8>)
    ensures
        name@ == spec_connection_name(publisher, subscriber),
{
    let mut name = id_name(publisher);
    let mut second = id_name(subscriber);
    name.append(&mut second);
    name
}

/// The identity of a publisher.
#[derive(Debug, Clone, Copy, PartialEq, Eq, Structural)]
pub struct UniquePublisherId {
    pub value: u128,
}

/// The identity of a subscriber.
#[derive(Debug, Clone, Copy, PartialEq, Eq, Structural)]
pub struct UniqueSubscriberId {
    pub value: u128,
}

/// The identity of a notifier.
#[derive(Debug, Clone, Copy, PartialEq, Eq, Structural)]
pub struct UniqueNotifierId {
    pub value: u128,
}

/// The identity of a listener.
#[derive(Debug, Clone, Copy, PartialEq, Eq, Structural)]
pub struct UniqueListenerId {
    pub value: u128,
}

} // verus!
