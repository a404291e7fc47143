//! The settings of a publish subscribe service.

use crate::cal::registry::copy_name;
use crate::service::static_config::{
    append_number,
    lemma_number_is_read_again,
    read_number,
    spec_number,
    spec_number_at,
};
use vstd::prelude::*;

verus! {

/// The number of subscribers of a service unless another one is asked for.
pub const DEFAULT_MAX_SUBSCRIBERS: usize = 8;

/// The number of publishers of a service unless another one is asked for.
pub const DEFAULT_MAX_PUBLISHERS: usize = 2;

/// The history size of a service unless another one is asked for.
pub const DEFAULT_HISTORY_SIZE: usize = 1;

/// The buffer size of a subscriber unless another one is asked for.
pub const DEFAULT_SUBSCRIBER_MAX_BUFFER_SIZE: usize = 2;

/// The number of samples that a subscriber can borrow unless another one
/// is asked for.
pub const DEFAULT_SUBSCRIBER_MAX_BORROWED_SAMPLES: usize = 2;

/// The overflow mode of a service unless another one is asked for.
pub const DEFAULT_ENABLE_SAFE_OVERFLOW: bool = true;

/// The length of the stored form without the name of the payload type.
pub const STORED_LENGTH: usize = 64;

/// The settings of a publish subscribe service.
#[derive(Debug)]
pub struct StaticConfig {
    pub max_subscribers: usize,
    pub max_publishers: usize,
    pub history_size: usize,
    pub subscriber_max_buffer_size: usize,
    pub subscriber_max_borrowed_samples: usize,
    pub enable_safe_overflow: bool,
    pub type_size: usize,
    pub type_alignment: usize,
    pub payload_type: Vec<u8>,
}

/// The number that stands for an overflow mode.
pub open spec fn spec_flag(value: bool) -> usize {
    if value {
        1
    } else {
        0
    }
}

impl StaticConfig {
    /// True if the two settings are the same.
    pub open spec fn same_as(&self, other: &StaticConfig) -> bool {
        &&& self.max_subscribers == other.max_subscribers
        &&& self.max_publishers == other.max_publishers
        &&& self.history_size == other.history_size
        &&& self.subscriber_max_buffer_size == other.subscriber_max_buffer_size
        &&& self.subscriber_max_borrowed_samples == other.subscriber_max_borrowed_samples
        &&& self.enable_safe_overflow == other.enable_safe_overflow
        &&& self.type_size == other.type_size
        &&& self.type_alignment == other.type_alignment
        &&& self.payload_type@ == other.payload_type@
    }

    /// The stored form of the numbers of the settings.
    pub open spec fn spec_serialize_numbers(&self) -> Seq<u8> {
        spec_number(self.max_subscribers) + spec_number(self.max_publishers) + spec_number(
            self.history_size,
        ) + spec_number(self.subscriber_max_buffer_size) + spec_number(
            self.subscriber_max_borrowed_samples,
        ) + spec_number(spec_flag(self.enable_safe_overflow)) + spec_number(self.type_size)
            + spec_number(self.type_alignment)
    }

    /// The stored form of the settings.
    pub open spec fn spec_serialize(&self) -> Seq<u8> {
        self.spec_serialize_numbers() + self.payload_type@
    }

    /// True if `bytes` are the stored form of some settings.
    pub open spec fn spec_is_stored_form(bytes: Seq<u8>) -> bool {
        &&& bytes.len() >= STORED_LENGTH
        &&& spec_number_at(bytes, 0) <= usize::MAX
        &&& spec_number_at(bytes, 8) <= usize::MAX
        &&& spec_number_at(bytes, 16) <= usize::MAX
        &&& spec_number_at(bytes, 24) <= usize::MAX
        &&& spec_number_at(bytes, 32) <= usize::MAX
        &&& spec_number_at(bytes, 40) <= 1
        &&& spec_number_at(bytes, 48) <= usize::MAX
        &&& spec_number_at(bytes, 56) <= usize::MAX
    }

    /// True if the settings are the ones that `bytes` store.
    pub open spec fn is_stored_in(&self, bytes: Seq<u8>) -> bool {
        &&& Self::spec_is_stored_form(bytes)
        &&& self.max_subscribers == spec_number_at(bytes, 0)
        &&& self.max_publishers == spec_number_at(bytes, 8)
        &&& self.history_size == spec_number_at(bytes, 16)
        &&& self.subscriber_max_buffer_size == spec_number_at(bytes, 24)
        &&& self.subscriber_max_borrowed_samples == spec_number_at(bytes, 32)
        &&& spec_flag(self.enable_safe_overflow) == spec_number_at(bytes, 40)
        &&& self.type_size == spec_number_at(bytes, 48)
        &&& self.type_alignment == spec_number_at(bytes, 56)
        &&& self.payload_type@ == bytes.subrange(STORED_LENGTH as int, bytes.len() as int)
    }

    /// The stored form of settings stores these settings, and whatever
    /// else it stores are the same settings.
    pub proof fn lemma_serialize_stores(&self, other: &StaticConfig)
        ensures
            self.is_stored_in(self.spec_serialize()),
            other.is_stored_in(self.spec_serialize()) ==> other.same_as(self),
    {
        let empty = Seq::<u8>::empty();
        let n0 = spec_number(self.max_subscribers);
        let n1 = spec_number(self.max_publishers);
        let n2 = spec_number(self.history_size);
        let n3 = spec_number(self.subscriber_max_buffer_size);
        let n4 = spec_number(self.subscriber_max_borrowed_samples);
        let n5 = spec_number(spec_flag(self.enable_safe_overflow));
        let n6 = spec_number(self.type_size);
        let n7 = spec_number(self.type_alignment);
        let name = self.payload_type@;
        let bytes = self.spec_serialize();
        lemma_number_is_read_again(empty, self.max_subscribers, n1 + n2 + n3 + n4 + n5 + n6 + n7 + name);
        lemma_number_is_read_again(n0, self.max_publishers, n2 + n3 + n4 + n5 + n6 + n7 + name);
        lemma_number_is_read_again(n0 + n1, self.history_size, n3 + n4 + n5 + n6 + n7 + name);
        lemma_number_is_read_again(
            n0 + n1 + n2,
            self.subscriber_max_buffer_size,
            n4 + n5 + n6 + n7 + name,
        );
        lemma_number_is_read_again(
            n0 + n1 + n2 + n3,
            self.subscriber_max_borrowed_samples,
            n5 + n6 + n7 + name,
        );
        lemma_number_is_read_again(
            n0 + n1 + n2 + n3 + n4,
            spec_flag(self.enable_safe_overflow),
            n6 + n7 + name,
        );
        lemma_number_is_read_again(n0 + n1 + n2 + n3 + n4 + n5, self.type_size, n7 + name);
        lemma_number_is_read_again(n0 + n1 + n2 + n3 + n4 + n5 + n6, self.type_alignment, name);
        assert(empty + n0 + (n1 + n2 + n3 + n4 + n5 + n6 + n7 + name) =~= bytes);
        assert(n0 + n1 + (n2 + n3 + n4 + n5 + n6 + n7 + name) =~= bytes);
        assert(n0 + n1 + n2 + (n3 + n4 + n5 + n6 + n7 + name) =~= bytes);
        assert(n0 + n1 + n2 + n3 + (n4 + n5 + n6 + n7 + name) =~= bytes);
        assert(n0 + n1 + n2 + n3 + n4 + (n5 + n6 + n7 + name) =~= bytes);
        assert(n0 + n1 + n2 + n3 + n4 + n5 + (n6 + n7 + name) =~= bytes);
        assert(n0 + n1 + n2 + n3 + n4 + n5 + n6 + (n7 + name) =~= bytes);
        assert(n0 + n1 + n2 + n3 + n4 + n5 + n6 + n7 + name =~= bytes);
        assert(bytes.subrange(STORED_LENGTH as int, bytes.len() as int) =~= name);
    }

    /// Creates the settings that are used unless others are asked for, for
    /// a payload type with the given name, size and alignment.
    pub fn new(payload_type: &Vec<u8>, type_size: usize, type_alignment: usize) -> (config: Self)
        ensures
            config.max_subscribers == DEFAULT_MAX_SUBSCRIBERS,
            config.max_publishers == DEFAULT_MAX_PUBLISHERS,
            config.history_size == DEFAULT_HISTORY_SIZE,
            config.subscriber_max_buffer_size == DEFAULT_SUBSCRIBER_MAX_BUFFER_SIZE,
            config.subscriber_max_borrowed_samples == DEFAULT_SUBSCRIBER_MAX_BORROWED_SAMPLES,
            config.enable_safe_overflow == DEFAULT_ENABLE_SAFE_OVERFLOW,
            config.type_size == type_size,
            config.type_alignment == type_alignment,
            config.payload_type@ == payload_type@,
    {
        StaticConfig {
            max_subscribers: DEFAULT_MAX_SUBSCRIBERS,
            max_publishers: DEFAULT_MAX_PUBLISHERS,
            history_size: DEFAULT_HISTORY_SIZE,
            subscriber_max_buffer_size: DEFAULT_SUBSCRIBER_MAX_BUFFER_SIZE,
            subscriber_max_borrowed_samples: DEFAULT_SUBSCRIBER_MAX_BORROWED_SAMPLES,
            enable_safe_overflow: DEFAULT_ENABLE_SAFE_OVERFLOW,
            type_size,
            type_alignment,
            payload_type: copy_name(payload_type),
        }
    }

    /// Copies the settings.
    pub fn clone(&self) -> (config: Self)
        ensures
            config.same_as(self),
    {
        StaticConfig {
            max_subscribers: self.max_subscribers,
            max_publishers: self.max_publishers,
            history_size: self.history_size,
            subscriber_max_buffer_size: self.subscriber_max_buffer_size,
            subscriber_max_borrowed_samples: self.subscriber_max_borrowed_samples,
            enable_safe_overflow: self.enable_safe_overflow,
            type_size: self.type_size,
            type_alignment: self.type_alignment,
            payload_type: copy_name(&self.payload_type),
        }
    }

    /// Appends the stored form of the settings to `bytes`.
    pub(crate) fn serialize_into(&self, bytes: &mut Vec<u8>)
        ensures
            final(bytes)@ == old(bytes)@ + self.spec_serialize(),
    {
        append_number(bytes, self.max_subscribers);
        append_number(bytes, self.max_publishers);
        append_number(bytes, self.history_size);
        append_number(bytes, self.subscriber_max_buffer_size);
        append_number(bytes, self.subscriber_max_borrowed_samples);
        append_number(
            bytes,
            if self.enable_safe_overflow {
                1
            } else {
                0
            },
        );
        append_number(bytes, self.type_size);
        append_number(bytes, self.type_alignment);
        let mut name = copy_name(&self.payload_type);
        bytes.append(&mut name);
        assert(bytes@ =~= old(bytes)@ + self.spec_serialize());
    }

    /// Reads the settings that `bytes` store from `at` to their end.
    pub(crate) fn deserialize_from(bytes: &Vec<u8>, at: usize) -> (config: Option<StaticConfig>)
        requires
            at <= bytes.len(),
        ensures
            config.is_some() == Self::spec_is_stored_form(
                bytes@.subrange(at as int, bytes@.len() as int),
            ),
            config.is_some() ==> config.unwrap().is_stored_in(
                bytes@.subrange(at as int, bytes@.len() as int),
            ),
    {
        let ghost rest = bytes@.subrange(at as int, bytes@.len() as int);
        if bytes.len() - at < STORED_LENGTH {
            return None;
        }
        proof {
            assert(rest.subrange(0, 8) =~= bytes@.subrange(at as int, at + 8));
            assert(rest.subrange(8, 16) =~= bytes@.subrange(at + 8, at + 16));
            assert(rest.subrange(16, 24) =~= bytes@.subrange(at + 16, at + 24));
            assert(rest.subrange(24, 32) =~= bytes@.subrange(at + 24, at + 32));
            assert(rest.subrange(32, 40) =~= bytes@.subrange(at + 32, at + 40));
            assert(rest.subrange(40, 48) =~= bytes@.subrange(at + 40, at + 48));
            assert(rest.subrange(48, 56) =~= bytes@.subrange(at + 48, at + 56));
            assert(rest.subrange(56, 64) =~= bytes@.subrange(at + 56, at + 64));
        }
        let max_subscribers: u64 = read_number(bytes, at);
        let max_publishers: u64 = read_number(bytes, at + 8);
        let history_size: u64 = read_number(bytes, at + 16);
        let subscriber_max_buffer_size: u64 = read_number(bytes, at + 24);
        let subscriber_max_borrowed_samples: u64 = read_number(bytes, at + 32);
        let enable_safe_overflow: u64 = read_number(bytes, at + 40);
        let type_size: u64 = read_number(bytes, at + 48);
        let type_alignment: u64 = read_number(bytes, at + 56);
        let limit: u64 = usize::MAX as u64;
        if max_subscribers > limit || max_publishers > limit || history_size > limit
            || subscriber_max_buffer_size > limit || subscriber_max_borrowed_samples > limit
            || enable_safe_overflow > 1 || type_size > limit || type_alignment > limit {
            return None;
        }
        let mut payload_type: Vec<u8> = Vec::new();
        let mut i: usize = at + STORED_LENGTH;
        while i < bytes.len()
            invariant
                at + STORED_LENGTH <= i <= bytes.len(),
                payload_type@ == bytes@.subrange(at + STORED_LENGTH, i as int),
            decreases bytes.len() - i,
        {
            payload_type.push(bytes[i]);
            assert(payload_type@ =~= bytes@.subrange(at + STORED_LENGTH, i + 1));
            i += 1;
        }
        assert(payload_type@ =~= rest.subrange(STORED_LENGTH as int, rest.len() as int));
        Some(
            StaticConfig {
                max_subscribers: max_subscribers as usize,
                max_publishers: max_publishers as usize,
                history_size: history_size as usize,
                subscriber_max_buffer_size: subscriber_max_buffer_size as usize,
                subscriber_max_borrowed_samples: subscriber_max_borrowed_samples as usize,
                enable_safe_overflow: enable_safe_overflow == 1,
                type_size: type_size as usize,
                type_alignment: type_alignment as usize,
                payload_type,
            },
        )
    }
}

} // verus!
