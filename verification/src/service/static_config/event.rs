//! The settings of an event service.

use crate::service::static_config::{
    append_number,
    lemma_number_is_read_again,
    read_number,
    spec_number,
    spec_number_at,
};
use vstd::prelude::*;

verus! {

/// The number of notifiers of a service unless another one is asked for.
pub const DEFAULT_MAX_NOTIFIERS: usize = 16;

/// The number of listeners of a service unless another one is asked for.
pub const DEFAULT_MAX_LISTENERS: usize = 2;

/// The largest event id of a service unless another one is asked for.
pub const DEFAULT_EVENT_ID_MAX_VALUE: usize = 4294967295;

/// The length of the stored form.
pub const STORED_LENGTH: usize = 24;

/// The settings of an event service.
#[derive(Debug, Clone, Copy, PartialEq, Eq, Structural)]
pub struct StaticConfig {
    pub max_notifiers: usize,
    pub max_listeners: usize,
    pub event_id_max_value: usize,
}

impl StaticConfig {
    /// The stored form of the settings.
    pub open spec fn spec_serialize(&self) -> Seq<u8> {
        spec_number(self.max_notifiers) + spec_number(self.max_listeners) + spec_number(
            self.event_id_max_value,
        )
    }

    /// True if `bytes` are the stored form of some settings.
    pub open spec fn spec_is_stored_form(bytes: Seq<u8>) -> bool {
        &&& bytes.len() == STORED_LENGTH
        &&& spec_number_at(bytes, 0) <= usize::MAX
        &&& spec_number_at(bytes, 8) <= usize::MAX
        &&& spec_number_at(bytes, 16) <= usize::MAX
    }

    /// True if the settings are the ones that `bytes` store.
    pub open spec fn is_stored_in(&self, bytes: Seq<u8>) -> bool {
        &&& Self::spec_is_stored_form(bytes)
        &&& self.max_notifiers == spec_number_at(bytes, 0)
        &&& self.max_listeners == spec_number_at(bytes, 8)
        &&& self.event_id_max_value == spec_number_at(bytes, 16)
    }

    /// The stored form of settings stores these settings, and whatever
    /// else it stores are the same settings.
    pub proof fn lemma_serialize_stores(&self, other: &StaticConfig)
        ensures
            self.is_stored_in(self.spec_serialize()),
            other.is_stored_in(self.spec_serialize()) ==> *other == *self,
    {
        let empty = Seq::<u8>::empty();
        let first = spec_number(self.max_notifiers);
        let second = spec_number(self.max_listeners);
        let third = spec_number(self.event_id_max_value);
        lemma_number_is_read_again(empty, self.max_notifiers, second + third);
        lemma_number_is_read_again(first, self.max_listeners, third);
        lemma_number_is_read_again(first + second, self.event_id_max_value, empty);
        assert(empty + first + (second + third) =~= self.spec_serialize());
        assert(first + second + third + empty =~= self.spec_serialize());
    }

    /// Creates the settings that are used unless others are asked for.
    pub fn default() -> (config: Self)
        ensures
            config.max_notifiers == DEFAULT_MAX_NOTIFIERS,
            config.max_listeners == DEFAULT_MAX_LISTENERS,
            config.event_id_max_value == DEFAULT_EVENT_ID_MAX_VALUE,
    {
        StaticConfig {
            max_notifiers: DEFAULT_MAX_NOTIFIERS,
            max_listeners: DEFAULT_MAX_LISTENERS,
            event_id_max_value: DEFAULT_EVENT_ID_MAX_VALUE,
        }
    }

    /// Returns the largest number of notifiers that the service supports.
    pub fn max_supported_notifiers(&self) -> (value: usize)
        ensures
            value == self.max_notifiers,
    {
        self.max_notifiers
    }

    /// Returns the largest number of listeners that the service supports.
    pub fn max_supported_listeners(&self) -> (value: usize)
        ensures
            value == self.max_listeners,
    {
        self.max_listeners
    }

    /// Appends the stored form of the settings to `bytes`.
    pub(crate) fn serialize_into(&self, bytes: &mut Vec<u8>)
        ensures
            final(bytes)@ == old(bytes)@ + self.spec_serialize(),
    {
        append_number(bytes, self.max_notifiers);
        append_number(bytes, self.max_listeners);
        append_number(bytes, self.event_id_max_value);
        assert(bytes@ =~= old(bytes)@ + self.spec_serialize());
    }

    /// Reads the settings that `bytes` store from `at` to their end.
    pub(crate) fn deserialize_from(bytes: &Vec<u8>, at: usize) -> (config: Option<StaticConfig>)
        requires
            at <= bytes.len(),
        ensures
            config.is_some() == Self::spec_is_stored_form(
                bytes@.subrange(at as int, bytes@.len() as int),
            ),
            config.is_some() ==> config.unwrap().is_stored_in(
                bytes@.subrange(at as int, bytes@.len() as int),
            ),
    {
        let ghost rest = bytes@.subrange(at as int, bytes@.len() as int);
        if bytes.len() - at != STORED_LENGTH {
            return None;
        }
        proof {
            assert(rest.subrange(0, 8) =~= bytes@.subrange(at as int, at + 8));
            assert(rest.subrange(8, 16) =~= bytes@.subrange(at + 8, at + 16));
            assert(rest.subrange(16, 24) =~= bytes@.subrange(at + 16, at + 24));
        }
        let max_notifiers: u64 = read_number(bytes, at);
        let max_listeners: u64 = read_number(bytes, at + 8);
        let event_id_max_value: u64 = read_number(bytes, at + 16);
        if max_notifiers > usize::MAX as u64 || max_listeners > usize::MAX as u64
            || event_id_max_value > usize::MAX as u64 {
            return None;
        }
        Some(
            StaticConfig {
                max_notifiers: max_notifiers as usize,
                max_listeners: max_listeners as usize,
                event_id_max_value: event_id_max_value as usize,
            },
        )
    }
}

} // verus!
