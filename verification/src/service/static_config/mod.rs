//! The settings of a service that are fixed when the service is created,
//! and the bytes in which they are stored.
//!
//! The stored form starts with one byte that tells the messaging pattern.
//! The numbers of the settings follow, eight bytes each with the lowest
//! byte first, in the order of their declaration. The stored form of a
//! publish subscribe service ends with the name of the payload type.

pub mod event;
pub mod publish_subscribe;

use vstd::bytes::{
    lemma_auto_spec_u64_to_from_le_bytes,
    spec_u64_from_le_bytes,
    spec_u64_to_le_bytes,
    u64_from_le_bytes,
    u64_to_le_bytes,
};
use vstd::prelude::*;
use vstd::slice::slice_subrange;

verus! {

/// The first byte of the stored form of a publish subscribe service.
pub const PUBLISH_SUBSCRIBE_TAG: u8 = 0;

/// The first byte of the stored form of an event service.
pub const EVENT_TAG: u8 = 1;

/// The messaging pattern of a service together with the settings of that
/// pattern.
#[derive(Debug)]
pub enum MessagingPattern {
    PublishSubscribe(publish_subscribe::StaticConfig),
    Event(event::StaticConfig),
}

/// The settings of a service.
#[derive(Debug)]
pub struct StaticConfig {
    pub messaging_pattern: MessagingPattern,
}

/// The number that is stored in the eight bytes of `bytes` at `at`.
pub open spec fn spec_number_at(bytes: Seq<u8>, at: int) -> u64 {
    spec_u64_from_le_bytes(bytes.subrange(at, at + 8))
}

/// The eight bytes in which `value` is stored.
pub open spec fn spec_number(value: usize) -> Seq<u8> {
    spec_u64_to_le_bytes(value as u64)
}

fn push_number(bytes: &mut Vec<u8>, value: usize)
    ensures
        final(bytes)@ == old(bytes)@ + spec_number(value),
{
    let mut number = u64_to_le_bytes(value as u64);
    bytes.append(&mut number);
}

fn number_at(bytes: &Vec<u8>, at: usize) -> (value: u64)
    requires
        at + 8 <= bytes.len(),
    ensures
        value == spec_number_at(bytes@, at as int),
{
    u64_from_le_bytes(slice_subrange(bytes.as_slice(), at, at + 8))
}

/// A number that was stored is read again from the place where it was
/// stored.
pub proof fn lemma_number_is_read_again(front: Seq<u8>, value: usize, back: Seq<u8>)
    ensures
        spec_number_at(front + spec_number(value) + back, front.len() as int) == value,
        spec_number(value).len() == 8,
{
    lemma_auto_spec_u64_to_from_le_bytes();
    let number = spec_number(value);
    assert(number.len() == 8);
    assert((front + number + back).subrange(front.len() as int, front.len() as int + 8) =~= number);
}

impl StaticConfig {
    /// True if the two settings are the same.
    pub open spec fn same_as(&self, other: &StaticConfig) -> bool {
        match (self.messaging_pattern, other.messaging_pattern) {
            (MessagingPattern::PublishSubscribe(a), MessagingPattern::PublishSubscribe(b)) => {
                a.same_as(&b)
            },
            (MessagingPattern::Event(a), MessagingPattern::Event(b)) => a == b,
            _ => false,
        }
    }

    /// The stored form of the settings.
    pub open spec fn spec_serialize(&self) -> Seq<u8> {
        match self.messaging_pattern {
            MessagingPattern::PublishSubscribe(config) => seq![PUBLISH_SUBSCRIBE_TAG]
                + config.spec_serialize(),
            MessagingPattern::Event(config) => seq![EVENT_TAG] + config.spec_serialize(),
        }
    }

    /// True if `bytes` are the stored form of some settings.
    pub open spec fn spec_is_stored_form(bytes: Seq<u8>) -> bool {
        &&& bytes.len() >= 1
        &&& (bytes[0] == PUBLISH_SUBSCRIBE_TAG || bytes[0] == EVENT_TAG)
        &&& (bytes[0] == PUBLISH_SUBSCRIBE_TAG
            ==> publish_subscribe::StaticConfig::spec_is_stored_form(
            bytes.subrange(1, bytes.len() as int),
        ))
        &&& (bytes[0] == EVENT_TAG ==> event::StaticConfig::spec_is_stored_form(
            bytes.subrange(1, bytes.len() as int),
        ))
    }

    /// True if the settings are the ones that `bytes` store.
    pub open spec fn is_stored_in(&self, bytes: Seq<u8>) -> bool {
        &&& Self::spec_is_stored_form(bytes)
        &&& match self.messaging_pattern {
            MessagingPattern::PublishSubscribe(config) => bytes[0] == PUBLISH_SUBSCRIBE_TAG
                && config.is_stored_in(bytes.subrange(1, bytes.len() as int)),
            MessagingPattern::Event(config) => bytes[0] == EVENT_TAG && config.is_stored_in(
                bytes.subrange(1, bytes.len() as int),
            ),
        }
    }

    /// The stored form of settings stores these settings, and whatever
    /// else it stores are the same settings.
    pub proof fn lemma_serialize_stores(&self, other: &StaticConfig)
        ensures
            self.is_stored_in(self.spec_serialize()),
            other.is_stored_in(self.spec_serialize()) ==> other.same_as(self),
    {
        let bytes = self.spec_serialize();
        match self.messaging_pattern {
            MessagingPattern::PublishSubscribe(config) => {
                assert(bytes.subrange(1, bytes.len() as int) =~= config.spec_serialize());
                match other.messaging_pattern {
                    MessagingPattern::PublishSubscribe(other_config) => {
                        config.lemma_serialize_stores(&other_config);
                    },
                    MessagingPattern::Event(other_config) => {
                        config.lemma_serialize_stores(&config);
                    },
                }
            },
            MessagingPattern::Event(config) => {
                assert(bytes.subrange(1, bytes.len() as int) =~= config.spec_serialize());
                match other.messaging_pattern {
                    MessagingPattern::PublishSubscribe(other_config) => {
                        config.lemma_serialize_stores(&config);
                    },
                    MessagingPattern::Event(other_config) => {
                        config.lemma_serialize_stores(&other_config);
                    },
                }
            },
        }
    }

    /// Returns the stored form of the settings.
    pub fn serialize(&self) -> (bytes: Vec<u8>)
        ensures
            bytes@ == self.spec_serialize(),
    {
        let mut bytes: Vec<u8> = Vec::new();
        match &self.messaging_pattern {
            MessagingPattern::PublishSubscribe(config) => {
                bytes.push(PUBLISH_SUBSCRIBE_TAG);
                config.serialize_into(&mut bytes);
            },
            MessagingPattern::Event(config) => {
                bytes.push(EVENT_TAG);
                config.serialize_into(&mut bytes);
            },
        }
        assert(bytes@ =~= self.spec_serialize());
        bytes
    }

    /// Returns the settings that `bytes` store, or [`None`] when the bytes
    /// are not the stored form of any settings.
    pub fn deserialize(bytes: &Vec<u8>) -> (config: Option<StaticConfig>)
        ensures
            config.is_some() == Self::spec_is_stored_form(bytes@),
            config.is_some() ==> config.unwrap().is_stored_in(bytes@),
    {
        if bytes.len() < 1 {
            return None;
        }
        let tag: u8 = bytes[0];
        if tag == PUBLISH_SUBSCRIBE_TAG {
            match publish_subscribe::StaticConfig::deserialize_from(bytes, 1) {
                Some(config) => Some(
                    StaticConfig { messaging_pattern: MessagingPattern::PublishSubscribe(config) },
                ),
                None => None,
            }
        } else if tag == EVENT_TAG {
            match event::StaticConfig::deserialize_from(bytes, 1) {
                Some(config) => Some(
                    StaticConfig { messaging_pattern: MessagingPattern::Event(config) },
                ),
                None => None,
            }
        } else {
            None
        }
    }

    /// Returns the settings of the publish subscribe pattern, if that is
    /// the pattern of the service.
    pub fn publish_subscribe(&self) -> (config: Option<&publish_subscribe::StaticConfig>)
        ensures
            config.is_some() == (self.messaging_pattern is PublishSubscribe),
            config.is_some() ==> *config.unwrap() == self.messaging_pattern->PublishSubscribe_0,
    {
        match &self.messaging_pattern {
            MessagingPattern::PublishSubscribe(config) => Some(config),
            MessagingPattern::Event(_) => None,
        }
    }

    /// Returns the settings of the event pattern, if that is the pattern
    /// of the service.
    pub fn event(&self) -> (config: Option<&event::StaticConfig>)
        ensures
            config.is_some() == (self.messaging_pattern is Event),
            config.is_some() ==> *config.unwrap() == self.messaging_pattern->Event_0,
    {
        match &self.messaging_pattern {
            MessagingPattern::Event(config) => Some(config),
            MessagingPattern::PublishSubscribe(_) => None,
        }
    }
}

/// Appends the stored form of a number.
pub(crate) fn append_number(bytes: &mut Vec<u8>, value: usize)
    ensures
        final(bytes)@ == old(bytes)@ + spec_number(value),
{
    push_number(bytes, value)
}

/// Reads the number that is stored at `at`.
pub(crate) fn read_number(bytes: &Vec<u8>, at: usize) -> (value: u64)
    requires
        at + 8 <= bytes.len(),
    ensures
        value == spec_number_at(bytes@, at as int),
{
    number_at(bytes, at)
}

} // verus!
