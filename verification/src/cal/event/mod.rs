//! Named channels that carry small integer ids from any number of notifiers
//! to the one listener that created the channel. A channel delivers the ids
//! in the order in which they were accepted and rejects an id while it is
//! full.

pub mod process_local;

use vstd::prelude::*;

verus! {

/// Failures when an id is sent.
#[derive(Debug, PartialEq, Eq, Clone, Copy)]
pub enum NotifierNotifyError {
    FailedToDeliverSignal,
    InternalFailure,
}

/// Failures when the sending side of a channel is opened.
#[derive(Debug, PartialEq, Eq, Clone, Copy)]
pub enum NotifierCreateError {
    DoesNotExist,
    InsufficientPermissions,
    InternalFailure,
}

/// Failures when the listener waits for an id.
#[derive(Debug, PartialEq, Eq, Clone, Copy)]
pub enum ListenerWaitError {
    ContractViolation,
    InternalFailure,
}

/// Failures when a channel is created.
#[derive(Debug, PartialEq, Eq, Clone, Copy)]
pub enum ListenerCreateError {
    AlreadyExists,
    InsufficientPermissions,
    InternalFailure,
}

/// The values that can be sent over a channel.
pub trait TriggerId: Copy {
    /// The value as it travels through the channel.
    spec fn spec_as_u64(&self) -> u64;

    /// Returns the value as it travels through the channel.
    fn as_u64(&self) -> (value: u64)
        ensures
            value == self.spec_as_u64(),
    ;
}

impl TriggerId for u64 {
    open spec fn spec_as_u64(&self) -> u64 {
        *self
    }

    fn as_u64(&self) -> (value: u64) {
        *self
    }
}

impl TriggerId for u32 {
    open spec fn spec_as_u64(&self) -> u64 {
        *self as u64
    }

    fn as_u64(&self) -> (value: u64) {
        *self as u64
    }
}

impl TriggerId for u16 {
    open spec fn spec_as_u64(&self) -> u64 {
        *self as u64
    }

    fn as_u64(&self) -> (value: u64) {
        *self as u64
    }
}

impl TriggerId for u8 {
    open spec fn spec_as_u64(&self) -> u64 {
        *self as u64
    }

    fn as_u64(&self) -> (value: u64) {
        *self as u64
    }
}

/// The sending side of a channel.
pub trait Notifier {
    /// The namespace that the channels live in.
    type Channels;

    /// What holds of a namespace between the operations on it.
    spec fn channels_wf(channels: &Self::Channels) -> bool;

    /// The ids that wait in the channels of a namespace, oldest first, by
    /// the name of the channel.
    spec fn pending_in(channels: &Self::Channels) -> Map<Seq<u8>, Seq<u64>>;

    /// The number of ids that a channel holds at most.
    spec fn channel_capacity() -> nat;

    /// The name of the channel that this side sends over.
    spec fn channel_name(&self) -> Seq<u8>;

    /// Sends `id` over the channel: the id waits behind the ids that the
    /// channel holds already. Fails, and changes nothing, when the channel
    /// does not exist any more or when it is full.
    fn notify(&self, channels: &mut Self::Channels, id: u64) -> (result: Result<
        (),
        NotifierNotifyError,
    >)
        requires
            Self::channels_wf(old(channels)),
        ensures
            Self::channels_wf(final(channels)),
            result.is_ok() == (Self::pending_in(old(channels)).contains_key(self.channel_name())
                && Self::pending_in(old(channels))[self.channel_name()].len()
                < Self::channel_capacity()),
            result.is_err() ==> result == Err::<(), _>(NotifierNotifyError::FailedToDeliverSignal)
                && Self::pending_in(final(channels)) == Self::pending_in(old(channels)),
            result.is_ok() ==> Self::pending_in(final(channels)) == Self::pending_in(
                old(channels),
            ).insert(
                self.channel_name(),
                Self::pending_in(old(channels))[self.channel_name()].push(id),
            ),
    ;
}

/// Opens the sending side of a channel.
pub trait NotifierBuilder: Sized {
    /// The namespace that the channels live in.
    type Channels;

    /// The sending side that is opened.
    type Notifier: Notifier<Channels = Self::Channels>;

    /// What holds of a namespace between the operations on it.
    spec fn channels_wf(channels: &Self::Channels) -> bool;

    /// The name of the channel that is opened.
    spec fn channel_name(&self) -> Seq<u8>;

    /// Opens the channel with the name of the builder. Fails when there is
    /// no such channel.
    fn open(self, channels: &Self::Channels) -> (result: Result<
        Self::Notifier,
        NotifierCreateError,
    >)
        requires
            Self::channels_wf(channels),
        ensures
            result.is_ok() == <Self::Notifier as Notifier>::pending_in(channels).contains_key(
                self.channel_name(),
            ),
            match result {
                Ok(notifier) => notifier.channel_name() == self.channel_name(),
                Err(error) => error == NotifierCreateError::DoesNotExist,
            },
    ;
}

/// The receiving side of a channel.
pub trait Listener {
    /// The namespace that the channels live in.
    type Channels;

    /// What holds of a namespace between the operations on it.
    spec fn channels_wf(channels: &Self::Channels) -> bool;

    /// The ids that wait in the channels of a namespace, oldest first, by
    /// the name of the channel.
    spec fn pending_in(channels: &Self::Channels) -> Map<Seq<u8>, Seq<u64>>;

    /// The name of the channel that this side receives from.
    spec fn channel_name(&self) -> Seq<u8>;

    /// Takes the oldest id out of the channel without waiting for one:
    /// returns nothing, and changes nothing, when no id waits. Fails when
    /// the channel does not exist any more.
    fn try_wait(&self, channels: &mut Self::Channels) -> (result: Result<
        Option<u64>,
        ListenerWaitError,
    >)
        requires
            Self::channels_wf(old(channels)),
        ensures
            Self::channels_wf(final(channels)),
            result.is_ok() == Self::pending_in(old(channels)).contains_key(self.channel_name()),
            result.is_err() ==> result == Err::<Option<u64>, _>(
                ListenerWaitError::ContractViolation,
            ) && Self::pending_in(final(channels)) == Self::pending_in(old(channels)),
            result.is_ok() && Self::pending_in(old(channels))[self.channel_name()].len() == 0
                ==> result == Ok::<Option<u64>, ListenerWaitError>(None) && Self::pending_in(
                final(channels),
            ) == Self::pending_in(old(channels)),
            result.is_ok() && Self::pending_in(old(channels))[self.channel_name()].len() > 0
                ==> result == Ok::<Option<u64>, ListenerWaitError>(
                Some(Self::pending_in(old(channels))[self.channel_name()][0]),
            ) && Self::pending_in(final(channels)) == Self::pending_in(old(channels)).insert(
                self.channel_name(),
                Self::pending_in(old(channels))[self.channel_name()].drop_first(),
            ),
    ;
}

/// Creates a channel and the receiving side of it.
pub trait ListenerBuilder: Sized {
    /// The namespace that the channels live in.
    type Channels;

    /// The receiving side that is created.
    type Listener: Listener<Channels = Self::Channels>;

    /// What holds of a namespace between the operations on it.
    spec fn channels_wf(channels: &Self::Channels) -> bool;

    /// The name of the channel that is created.
    spec fn channel_name(&self) -> Seq<u8>;

    /// Creates the channel with the name of the builder: the new channel
    /// holds no id. Fails, and changes nothing, when there is such a
    /// channel already.
    fn create(self, channels: &mut Self::Channels) -> (result: Result<
        Self::Listener,
        ListenerCreateError,
    >)
        requires
            Self::channels_wf(old(channels)),
        ensures
            Self::channels_wf(final(channels)),
            result.is_ok() == !<Self::Listener as Listener>::pending_in(
                old(channels),
            ).contains_key(self.channel_name()),
            match result {
                Ok(listener) => listener.channel_name() == self.channel_name()
                    && <Self::Listener as Listener>::pending_in(final(channels))
                    == <Self::Listener as Listener>::pending_in(old(channels)).insert(
                    self.channel_name(),
                    Seq::<u64>::empty(),
                ),
                Err(error) => error == ListenerCreateError::AlreadyExists
                    && <Self::Listener as Listener>::pending_in(final(channels))
                    == <Self::Listener as Listener>::pending_in(old(channels)),
            },
    ;
}

} // verus!
