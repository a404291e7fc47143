//! Channels that live in the memory of one host.

use crate::cal::event::{
    ListenerCreateError,
    ListenerWaitError,
    NotifierCreateError,
    NotifierNotifyError,
};
use crate::cal::registry::{copy_name, Registry};
use vstd::prelude::*;

verus! {

/// The number of ids that a channel holds at most.
pub const CHANNEL_CAPACITY: usize = 1024;

/// One channel: the ids that were sent and not received yet, oldest first.
pub struct Channel {
    pending: Vec<u64>,
}

impl View for Channel {
    type V = Seq<u64>;

    closed spec fn view(&self) -> Seq<u64> {
        self.pending@
    }
}

impl Channel {
    /// A channel never holds more ids than its capacity.
    pub closed spec fn wf(&self) -> bool {
        self.pending.len() <= CHANNEL_CAPACITY
    }

    /// The pending ids of a well-formed channel do not exceed its capacity.
    pub proof fn lemma_bounded(&self)
        requires
            self.wf(),
        ensures
            self@.len() <= CHANNEL_CAPACITY,
    {
    }

    fn new() -> (channel: Self)
        ensures
            channel.wf(),
            channel@ == Seq::<u64>::empty(),
    {
        Channel { pending: Vec::new() }
    }

    fn push(&mut self, id: u64) -> (accepted: bool)
        requires
            old(self).wf(),
        ensures
            final(self).wf(),
            accepted == (old(self)@.len() < CHANNEL_CAPACITY),
            accepted ==> final(self)@ == old(self)@.push(id),
            !accepted ==> final(self)@ == old(self)@,
    {
        if self.pending.len() >= CHANNEL_CAPACITY {
            return false;
        }
        self.pending.push(id);
        true
    }

    fn pop(&mut self) -> (id: Option<u64>)
        requires
            old(self).wf(),
        ensures
            final(self).wf(),
            old(self)@.len() == 0 ==> id.is_none() && final(self)@ == old(self)@,
            old(self)@.len() > 0 ==> id == Some(old(self)@[0]) && final(self)@ == old(self)@.drop_first(),
    {
        if self.pending.len() == 0 {
            return None;
        }
        let id: u64 = self.pending.remove(0);
        assert(self.pending@ =~= old(self)@.drop_first());
        Some(id)
    }
}

/// The namespace of the channels of one host.
pub struct Events {
    channels: Registry<Channel>,
}

impl View for Events {
    type V = Map<Seq<u8>, Seq<u64>>;

    /// The pending ids of every channel, by the name of the channel.
    closed spec fn view(&self) -> Map<Seq<u8>, Seq<u64>> {
        Map::new(
            |name: Seq<u8>| self.channels@.contains_key(name),
            |name: Seq<u8>| self.channels@[name]@,
        )
    }
}

impl Events {
    /// The invariant that every operation keeps.
    pub closed spec fn wf(&self) -> bool {
        &&& self.channels.wf()
        &&& forall|name: Seq<u8>| #[trigger]
            self.channels@.contains_key(name) ==> self.channels@[name].wf()
    }

    /// True if there is a channel with the given name.
    pub open spec fn has_channel(&self, name: Seq<u8>) -> bool {
        self@.contains_key(name)
    }

    /// The ids that wait in the channel with the given name, oldest first.
    pub open spec fn pending(&self, name: Seq<u8>) -> Seq<u64> {
        self@[name]
    }

    /// True if `other` has the same channels with the same pending ids but
    /// for the one with the given name.
    pub open spec fn same_except(&self, other: &Self, name: Seq<u8>) -> bool {
        self@.remove(name) == other@.remove(name)
    }

    /// No channel of a well-formed namespace holds more ids than the
    /// capacity of a channel.
    pub proof fn lemma_bounded(&self, name: Seq<u8>)
        requires
            self.wf(),
            self.has_channel(name),
        ensures
            self.pending(name).len() <= CHANNEL_CAPACITY,
    {
        self.channels@[name].lemma_bounded();
    }

    /// Creates a namespace without channels.
    pub fn new() -> (events: Self)
        ensures
            events.wf(),
            events@ == Map::<Seq<u8>, Seq<u64>>::empty(),
    {
        let events = Events { channels: Registry::new() };
        assert(events@ =~= Map::<Seq<u8>, Seq<u64>>::empty());
        events
    }
}

/// The sending side of a channel.
#[derive(Debug)]
pub struct Notifier {
    name: Vec<u8>,
}

impl Notifier {
    /// The name of the channel.
    pub closed spec fn spec_name(&self) -> Seq<u8> {
        self.name@
    }

    /// Returns the name of the channel.
    pub fn name(&self) -> (name: &Vec<u8>)
        ensures
            name@ == self.spec_name(),
    {
        &self.name
    }

    /// Sends `id` over the channel. Fails, and changes nothing, when the
    /// channel does not exist any more or when it is full.
    pub fn notify(&self, events: &mut Events, id: u64) -> (result: Result<(), NotifierNotifyError>)
        requires
            old(events).wf(),
        ensures
            final(events).wf(),
            result.is_ok() == (old(events).has_channel(self.spec_name()) && old(events).pending(
                self.spec_name(),
            ).len() < CHANNEL_CAPACITY),
            result.is_err() ==> result == Err::<(), _>(NotifierNotifyError::FailedToDeliverSignal)
                && final(events)@ == old(events)@,
            result.is_ok() ==> final(events)@ == old(events)@.insert(
                self.spec_name(),
                old(events).pending(self.spec_name()).push(id),
            ),
    {
        match events.channels.find(&self.name) {
            None => Err(NotifierNotifyError::FailedToDeliverSignal),
            Some(position) => {
                proof {
                    events.channels.lemma_positions();
                }
                let channel = events.channels.value_mut(position);
                let accepted = channel.push(id);
                if accepted {
                    assert(events@ =~= old(events)@.insert(
                        self.spec_name(),
                        old(events).pending(self.spec_name()).push(id),
                    ));
                    Ok(())
                } else {
                    assert(events@ =~= old(events)@);
                    Err(NotifierNotifyError::FailedToDeliverSignal)
                }
            },
        }
    }
}

/// Opens the sending side of a channel.
#[derive(Debug)]
pub struct NotifierBuilder {
    name: Vec<u8>,
}

impl NotifierBuilder {
    /// The name of the channel that is opened.
    pub closed spec fn spec_name(&self) -> Seq<u8> {
        self.name@
    }

    /// Starts to open the channel with the given name.
    pub fn new(name: &Vec<u8>) -> (builder: Self)
        ensures
            builder.spec_name() == name@,
    {
        NotifierBuilder { name: copy_name(name) }
    }

    /// Opens the channel, which must exist.
    pub fn open(self, events: &Events) -> (result: Result<Notifier, NotifierCreateError>)
        requires
            events.wf(),
        ensures
            result.is_ok() == events.has_channel(self.spec_name()),
            result.is_err() ==> result.unwrap_err() == NotifierCreateError::DoesNotExist,
            result.is_ok() ==> result.unwrap().spec_name() == self.spec_name(),
    {
        if events.channels.contains(&self.name) {
            Ok(Notifier { name: self.name })
        } else {
            Err(NotifierCreateError::DoesNotExist)
        }
    }
}

/// The receiving side of a channel. It created the channel and removes it
/// when it is closed.
#[derive(Debug)]
pub struct Listener {
    name: Vec<u8>,
}

impl Listener {
    /// The name of the channel.
    pub closed spec fn spec_name(&self) -> Seq<u8> {
        self.name@
    }

    /// Returns the name of the channel.
    pub fn name(&self) -> (name: &Vec<u8>)
        ensures
            name@ == self.spec_name(),
    {
        &self.name
    }

    /// Takes the oldest id out of the channel without waiting for one.
    /// Fails when the channel does not exist any more.
    pub fn try_wait(&self, events: &mut Events) -> (result: Result<Option<u64>, ListenerWaitError>)
        requires
            old(events).wf(),
        ensures
            final(events).wf(),
            result.is_ok() == old(events).has_channel(self.spec_name()),
            result.is_err() ==> result.unwrap_err() == ListenerWaitError::ContractViolation
                && final(events)@ == old(events)@,
            result.is_ok() && old(events).pending(self.spec_name()).len() == 0
                ==> result.unwrap().is_none() && final(events)@ == old(events)@,
            result.is_ok() && old(events).pending(self.spec_name()).len() > 0 ==> result.unwrap()
                == Some(old(events).pending(self.spec_name())[0]) && final(events)@ == old(events)@.insert(self.spec_name(), old(events).pending(self.spec_name()).drop_first()),
    {
        match events.channels.find(&self.name) {
            None => {
                assert(events@ =~= old(events)@);
                Err(ListenerWaitError::ContractViolation)
            },
            Some(position) => {
                proof {
                    events.channels.lemma_positions();
                }
                let channel = events.channels.value_mut(position);
                let id = channel.pop();
                proof {
                    if id.is_some() {
                        assert(events@ =~= old(events)@.insert(
                            self.spec_name(),
                            old(events).pending(self.spec_name()).drop_first(),
                        ));
                    } else {
                        assert(events@ =~= old(events)@);
                    }
                }
                Ok(id)
            },
        }
    }

    /// Closes the listener and removes its channel.
    pub fn close(self, events: &mut Events)
        requires
            old(events).wf(),
        ensures
            final(events).wf(),
            final(events)@ == old(events)@.remove(self.spec_name()),
    {
        let _ = events.channels.remove(&self.name);
        assert(events@ =~= old(events)@.remove(self.spec_name()));
    }
}

/// Creates a channel and the receiving side of it.
#[derive(Debug)]
pub struct ListenerBuilder {
    name: Vec<u8>,
}

impl ListenerBuilder {
    /// The name of the channel that is created.
    pub closed spec fn spec_name(&self) -> Seq<u8> {
        self.name@
    }

    /// Starts to create the channel with the given name.
    pub fn new(name: &Vec<u8>) -> (builder: Self)
        ensures
            builder.spec_name() == name@,
    {
        ListenerBuilder { name: copy_name(name) }
    }

    /// Creates the channel, which must not exist yet. The new channel holds
    /// no ids.
    pub fn create(self, events: &mut Events) -> (result: Result<Listener, ListenerCreateError>)
        requires
            old(events).wf(),
        ensures
            final(events).wf(),
            result.is_ok() == !old(events).has_channel(self.spec_name()),
            result.is_err() ==> result.unwrap_err() == ListenerCreateError::AlreadyExists && final(events)@ == old(events)@,
            result.is_ok() ==> result.unwrap().spec_name() == self.spec_name() && final(events)@
                == old(events)@.insert(self.spec_name(), Seq::<u64>::empty()),
    {
        match events.channels.insert(copy_name(&self.name), Channel::new()) {
            Some(_) => {
                assert(events@ =~= old(events)@);
                Err(ListenerCreateError::AlreadyExists)
            },
            None => {
                proof {
                    assert(events@ =~= old(events)@.insert(self.spec_name(), Seq::<u64>::empty()));
                }
                Ok(Listener { name: self.name })
            },
        }
    }
}

impl crate::cal::event::Notifier for Notifier {
    type Channels = Events;

    open spec fn channels_wf(channels: &Events) -> bool {
        channels.wf()
    }

    open spec fn pending_in(channels: &Events) -> Map<Seq<u8>, Seq<u64>> {
        channels@
    }

    open spec fn channel_capacity() -> nat {
        CHANNEL_CAPACITY as nat
    }

    open spec fn channel_name(&self) -> Seq<u8> {
        self.spec_name()
    }

    fn notify(&self, channels: &mut Events, id: u64) -> (result: Result<(), NotifierNotifyError>) {
        Notifier::notify(self, channels, id)
    }
}

impl crate::cal::event::NotifierBuilder for NotifierBuilder {
    type Channels = Events;

    type Notifier = Notifier;

    open spec fn channels_wf(channels: &Events) -> bool {
        channels.wf()
    }

    open spec fn channel_name(&self) -> Seq<u8> {
        self.spec_name()
    }

    fn open(self, channels: &Events) -> (result: Result<Notifier, NotifierCreateError>) {
        NotifierBuilder::open(self, channels)
    }
}

impl crate::cal::event::Listener for Listener {
    type Channels = Events;

    open spec fn channels_wf(channels: &Events) -> bool {
        channels.wf()
    }

    open spec fn pending_in(channels: &Events) -> Map<Seq<u8>, Seq<u64>> {
        channels@
    }

    open spec fn channel_name(&self) -> Seq<u8> {
        self.spec_name()
    }

    fn try_wait(&self, channels: &mut Events) -> (result: Result<Option<u64>, ListenerWaitError>) {
        Listener::try_wait(self, channels)
    }
}

impl crate::cal::event::ListenerBuilder for ListenerBuilder {
    type Channels = Events;

    type Listener = Listener;

    open spec fn channels_wf(channels: &Events) -> bool {
        channels.wf()
    }

    open spec fn channel_name(&self) -> Seq<u8> {
        self.spec_name()
    }

    fn create(self, channels: &mut Events) -> (result: Result<Listener, ListenerCreateError>) {
        ListenerBuilder::create(self, channels)
    }
}

} // verus!
