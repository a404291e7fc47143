//! The port that sends ids to the listeners of an event service.
//!
//! A notifier keeps a table with one entry per slot of the registry of the
//! listeners. Whenever the registry has changed the notifier goes through
//! it once: it opens the channel of every listener that it is not
//! connected to and drops the connection of every slot that holds no
//! listener any more.

use crate::cal::event::process_local as event;
use crate::cal::event::process_local::{Events, CHANNEL_CAPACITY};
use crate::host::{Host, PortKind};
use crate::lock_free::mpmc::container::ContainerState;
use crate::lock_free::mpmc::unique_index_set::UniqueIndex;
use crate::port::event_id::EventId;
use crate::port::port_identifiers::{id_name, spec_id_name, UniqueNotifierId};
use crate::service::dynamic_config::spec_can_increment;
use crate::service::service_name::ServiceName;
use vstd::prelude::*;

verus! {

/// Failures when a notifier is created.
#[derive(Debug, PartialEq, Eq, Copy, Clone)]
pub enum NotifierCreateError {
    ExceedsMaxSupportedNotifiers,
    ServiceDoesNotExist,
}

/// Failures when a notifier brings its connections up to date.
#[derive(Debug, PartialEq, Eq, Copy, Clone)]
pub enum NotifierConnectionUpdateFailure {
    OnlyPartialUpdate,
}

/// The table of the connections of a notifier after it went through the
/// slots from `index` on, and whether it got through: a slot with a
/// listener that the notifier is not connected to is connected when the
/// channel of the listener exists, a slot without a listener loses its
/// connection, and the first channel that does not exist ends the walk.
pub open spec fn populate_from(
    table: Seq<Option<Seq<u8>>>,
    listeners: Seq<Option<u128>>,
    channels: Map<Seq<u8>, Seq<u64>>,
    index: int,
) -> (Seq<Option<Seq<u8>>>, bool)
    decreases table.len() - index,
{
    if index < 0 || index >= table.len() || index >= listeners.len() {
        (table, true)
    } else {
        match listeners[index] {
            None => populate_from(table.update(index, None), listeners, channels, index + 1),
            Some(listener_id) => if table[index].is_some() {
                populate_from(table, listeners, channels, index + 1)
            } else if channels.contains_key(spec_id_name(listener_id)) {
                populate_from(
                    table.update(index, Some(spec_id_name(listener_id))),
                    listeners,
                    channels,
                    index + 1,
                )
            } else {
                (table, false)
            },
        }
    }
}

/// The channels after `id` was sent over the connections of the slots from
/// `index` on, and the number of channels that took it, added to `count`:
/// a channel takes the id when it exists and is not full.
pub open spec fn notify_from(
    table: Seq<Option<Seq<u8>>>,
    channels: Map<Seq<u8>, Seq<u64>>,
    id: u64,
    index: int,
    count: nat,
) -> (Map<Seq<u8>, Seq<u64>>, nat)
    decreases table.len() - index,
{
    if index < 0 || index >= table.len() {
        (channels, count)
    } else {
        match table[index] {
            Some(name) => if channels.contains_key(name) && channels[name].len()
                < CHANNEL_CAPACITY {
                notify_from(
                    table,
                    channels.insert(name, channels[name].push(id)),
                    id,
                    index + 1,
                    count + 1,
                )
            } else {
                notify_from(table, channels, id, index + 1, count)
            },
            None => notify_from(table, channels, id, index + 1, count),
        }
    }
}

/// The number of slots from `index` on in which the table holds a
/// connection.
pub open spec fn connected_from(table: Seq<Option<Seq<u8>>>, index: int) -> nat
    decreases table.len() - index,
{
    if index < 0 || index >= table.len() {
        0
    } else {
        connected_from(table, index + 1) + if table[index].is_some() {
            1nat
        } else {
            0nat
        }
    }
}

/// True if no two slots of the table hold a connection to the same
/// channel.
pub open spec fn channels_are_distinct(table: Seq<Option<Seq<u8>>>) -> bool {
    forall|i: int, j: int|
        0 <= i < table.len() && 0 <= j < table.len() && i != j && (#[trigger] table[i]).is_some()
            ==> table[i] != #[trigger] table[j]
}

/// True if the channel of every connection of the slots from `index` on
/// exists and has room for an id.
pub open spec fn channels_have_room(
    table: Seq<Option<Seq<u8>>>,
    channels: Map<Seq<u8>, Seq<u64>>,
    index: int,
) -> bool {
    forall|i: int|
        index <= i < table.len() && (#[trigger] table[i]).is_some() ==> channels.contains_key(
            table[i].unwrap(),
        ) && channels[table[i].unwrap()].len() < CHANNEL_CAPACITY
}

/// A notifier whose table is the table of the listeners of its service
/// gets through when the channel of every listener exists, and is then
/// connected to exactly the listeners of the slots that it went through.
pub proof fn lemma_populate_connects_listeners(
    table: Seq<Option<Seq<u8>>>,
    listeners: Seq<Option<u128>>,
    channels: Map<Seq<u8>, Seq<u64>>,
    index: int,
)
    requires
        0 <= index,
        table.len() == listeners.len(),
        forall|i: int|
            index <= i < table.len() && (#[trigger] table[i]).is_some() ==> listeners[i].is_some()
                && table[i] == Some(spec_id_name(listeners[i].unwrap())),
        forall|i: int|
            index <= i < listeners.len() && (#[trigger] listeners[i]).is_some()
                ==> channels.contains_key(spec_id_name(listeners[i].unwrap())),
    ensures
        populate_from(table, listeners, channels, index).1,
        populate_from(table, listeners, channels, index).0.len() == table.len(),
        forall|i: int|
            0 <= i < index && i < table.len() ==> #[trigger] populate_from(
                table,
                listeners,
                channels,
                index,
            ).0[i] == table[i],
        forall|i: int|
            index <= i < table.len() ==> #[trigger] populate_from(
                table,
                listeners,
                channels,
                index,
            ).0[i] == (match listeners[i] {
                Some(listener_id) => Some(spec_id_name(listener_id)),
                None => None,
            }),
    decreases table.len() - index,
{
    if index < table.len() {
        let next = match listeners[index] {
            None => table.update(index, None),
            Some(listener_id) => if table[index].is_some() {
                table
            } else {
                table.update(index, Some(spec_id_name(listener_id)))
            },
        };
        assert(listeners[index].is_some() ==> channels.contains_key(
            spec_id_name(listeners[index].unwrap()),
        ));
        assert forall|i: int| index + 1 <= i < next.len() && (#[trigger] next[i]).is_some() implies listeners[i].is_some()
            && next[i] == Some(spec_id_name(listeners[i].unwrap())) by {
            assert(next[i] == table[i]);
        }
        lemma_populate_connects_listeners(next, listeners, channels, index + 1);
        let after = populate_from(table, listeners, channels, index).0;
        assert(after == populate_from(next, listeners, channels, index + 1).0);
        assert forall|i: int| 0 <= i < index && i < table.len() implies #[trigger] after[i]
            == table[i] by {
            assert(next[i] == table[i]);
        }
        assert forall|i: int| index <= i < table.len() implies #[trigger] after[i] == (
        match listeners[i] {
            Some(listener_id) => Some(spec_id_name(listener_id)),
            None => None,
        }) by {
            if i == index {
                assert(after[index] == next[index]);
            }
        }
    }
}

/// An id that is sent reaches every connected listener whose channel has
/// room: the result counts the connections, and the id waits at the end of
/// each of their channels. Other channels stay as they are.
pub proof fn lemma_notify_reaches_all(
    table: Seq<Option<Seq<u8>>>,
    channels: Map<Seq<u8>, Seq<u64>>,
    id: u64,
    index: int,
    count: nat,
)
    requires
        0 <= index,
        channels_are_distinct(table),
        channels_have_room(table, channels, index),
    ensures
        notify_from(table, channels, id, index, count).1 == count + connected_from(table, index),
        notify_from(table, channels, id, index, count).0.dom() == channels.dom(),
        forall|i: int|
            index <= i < table.len() && (#[trigger] table[i]).is_some() ==> notify_from(
                table,
                channels,
                id,
                index,
                count,
            ).0[table[i].unwrap()] == channels[table[i].unwrap()].push(id),
        forall|name: Seq<u8>|
            channels.contains_key(name) && (forall|i: int|
                index <= i < table.len() ==> table[i] != Some(name)) ==> #[trigger] notify_from(
                table,
                channels,
                id,
                index,
                count,
            ).0[name] == channels[name],
    decreases table.len() - index,
{
    if index < table.len() {
        match table[index] {
            Some(name) => {
                let next = channels.insert(name, channels[name].push(id));
                assert(channels.contains_key(name) && channels[name].len() < CHANNEL_CAPACITY);
                assert(next.dom() =~= channels.dom());
                assert forall|i: int|
                    index + 1 <= i < table.len() && (#[trigger] table[i]).is_some() implies next.contains_key(
                    table[i].unwrap(),
                ) && next[table[i].unwrap()].len() < CHANNEL_CAPACITY by {
                    assert(table[i] != table[index]);
                    assert(channels.contains_key(table[i].unwrap()));
                }
                lemma_notify_reaches_all(table, next, id, index + 1, count + 1);
                let after = notify_from(table, channels, id, index, count).0;
                assert forall|i: int|
                    index <= i < table.len() && (#[trigger] table[i]).is_some() implies after[table[i].unwrap()]
                    == channels[table[i].unwrap()].push(id) by {
                    if i == index {
                        assert forall|k: int| index + 1 <= k < table.len() implies table[k] != Some(
                            name,
                        ) by {
                            if table[k].is_some() {
                                assert(table[k] != table[index]);
                            }
                        }
                        assert(next.contains_key(name));
                    } else {
                        assert(table[i] != table[index]);
                    }
                }
                assert forall|other: Seq<u8>|
                    channels.contains_key(other) && (forall|i: int|
                        index <= i < table.len() ==> table[i] != Some(other)) implies #[trigger] after[other]
                    == channels[other] by {
                    assert(table[index] != Some(other));
                    assert(next.contains_key(other));
                }
            },
            None => {
                lemma_notify_reaches_all(table, channels, id, index + 1, count);
            },
        }
    }
}

/// The connections of a notifier to the channels of the listeners, by the
/// slot of the listener.
#[derive(Debug)]
struct ListenerConnections {
    connections: Vec<Option<event::Notifier>>,
}

impl ListenerConnections {
    spec fn table(&self) -> Seq<Option<Seq<u8>>> {
        Seq::new(
            self.connections@.len(),
            |i: int|
                match self.connections@[i] {
                    Some(connection) => Some(connection.spec_name()),
                    None => None,
                },
        )
    }

    fn new(size: usize) -> (connections: Self)
        ensures
            connections.table() == Seq::new(size as nat, |i: int| None::<Seq<u8>>),
    {
        let mut new_self = Self { connections: Vec::new() };
        let mut i: usize = 0;
        while i < size
            invariant
                i <= size,
                new_self.connections@.len() == i,
                forall|k: int| 0 <= k < i ==> (#[trigger] new_self.connections@[k]).is_none(),
            decreases size - i,
        {
            new_self.connections.push(None);
            i += 1;
        }
        assert(new_self.table() =~= Seq::new(size as nat, |i: int| None::<Seq<u8>>));
        new_self
    }

    fn create(&mut self, index: usize, listener_id: u128, events: &Events) -> (result: Result<
        (),
        (),
    >)
        requires
            index < old(self).table().len(),
            events.wf(),
        ensures
            final(self).table().len() == old(self).table().len(),
            old(self).table()[index as int].is_some() ==> result.is_ok() && final(self).table()
                == old(self).table(),
            old(self).table()[index as int].is_none() ==> result.is_ok()
                == events@.contains_key(spec_id_name(listener_id)),
            old(self).table()[index as int].is_none() && result.is_ok() ==> final(self).table()
                == old(self).table().update(index as int, Some(spec_id_name(listener_id))),
            result.is_err() ==> final(self).table() == old(self).table(),
    {
        let event_name = id_name(listener_id);
        if self.get(index).is_none() {
            let notifier = match event::NotifierBuilder::new(&event_name).open(events) {
                Ok(notifier) => notifier,
                Err(_) => {
                    return Err(());
                },
            };
            self.connections[index] = Some(notifier);
            assert(self.table() =~= old(self).table().update(
                index as int,
                Some(spec_id_name(listener_id)),
            ));
        }
        assert(self.table() =~= self.table());
        Ok(())
    }

    fn get(&self, index: usize) -> (connection: &Option<event::Notifier>)
        requires
            index < self.table().len(),
        ensures
            connection.is_some() == self.table()[index as int].is_some(),
            connection.is_some() ==> Some(connection.unwrap().spec_name())
                == self.table()[index as int],
    {
        &self.connections[index]
    }

    fn len(&self) -> (len: usize)
        ensures
            len == self.table().len(),
    {
        self.connections.len()
    }

    fn remove(&mut self, index: usize)
        requires
            index < old(self).table().len(),
        ensures
            final(self).table() == old(self).table().update(index as int, None),
    {
        self.connections[index] = None;
        assert(self.table() =~= old(self).table().update(index as int, None));
    }
}

/// The port that sends ids to the listeners of an event service. A
/// notifier is a holder of its service.
#[derive(Debug)]
pub struct Notifier {
    service_id: ServiceName,
    port_id: u128,
    listener_connections: ListenerConnections,
    listener_list_state: ContainerState<u128>,
    default_trigger_id: EventId,
    dynamic_config_guard: UniqueIndex,
}

/// What the creation of a notifier of the service with the given id
/// comes to.
pub open spec fn create_result(host: &Host, service_id: Seq<u8>) -> Result<
    (),
    NotifierCreateError,
> {
    if !host.has_registry(service_id, PortKind::Notifier) {
        Err(NotifierCreateError::ServiceDoesNotExist)
    } else if !spec_can_increment(host.holders(service_id)) {
        Err(NotifierCreateError::ServiceDoesNotExist)
    } else if host.next_free_slot(service_id, PortKind::Notifier).is_none() {
        Err(NotifierCreateError::ExceedsMaxSupportedNotifiers)
    } else {
        Ok(())
    }
}

impl Notifier {
    /// The identity of the port.
    pub closed spec fn spec_port_id(&self) -> u128 {
        self.port_id
    }

    /// The name of the service of the port.
    pub closed spec fn spec_service_id(&self) -> Seq<u8> {
        self.service_id@
    }

    /// The slot of the port in the registry of its service.
    pub closed spec fn spec_slot(&self) -> u32 {
        self.dynamic_config_guard.spec_value()
    }

    /// The id that is sent unless another one is given.
    pub closed spec fn spec_default_trigger_id(&self) -> EventId {
        self.default_trigger_id
    }

    /// The names of the channels that the notifier is connected to, by the
    /// slot of the listener.
    pub closed spec fn table(&self) -> Seq<Option<Seq<u8>>> {
        self.listener_connections.table()
    }

    /// The registry of the listeners as the notifier saw it last.
    pub closed spec fn snapshot(&self) -> Seq<Option<u128>> {
        self.listener_list_state@
    }

    /// The change counter of the registry of the listeners when the
    /// notifier saw it last.
    pub closed spec fn observed_change_counter(&self) -> u64 {
        self.listener_list_state.observed_change_counter()
    }

    /// What holds of every notifier: its table has an entry for every slot
    /// of the registry.
    pub closed spec fn wf(&self) -> bool {
        self.listener_connections.table().len() == self.listener_list_state@.len()
    }

    /// The table of a well-formed notifier has an entry for every slot of
    /// its snapshot.
    pub proof fn lemma_table(&self)
        requires
            self.wf(),
        ensures
            self.table().len() == self.snapshot().len(),
    {
    }

    /// True if the notifier sees a change of the registry of the listeners
    /// of its service on `host`.
    pub open spec fn sees_change(&self, host: &Host) -> bool {
        host.has_registry(self.spec_service_id(), PortKind::Listener)
            && self.observed_change_counter() != host.registry_container(
            self.spec_service_id(),
            PortKind::Listener,
        ).spec_change_counter() && host.registry(
            self.spec_service_id(),
            PortKind::Listener,
        ).len() == self.table().len()
    }

    /// The table of the notifier after it has brought its connections up
    /// to date with `host`, and whether it got through.
    pub open spec fn updated_table(&self, host: &Host) -> (Seq<Option<Seq<u8>>>, bool) {
        if self.sees_change(host) {
            populate_from(
                self.table(),
                host.registry(self.spec_service_id(), PortKind::Listener),
                host.events(),
                0,
            )
        } else {
            (self.table(), true)
        }
    }

    /// True if `after` is the host after `notifier` was created on
    /// `before`.
    pub open spec fn has_created(before: &Host, after: &Host, notifier: &Notifier) -> bool {
        let name = notifier.spec_service_id();
        &&& notifier.wf()
        &&& notifier.spec_port_id() == before.ids().spec_next()
        &&& Some(notifier.spec_slot()) == before.next_free_slot(name, PortKind::Notifier)
        &&& notifier.snapshot() == before.registry(name, PortKind::Listener)
        &&& notifier.observed_change_counter() == before.registry_container(
            name,
            PortKind::Listener,
        ).spec_change_counter()
        &&& notifier.table() == populate_from(
            Seq::new(before.registry(name, PortKind::Listener).len(), |i: int| None::<Seq<u8>>),
            before.registry(name, PortKind::Listener),
            before.events(),
            0,
        ).0
        &&& after.events() == before.events()
        &&& after.has_registry(name, PortKind::Notifier)
        &&& notifier.spec_slot() < before.registry(name, PortKind::Notifier).len()
        &&& notifier.table().len() == before.registry(name, PortKind::Listener).len()
        &&& after.change_counter(name, PortKind::Notifier) == before.change_counter(
            name,
            PortKind::Notifier,
        ).wrapping_add(1)
        &&& after.registry(name, PortKind::Notifier) == before.registry(
            name,
            PortKind::Notifier,
        ).update(notifier.spec_slot() as int, Some(notifier.spec_port_id()))
        &&& after.registry(name, PortKind::Listener) == before.registry(name, PortKind::Listener)
        &&& after.registry_container(name, PortKind::Listener) == before.registry_container(
            name,
            PortKind::Listener,
        )
        &&& after.holders(name) == before.holders(name) + 1
        &&& after.settings(name) == before.settings(name)
        &&& after.same_services_except(before, name)
        &&& after.file_system() == before.file_system()
        &&& after.segments() == before.segments()
        &&& after.connections() == before.connections()
        &&& after.same_layout(before)
    }

    /// Creates a notifier of the service with the given id: its
    /// connections are set up first and its identity is registered last.
    pub(crate) fn new(
        host: &mut Host,
        service_id: &ServiceName,
        default_trigger_id: EventId,
    ) -> (result: Result<Notifier, NotifierCreateError>)
        requires
            old(host).wf(),
        ensures
            final(host).wf(),
            final(host).ids().spec_counter() == old(host).ids().spec_counter().wrapping_add(1),
            result.is_ok() == create_result(old(host), service_id@).is_ok(),
            result.is_err() ==> Err::<(), _>(result.unwrap_err()) == create_result(
                old(host),
                service_id@,
            ) && final(host).services() == old(host).services() && final(host).events() == old(host).events() && final(host).file_system() == old(host).file_system() && final(host).segments() == old(host).segments() && final(host).connections() == old(host).connections(),
            result.is_ok() ==> result.unwrap().spec_service_id() == service_id@
                && result.unwrap().spec_default_trigger_id() == default_trigger_id
                && Self::has_created(old(host), final(host), &result.unwrap()),
    {
        let port_id: u128 = host.next_port_id();
        let listener_list_state = match host.port_snapshot(service_id, PortKind::Listener) {
            Some(state) => state,
            None => {
                return Err(NotifierCreateError::ServiceDoesNotExist);
            },
        };
        let ghost started = *host;
        let mut listener_connections = ListenerConnections::new(listener_list_state.capacity());
        proof {
            host.lemma_accessors();
        }
        let _ = Self::populate_listener_channels(
            &mut listener_connections,
            &listener_list_state,
            &host.events,
        );
        match host.acquire_service(service_id) {
            Ok(()) => {},
            Err(_) => {
                return Err(NotifierCreateError::ServiceDoesNotExist);
            },
        }
        let ghost acquired = *host;
        proof {
            acquired.lemma_registry(service_id@, PortKind::Notifier);
            acquired.lemma_registry(service_id@, PortKind::Listener);
            started.lemma_registry(service_id@, PortKind::Listener);
            started.lemma_services();
        }
        match host.add_port(service_id, PortKind::Notifier, port_id) {
            Some(dynamic_config_guard) => {
                proof {
                    let name = service_id@;
                    assert(host.services().remove(name) =~= old(host).services().remove(name));
                    host.lemma_registry(name, PortKind::Listener);
                }
                Ok(
                    Notifier {
                        service_id: service_id.clone(),
                        port_id,
                        listener_connections,
                        listener_list_state,
                        default_trigger_id,
                        dynamic_config_guard,
                    },
                )
            },
            None => {
                proof {
                    host.lemma_services();
                }
                let _ = host.release_service(service_id);
                proof {
                    assert(host.services().remove(service_id@) =~= old(host).services().remove(
                        service_id@,
                    ));
                    host.lemma_same_services(old(host), service_id@);
                }
                Err(NotifierCreateError::ExceedsMaxSupportedNotifiers)
            },
        }
    }

    /// Returns the identity of the port.
    pub fn id(&self) -> (id: UniqueNotifierId)
        ensures
            id.value == self.spec_port_id(),
    {
        UniqueNotifierId { value: self.port_id }
    }

    fn populate_listener_channels(
        listener_connections: &mut ListenerConnections,
        listener_list_state: &ContainerState<u128>,
        events: &Events,
    ) -> (result: Result<(), ()>)
        requires
            events.wf(),
            old(listener_connections).table().len() == listener_list_state@.len(),
        ensures
            final(listener_connections).table().len() == old(listener_connections).table().len(),
            (final(listener_connections).table(), result.is_ok()) == populate_from(
                old(listener_connections).table(),
                listener_list_state@,
                events@,
                0,
            ),
    {
        let mut i: usize = 0;
        while i < listener_connections.len()
            invariant
                events.wf(),
                i <= listener_connections.table().len(),
                listener_connections.table().len() == listener_list_state@.len(),
                listener_connections.table().len() == old(listener_connections).table().len(),
                populate_from(listener_connections.table(), listener_list_state@, events@, i as int)
                    == populate_from(
                    old(listener_connections).table(),
                    listener_list_state@,
                    events@,
                    0,
                ),
            decreases listener_connections.table().len() - i,
        {
            match listener_list_state.get(i) {
                Some(listener_id) => match listener_connections.create(i, listener_id, events) {
                    Ok(()) => (),
                    Err(()) => {
                        return Err(());
                    },
                },
                None => listener_connections.remove(i),
            }
            i += 1;
        }
        Ok(())
    }

    /// Brings the connections up to date when the registry of the
    /// listeners has changed. Fails when the channel of a listener cannot
    /// be opened; the connections of the slots behind that listener stay
    /// as they were.
    fn update_connections(&mut self, host: &Host) -> (result: Result<
        (),
        NotifierConnectionUpdateFailure,
    >)
        requires
            old(self).wf(),
            host.wf(),
        ensures
            final(self).wf(),
            final(self).spec_port_id() == old(self).spec_port_id(),
            final(self).spec_service_id() == old(self).spec_service_id(),
            final(self).spec_slot() == old(self).spec_slot(),
            final(self).spec_default_trigger_id() == old(self).spec_default_trigger_id(),
            (final(self).table(), result.is_ok()) == old(self).updated_table(host),
            old(self).sees_change(host) ==> final(self).snapshot() == host.registry(
                old(self).spec_service_id(),
                PortKind::Listener,
            ) && final(self).observed_change_counter() == host.registry_container(
                old(self).spec_service_id(),
                PortKind::Listener,
            ).spec_change_counter(),
            !old(self).sees_change(host) ==> final(self).snapshot() == old(self).snapshot()
                && final(self).observed_change_counter() == old(self).observed_change_counter(),
    {
        proof {
            host.lemma_accessors();
        }
        if self.listener_connections.len() != self.registry_capacity(host) {
            return Ok(());
        }
        match host.update_port_snapshot(
            &self.service_id,
            PortKind::Listener,
            &mut self.listener_list_state,
        ) {
            Some(true) => {
                match Self::populate_listener_channels(
                    &mut self.listener_connections,
                    &self.listener_list_state,
                    &host.events,
                ) {
                    Ok(()) => Ok(()),
                    Err(()) => Err(NotifierConnectionUpdateFailure::OnlyPartialUpdate),
                }
            },
            _ => Ok(()),
        }
    }

    fn registry_capacity(&self, host: &Host) -> (capacity: usize)
        requires
            host.wf(),
        ensures
            host.has_registry(self.spec_service_id(), PortKind::Listener) ==> capacity
                == host.registry(self.spec_service_id(), PortKind::Listener).len(),
            !host.has_registry(self.spec_service_id(), PortKind::Listener) ==> capacity
                == self.table().len(),
    {
        match host.port_snapshot(&self.service_id, PortKind::Listener) {
            Some(state) => state.capacity(),
            None => self.listener_connections.len(),
        }
    }

    /// Sends the default id of the notifier to all listeners. See
    /// [`Notifier::notify_with_custom_trigger_id()`].
    pub fn notify(&mut self, host: &mut Host) -> (result: Result<
        usize,
        NotifierConnectionUpdateFailure,
    >)
        requires
            old(self).wf(),
            old(host).wf(),
        ensures
            final(self).wf(),
            final(host).wf(),
            Self::has_notified(
                old(self),
                final(self),
                old(host),
                final(host),
                old(self).spec_default_trigger_id(),
                result,
            ),
    {
        self.notify_with_custom_trigger_id(host, self.default_trigger_id)
    }

    /// True if `after` and `host_after` are the notifier and the host
    /// after the notifier `before` has sent `value` on `host_before` with
    /// the given result: the connections are brought up to date first;
    /// when that fails nothing is sent, otherwise the id is sent over every
    /// connection and the result is the number of channels that took it.
    pub open spec fn has_notified(
        before: &Notifier,
        after: &Notifier,
        host_before: &Host,
        host_after: &Host,
        value: EventId,
        result: Result<usize, NotifierConnectionUpdateFailure>,
    ) -> bool {
        let updated = before.updated_table(host_before);
        let sent = notify_from(updated.0, host_before.events(), value.spec_as_u64(), 0, 0);
        &&& after.spec_port_id() == before.spec_port_id()
        &&& after.spec_service_id() == before.spec_service_id()
        &&& after.spec_slot() == before.spec_slot()
        &&& after.spec_default_trigger_id() == before.spec_default_trigger_id()
        &&& after.table() == updated.0
        &&& host_after.services() == host_before.services()
        &&& host_after.file_system() == host_before.file_system()
        &&& host_after.segments() == host_before.segments()
        &&& host_after.connections() == host_before.connections()
        &&& host_after.ids() == host_before.ids()
        &&& host_after.same_layout(host_before)
        &&& result.is_ok() == updated.1
        &&& !updated.1 ==> host_after.events() == host_before.events()
        &&& updated.1 ==> host_after.events() == sent.0 && result.unwrap() == sent.1
    }

    /// Sends `value` to all listeners that the notifier is connected to,
    /// after it has brought its connections up to date. Returns the number
    /// of listeners whose channel took the id.
    pub fn notify_with_custom_trigger_id(&mut self, host: &mut Host, value: EventId) -> (result:
        Result<usize, NotifierConnectionUpdateFailure>)
        requires
            old(self).wf(),
            old(host).wf(),
        ensures
            final(self).wf(),
            final(host).wf(),
            Self::has_notified(old(self), final(self), old(host), final(host), value, result),
    {
        match self.update_connections(host) {
            Ok(()) => {},
            Err(error) => {
                return Err(error);
            },
        }
        proof {
            host.lemma_accessors();
        }
        let ghost table = self.table();
        let ghost id = value.spec_as_u64();
        let mut number_of_triggered_listeners: usize = 0;
        let mut i: usize = 0;
        while i < self.listener_connections.len()
            invariant
                self.wf(),
                self.table() == table,
                self.spec_port_id() == old(self).spec_port_id(),
                self.spec_service_id() == old(self).spec_service_id(),
                self.spec_slot() == old(self).spec_slot(),
                self.spec_default_trigger_id() == old(self).spec_default_trigger_id(),
                id == value.spec_as_u64(),
                i <= table.len(),
                number_of_triggered_listeners <= i,
                old(host).wf(),
                host.events.wf(),
                host.file_system == old(host).file_system,
                host.services == old(host).services,
                host.static_storage == old(host).static_storage,
                host.segments == old(host).segments,
                host.connections == old(host).connections,
                host.ids == old(host).ids,
                notify_from(
                    table,
                    host.events@,
                    id,
                    i as int,
                    number_of_triggered_listeners as nat,
                ) == notify_from(table, old(host).events(), id, 0, 0),
            decreases table.len() - i,
        {
            match self.listener_connections.get(i) {
                Some(connection) => {
                    proof {
                        if host.events@.contains_key(connection.spec_name()) {
                            host.events.lemma_bounded(connection.spec_name());
                        }
                    }
                    match connection.notify(&mut host.events, value.as_u64()) {
                        Err(_) => {},
                        Ok(_) => {
                            number_of_triggered_listeners += 1;
                        },
                    }
                },
                None => (),
            }
            i += 1;
        }
        proof {
            host.lemma_accessors();
            host.lemma_transport_changed(old(host));
        }
        Ok(number_of_triggered_listeners)
    }

    /// Closes the notifier: its identity leaves the registry of the
    /// service and the service loses a holder. Returns true if the service
    /// was taken down.
    pub fn close(self, host: &mut Host) -> (taken_down: bool)
        requires
            old(host).wf(),
        ensures
            final(host).wf(),
            final(host).same_transport(old(host)),
            final(host).same_layout(old(host)),
            final(host).same_services_except(old(host), self.spec_service_id()),
            taken_down == (old(host).has_service(self.spec_service_id()) && old(host).holders(
                self.spec_service_id(),
            ) == 1),
            taken_down ==> !final(host).has_service(self.spec_service_id()),
            old(host).has_service(self.spec_service_id()) && !taken_down ==> final(host).has_service(self.spec_service_id()) && final(host).holders(
                self.spec_service_id(),
            ) == old(host).holders(self.spec_service_id()) - 1,
            Host::has_dropped_port(
                old(host),
                final(host),
                self.spec_service_id(),
                PortKind::Notifier,
                self.spec_slot(),
                taken_down,
            ),
    {
        let taken_down = host.drop_port(
            &self.service_id,
            PortKind::Notifier,
            self.dynamic_config_guard,
        );
        taken_down
    }
}

} // verus!
