//! The port that receives the ids of an event service.

use crate::cal::event::process_local as event;
use crate::cal::event::ListenerWaitError;
use crate::host::{Host, PortKind};
use crate::lock_free::mpmc::unique_index_set::UniqueIndex;
use crate::port::event_id::EventId;
use crate::port::port_identifiers::{id_name, spec_id_name, UniqueListenerId};
use crate::service::dynamic_config::spec_can_increment;
use crate::service::service_name::ServiceName;
use vstd::prelude::*;

verus! {

/// Failures when a listener is created.
#[derive(Debug, PartialEq, Eq, Copy, Clone)]
pub enum ListenerCreateError {
    ExceedsMaxSupportedListeners,
    ResourceCreationFailed,
    ServiceDoesNotExist,
}

/// The port that receives the ids of an event service. A listener owns the
/// channel that carries its name and is a holder of its service.
#[derive(Debug)]
pub struct Listener {
    service_id: ServiceName,
    port_id: u128,
    listener: event::Listener,
    dynamic_config_guard: UniqueIndex,
}

/// What the creation of a listener of the service with the given id
/// comes to.
pub open spec fn create_result(host: &Host, service_id: Seq<u8>) -> Result<
    (),
    ListenerCreateError,
> {
    if !host.has_registry(service_id, PortKind::Listener) {
        Err(ListenerCreateError::ServiceDoesNotExist)
    } else if host.events().contains_key(spec_id_name(host.ids().spec_next())) {
        Err(ListenerCreateError::ResourceCreationFailed)
    } else if !spec_can_increment(host.holders(service_id)) {
        Err(ListenerCreateError::ResourceCreationFailed)
    } else if host.next_free_slot(service_id, PortKind::Listener).is_none() {
        Err(ListenerCreateError::ExceedsMaxSupportedListeners)
    } else {
        Ok(())
    }
}

impl Listener {
    /// The identity of the port.
    pub closed spec fn spec_port_id(&self) -> u128 {
        self.port_id
    }

    /// The name of the service of the port.
    pub closed spec fn spec_service_id(&self) -> Seq<u8> {
        self.service_id@
    }

    /// The slot of the port in the registry of its service.
    pub closed spec fn spec_slot(&self) -> u32 {
        self.dynamic_config_guard.spec_value()
    }

    /// The name of the channel of the port.
    pub open spec fn channel_name(&self) -> Seq<u8> {
        spec_id_name(self.spec_port_id())
    }

    /// What holds of every listener.
    pub closed spec fn wf(&self) -> bool {
        self.listener.spec_name() == spec_id_name(self.port_id)
    }

    /// True if `after` is the host after `listener` was created on
    /// `before`.
    pub open spec fn has_created(before: &Host, after: &Host, listener: &Listener) -> bool {
        let name = listener.spec_service_id();
        &&& listener.wf()
        &&& listener.spec_port_id() == before.ids().spec_next()
        &&& Some(listener.spec_slot()) == before.next_free_slot(name, PortKind::Listener)
        &&& after.events() == before.events().insert(listener.channel_name(), Seq::empty())
        &&& after.has_registry(name, PortKind::Listener)
        &&& listener.spec_slot() < before.registry(name, PortKind::Listener).len()
        &&& after.change_counter(name, PortKind::Listener) == before.change_counter(
            name,
            PortKind::Listener,
        ).wrapping_add(1)
        &&& after.registry_container(name, PortKind::Notifier) == before.registry_container(
            name,
            PortKind::Notifier,
        )
        &&& after.registry(name, PortKind::Listener) == before.registry(
            name,
            PortKind::Listener,
        ).update(listener.spec_slot() as int, Some(listener.spec_port_id()))
        &&& after.registry(name, PortKind::Notifier) == before.registry(name, PortKind::Notifier)
        &&& after.holders(name) == before.holders(name) + 1
        &&& after.settings(name) == before.settings(name)
        &&& after.same_services_except(before, name)
        &&& after.file_system() == before.file_system()
        &&& after.segments() == before.segments()
        &&& after.connections() == before.connections()
        &&& after.same_layout(before)
    }

    /// Creates a listener of the service with the given id: its channel
    /// is created first and its identity is registered last.
    pub(crate) fn new(host: &mut Host, service_id: &ServiceName) -> (result: Result<
        Listener,
        ListenerCreateError,
    >)
        requires
            old(host).wf(),
        ensures
            final(host).wf(),
            final(host).ids().spec_counter() == old(host).ids().spec_counter().wrapping_add(1),
            result.is_ok() == create_result(old(host), service_id@).is_ok(),
            result.is_err() ==> Err::<(), _>(result.unwrap_err()) == create_result(
                old(host),
                service_id@,
            ) && final(host).services() == old(host).services() && final(host).events() == old(host).events() && final(host).file_system() == old(host).file_system() && final(host).segments() == old(host).segments() && final(host).connections() == old(host).connections(),
            result.is_ok() ==> result.unwrap().spec_service_id() == service_id@
                && Self::has_created(old(host), final(host), &result.unwrap()),
    {
        let port_id: u128 = host.next_port_id();
        if host.port_snapshot(service_id, PortKind::Listener).is_none() {
            return Err(ListenerCreateError::ServiceDoesNotExist);
        }
        let ghost started = *host;
        proof {
            host.lemma_accessors();
        }
        let channel_name = id_name(port_id);
        let listener = match event::ListenerBuilder::new(&channel_name).create(&mut host.events) {
            Ok(listener) => listener,
            Err(_) => {
                proof {
                    host.lemma_accessors();
                    host.lemma_transport_changed(&started);
                }
                return Err(ListenerCreateError::ResourceCreationFailed);
            },
        };
        proof {
            host.lemma_accessors();
            host.lemma_transport_changed(&started);
        }
        let ghost with_channel = *host;
        match host.acquire_service(service_id) {
            Ok(()) => {},
            Err(_) => {
                proof {
                    host.lemma_accessors();
                }
                let ghost failed = *host;
                listener.close(&mut host.events);
                proof {
                    host.lemma_accessors();
                    host.lemma_transport_changed(&failed);
                    assert(host.events() =~= old(host).events());
                }
                return Err(ListenerCreateError::ResourceCreationFailed);
            },
        }
        let ghost acquired = *host;
        proof {
            acquired.lemma_registry(service_id@, PortKind::Listener);
        }
        match host.add_port(service_id, PortKind::Listener, port_id) {
            Some(dynamic_config_guard) => {
                proof {
                    let name = service_id@;
                    assert(host.services().remove(name) =~= old(host).services().remove(name));
                    assert(host.events() == old(host).events().insert(
                        spec_id_name(port_id),
                        Seq::empty(),
                    ));
                    assert(host.has_registry(name, PortKind::Listener));
                    assert(acquired.registry(name, PortKind::Listener) == old(host).registry(
                        name,
                        PortKind::Listener,
                    ));
                    assert(acquired.registry(name, PortKind::Notifier) == old(host).registry(
                        name,
                        PortKind::Notifier,
                    ));
                    assert(acquired.registry_container(name, PortKind::Listener) == old(host).registry_container(name, PortKind::Listener));
                    host.lemma_registry(name, PortKind::Notifier);
                    acquired.lemma_registry(name, PortKind::Notifier);
                    assert(host.registry(name, PortKind::Notifier) == acquired.registry(
                        name,
                        PortKind::Notifier,
                    ));
                    assert(host.holders(name) == old(host).holders(name) + 1);
                    assert(host.settings(name) == old(host).settings(name));
                    assert(host.file_system() == old(host).file_system());
                    assert(host.segments() == old(host).segments());
                    assert(host.connections() == old(host).connections());
                    assert(host.same_layout(old(host)));
                }
                Ok(
                    Listener {
                        service_id: service_id.clone(),
                        port_id,
                        listener,
                        dynamic_config_guard,
                    },
                )
            },
            None => {
                proof {
                    host.lemma_services();
                    started.lemma_services();
                }
                let _ = host.release_service(service_id);
                proof {
                    host.lemma_accessors();
                }
                let ghost failed = *host;
                listener.close(&mut host.events);
                proof {
                    host.lemma_accessors();
                    host.lemma_transport_changed(&failed);
                    assert(host.events() =~= old(host).events());
                    assert(host.services().remove(service_id@) =~= old(host).services().remove(
                        service_id@,
                    ));
                    host.lemma_same_services(old(host), service_id@);
                }
                Err(ListenerCreateError::ExceedsMaxSupportedListeners)
            },
        }
    }

    /// Returns the identity of the port.
    pub fn id(&self) -> (id: UniqueListenerId)
        ensures
            id.value == self.spec_port_id(),
    {
        UniqueListenerId { value: self.port_id }
    }

    /// Takes all ids that wait in the channel out of it, without waiting
    /// for one, and returns them, oldest first. Fails when the channel of
    /// the listener does not exist any more.
    pub fn try_wait(&mut self, host: &mut Host) -> (result: Result<Vec<EventId>, ListenerWaitError>)
        requires
            old(self).wf(),
            old(host).wf(),
        ensures
            final(self).wf(),
            final(self).spec_port_id() == old(self).spec_port_id(),
            final(self).spec_service_id() == old(self).spec_service_id(),
            final(self).spec_slot() == old(self).spec_slot(),
            final(host).wf(),
            final(host).services() == old(host).services(),
            final(host).file_system() == old(host).file_system(),
            final(host).segments() == old(host).segments(),
            final(host).connections() == old(host).connections(),
            final(host).ids() == old(host).ids(),
            final(host).same_layout(old(host)),
            result.is_ok() == old(host).events().contains_key(old(self).channel_name()),
            result.is_err() ==> result.unwrap_err() == ListenerWaitError::ContractViolation
                && final(host).events() == old(host).events(),
            result.is_ok() ==> final(host).events() == old(host).events().insert(
                old(self).channel_name(),
                Seq::empty(),
            ) && result.unwrap()@.len() == old(host).events()[old(self).channel_name()].len()
                && forall|i: int|
                0 <= i < result.unwrap()@.len() ==> (#[trigger] result.unwrap()@[i]).spec_as_u64()
                    == old(host).events()[old(self).channel_name()][i],
    {
        let ghost name = self.channel_name();
        proof {
            host.lemma_accessors();
        }
        let ghost pending = host.events()[name];
        let mut ids: Vec<EventId> = Vec::new();
        let mut first: bool = true;
        loop
            invariant
                self.wf(),
                self.channel_name() == name,
                *self == *old(self),
                host.events.wf(),
                old(host).wf(),
                host.file_system == old(host).file_system,
                host.services == old(host).services,
                host.static_storage == old(host).static_storage,
                host.segments == old(host).segments,
                host.connections == old(host).connections,
                host.ids == old(host).ids,
                old(host).events().contains_key(name) ==> pending == old(host).events()[name],
                first ==> host.events@ == old(host).events() && ids@.len() == 0,
                !first ==> old(host).events().contains_key(name),
                old(host).events().contains_key(name) ==> host.events@.contains_key(name)
                    && host.events@.remove(name) == old(host).events().remove(name) && ids@.len()
                    <= pending.len() && host.events@[name] == pending.subrange(
                    ids@.len() as int,
                    pending.len() as int,
                ),
                forall|i: int|
                    0 <= i < ids@.len() ==> (#[trigger] ids@[i]).spec_as_u64() == pending[i],
            decreases
                    if old(host).events().contains_key(name) {
                        pending.len() - ids@.len() + 1
                    } else if first {
                        1
                    } else {
                        0
                    },
        {
            proof {
                old(host).lemma_accessors();
            }
            match self.listener.try_wait(&mut host.events) {
                Ok(Some(id)) => {
                    let ghost before = ids@;
                    ids.push(EventId::new(id));
                    first = false;
                    proof {
                        assert(host.events@[name] =~= pending.subrange(
                            ids@.len() as int,
                            pending.len() as int,
                        ));
                        assert forall|i: int| 0 <= i < ids@.len() implies (
                        #[trigger] ids@[i]).spec_as_u64() == pending[i] by {
                            if i < before.len() {
                                assert(ids@[i] == before[i]);
                            }
                        }
                    }
                },
                Ok(None) => {
                    proof {
                        host.lemma_accessors();
                        host.lemma_transport_changed(old(host));
                        assert(ids@.len() == pending.len());
                        assert(host.events@[name] =~= Seq::<u64>::empty());
                        assert(host.events@ =~= old(host).events().insert(name, Seq::empty())) by {
                            crate::cal::registry::lemma_same_map_with(
                                host.events@,
                                old(host).events(),
                                name,
                                Seq::<u64>::empty(),
                            );
                        }
                    }
                    return Ok(ids);
                },
                Err(error) => {
                    proof {
                        host.lemma_accessors();
                        host.lemma_transport_changed(old(host));
                    }
                    return Err(ListenerWaitError::ContractViolation);
                },
            }
        }
    }

    /// Closes the listener: its identity leaves the registry of the
    /// service, its channel is removed, and the service loses a holder.
    /// Returns true if the service was taken down.
    pub fn close(self, host: &mut Host) -> (taken_down: bool)
        requires
            self.wf(),
            old(host).wf(),
        ensures
            final(host).wf(),
            final(host).events() == old(host).events().remove(self.channel_name()),
            final(host).segments() == old(host).segments(),
            final(host).connections() == old(host).connections(),
            final(host).ids() == old(host).ids(),
            final(host).same_layout(old(host)),
            final(host).same_services_except(old(host), self.spec_service_id()),
            taken_down == (old(host).has_service(self.spec_service_id()) && old(host).holders(
                self.spec_service_id(),
            ) == 1),
            taken_down ==> !final(host).has_service(self.spec_service_id()),
            old(host).has_service(self.spec_service_id()) && !taken_down ==> final(host).has_service(self.spec_service_id()) && final(host).holders(
                self.spec_service_id(),
            ) == old(host).holders(self.spec_service_id()) - 1,
            Host::has_dropped_port(
                old(host),
                final(host),
                self.spec_service_id(),
                PortKind::Listener,
                self.spec_slot(),
                taken_down,
            ),
    {
        proof {
            host.lemma_accessors();
        }
        self.listener.close(&mut host.events);
        proof {
            host.lemma_accessors();
            host.lemma_transport_changed(old(host));
        }
        let ghost closed = *host;
        let taken_down = host.drop_port(
            &self.service_id,
            PortKind::Listener,
            self.dynamic_config_guard,
        );
        proof {
            host.lemma_accessors();
            closed.lemma_accessors();
        }
        taken_down
    }
}

} // verus!
