//! The ports of a service: what a process sends and receives with.

pub mod accounting;
pub mod details;
pub mod event_id;
pub mod listener;
pub mod notifier;
pub mod port_identifiers;
pub mod publisher;
pub mod subscriber;

use crate::port::port_identifiers::{UniquePublisherId, UniqueSubscriberId};
use vstd::prelude::*;

verus! {

/// What a subscriber does when it cannot connect to a publisher.
#[derive(Debug, PartialEq, Eq, Clone, Copy, Structural)]
pub enum DegrationAction {
    /// The publisher is skipped silently.
    Ignore,
    /// The publisher is skipped and the failure is worth a warning.
    Warn,
    /// The operation of the subscriber fails.
    Fail,
}

/// Selects a [`DegrationAction`] for every publisher that a subscriber
/// cannot connect to: the action that was set for the publisher, or the
/// action for all other publishers.
#[derive(Debug)]
pub struct DegrationCallback {
    otherwise: DegrationAction,
    publishers: Vec<u128>,
    actions: Vec<DegrationAction>,
}

impl DegrationCallback {
    /// The action for all publishers that no action was set for.
    pub closed spec fn spec_otherwise(&self) -> DegrationAction {
        self.otherwise
    }

    /// The publishers that an action was set for, in the order in which
    /// the actions were set.
    pub closed spec fn spec_publishers(&self) -> Seq<u128> {
        self.publishers@
    }

    /// The actions that were set, in the order in which they were set.
    pub closed spec fn spec_actions(&self) -> Seq<DegrationAction> {
        self.actions@
    }

    /// What holds of every callback: there is one action for every
    /// publisher that an action was set for.
    pub closed spec fn wf(&self) -> bool {
        self.publishers@.len() == self.actions@.len()
    }

    /// The action that the first `considered` settings select for the
    /// given publisher: the one that was set last.
    pub open spec fn spec_call_in(&self, publisher_id: u128, considered: int) -> DegrationAction
        decreases considered,
    {
        if considered <= 0 || considered > self.spec_publishers().len() || considered
            > self.spec_actions().len() {
            self.spec_otherwise()
        } else if self.spec_publishers()[considered - 1] == publisher_id {
            self.spec_actions()[considered - 1]
        } else {
            self.spec_call_in(publisher_id, considered - 1)
        }
    }

    /// The action for the given publisher.
    pub open spec fn spec_call(&self, publisher_id: u128) -> DegrationAction {
        self.spec_call_in(publisher_id, self.spec_publishers().len() as int)
    }

    /// Creates the callback that selects `otherwise` for every publisher.
    pub fn new(otherwise: DegrationAction) -> (callback: Self)
        ensures
            callback.wf(),
            callback.spec_otherwise() == otherwise,
            callback.spec_publishers() == Seq::<u128>::empty(),
            callback.spec_actions() == Seq::<DegrationAction>::empty(),
    {
        Self { otherwise, publishers: Vec::new(), actions: Vec::new() }
    }

    /// Sets the action for the given publisher.
    pub fn on_publisher(self, publisher_id: UniquePublisherId, action: DegrationAction) -> (callback:
        Self)
        requires
            self.wf(),
        ensures
            callback.wf(),
            callback.spec_otherwise() == self.spec_otherwise(),
            callback.spec_publishers() == self.spec_publishers().push(publisher_id.value),
            callback.spec_actions() == self.spec_actions().push(action),
    {
        let mut callback = self;
        callback.publishers.push(publisher_id.value);
        callback.actions.push(action);
        callback
    }

    /// Returns the action for the publisher that the subscriber cannot
    /// connect to.
    pub fn call(&self, publisher_id: UniquePublisherId, subscriber_id: UniqueSubscriberId) -> (action:
        DegrationAction)
        requires
            self.wf(),
        ensures
            action == self.spec_call(publisher_id.value),
    {
        let mut considered: usize = self.publishers.len();
        while considered > 0
            invariant
                self.wf(),
                considered <= self.publishers@.len(),
                self.spec_call_in(publisher_id.value, considered as int) == self.spec_call(
                    publisher_id.value,
                ),
            decreases considered,
        {
            if self.publishers[considered - 1] == publisher_id.value {
                return self.actions[considered - 1];
            }
            considered -= 1;
        }
        self.otherwise
    }
}

} // verus!
