//! The state of a service that changes while the service is in use: the
//! registries of its ports and the number of those who hold the service.
//!
//! The number of holders starts at one for the creator. The release of the
//! last holder replaces the number with a mark that says that the service
//! is being taken down, and nobody can become a holder after that.

pub mod event;
pub mod publish_subscribe;

use vstd::prelude::*;

verus! {

/// The value of the reference counter of a service that is being taken
/// down.
pub const MARKED_FOR_DESTRUCTION: u64 = u64::MAX - 1;

/// What the release of a holder comes to.
#[derive(Debug, Eq, PartialEq, Copy, Clone, Structural)]
pub enum DecrementReferenceCounterResult {
    HasOwners,
    NoMoreOwners,
}

/// The reference counter after another holder was taken in: one more,
/// unless the service is marked for destruction or one more would be the
/// mark.
pub open spec fn spec_increment(counter: u64) -> u64 {
    if counter >= MARKED_FOR_DESTRUCTION - 1 {
        counter
    } else {
        (counter + 1) as u64
    }
}

/// True if another holder can be taken in.
pub open spec fn spec_can_increment(counter: u64) -> bool {
    counter < MARKED_FOR_DESTRUCTION - 1
}

/// The reference counter after a holder was released: one less, or the
/// mark when that holder was the last one.
pub open spec fn spec_decrement(counter: u64) -> u64 {
    if counter <= 1 || counter == MARKED_FOR_DESTRUCTION {
        MARKED_FOR_DESTRUCTION
    } else {
        (counter - 1) as u64
    }
}

/// What the release of a holder comes to.
pub open spec fn spec_decrement_result(counter: u64) -> DecrementReferenceCounterResult {
    if counter <= 1 || counter == MARKED_FOR_DESTRUCTION {
        DecrementReferenceCounterResult::NoMoreOwners
    } else {
        DecrementReferenceCounterResult::HasOwners
    }
}

/// One step in the life of a service: someone becomes a holder or a
/// holder lets go.
pub enum HolderStep {
    /// Someone tries to become a holder.
    Acquire,
    /// A holder lets go.
    Release,
}

/// The reference counter of a service that went through `steps` after its
/// creation.
pub open spec fn counter_after(steps: Seq<HolderStep>) -> u64
    decreases steps.len(),
{
    if steps.len() == 0 {
        1
    } else {
        match steps.last() {
            HolderStep::Acquire => spec_increment(counter_after(steps.drop_last())),
            HolderStep::Release => spec_decrement(counter_after(steps.drop_last())),
        }
    }
}

/// The number of holders of a service that went through `steps` after its
/// creation, or [`None`] once the last holder has let go.
pub open spec fn holders_after(steps: Seq<HolderStep>) -> Option<int>
    decreases steps.len(),
{
    if steps.len() == 0 {
        Some(1)
    } else {
        match holders_after(steps.drop_last()) {
            None => None,
            Some(holders) => match steps.last() {
                HolderStep::Acquire => Some(holders + 1),
                HolderStep::Release => if holders == 1 {
                    None
                } else {
                    Some(holders - 1)
                },
            },
        }
    }
}

/// While a service has holders its reference counter is their number: it
/// is at least one and it is not the mark of destruction. Once the last
/// holder has let go the counter is the mark, and it stays the mark
/// whatever happens.
pub proof fn lemma_counter_counts_holders(steps: Seq<HolderStep>)
    requires
        steps.len() < MARKED_FOR_DESTRUCTION - 2,
    ensures
        holders_after(steps).is_some() ==> counter_after(steps) == holders_after(steps).unwrap()
            && 1 <= counter_after(steps) <= steps.len() + 1 && counter_after(steps)
            != MARKED_FOR_DESTRUCTION,
        holders_after(steps).is_none() ==> counter_after(steps) == MARKED_FOR_DESTRUCTION,
    decreases steps.len(),
{
    if steps.len() > 0 {
        lemma_counter_counts_holders(steps.drop_last());
    }
}

/// The messaging pattern of a service together with the registries of that
/// pattern.
pub enum MessagingPattern {
    PublishSubscribe(publish_subscribe::DynamicConfig),
    Event(event::DynamicConfig),
}

/// The changing state of a service.
pub struct DynamicConfig {
    messaging_pattern: MessagingPattern,
    reference_counter: u64,
}

impl DynamicConfig {
    /// The invariant that every operation keeps.
    pub closed spec fn wf(&self) -> bool {
        &&& 1 <= self.reference_counter <= MARKED_FOR_DESTRUCTION
        &&& match self.messaging_pattern {
            MessagingPattern::PublishSubscribe(config) => config.wf(),
            MessagingPattern::Event(config) => config.wf(),
        }
    }

    /// The number of holders, or the mark of destruction.
    pub closed spec fn spec_reference_counter(&self) -> u64 {
        self.reference_counter
    }

    /// The messaging pattern with its registries.
    pub closed spec fn spec_messaging_pattern(&self) -> MessagingPattern {
        self.messaging_pattern
    }

    /// True if the service is a publish subscribe service.
    pub open spec fn is_publish_subscribe(&self) -> bool {
        self.spec_messaging_pattern() is PublishSubscribe
    }

    /// True if the service is an event service.
    pub open spec fn is_event(&self) -> bool {
        self.spec_messaging_pattern() is Event
    }

    /// The registries of a publish subscribe service.
    pub open spec fn spec_publish_subscribe(&self) -> publish_subscribe::DynamicConfig {
        self.spec_messaging_pattern()->PublishSubscribe_0
    }

    /// The registries of an event service.
    pub open spec fn spec_event(&self) -> event::DynamicConfig {
        self.spec_messaging_pattern()->Event_0
    }

    /// States with the same registries and the same number of holders are
    /// the same.
    pub proof fn lemma_same(&self, other: &DynamicConfig)
        requires
            self.spec_messaging_pattern() == other.spec_messaging_pattern(),
            self.spec_reference_counter() == other.spec_reference_counter(),
        ensures
            *self == *other,
    {
    }

    /// The registries of a well-formed state are well-formed.
    pub proof fn lemma_registries_wf(&self)
        requires
            self.wf(),
        ensures
            self.is_publish_subscribe() ==> self.spec_publish_subscribe().wf(),
            self.is_event() ==> self.spec_event().wf(),
            1 <= self.spec_reference_counter() <= MARKED_FOR_DESTRUCTION,
    {
    }

    /// Creates the state of a new service. Its creator is its only holder.
    pub fn new_uninit(messaging_pattern: MessagingPattern) -> (config: Self)
        requires
            messaging_pattern is PublishSubscribe
                ==> messaging_pattern->PublishSubscribe_0.wf(),
            messaging_pattern is Event ==> messaging_pattern->Event_0.wf(),
        ensures
            config.wf(),
            config.spec_messaging_pattern() == messaging_pattern,
            config.spec_reference_counter() == 1,
    {
        Self { messaging_pattern, reference_counter: 1 }
    }

    /// Takes in another holder. Fails, and changes nothing, when the
    /// service is marked for destruction.
    pub fn increment_reference_counter(&mut self) -> (result: Result<(), ()>)
        requires
            old(self).wf(),
        ensures
            final(self).wf(),
            final(self).spec_messaging_pattern() == old(self).spec_messaging_pattern(),
            result.is_ok() == spec_can_increment(old(self).spec_reference_counter()),
            final(self).spec_reference_counter() == spec_increment(
                old(self).spec_reference_counter(),
            ),
    {
        let current_value: u64 = self.reference_counter;
        if current_value >= MARKED_FOR_DESTRUCTION - 1 {
            return Err(());
        }
        self.reference_counter = current_value + 1;
        Ok(())
    }

    /// Releases a holder. The release of the last holder marks the service
    /// for destruction.
    pub fn decrement_reference_counter(&mut self) -> (result: DecrementReferenceCounterResult)
        requires
            old(self).wf(),
        ensures
            final(self).wf(),
            final(self).spec_messaging_pattern() == old(self).spec_messaging_pattern(),
            result == spec_decrement_result(old(self).spec_reference_counter()),
            final(self).spec_reference_counter() == spec_decrement(
                old(self).spec_reference_counter(),
            ),
    {
        let current_value: u64 = self.reference_counter;
        if current_value == 1 || current_value == MARKED_FOR_DESTRUCTION {
            self.reference_counter = MARKED_FOR_DESTRUCTION;
            DecrementReferenceCounterResult::NoMoreOwners
        } else {
            self.reference_counter = current_value - 1;
            DecrementReferenceCounterResult::HasOwners
        }
    }

    /// Returns true if the service is an event service.
    pub fn has_event_pattern(&self) -> (is_event: bool)
        ensures
            is_event == self.is_event(),
            !is_event == self.is_publish_subscribe(),
    {
        match &self.messaging_pattern {
            MessagingPattern::Event(_) => true,
            MessagingPattern::PublishSubscribe(_) => false,
        }
    }

    /// Returns true if another holder can be taken in.
    pub fn can_increment_reference_counter(&self) -> (possible: bool)
        ensures
            possible == spec_can_increment(self.spec_reference_counter()),
    {
        self.reference_counter < MARKED_FOR_DESTRUCTION - 1
    }

    /// Returns true if the service is marked for destruction.
    pub fn is_marked_for_destruction(&self) -> (marked: bool)
        ensures
            marked == (self.spec_reference_counter() == MARKED_FOR_DESTRUCTION),
    {
        self.reference_counter == MARKED_FOR_DESTRUCTION
    }

    /// Returns the registries of the publish subscribe pattern, which must
    /// be the pattern of the service.
    pub fn publish_subscribe(&self) -> (config: &publish_subscribe::DynamicConfig)
        requires
            self.is_publish_subscribe(),
        ensures
            *config == self.spec_publish_subscribe(),
    {
        match &self.messaging_pattern {
            MessagingPattern::PublishSubscribe(v) => v,
            MessagingPattern::Event(_) => vstd::pervasive::unreached(),
        }
    }

    /// Returns the registries of the event pattern, which must be the
    /// pattern of the service.
    pub fn event(&self) -> (config: &event::DynamicConfig)
        requires
            self.is_event(),
        ensures
            *config == self.spec_event(),
    {
        match &self.messaging_pattern {
            MessagingPattern::Event(v) => v,
            MessagingPattern::PublishSubscribe(_) => vstd::pervasive::unreached(),
        }
    }

    /// Returns the registries of the publish subscribe pattern for
    /// changing them.
    pub fn publish_subscribe_mut(&mut self) -> (config: &mut publish_subscribe::DynamicConfig)
        requires
            old(self).wf(),
            old(self).is_publish_subscribe(),
        ensures
            *config == old(self).spec_publish_subscribe(),
            config.wf(),
            final(self).is_publish_subscribe(),
            final(self).spec_publish_subscribe() == *final(config),
            final(self).spec_reference_counter() == old(self).spec_reference_counter(),
            final(config).wf() ==> final(self).wf(),
    {
        match &mut self.messaging_pattern {
            MessagingPattern::PublishSubscribe(v) => v,
            MessagingPattern::Event(_) => vstd::pervasive::unreached(),
        }
    }

    /// Returns the registries of the event pattern for changing them.
    pub fn event_mut(&mut self) -> (config: &mut event::DynamicConfig)
        requires
            old(self).wf(),
            old(self).is_event(),
        ensures
            *config == old(self).spec_event(),
            config.wf(),
            final(self).is_event(),
            final(self).spec_event() == *final(config),
            final(self).spec_reference_counter() == old(self).spec_reference_counter(),
            final(config).wf() ==> final(self).wf(),
    {
        match &mut self.messaging_pattern {
            MessagingPattern::Event(v) => v,
            MessagingPattern::PublishSubscribe(_) => vstd::pervasive::unreached(),
        }
    }
}

} // verus!
