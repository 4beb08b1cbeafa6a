//! An aggregate together with where it was restored from and what has been
//! applied to it since.
use vstd::prelude::*;
use super::Aggregate;
use crate::types::{EventNumber, SequencedEvent, StateSnapshot, Version};

verus! {

/// An aggregate, the version it was restored at, and the events applied to
/// it since: how many, and the number of the last.
#[derive(Debug, Clone, PartialEq, Hash)]
pub struct HydratedAggregate<Agg> {
    latest_applied_event_number: Option<EventNumber>,
    applied_event_count: usize,
    aggregate: Agg,
    rehydrated_version: Version,
}

impl<Agg> HydratedAggregate<Agg> {
    /// The number of the last event applied since restoration, if any.
    pub closed spec fn latest_spec(self) -> Option<EventNumber> {
        self.latest_applied_event_number
    }

    /// How many events were applied since restoration.
    pub closed spec fn count_spec(self) -> nat {
        self.applied_event_count as nat
    }

    /// The aggregate itself.
    pub closed spec fn aggregate_spec(self) -> Agg {
        self.aggregate
    }

    /// The version the aggregate was restored at.
    pub closed spec fn rehydrated_spec(self) -> Version {
        self.rehydrated_version
    }

    /// The current version: that of the last applied event, or else the one
    /// the aggregate was restored at.
    pub open spec fn current_version_spec(self) -> Version {
        match self.latest_spec() {
            Some(n) => Version::Number(n),
            None => self.rehydrated_spec(),
        }
    }

    /// Whether nothing has been restored or applied.
    pub fn is_initial(&self) -> (b: bool)
        ensures
            b == (self.rehydrated_spec() == Version::Initial && self.latest_spec() is None),
    {
        self.rehydrated_version == Version::Initial && self.latest_applied_event_number.is_none()
    }

    pub fn latest_applied_event_number(&self) -> (n: Option<EventNumber>)
        ensures
            n == self.latest_spec(),
    {
        self.latest_applied_event_number
    }

    pub fn aggregate(&self) -> (a: &Agg)
        ensures
            *a == self.aggregate_spec(),
    {
        &self.aggregate
    }

    pub fn version_at_rehydration(&self) -> (v: Version)
        ensures
            v == self.rehydrated_spec(),
    {
        self.rehydrated_version
    }

    pub fn applied_event_count(&self) -> (n: usize)
        ensures
            n == self.count_spec(),
    {
        self.applied_event_count
    }

    pub fn current_version(&self) -> (v: Version)
        ensures
            v == self.current_version_spec(),
    {
        match self.latest_applied_event_number {
            Some(n) => Version::Number(n),
            None => self.rehydrated_version,
        }
    }
}

impl<Agg: Aggregate> HydratedAggregate<Agg> {
    pub fn default() -> (h: Self)
        ensures
            h.latest_spec() is None,
            h.count_spec() == 0,
            h.aggregate_spec() == Agg::initial(),
            h.rehydrated_spec() == Version::Initial,
    {
        HydratedAggregate {
            latest_applied_event_number: None,
            applied_event_count: 0,
            aggregate: Agg::default(),
            rehydrated_version: Version::Initial,
        }
    }

    /// The number an applied event takes: the one given, else the one after
    /// the last applied, else the first.
    pub open spec fn next_number(self, event_number: Option<EventNumber>) -> EventNumber {
        match event_number {
            Some(n) => n,
            None => match self.latest_spec() {
                Some(l) => EventNumber::from_value(l.value() + 1),
                None => EventNumber::from_value(1),
            },
        }
    }

    /// Whether `after` is this hydrated aggregate after applying `event`
    /// numbered `event_number`.
    pub open spec fn applied_raw(self, after: Self, event: Agg::Event, event_number: Option<EventNumber>) -> bool {
        &&& after.latest_spec() == Some(self.next_number(event_number))
        &&& after.count_spec() == self.count_spec() + 1
        &&& after.aggregate_spec() == self.aggregate_spec().applied(event)
        &&& after.rehydrated_spec() == self.rehydrated_spec()
    }

    /// Applies `event`, counts it, and records its number: `event_number` if
    /// given, else the one after the last applied event, else the first.
    pub fn apply_raw(&mut self, event: Agg::Event, event_number: Option<EventNumber>)
        requires
            old(self).count_spec() < usize::MAX,
            event_number is None ==> match old(self).latest_spec() {
                Some(l) => l.value() < usize::MAX,
                None => true,
            },
        ensures
            old(self).applied_raw(*final(self), event, event_number),
    {
        self.aggregate.apply(event);
        self.applied_event_count = self.applied_event_count + 1;
        let number = match event_number {
            Some(n) => n,
            None => match self.latest_applied_event_number {
                Some(l) => l.incr(),
                None => EventNumber::min_value(),
            },
        };
        self.latest_applied_event_number = Some(number);
    }

    /// Applies a numbered event.
    pub fn apply(&mut self, seq_event: SequencedEvent<Agg::Event>)
        requires
            old(self).count_spec() < usize::MAX,
        ensures
            old(self).applied_raw(*final(self), seq_event.event, Some(seq_event.sequence_number)),
    {
        self.apply_raw(seq_event.event, Some(seq_event.sequence_number));
    }

    /// What `command` produces against the aggregate.
    pub fn execute(&self, command: Agg::Command) -> (r: Result<Vec<Agg::Event>, Agg::Error>)
        ensures
            crate::okazis::command_view(r) == self.aggregate_spec().executed(command),
    {
        self.aggregate.execute(command)
    }

    /// The hydrated aggregate restored from a snapshot: nothing applied since.
    pub fn restore(versioned_snapshot: StateSnapshot<Agg>) -> (h: Self)
        ensures
            h.latest_spec() is None,
            h.count_spec() == 0,
            h.rehydrated_spec() == versioned_snapshot.version,
            h.aggregate_spec() == versioned_snapshot.snapshot,
    {
        HydratedAggregate {
            latest_applied_event_number: None,
            applied_event_count: 0,
            rehydrated_version: versioned_snapshot.version,
            aggregate: versioned_snapshot.snapshot,
        }
    }

    /// A snapshot of the aggregate at its current version.
    pub fn snapshot(self) -> (s: StateSnapshot<Agg>)
        ensures
            s == (StateSnapshot { version: self.current_version_spec(), snapshot: self.aggregate_spec() }),
    {
        StateSnapshot { version: self.current_version(), snapshot: self.aggregate }
    }
}

} // verus!
