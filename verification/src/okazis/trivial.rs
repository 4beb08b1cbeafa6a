//! Stores that keep nothing, and a decorator that changes nothing.
use vstd::prelude::*;
use super::{
    EventDecorator, EventStore, Never, PersistedEvent, PersistedSnapshot, Precondition, Since,
    StateStore, Version,
};
use core::marker::PhantomData;

verus! {

/// An event store whose streams are always empty and which accepts every
/// append, dropping the events.
#[derive(Debug, PartialEq, Copy)]
pub struct NullEventStore<Event, AggregateId> {
    pub _phantom: PhantomData<(Event, AggregateId)>,
}

impl<Event, AggregateId> Clone for NullEventStore<Event, AggregateId> {
    fn clone(&self) -> (s: Self) {
        NullEventStore { _phantom: PhantomData }
    }
}

impl<Event, AggregateId> Default for NullEventStore<Event, AggregateId> {
    fn default() -> (s: Self) {
        NullEventStore { _phantom: PhantomData }
    }
}

impl<Event, AggregateId> EventStore for NullEventStore<Event, AggregateId> {
    type AggregateId = AggregateId;
    type Event = Event;
    type ReadError = Never;
    type WriteError = Never;

    open spec fn read_spec(&self, agg_id: AggregateId, since: Since) -> Result<
        Option<Seq<PersistedEvent<Event>>>,
        Never,
    > {
        Ok(Some(Seq::empty()))
    }

    open spec fn append_spec(
        self,
        agg_id: AggregateId,
        events: Seq<Event>,
        condition: Precondition,
    ) -> (Self, Result<(), Never>) {
        (self, Ok(()))
    }

    fn append_events(
        &mut self,
        _aggregate_id: &AggregateId,
        _events: &[Event],
        _condition: Precondition,
    ) -> (r: Result<(), Never>) {
        Ok(())
    }

    fn read(&self, _aggregate_id: &AggregateId, _version: Since) -> (r: Result<
        Option<Vec<PersistedEvent<Event>>>,
        Never,
    >) {
        let v: Vec<PersistedEvent<Event>> = Vec::new();
        Ok(Some(v))
    }
}

/// A state store that never has a snapshot and accepts every write, dropping it.
#[derive(Debug, PartialEq, Copy)]
pub struct NullStateStore<State, AggregateId> {
    pub _phantom: PhantomData<(State, AggregateId)>,
}

impl<State, AggregateId> Clone for NullStateStore<State, AggregateId> {
    fn clone(&self) -> (s: Self) {
        NullStateStore { _phantom: PhantomData }
    }
}

impl<State, AggregateId> Default for NullStateStore<State, AggregateId> {
    fn default() -> (s: Self) {
        NullStateStore { _phantom: PhantomData }
    }
}

impl<State, AggregateId> StateStore for NullStateStore<State, AggregateId> {
    type AggregateId = AggregateId;
    type State = State;
    type ReadError = Never;
    type WriteError = Never;

    open spec fn get_state_spec(&self, agg_id: AggregateId) -> Result<
        Option<PersistedSnapshot<State>>,
        Never,
    > {
        Ok(None)
    }

    open spec fn put_state_spec(self, agg_id: AggregateId, version: Version, state: State) -> (
        Self,
        Result<(), Never>,
    ) {
        (self, Ok(()))
    }

    fn get_state(&self, _agg_id: &AggregateId) -> (r: Result<
        Option<PersistedSnapshot<State>>,
        Never,
    >) {
        Ok(None)
    }

    fn put_state(&mut self, _agg_id: &AggregateId, _version: Version, _state: State) -> (r: Result<
        (),
        Never,
    >) {
        Ok(())
    }
}

/// A decorator that hands every event back unchanged.
#[derive(Debug, PartialEq, Hash, Copy)]
pub struct NopEventDecorator<Event> {
    pub _phantom: PhantomData<Event>,
}

impl<Event> Clone for NopEventDecorator<Event> {
    fn clone(&self) -> (s: Self) {
        NopEventDecorator { _phantom: PhantomData }
    }
}

impl<Event> Default for NopEventDecorator<Event> {
    fn default() -> (d: Self) {
        NopEventDecorator { _phantom: PhantomData }
    }
}

impl<Event> EventDecorator for NopEventDecorator<Event> {
    type Event = Event;
    type DecoratedEvent = Event;

    open spec fn decorated(&self, event: Event) -> Event {
        event
    }

    fn decorate(&self, event: Event) -> (d: Event) {
        event
    }
}

} // verus!
