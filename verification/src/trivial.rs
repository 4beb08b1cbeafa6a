//! Stores that never hold an event or a snapshot, and which accept every
//! write, dropping what they are given.
use vstd::prelude::*;
use crate::aggregate::Aggregate;
use crate::entity::{EventSink, EventSource, SnapshotSink, SnapshotSource};
use crate::okazis::Never;
use crate::types::{AggregateId, EventNumber, Precondition, SequencedEvent, Since, StateSnapshot, Version};
use core::marker::PhantomData;

verus! {

/// An event store that never has any event, and which accepts every append.
#[derive(Debug)]
pub struct NullEventStore<A, E> {
    _phantom: PhantomData<(A, E)>,
}

impl<A, E> Clone for NullEventStore<A, E> {
    fn clone(&self) -> (s: Self) {
        NullEventStore { _phantom: PhantomData }
    }
}

impl<A, E> Default for NullEventStore<A, E> {
    fn default() -> (s: Self) {
        NullEventStore { _phantom: PhantomData }
    }
}

impl<A: Aggregate> EventSource<A> for NullEventStore<A, A::Event> {
    type Error = Never;

    open spec fn read_spec(&self, id: Seq<char>, since: Since, max_count: Option<u64>) -> Result<
        Option<Seq<SequencedEvent<A::Event>>>,
        Never,
    > {
        Ok(None)
    }

    fn read_events<I: AggregateId<A>>(&self, _id: &I, _since: Since, _max_count: Option<u64>) -> (r: Result<
        Option<Vec<SequencedEvent<A::Event>>>,
        Never,
    >) {
        Ok(None)
    }
}

impl<A: Aggregate, M> EventSink<A, M> for NullEventStore<A, A::Event> {
    type Error = Never;

    open spec fn append_spec(
        self,
        id: Seq<char>,
        events: Seq<A::Event>,
        precondition: Option<Precondition>,
        metadata: M,
    ) -> (Self, Result<EventNumber, Never>) {
        (self, Ok(EventNumber::from_value(1)))
    }

    fn append_events<I: AggregateId<A>>(
        &mut self,
        _id: &I,
        _events: &[A::Event],
        _precondition: Option<Precondition>,
        _metadata: M,
    ) -> (r: Result<EventNumber, Never>) {
        Ok(EventNumber::min_value())
    }
}

/// A snapshot store that never has any snapshot, and which accepts every
/// snapshot.
#[derive(Debug)]
pub struct NullSnapshotStore<A> {
    _phantom: PhantomData<A>,
}

impl<A> Clone for NullSnapshotStore<A> {
    fn clone(&self) -> (s: Self) {
        NullSnapshotStore { _phantom: PhantomData }
    }
}

impl<A> Default for NullSnapshotStore<A> {
    fn default() -> (s: Self) {
        NullSnapshotStore { _phantom: PhantomData }
    }
}

impl<A> SnapshotSource<A> for NullSnapshotStore<A> {
    type Error = Never;

    open spec fn snapshot_spec(&self, id: Seq<char>) -> Result<Option<StateSnapshot<A>>, Never> {
        Ok(None)
    }

    fn get_snapshot<I: AggregateId<A>>(&self, _id: &I) -> (r: Result<Option<StateSnapshot<A>>, Never>) {
        Ok(None)
    }
}

impl<A> SnapshotSink<A> for NullSnapshotStore<A> {
    type Error = Never;

    open spec fn persist_spec(
        self,
        id: Seq<char>,
        aggregate: A,
        version: Version,
        last_snapshot_version: Version,
    ) -> (Self, Result<Version, Never>) {
        (self, Ok(last_snapshot_version))
    }

    fn persist_snapshot<I: AggregateId<A>>(
        &mut self,
        _id: &I,
        _aggregate: &A,
        _version: Version,
        last_snapshot_version: Version,
    ) -> (r: Result<Version, Never>) {
        Ok(last_snapshot_version)
    }
}

} // verus!
