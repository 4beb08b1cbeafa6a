//! Executing a command through an executor, then appending the new events
//! and, for snapshotting aggregates, persisting the new snapshot.
use vstd::prelude::*;
use super::execute::Executor;
use super::{
    apply_counting, apply_new_events, Aggregate, AggregatePrecondition, AggregateVersion,
    EventAppend, ExecuteAndPersistError, ExecuteError, PersistAggregateError, SnapshotAggregate,
    SnapshotPersist,
};
use crate::okazis::trivial::NopEventDecorator;
use crate::okazis::{EventDecorator, Precondition};
use crate::okazis_memory::event_stream::copy_all;
use core::marker::PhantomData;

verus! {

/// The precondition under which the new events are appended: the one the
/// command's precondition implies, or else that the stream is still at the
/// version the aggregate was loaded at.
pub open spec fn append_precondition(
    precondition: Option<AggregatePrecondition>,
    version: AggregateVersion,
) -> Precondition {
    match precondition {
        Some(AggregatePrecondition::ExpectedVersion(AggregateVersion::Version(v))) => Precondition::LastVersion(v),
        Some(AggregatePrecondition::ExpectedVersion(AggregateVersion::Initial)) => Precondition::EmptyStream,
        Some(AggregatePrecondition::New) => Precondition::NewStream,
        _ => version.precondition(),
    }
}

fn to_append_precondition(precondition: Option<AggregatePrecondition>, version: AggregateVersion) -> (p: Precondition)
    ensures
        p == append_precondition(precondition, version),
{
    match precondition {
        Some(AggregatePrecondition::ExpectedVersion(AggregateVersion::Version(v))) => Precondition::LastVersion(v),
        Some(AggregatePrecondition::ExpectedVersion(AggregateVersion::Initial)) => Precondition::EmptyStream,
        Some(AggregatePrecondition::New) => Precondition::NewStream,
        _ => version.to_precondition(),
    }
}

/// Aggregates whose new events can be persisted.
pub trait PersistableAggregate: Aggregate {
    fn persist_events<Exec, EAppend>(executor: Exec, ea: EAppend) -> (p: EventsOnly<Self, Exec, EAppend>) where
        Exec: Executor<Self>,
        EAppend: EventAppend<AggregateId = Exec::AggregateId>,

        ensures
            p.executor == executor,
            p.appender == ea,
    {
        EventsOnly { executor, appender: ea, _phantom: PhantomData }
    }
}

/// Aggregates whose new events and snapshots can be persisted.
pub trait PersistableSnapshotAggregate: SnapshotAggregate {
    fn persist_events_and_snapshot<Exec, EAppend, SPersist>(
        executor: Exec,
        ea: EAppend,
        sp: SPersist,
    ) -> (p: EventsAndSnapshot<Self, Exec, EAppend, SPersist>) where
        Exec: Executor<Self>,
        EAppend: EventAppend<AggregateId = Exec::AggregateId>,
        SPersist: SnapshotPersist<
            Snapshot = <Self as SnapshotAggregate>::Snapshot,
            AggregateId = Exec::AggregateId,
        >,

        ensures
            p.executor == executor,
            p.appender == ea,
            p.persister == sp,
    {
        EventsAndSnapshot { executor, appender: ea, persister: sp, _phantom: PhantomData }
    }
}

impl<Agg: Aggregate> PersistableAggregate for Agg {

}

impl<Agg: SnapshotAggregate> PersistableSnapshotAggregate for Agg {

}

/// Executes commands and appends their events.
pub struct EventsOnly<Agg, Exec, EAppend> {
    pub executor: Exec,
    pub appender: EAppend,
    pub _phantom: PhantomData<Agg>,
}

impl<Agg, Exec, EAppend> EventsOnly<Agg, Exec, EAppend> where
    Agg: Aggregate,
    Exec: Executor<Agg>,
    EAppend: EventAppend<AggregateId = Exec::AggregateId>,
 {
    /// The appender and the outcome after `execute_and_persist_with_decorator`.
    pub open spec fn execute_and_persist_spec<D: EventDecorator<
        Event = Agg::Event,
        DecoratedEvent = EAppend::Event,
    >>(
        self,
        agg_id: Exec::AggregateId,
        command: Agg::Command,
        precondition: Option<AggregatePrecondition>,
        decorator: D,
    ) -> (Self, Result<(), ExecuteAndPersistError<ExecuteError<Agg::CommandError, Exec::Error>, EAppend::Error>>) {
        match self.executor.execute_spec(agg_id, command, precondition) {
            Err(e) => (self, Err(ExecuteAndPersistError::Execute(e))),
            Ok((state, events)) => {
                let (appender, appended) = self.appender.append_spec(
                    agg_id,
                    events.map_values(|e: Agg::Event| decorator.decorated(e)),
                    Some(append_precondition(precondition, state.version)),
                );
                let after = EventsOnly { executor: self.executor, appender, _phantom: self._phantom };
                match appended {
                    Err(e) => (after, Err(ExecuteAndPersistError::Persist(e))),
                    Ok(_) => (after, Ok(())),
                }
            },
        }
    }

    /// Executes `command` (under `precondition`) and appends the decorated
    /// new events under the matching stream precondition.
    pub fn execute_and_persist_with_decorator<D: EventDecorator<
        Event = Agg::Event,
        DecoratedEvent = EAppend::Event,
    >>(
        &mut self,
        agg_id: &Exec::AggregateId,
        command: Agg::Command,
        precondition: Option<AggregatePrecondition>,
        decorator: D,
    ) -> (r: Result<(), ExecuteAndPersistError<ExecuteError<Agg::CommandError, Exec::Error>, EAppend::Error>>)
        ensures
            (*final(self), r) == old(self).execute_and_persist_spec(
                *agg_id,
                command,
                precondition,
                decorator,
            ),
    {
        let execute_result = match self.executor.execute(agg_id, command, precondition) {
            Ok(r) => r,
            Err(e) => return Err(ExecuteAndPersistError::Execute(e)),
        };
        let decorated_events = decorator.decorate_events(execute_result.command_events);
        let append_precondition = to_append_precondition(
            precondition,
            execute_result.hydrated_aggregate.version,
        );
        match self.appender.append_events(agg_id, decorated_events.as_slice(), Some(append_precondition)) {
            Ok(_) => Ok(()),
            Err(e) => Err(ExecuteAndPersistError::Persist(e)),
        }
    }
}

/// Executes commands, appends their events and persists the new snapshot.
pub struct EventsAndSnapshot<Agg, Exec, EAppend, SPersist> {
    pub executor: Exec,
    pub appender: EAppend,
    pub persister: SPersist,
    pub _phantom: PhantomData<Agg>,
}

/// The error of `EventsAndSnapshot`'s operations.
pub type PersistError<Agg, Exec, EAppend, SPersist> = ExecuteAndPersistError<
    ExecuteError<<Agg as Aggregate>::CommandError, <Exec as Executor<Agg>>::Error>,
    PersistAggregateError<<EAppend as EventAppend>::Error, <SPersist as SnapshotPersist>::Error>,
>;

impl<Agg, Exec, EAppend, SPersist> EventsAndSnapshot<Agg, Exec, EAppend, SPersist> where
    Agg: SnapshotAggregate,
    Exec: Executor<Agg>,
    EAppend: EventAppend<AggregateId = Exec::AggregateId>,
    SPersist: SnapshotPersist<
        Snapshot = <Agg as SnapshotAggregate>::Snapshot,
        AggregateId = Exec::AggregateId,
    >,
 {
    pub fn with_type_changing_decorator<D: EventDecorator<
        Event = Agg::Event,
        DecoratedEvent = EAppend::Event,
    >>(self) -> (w: EventsAndSnapshotWithTypeChangingDecorator<Agg, Exec, EAppend, SPersist, D>)
        ensures
            w.inner == self,
    {
        EventsAndSnapshotWithTypeChangingDecorator { inner: self, _phantom: PhantomData }
    }

    /// The sinks and the outcome after applying `applied` to `state` and
    /// persisting the snapshot of the result when it has a version.
    pub open spec fn snapshot_after_spec(
        self,
        agg_id: Exec::AggregateId,
        state: super::HydratedAggregate<Agg>,
        applied: Seq<Agg::Event>,
    ) -> (Self, Result<(), PersistError<Agg, Exec, EAppend, SPersist>>) {
        match apply_counting(state, applied).snapshot_spec() {
            None => (self, Ok(())),
            Some(snapshot) => {
                let (persister, persisted) = self.persister.persist_spec(agg_id, snapshot);
                let after = EventsAndSnapshot {
                    executor: self.executor,
                    appender: self.appender,
                    persister,
                    _phantom: self._phantom,
                };
                match persisted {
                    Err(e) => (
                        after,
                        Err(ExecuteAndPersistError::Persist(PersistAggregateError::Snapshot(e))),
                    ),
                    Ok(_) => (after, Ok(())),
                }
            },
        }
    }

    /// The sinks and the outcome after appending `decorated` (produced
    /// against `state` under `precondition`), then, if that succeeded,
    /// applying `applied` to `state` and persisting the resulting snapshot.
    pub open spec fn persist_spec(
        self,
        agg_id: Exec::AggregateId,
        state: super::HydratedAggregate<Agg>,
        decorated: Seq<EAppend::Event>,
        applied: Seq<Agg::Event>,
        precondition: Option<AggregatePrecondition>,
    ) -> (Self, Result<(), PersistError<Agg, Exec, EAppend, SPersist>>) {
        let (appender, appended) = self.appender.append_spec(
            agg_id,
            decorated,
            Some(append_precondition(precondition, state.version)),
        );
        let after_append = EventsAndSnapshot {
            executor: self.executor,
            appender,
            persister: self.persister,
            _phantom: self._phantom,
        };
        match appended {
            Err(e) => (after_append, Err(ExecuteAndPersistError::Persist(PersistAggregateError::Events(e)))),
            Ok(_) => after_append.snapshot_after_spec(agg_id, state, applied),
        }
    }

    fn append(
        &mut self,
        agg_id: &Exec::AggregateId,
        state_version: AggregateVersion,
        decorated: &[EAppend::Event],
        precondition: Option<AggregatePrecondition>,
    ) -> (r: Result<(), PersistError<Agg, Exec, EAppend, SPersist>>)
        ensures
            ({
                let (appender, appended) = old(self).appender.append_spec(
                    *agg_id,
                    decorated@,
                    Some(append_precondition(precondition, state_version)),
                );
                &&& final(self).appender == appender
                &&& final(self).executor == old(self).executor
                &&& final(self).persister == old(self).persister
                &&& match appended {
                    Err(e) => r == Err::<(), PersistError<Agg, Exec, EAppend, SPersist>>(
                        ExecuteAndPersistError::Persist(PersistAggregateError::Events(e)),
                    ),
                    Ok(_) => r is Ok,
                }
            }),
    {
        let append_precondition = to_append_precondition(precondition, state_version);
        match self.appender.append_events(agg_id, decorated, Some(append_precondition)) {
            Ok(_) => Ok(()),
            Err(e) => Err(ExecuteAndPersistError::Persist(PersistAggregateError::Events(e))),
        }
    }

    fn snapshot_after(
        &mut self,
        agg_id: &Exec::AggregateId,
        state: super::HydratedAggregate<Agg>,
        applied: Vec<Agg::Event>,
    ) -> (r: Result<(), PersistError<Agg, Exec, EAppend, SPersist>>)
        ensures
            (*final(self), r) == old(self).snapshot_after_spec(*agg_id, state, applied@),
    {
        let mut new_aggregate = state;
        apply_new_events(&mut new_aggregate, applied);
        match new_aggregate.to_snapshot() {
            Some(snapshot) => match self.persister.persist_snapshot(agg_id, snapshot) {
                Ok(_) => Ok(()),
                Err(e) => Err(ExecuteAndPersistError::Persist(PersistAggregateError::Snapshot(e))),
            },
            None => Ok(()),
        }
    }

    /// The sinks and the outcome after
    /// `execute_and_persist_with_type_changing_decorator`.
    pub open spec fn execute_and_persist_type_changing_spec<D: EventDecorator<
        Event = Agg::Event,
        DecoratedEvent = EAppend::Event,
    >>(
        self,
        agg_id: Exec::AggregateId,
        command: Agg::Command,
        precondition: Option<AggregatePrecondition>,
        decorator: D,
    ) -> (Self, Result<(), PersistError<Agg, Exec, EAppend, SPersist>>) {
        match self.executor.execute_spec(agg_id, command, precondition) {
            Err(e) => (self, Err(ExecuteAndPersistError::Execute(e))),
            Ok((state, events)) => self.persist_spec(
                agg_id,
                state,
                events.map_values(|e: Agg::Event| decorator.decorated(e)),
                events,
                precondition,
            ),
        }
    }

    /// Executes `command` (under `precondition`), appends the new events in
    /// their decorated form, applies the undecorated events to the aggregate
    /// and persists its snapshot.
    pub fn execute_and_persist_with_type_changing_decorator<D: EventDecorator<
        Event = Agg::Event,
        DecoratedEvent = EAppend::Event,
    >>(
        &mut self,
        agg_id: &Exec::AggregateId,
        command: Agg::Command,
        precondition: Option<AggregatePrecondition>,
        decorator: D,
    ) -> (r: Result<(), PersistError<Agg, Exec, EAppend, SPersist>>) where Agg::Event: Copy
        ensures
            (*final(self), r) == old(self).execute_and_persist_type_changing_spec(
                *agg_id,
                command,
                precondition,
                decorator,
            ),
    {
        let execute_result = match self.executor.execute(agg_id, command, precondition) {
            Ok(r) => r,
            Err(e) => return Err(ExecuteAndPersistError::Execute(e)),
        };
        let command_events = copy_all(execute_result.command_events.as_slice());
        let decorated_events = decorator.decorate_events(execute_result.command_events);
        let version = execute_result.hydrated_aggregate.version;
        match self.append(agg_id, version, decorated_events.as_slice(), precondition) {
            Ok(_) => {},
            Err(e) => return Err(e),
        }
        self.snapshot_after(agg_id, execute_result.hydrated_aggregate, command_events)
    }
}

impl<Agg, Exec, EAppend, SPersist> EventsAndSnapshot<Agg, Exec, EAppend, SPersist> where
    Agg: SnapshotAggregate,
    Exec: Executor<Agg>,
    EAppend: EventAppend<AggregateId = Exec::AggregateId, Event = Agg::Event>,
    SPersist: SnapshotPersist<
        Snapshot = <Agg as SnapshotAggregate>::Snapshot,
        AggregateId = Exec::AggregateId,
    >,
 {
    pub fn with_decorator<D: EventDecorator<Event = Agg::Event, DecoratedEvent = Agg::Event>>(
        self,
    ) -> (w: EventsAndSnapshotWithDecorator<Agg, Exec, EAppend, SPersist, D>)
        ensures
            w.inner == self,
    {
        EventsAndSnapshotWithDecorator { inner: self, _phantom: PhantomData }
    }

    pub fn without_decorator(self) -> (w: EventsAndSnapshotWithDecorator<
        Agg,
        Exec,
        EAppend,
        SPersist,
        NopEventDecorator<Agg::Event>,
    >)
        ensures
            w.inner == self,
    {
        EventsAndSnapshotWithDecorator { inner: self, _phantom: PhantomData }
    }

    /// The sinks and the outcome after `execute_and_persist_with_decorator`.
    pub open spec fn execute_and_persist_spec<D: EventDecorator<
        Event = Agg::Event,
        DecoratedEvent = Agg::Event,
    >>(
        self,
        agg_id: Exec::AggregateId,
        command: Agg::Command,
        precondition: Option<AggregatePrecondition>,
        decorator: D,
    ) -> (Self, Result<(), PersistError<Agg, Exec, EAppend, SPersist>>) {
        match self.executor.execute_spec(agg_id, command, precondition) {
            Err(e) => (self, Err(ExecuteAndPersistError::Execute(e))),
            Ok((state, events)) => {
                let decorated = events.map_values(|e: Agg::Event| decorator.decorated(e));
                self.persist_spec(agg_id, state, decorated, decorated, precondition)
            },
        }
    }

    /// Executes `command` (under `precondition`), appends the decorated new
    /// events, applies them to the aggregate and persists its snapshot.
    pub fn execute_and_persist_with_decorator<D: EventDecorator<
        Event = Agg::Event,
        DecoratedEvent = Agg::Event,
    >>(
        &mut self,
        agg_id: &Exec::AggregateId,
        command: Agg::Command,
        precondition: Option<AggregatePrecondition>,
        decorator: D,
    ) -> (r: Result<(), PersistError<Agg, Exec, EAppend, SPersist>>)
        ensures
            (*final(self), r) == old(self).execute_and_persist_spec(
                *agg_id,
                command,
                precondition,
                decorator,
            ),
    {
        let execute_result = match self.executor.execute(agg_id, command, precondition) {
            Ok(r) => r,
            Err(e) => return Err(ExecuteAndPersistError::Execute(e)),
        };
        let decorated_events = decorator.decorate_events(execute_result.command_events);
        let version = execute_result.hydrated_aggregate.version;
        match self.append(agg_id, version, decorated_events.as_slice(), precondition) {
            Ok(_) => {},
            Err(e) => return Err(e),
        }
        self.snapshot_after(agg_id, execute_result.hydrated_aggregate, decorated_events)
    }
}

/// An `EventsAndSnapshot` used with a decorator that changes the events' type.
pub struct EventsAndSnapshotWithTypeChangingDecorator<Agg, Exec, EAppend, SPersist, Decorator> {
    pub inner: EventsAndSnapshot<Agg, Exec, EAppend, SPersist>,
    pub _phantom: PhantomData<Decorator>,
}

/// An `EventsAndSnapshot` used with a decorator that keeps the events' type.
pub struct EventsAndSnapshotWithDecorator<Agg, Exec, EAppend, SPersist, Decorator> {
    pub inner: EventsAndSnapshot<Agg, Exec, EAppend, SPersist>,
    pub _phantom: PhantomData<Decorator>,
}

/// Executes a command under a precondition and persists its outcome with a decorator.
pub trait AggregateCommand<Agg: Aggregate, Decorator: EventDecorator<Event = Agg::Event>> {
    type AggregateId;
    type Error;

    fn execute_and_persist_with_decorator(
        &mut self,
        agg_id: &Self::AggregateId,
        command: Agg::Command,
        precondition: Option<AggregatePrecondition>,
        decorator: Decorator,
    ) -> Result<(), Self::Error>;
}

impl<Agg, Exec, EAppend, SPersist, Decorator> AggregateCommand<Agg, Decorator> for EventsAndSnapshotWithDecorator<
    Agg,
    Exec,
    EAppend,
    SPersist,
    Decorator,
> where
    Agg: SnapshotAggregate,
    Exec: Executor<Agg>,
    EAppend: EventAppend<AggregateId = Exec::AggregateId, Event = Agg::Event>,
    SPersist: SnapshotPersist<
        Snapshot = <Agg as SnapshotAggregate>::Snapshot,
        AggregateId = Exec::AggregateId,
    >,
    Decorator: EventDecorator<Event = Agg::Event, DecoratedEvent = Agg::Event>,
 {
    type AggregateId = Exec::AggregateId;
    type Error = PersistError<Agg, Exec, EAppend, SPersist>;

    fn execute_and_persist_with_decorator(
        &mut self,
        agg_id: &Exec::AggregateId,
        command: Agg::Command,
        precondition: Option<AggregatePrecondition>,
        decorator: Decorator,
    ) -> (r: Result<(), PersistError<Agg, Exec, EAppend, SPersist>>)
        ensures
            (final(self).inner, r) == old(self).inner.execute_and_persist_spec(
                *agg_id,
                command,
                precondition,
                decorator,
            ),
    {
        self.inner.execute_and_persist_with_decorator(agg_id, command, precondition, decorator)
    }
}

impl<Agg, Exec, EAppend, SPersist, Decorator> AggregateCommand<Agg, Decorator> for EventsAndSnapshotWithTypeChangingDecorator<
    Agg,
    Exec,
    EAppend,
    SPersist,
    Decorator,
> where
    Agg: SnapshotAggregate,
    Exec: Executor<Agg>,
    EAppend: EventAppend<AggregateId = Exec::AggregateId, Event = Agg::Event>,
    SPersist: SnapshotPersist<
        Snapshot = <Agg as SnapshotAggregate>::Snapshot,
        AggregateId = Exec::AggregateId,
    >,
    Decorator: EventDecorator<Event = Agg::Event, DecoratedEvent = Agg::Event>,
 {
    type AggregateId = Exec::AggregateId;
    type Error = PersistError<Agg, Exec, EAppend, SPersist>;

    fn execute_and_persist_with_decorator(
        &mut self,
        agg_id: &Exec::AggregateId,
        command: Agg::Command,
        precondition: Option<AggregatePrecondition>,
        decorator: Decorator,
    ) -> (r: Result<(), PersistError<Agg, Exec, EAppend, SPersist>>)
        ensures
            (final(self).inner, r) == old(self).inner.execute_and_persist_spec(
                *agg_id,
                command,
                precondition,
                decorator,
            ),
    {
        self.inner.execute_and_persist_with_decorator(agg_id, command, precondition, decorator)
    }
}

} // verus!
