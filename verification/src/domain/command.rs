//! Executing commands against loaded aggregates, then appending the new
//! events and persisting a snapshot.
use vstd::prelude::*;
use super::execute::{execute_view, AggregateWithNewEvents};
use super::query::AggregateQuery;
use super::{
    apply_all, apply_counting, apply_new_events, lemma_apply_counting_parts, Aggregate, AggregateVersion,
    CommandAggregateError, EventAppend, ExecuteError, HydratedAggregate, PersistAggregateError,
    SnapshotAggregate, SnapshotPersist, VersionedSnapshot,
};
use crate::okazis::{EventDecorator, Precondition, Version};
use core::marker::PhantomData;

verus! {

/// An executor of commands against aggregates loaded through a view, whose
/// events are decorated by a `D`.
pub struct DecoratedCommandExecutor<Agg, View, D> {
    pub view: View,
    pub _phantom: PhantomData<(Agg, D)>,
}

/// Executes commands against aggregates loaded through a view.
pub struct CommandExecutor<Agg, View> {
    pub view: View,
    pub _phantom: PhantomData<Agg>,
}

impl<Agg, View> CommandExecutor<Agg, View> where Agg: Aggregate, View: AggregateQuery<Agg> {
    pub fn from_view(view: View) -> (e: Self)
        ensures
            e.view == view,
    {
        CommandExecutor { view, _phantom: PhantomData }
    }

    /// The same executor, its events to be decorated by a `D`.
    pub fn with_decorator<D: EventDecorator<Event = Agg::Event>>(self) -> (e: DecoratedCommandExecutor<Agg, View, D>)
        ensures
            e.view == self.view,
    {
        DecoratedCommandExecutor { view: self.view, _phantom: PhantomData }
    }

    /// Executes `command` against the initial aggregate.
    pub fn execute_on_default(command: Agg::Command) -> (r: Result<
        AggregateWithNewEvents<Agg>,
        Agg::CommandError,
    >)
        ensures
            execute_view(r) == match Agg::initial().executed(command) {
                Ok(events) => Ok((HydratedAggregate::<Agg>::initial(), events)),
                Err(e) => Err(e),
            },
    {
        let state: HydratedAggregate<Agg> = HydratedAggregate::default();
        let new_events = match state.aggregate.execute(command) {
            Ok(e) => e,
            Err(e) => return Err(e),
        };
        Ok(AggregateWithNewEvents { hydrated_aggregate: state, command_events: new_events })
    }

    /// Executes `command` against the loaded aggregate, or the initial one
    /// when there is none.
    pub fn execute_on_current_or_default(&self, agg_id: &View::AggregateId, command: Agg::Command) -> (r:
        Result<AggregateWithNewEvents<Agg>, ExecuteError<Agg::CommandError, View::Error>>)
        ensures
            execute_view(r) == match self.view.rehydrate_spec(*agg_id) {
                Err(e) => Err(ExecuteError::Load(e)),
                Ok(loaded) => {
                    let state = match loaded {
                        Some(s) => s,
                        None => HydratedAggregate::<Agg>::initial(),
                    };
                    match state.aggregate.executed(command) {
                        Ok(events) => Ok((state, events)),
                        Err(e) => Err(ExecuteError::Command(e)),
                    }
                },
            },
    {
        let loaded = match self.view.rehydrate(agg_id) {
            Ok(l) => l,
            Err(e) => return Err(ExecuteError::Load(e)),
        };
        let state = match loaded {
            Some(s) => s,
            None => HydratedAggregate::default(),
        };
        let new_events = match state.aggregate.execute(command) {
            Ok(e) => e,
            Err(e) => return Err(ExecuteError::Command(e)),
        };
        Ok(AggregateWithNewEvents { hydrated_aggregate: state, command_events: new_events })
    }

    /// Executes `command` against the loaded aggregate; fails with
    /// `AggregateNotFound` when there is none.
    pub fn execute_on_current(&self, agg_id: &View::AggregateId, command: Agg::Command) -> (r: Result<
        AggregateWithNewEvents<Agg>,
        ExecuteError<Agg::CommandError, View::Error>,
    >)
        ensures
            execute_view(r) == match self.view.rehydrate_spec(*agg_id) {
                Err(e) => Err(ExecuteError::Load(e)),
                Ok(None) => Err(ExecuteError::AggregateNotFound),
                Ok(Some(state)) => match state.aggregate.executed(command) {
                    Ok(events) => Ok((state, events)),
                    Err(e) => Err(ExecuteError::Command(e)),
                },
            },
    {
        let state_opt = match self.view.rehydrate(agg_id) {
            Ok(l) => l,
            Err(e) => return Err(ExecuteError::Load(e)),
        };
        match state_opt {
            Some(state) => {
                let new_events = match state.aggregate.execute(command) {
                    Ok(e) => e,
                    Err(e) => return Err(ExecuteError::Command(e)),
                };
                Ok(AggregateWithNewEvents { hydrated_aggregate: state, command_events: new_events })
            },
            None => Err(ExecuteError::AggregateNotFound),
        }
    }
}

/// Executes a command against an aggregate and persists its outcome; gives
/// the number of new events.
pub trait AggregateCommand<Agg: Aggregate> {
    type AggregateId;
    type Error;

    fn execute(&mut self, agg_id: &Self::AggregateId, command: Agg::Command) -> Result<usize, Self::Error>;
}

/// Executes a command against an aggregate, decorating the new events before
/// persisting them; gives the number of new events.
pub trait DecoratedAggregateCommand<Agg: Aggregate, Decorator: EventDecorator<Event = Agg::Event>> {
    type AggregateId;
    type Error;

    fn execute_with_decorator(
        &mut self,
        agg_id: &Self::AggregateId,
        command: Agg::Command,
        decorator: Decorator,
    ) -> Result<usize, Self::Error>;

    fn execute_new_with_decorator(
        &mut self,
        agg_id: &Self::AggregateId,
        command: Agg::Command,
        decorator: Decorator,
    ) -> Result<usize, Self::Error>;
}

/// Loads aggregates through a query, executes commands against them, appends
/// the new events and persists the resulting snapshot.
pub struct PersistAndSnapshotAggregateCommander<Agg, Query, EAppend, SPersist> {
    pub query: Query,
    pub appender: EAppend,
    pub persister: SPersist,
    pub _phantom_aggregate: PhantomData<Agg>,
}

/// The error of a commander.
pub type CommanderError<Agg, Query, EAppend, SPersist> = CommandAggregateError<
    <Agg as Aggregate>::CommandError,
    <Query as AggregateQuery<Agg>>::Error,
    PersistAggregateError<<EAppend as EventAppend>::Error, <SPersist as SnapshotPersist>::Error>,
>;

impl<Agg, Query, EAppend, SPersist> PersistAndSnapshotAggregateCommander<
    Agg,
    Query,
    EAppend,
    SPersist,
> where
    Agg: SnapshotAggregate,
    Query: AggregateQuery<Agg>,
    EAppend: EventAppend<AggregateId = Query::AggregateId, Event = Agg::Event>,
    SPersist: SnapshotPersist<
        AggregateId = Query::AggregateId,
        Snapshot = <Agg as SnapshotAggregate>::Snapshot,
    >,
 {
    pub fn new(query: Query, event_append: EAppend, snapshot_persist: SPersist) -> (c: Self)
        ensures
            c.query == query,
            c.appender == event_append,
            c.persister == snapshot_persist,
    {
        PersistAndSnapshotAggregateCommander {
            query,
            appender: event_append,
            persister: snapshot_persist,
            _phantom_aggregate: PhantomData,
        }
    }

    /// The commander and the outcome after appending the decorated `events`
    /// produced against `state` (under the precondition that the stream is
    /// still at `state`'s version), applying them, and persisting the
    /// snapshot of the result when it has a version.
    pub open spec fn commit_spec<D: EventDecorator<Event = Agg::Event, DecoratedEvent = Agg::Event>>(
        self,
        agg_id: Query::AggregateId,
        state: HydratedAggregate<Agg>,
        events: Seq<Agg::Event>,
        decorator: D,
    ) -> (Self, Result<usize, CommanderError<Agg, Query, EAppend, SPersist>>) {
        let decorated = events.map_values(|e: Agg::Event| decorator.decorated(e));
        let (appender, appended) = self.appender.append_spec(
            agg_id,
            decorated,
            Some(state.version.precondition()),
        );
        let after_append = PersistAndSnapshotAggregateCommander {
            query: self.query,
            appender,
            persister: self.persister,
            _phantom_aggregate: self._phantom_aggregate,
        };
        match appended {
            Err(e) => (after_append, Err(CommandAggregateError::Persist(PersistAggregateError::Events(e)))),
            Ok(_) => match apply_counting(state, decorated).snapshot_spec() {
                None => (after_append, Ok(events.len() as usize)),
                Some(snapshot) => {
                    let (persister, persisted) = self.persister.persist_spec(agg_id, snapshot);
                    let after_persist = PersistAndSnapshotAggregateCommander {
                        query: self.query,
                        appender,
                        persister,
                        _phantom_aggregate: self._phantom_aggregate,
                    };
                    match persisted {
                        Err(e) => (
                            after_persist,
                            Err(CommandAggregateError::Persist(PersistAggregateError::Snapshot(e))),
                        ),
                        Ok(_) => (after_persist, Ok(events.len() as usize)),
                    }
                },
            },
        }
    }

    /// The commander and the outcome after executing `command` against the
    /// loaded aggregate; `AggregateNotFound` when there is none.
    pub open spec fn execute_spec<D: EventDecorator<Event = Agg::Event, DecoratedEvent = Agg::Event>>(
        self,
        agg_id: Query::AggregateId,
        command: Agg::Command,
        decorator: D,
    ) -> (Self, Result<usize, CommanderError<Agg, Query, EAppend, SPersist>>) {
        match self.query.rehydrate_spec(agg_id) {
            Err(e) => (self, Err(CommandAggregateError::Load(e))),
            Ok(None) => (self, Err(CommandAggregateError::AggregateNotFound)),
            Ok(Some(state)) => match state.aggregate.executed(command) {
                Err(e) => (self, Err(CommandAggregateError::Command(e))),
                Ok(events) => self.commit_spec(agg_id, state, events, decorator),
            },
        }
    }

    /// The commander and the outcome after executing `command` against the
    /// initial aggregate.
    pub open spec fn execute_new_spec<D: EventDecorator<Event = Agg::Event, DecoratedEvent = Agg::Event>>(
        self,
        agg_id: Query::AggregateId,
        command: Agg::Command,
        decorator: D,
    ) -> (Self, Result<usize, CommanderError<Agg, Query, EAppend, SPersist>>) {
        match Agg::initial().executed(command) {
            Err(e) => (self, Err(CommandAggregateError::Command(e))),
            Ok(events) => self.commit_spec(agg_id, HydratedAggregate::initial(), events, decorator),
        }
    }

    /// What committing a command's `events` against the loaded `state` does:
    /// the decorated events are appended under the precondition that the
    /// stream still ends at `state`'s version; if that fails nothing is
    /// persisted. Otherwise the snapshot persisted is the state with the
    /// decorated events applied, under the version of the last event it
    /// includes: `state`'s version plus the number of new events, or that
    /// number less one for a new stream (no snapshot when a new stream gets
    /// no event). The number of new events is returned.
    pub proof fn law_commit_snapshot_names_its_last_event<D: EventDecorator<
        Event = Agg::Event,
        DecoratedEvent = Agg::Event,
    >>(self, agg_id: Query::AggregateId, state: HydratedAggregate<Agg>, events: Seq<Agg::Event>, decorator: D)
        ensures
            ({
                let n = events.len();
                let decorated = events.map_values(|e: Agg::Event| decorator.decorated(e));
                let precondition = match state.version {
                    AggregateVersion::Version(v) => Precondition::LastVersion(v),
                    AggregateVersion::Initial => Precondition::EmptyStream,
                };
                let (appender, appended) = self.appender.append_spec(agg_id, decorated, Some(precondition));
                let (after, r) = self.commit_spec(agg_id, state, events, decorator);
                &&& after.appender == appender
                &&& after.query == self.query
                &&& appended is Err ==> after.persister == self.persister && r == Err::<
                    usize,
                    CommanderError<Agg, Query, EAppend, SPersist>,
                >(CommandAggregateError::Persist(PersistAggregateError::Events(appended->Err_0)))
                &&& appended is Ok && state.version == AggregateVersion::Initial && n == 0 ==> {
                    &&& after.persister == self.persister
                    &&& r == Ok::<usize, CommanderError<Agg, Query, EAppend, SPersist>>(0)
                }
                &&& appended is Ok && n <= usize::MAX && !(state.version == AggregateVersion::Initial && n == 0)
                    && (state.version matches AggregateVersion::Version(v) ==> v.0 + n <= usize::MAX) ==> {
                    let last = match state.version {
                        AggregateVersion::Version(v) => Version((v.0 + n) as usize),
                        AggregateVersion::Initial => Version((n - 1) as usize),
                    };
                    let snapshot = VersionedSnapshot {
                        version: last,
                        snapshot: apply_all(state.aggregate, decorated).snapshot_of(),
                    };
                    let (persister, persisted) = self.persister.persist_spec(agg_id, snapshot);
                    &&& after.persister == persister
                    &&& persisted is Ok ==> r == Ok::<usize, CommanderError<Agg, Query, EAppend, SPersist>>(
                        n as usize,
                    )
                    &&& persisted is Err ==> r == Err::<usize, CommanderError<Agg, Query, EAppend, SPersist>>(
                        CommandAggregateError::Persist(PersistAggregateError::Snapshot(persisted->Err_0)),
                    )
                }
            }),
    {
        let decorated = events.map_values(|e: Agg::Event| decorator.decorated(e));
        lemma_apply_counting_parts(state, decorated);
    }

    /// Executing loads the aggregate through the query and commits what the
    /// command produces against that loaded aggregate; executing anew commits
    /// what it produces against the initial aggregate. A failed load, a
    /// missing aggregate or a refused command writes nothing.
    pub proof fn law_commands_commit_against_their_aggregate<D: EventDecorator<
        Event = Agg::Event,
        DecoratedEvent = Agg::Event,
    >>(self, agg_id: Query::AggregateId, command: Agg::Command, decorator: D)
        ensures
            match self.query.rehydrate_spec(agg_id) {
                Err(e) => self.execute_spec(agg_id, command, decorator) == (
                    self,
                    Err::<usize, CommanderError<Agg, Query, EAppend, SPersist>>(CommandAggregateError::Load(e)),
                ),
                Ok(None) => self.execute_spec(agg_id, command, decorator) == (
                    self,
                    Err::<usize, CommanderError<Agg, Query, EAppend, SPersist>>(
                        CommandAggregateError::AggregateNotFound,
                    ),
                ),
                Ok(Some(state)) => match state.aggregate.executed(command) {
                    Err(e) => self.execute_spec(agg_id, command, decorator) == (
                        self,
                        Err::<usize, CommanderError<Agg, Query, EAppend, SPersist>>(
                            CommandAggregateError::Command(e),
                        ),
                    ),
                    Ok(events) => self.execute_spec(agg_id, command, decorator) == self.commit_spec(
                        agg_id,
                        state,
                        events,
                        decorator,
                    ),
                },
            },
            match Agg::initial().executed(command) {
                Err(e) => self.execute_new_spec(agg_id, command, decorator) == (
                    self,
                    Err::<usize, CommanderError<Agg, Query, EAppend, SPersist>>(CommandAggregateError::Command(e)),
                ),
                Ok(events) => self.execute_new_spec(agg_id, command, decorator) == self.commit_spec(
                    agg_id,
                    HydratedAggregate::initial(),
                    events,
                    decorator,
                ),
            },
    {
    }

    fn commit<D: EventDecorator<Event = Agg::Event, DecoratedEvent = Agg::Event>>(
        &mut self,
        agg_id: &Query::AggregateId,
        state: HydratedAggregate<Agg>,
        events: Vec<Agg::Event>,
        decorator: D,
    ) -> (r: Result<usize, CommanderError<Agg, Query, EAppend, SPersist>>)
        ensures
            (*final(self), r) == old(self).commit_spec(*agg_id, state, events@, decorator),
    {
        let event_count = events.len();
        let decorated_events = decorator.decorate_events(events);
        let precondition = state.version.to_precondition();
        match self.appender.append_events(agg_id, decorated_events.as_slice(), Some(precondition)) {
            Ok(_) => {},
            Err(e) => return Err(CommandAggregateError::Persist(PersistAggregateError::Events(e))),
        }
        let mut state = state;
        apply_new_events(&mut state, decorated_events);
        match state.to_snapshot() {
            Some(snapshot) => match self.persister.persist_snapshot(agg_id, snapshot) {
                Ok(_) => {},
                Err(e) => return Err(
                    CommandAggregateError::Persist(PersistAggregateError::Snapshot(e)),
                ),
            },
            None => {},
        }
        Ok(event_count)
    }
}

impl<Agg, Query, EAppend, SPersist, Decorator> DecoratedAggregateCommand<Agg, Decorator> for PersistAndSnapshotAggregateCommander<
    Agg,
    Query,
    EAppend,
    SPersist,
> where
    Agg: SnapshotAggregate,
    Query: AggregateQuery<Agg>,
    EAppend: EventAppend<AggregateId = Query::AggregateId, Event = Agg::Event>,
    SPersist: SnapshotPersist<
        AggregateId = Query::AggregateId,
        Snapshot = <Agg as SnapshotAggregate>::Snapshot,
    >,
    Decorator: EventDecorator<Event = Agg::Event, DecoratedEvent = Agg::Event>,
 {
    type AggregateId = Query::AggregateId;
    type Error = CommanderError<Agg, Query, EAppend, SPersist>;

    /// Executes `command` against the initial aggregate, appends the
    /// decorated new events to an empty stream, applies them and persists the
    /// resulting snapshot.
    fn execute_new_with_decorator(
        &mut self,
        agg_id: &Query::AggregateId,
        command: Agg::Command,
        decorator: Decorator,
    ) -> (r: Result<usize, CommanderError<Agg, Query, EAppend, SPersist>>)
        ensures
            (*final(self), r) == old(self).execute_new_spec(*agg_id, command, decorator),
    {
        let state = HydratedAggregate::<Agg>::default();
        let command_events = match state.aggregate.execute(command) {
            Ok(e) => e,
            Err(e) => return Err(CommandAggregateError::Command(e)),
        };
        self.commit(agg_id, state, command_events, decorator)
    }

    /// Loads the aggregate, executes `command`, appends the decorated new
    /// events after the loaded version, applies them and persists the
    /// resulting snapshot.
    fn execute_with_decorator(
        &mut self,
        agg_id: &Query::AggregateId,
        command: Agg::Command,
        decorator: Decorator,
    ) -> (r: Result<usize, CommanderError<Agg, Query, EAppend, SPersist>>)
        ensures
            (*final(self), r) == old(self).execute_spec(*agg_id, command, decorator),
    {
        let state_opt = match self.query.rehydrate(agg_id) {
            Ok(s) => s,
            Err(e) => return Err(CommandAggregateError::Load(e)),
        };
        match state_opt {
            Some(state) => {
                let command_events = match state.aggregate.execute(command) {
                    Ok(e) => e,
                    Err(e) => return Err(CommandAggregateError::Command(e)),
                };
                self.commit(agg_id, state, command_events, decorator)
            },
            None => Err(CommandAggregateError::AggregateNotFound),
        }
    }
}

} // verus!
