//! The aggregate store: loads an aggregate from its last snapshot and the
//! events after it, executes a command, appends the resulting events under an
//! optimistic-concurrency precondition, and persists a new snapshot when the
//! aggregate asks for one.
use vstd::prelude::*;

pub mod trivial;
mod version_ops;

verus! {

/// A position in an event stream; the first event has version 0.
#[derive(Debug, Default, Clone, Copy, Hash, PartialEq, Eq, PartialOrd, Ord, Structural)]
pub struct Version(pub usize);

impl Version {
    pub fn new(version: usize) -> (v: Self)
        ensures
            v.0 == version,
    {
        Version(version)
    }

    pub fn number(&self) -> (n: usize)
        ensures
            n == self.0,
    {
        self.0
    }

    /// The version `rhs` positions further on, wrapping at `usize::MAX` as
    /// unchecked `usize` addition does.
    pub fn add_wrapping(self, rhs: usize) -> (v: Version)
        ensures
            v.0 == wrapping_sum(self.0, rhs),
    {
        Version(self.0.wrapping_add(rhs))
    }
}

/// `a + b` in `usize` arithmetic that wraps around at `usize::MAX`.
pub open spec fn wrapping_sum(a: usize, b: usize) -> usize {
    if a + b <= usize::MAX {
        (a + b) as usize
    } else {
        (a + b - usize::MAX - 1) as usize
    }
}

/// Where to start reading a stream.
#[derive(Debug, Clone, Copy, Hash, PartialEq, Eq, PartialOrd, Ord, Structural)]
pub enum Since {
    BeginningOfStream,
    /// Every event after this version.
    Version(Version),
}

impl From<Version> for Since {
    fn from(v: Version) -> (s: Self) {
        Since::Version(v)
    }
}

impl vstd::std_specs::convert::FromSpecImpl<Version> for Since {
    open spec fn obeys_from_spec() -> bool {
        true
    }

    open spec fn from_spec(v: Version) -> Self {
        Since::Version(v)
    }
}

/// The condition under which an append to a stream may proceed.
#[derive(Debug, Clone, Copy, Hash, PartialEq, Eq, Structural)]
pub enum Precondition {
    Always,
    /// The stream's last event has this version.
    LastVersion(Version),
    /// The stream does not exist.
    NewStream,
    /// The stream has no events.
    EmptyStream,
}

impl Default for Precondition {
    fn default() -> (p: Self)
        ensures
            p == Precondition::Always,
    {
        Precondition::Always
    }
}

impl From<Version> for Precondition {
    fn from(v: Version) -> (p: Self) {
        Precondition::LastVersion(v)
    }
}

impl vstd::std_specs::convert::FromSpecImpl<Version> for Precondition {
    open spec fn obeys_from_spec() -> bool {
        true
    }

    open spec fn from_spec(v: Version) -> Self {
        Precondition::LastVersion(v)
    }
}

/// The precondition for appending after a stream whose last event has
/// version `v_o`, or to an empty stream when `v_o` is `None`.
pub open spec fn precondition_after(v_o: Option<Version>) -> Precondition {
    match v_o {
        Some(v) => Precondition::LastVersion(v),
        None => Precondition::EmptyStream,
    }
}

impl From<Option<Version>> for Precondition {
    fn from(v_o: Option<Version>) -> (p: Self) {
        match v_o {
            Some(v) => Precondition::LastVersion(v),
            None => Precondition::EmptyStream,
        }
    }
}

impl vstd::std_specs::convert::FromSpecImpl<Option<Version>> for Precondition {
    open spec fn obeys_from_spec() -> bool {
        true
    }

    open spec fn from_spec(v_o: Option<Version>) -> Self {
        precondition_after(v_o)
    }
}

/// Why an append failed.
#[derive(Debug, Clone, Hash, PartialEq)]
pub enum AppendError<WriteErr> {
    PreconditionFailed(Precondition),
    WriteError(WriteErr),
}

impl<WriteErr> From<Precondition> for AppendError<WriteErr> {
    fn from(p: Precondition) -> (e: Self) {
        AppendError::PreconditionFailed(p)
    }
}

impl<WriteErr> vstd::std_specs::convert::FromSpecImpl<Precondition> for AppendError<WriteErr> {
    open spec fn obeys_from_spec() -> bool {
        true
    }

    open spec fn from_spec(p: Precondition) -> Self {
        AppendError::PreconditionFailed(p)
    }
}

/// An event as read back from a stream, with its version.
#[derive(Debug, Clone, Hash, PartialEq)]
pub struct PersistedEvent<Event> {
    pub version: Version,
    pub event: Event,
}

/// A snapshot as read back from a state store, with the version it was taken at.
#[derive(Debug, Clone, Hash, PartialEq)]
pub struct PersistedSnapshot<State> {
    pub version: Version,
    pub data: State,
}

/// The outcome of reading a stream, taken by its view.
pub open spec fn read_view<Event, ReadErr>(
    r: Result<Option<Vec<PersistedEvent<Event>>>, ReadErr>,
) -> Result<Option<Seq<PersistedEvent<Event>>>, ReadErr> {
    match r {
        Ok(Some(v)) => Ok(Some(v@)),
        Ok(None) => Ok(None),
        Err(e) => Err(e),
    }
}

/// A store of event streams, one per aggregate.
///
/// An implementation describes its own behaviour through `read_spec` and
/// `append_spec`; the store's methods are held to them.
pub trait EventStore: Sized {
    type AggregateId;
    type Event;
    type ReadError;
    type WriteError;

    /// What `read` gives back on this store.
    spec fn read_spec(&self, agg_id: Self::AggregateId, since: Since) -> Result<
        Option<Seq<PersistedEvent<Self::Event>>>,
        Self::ReadError,
    >;

    /// The store and the outcome after appending `events` under `condition`.
    spec fn append_spec(
        self,
        agg_id: Self::AggregateId,
        events: Seq<Self::Event>,
        condition: Precondition,
    ) -> (Self, Result<(), Self::WriteError>);

    fn append_events(
        &mut self,
        agg_id: &Self::AggregateId,
        events: &[Self::Event],
        condition: Precondition,
    ) -> (r: Result<(), Self::WriteError>)
        ensures
            (*final(self), r) == old(self).append_spec(*agg_id, events@, condition),
    ;

    fn read(&self, agg_id: &Self::AggregateId, since: Since) -> (r: Result<
        Option<Vec<PersistedEvent<Self::Event>>>,
        Self::ReadError,
    >)
        ensures
            read_view(r) == self.read_spec(*agg_id, since),
    ;
}

/// A store of aggregate snapshots, one per aggregate.
pub trait StateStore: Sized {
    type AggregateId;
    type State;
    type ReadError;
    type WriteError;

    /// What `get_state` gives back on this store.
    spec fn get_state_spec(&self, agg_id: Self::AggregateId) -> Result<
        Option<PersistedSnapshot<Self::State>>,
        Self::ReadError,
    >;

    /// The store and the outcome after `put_state`.
    spec fn put_state_spec(
        self,
        agg_id: Self::AggregateId,
        version: Version,
        state: Self::State,
    ) -> (Self, Result<(), Self::WriteError>);

    fn get_state(&self, agg_id: &Self::AggregateId) -> (r: Result<
        Option<PersistedSnapshot<Self::State>>,
        Self::ReadError,
    >)
        ensures
            r == self.get_state_spec(*agg_id),
    ;

    fn put_state(&mut self, agg_id: &Self::AggregateId, version: Version, state: Self::State) -> (r:
        Result<(), Self::WriteError>)
        ensures
            (*final(self), r) == old(self).put_state_spec(*agg_id, version, state),
    ;
}

/// Turns each event into the form in which it is stored.
pub trait EventDecorator: Sized {
    type Event;
    type DecoratedEvent;

    /// What `decorate` makes of `event`.
    spec fn decorated(&self, event: Self::Event) -> Self::DecoratedEvent;

    fn decorate(&self, event: Self::Event) -> (d: Self::DecoratedEvent)
        ensures
            d == self.decorated(event),
    ;

    /// Decorates every event, keeping their order.
    fn decorate_events(&self, events: Vec<Self::Event>) -> (r: Vec<Self::DecoratedEvent>)
        ensures
            r@ == events@.map_values(|e: Self::Event| self.decorated(e)),
    {
        let mut out: Vec<Self::DecoratedEvent> = Vec::new();
        let ghost all = events@;
        for e in it: events.into_iter()
            invariant
                all == it.seq(),
                out@ == it.seq().take(it.index() as int).map_values(
                    |x: Self::Event| self.decorated(x),
                ),
        {
            proof {
                assert(it.seq().take(it.index() + 1) =~= it.seq().take(it.index() as int).push(e));
            }
            out.push(self.decorate(e));
            proof {
                assert(out@ =~= it.seq().take(it.index() + 1).map_values(
                    |x: Self::Event| self.decorated(x),
                ));
            }
        }
        proof {
            assert(all.take(all.len() as int) =~= all);
        }
        out
    }
}

/// The outcome of executing a command: the new events, or a refusal.
pub type CommandResult<Event, Error> = Result<Vec<Event>, Error>;

pub type ReadResult<Data, Error> = Result<Option<Data>, Error>;

pub type ReadStreamResult<Event, Error> = ReadResult<Vec<PersistedEvent<Event>>, Error>;

pub type ReadStateResult<State, Error> = ReadResult<PersistedSnapshot<State>, Error>;

pub type PersistResult<Error> = Result<(), Error>;

/// The outcome of a command, taken by its view.
pub open spec fn command_view<Event, Error>(r: CommandResult<Event, Error>) -> Result<
    Seq<Event>,
    Error,
> {
    match r {
        Ok(v) => Ok(v@),
        Err(e) => Err(e),
    }
}

/// Whether an aggregate wants a snapshot of itself persisted.
#[derive(Debug, Clone, Copy, Hash, PartialEq, Eq, Structural)]
pub enum SnapshotDecision {
    Persist,
    Skip,
}

/// A consistency boundary whose state is a fold of its events, and which
/// decides what new events a command produces.
///
/// An implementation describes its behaviour through the spec functions
/// `initial`, `applied`, `executed` and `snapshot_decision`.
pub trait Aggregate: Sized {
    type Event;
    type Command;
    type CommandError;

    /// The state before any event.
    spec fn initial() -> Self;

    /// The state after `evt`.
    spec fn applied(self, evt: Self::Event) -> Self;

    /// What `cmd` produces against this state.
    spec fn executed(self, cmd: Self::Command) -> Result<Seq<Self::Event>, Self::CommandError>;

    /// Whether this state asks for a snapshot.
    spec fn snapshot_decision(self) -> SnapshotDecision;

    fn default() -> (a: Self)
        ensures
            a == Self::initial(),
    ;

    fn apply(&mut self, evt: Self::Event)
        ensures
            *final(self) == old(self).applied(evt),
    ;

    fn execute(&self, cmd: Self::Command) -> (r: CommandResult<Self::Event, Self::CommandError>)
        ensures
            command_view(r) == self.executed(cmd),
    ;

    fn should_snapshot(&self) -> (d: SnapshotDecision)
        ensures
            d == self.snapshot_decision(),
    ;
}

/// The state reached from `state` by applying `events` in order.
pub open spec fn apply_all<A: Aggregate>(state: A, events: Seq<A::Event>) -> A
    decreases events.len(),
{
    if events.len() == 0 {
        state
    } else {
        apply_all(state, events.drop_last()).applied(events.last())
    }
}

/// The payloads of persisted events, in order.
pub open spec fn payloads<Event>(events: Seq<PersistedEvent<Event>>) -> Seq<Event> {
    events.map_values(|p: PersistedEvent<Event>| p.event)
}

/// The version of the last of `events`, or `fallback` when there is none.
pub open spec fn latest_version<Event>(
    events: Seq<PersistedEvent<Event>>,
    fallback: Option<Version>,
) -> Option<Version> {
    if events.len() == 0 {
        fallback
    } else {
        Some(events.last().version)
    }
}

/// Applying `a` then `b` is applying `a + b`.
pub proof fn lemma_apply_all_concat<A: Aggregate>(state: A, a: Seq<A::Event>, b: Seq<A::Event>)
    ensures
        apply_all(apply_all(state, a), b) == apply_all(state, a + b),
    decreases b.len(),
{
    if b.len() == 0 {
        assert(a + b =~= a);
    } else {
        lemma_apply_all_concat(state, a, b.drop_last());
        assert((a + b).drop_last() =~= a + b.drop_last());
    }
}

/// The outside uninhabited type `void::Void`, carried through as the error of
/// operations that cannot fail. Nothing is claimed of it.
#[verifier::external_type_specification]
#[verifier::external_body]
pub struct ExVoid(void::Void);

/// The error type of operations that cannot fail; it has no values.
pub type Never = void::Void;

/// Why `AggregateStore::execute_and_persist` failed.
#[derive(Debug, Hash, PartialEq, Clone)]
pub enum AggregateError<CmdErr, ReadStreamErr, ReadStateErr, WriteStreamErr, WriteStateErr> {
    BadCommand(CmdErr),
    ReadStream(ReadStreamErr),
    ReadState(ReadStateErr),
    WriteStream(WriteStreamErr),
    WriteState(WriteStateErr),
}

/// An event store and a state store used together for one kind of aggregate.
#[derive(Debug, Hash, PartialEq, Clone)]
pub struct AggregateStore<ES, SS> where ES: EventStore, SS: StateStore<AggregateId = ES::AggregateId> {
    pub event_store: ES,
    pub state_store: SS,
}

/// The error type of `execute_and_persist` for a pair of stores.
pub type StoreError<ES, SS> = AggregateError<
    <<SS as StateStore>::State as Aggregate>::CommandError,
    <ES as EventStore>::ReadError,
    <SS as StateStore>::ReadError,
    <ES as EventStore>::WriteError,
    <SS as StateStore>::WriteError,
>;

impl<ES, SS> AggregateStore<ES, SS> where
    ES: EventStore,
    SS: StateStore<AggregateId = ES::AggregateId>,
    SS::State: Aggregate<Event = ES::Event>,
 {
    pub fn new(event_store: ES, state_store: SS) -> (s: Self)
        ensures
            s.event_store == event_store,
            s.state_store == state_store,
    {
        AggregateStore { event_store, state_store }
    }

    /// The aggregate and its version after loading the snapshot `snap` and
    /// then the events read after it.
    pub open spec fn loaded(
        snap: Option<PersistedSnapshot<SS::State>>,
        read: Option<Seq<PersistedEvent<ES::Event>>>,
    ) -> (SS::State, Option<Version>) {
        let (base_version, base) = match snap {
            Some(s) => (Some(s.version), s.data),
            None => (None, SS::State::initial()),
        };
        let events = match read {
            Some(es) => es,
            None => Seq::empty(),
        };
        (apply_all(base, payloads(events)), latest_version(events, base_version))
    }

    /// Where reading starts after the snapshot `snap`.
    pub open spec fn read_since(snap: Option<PersistedSnapshot<SS::State>>) -> Since {
        match snap {
            Some(s) => Since::Version(s.version),
            None => Since::BeginningOfStream,
        }
    }

    /// The version recorded with a snapshot taken after `count` new events
    /// following `version`.
    pub open spec fn snapshot_version_after(version: Option<Version>, count: nat) -> Version {
        match version {
            Some(v) => Version(wrapping_sum(v.0, count as usize)),
            None => Version((count - 1) as usize),
        }
    }

    /// The two stores and the outcome after `execute_and_persist`.
    pub open spec fn execute_and_persist_spec<D: EventDecorator<
        Event = ES::Event,
        DecoratedEvent = ES::Event,
    >>(self, agg_id: ES::AggregateId, cmd: <SS::State as Aggregate>::Command, decorator: D) -> (
        Self,
        Result<usize, StoreError<ES, SS>>,
    ) {
        match self.state_store.get_state_spec(agg_id) {
            Err(e) => (self, Err(AggregateError::ReadState(e))),
            Ok(snap) => match self.event_store.read_spec(agg_id, Self::read_since(snap)) {
                Err(e) => (self, Err(AggregateError::ReadStream(e))),
                Ok(read) => {
                    let (state, version) = Self::loaded(snap, read);
                    match state.executed(cmd) {
                        Err(e) => (self, Err(AggregateError::BadCommand(e))),
                        Ok(events) => {
                            if events.len() == 0 {
                                (self, Ok(0))
                            } else {
                                let decorated = events.map_values(
                                    |e: ES::Event| decorator.decorated(e),
                                );
                                let (es2, appended) = self.event_store.append_spec(
                                    agg_id,
                                    decorated,
                                    precondition_after(version),
                                );
                                match appended {
                                    Err(e) => (
                                        AggregateStore {
                                            event_store: es2,
                                            state_store: self.state_store,
                                        },
                                        Err(AggregateError::WriteStream(e)),
                                    ),
                                    Ok(_) => {
                                        let new_state = apply_all(state, decorated);
                                        if new_state.snapshot_decision()
                                            == SnapshotDecision::Persist {
                                            let (ss2, put) = self.state_store.put_state_spec(
                                                agg_id,
                                                Self::snapshot_version_after(
                                                    version,
                                                    events.len(),
                                                ),
                                                new_state,
                                            );
                                            let stores = AggregateStore {
                                                event_store: es2,
                                                state_store: ss2,
                                            };
                                            match put {
                                                Err(e) => (
                                                    stores,
                                                    Err(AggregateError::WriteState(e)),
                                                ),
                                                Ok(_) => (stores, Ok(events.len() as usize)),
                                            }
                                        } else {
                                            (
                                                AggregateStore {
                                                    event_store: es2,
                                                    state_store: self.state_store,
                                                },
                                                Ok(events.len() as usize),
                                            )
                                        }
                                    },
                                }
                            }
                        },
                    }
                },
            },
        }
    }

    /// What storing a command's outcome does, once the aggregate is loaded
    /// (its snapshot `snap`, then the events `read` after the snapshot's
    /// version, applied in order) and the command has produced `events`, at
    /// least one: the decorated events are appended under the precondition
    /// that the stream still ends at the loaded version; if that fails, the
    /// state store is left alone. Otherwise, when the new state (the loaded
    /// one with the decorated events applied) asks for a snapshot, it is put
    /// under the version of the last event it includes: the loaded version
    /// plus the number of new events, or that number less one for a new
    /// stream. The number of new events is returned.
    pub proof fn law_snapshot_names_its_last_event<D: EventDecorator<
        Event = ES::Event,
        DecoratedEvent = ES::Event,
    >>(
        self,
        agg_id: ES::AggregateId,
        cmd: <SS::State as Aggregate>::Command,
        decorator: D,
        snap: Option<PersistedSnapshot<SS::State>>,
        read: Option<Seq<PersistedEvent<ES::Event>>>,
        events: Seq<ES::Event>,
    )
        requires
            self.state_store.get_state_spec(agg_id) == Ok::<
                Option<PersistedSnapshot<SS::State>>,
                SS::ReadError,
            >(snap),
            self.event_store.read_spec(
                agg_id,
                match snap {
                    Some(s) => Since::Version(s.version),
                    None => Since::BeginningOfStream,
                },
            ) == Ok::<Option<Seq<PersistedEvent<ES::Event>>>, ES::ReadError>(read),
            ({
                let base = match snap {
                    Some(s) => s.data,
                    None => SS::State::initial(),
                };
                let after_snapshot = match read {
                    Some(es) => es,
                    None => Seq::empty(),
                };
                apply_all(base, after_snapshot.map_values(|e: PersistedEvent<ES::Event>| e.event)).executed(
                    cmd,
                ) == Ok::<Seq<ES::Event>, <SS::State as Aggregate>::CommandError>(events)
            }),
            events.len() > 0,
        ensures
            ({
                let (after, r) = self.execute_and_persist_spec(agg_id, cmd, decorator);
                let base = match snap {
                    Some(s) => s.data,
                    None => SS::State::initial(),
                };
                let after_snapshot = match read {
                    Some(es) => es,
                    None => Seq::empty(),
                };
                let state = apply_all(base, after_snapshot.map_values(|e: PersistedEvent<ES::Event>| e.event));
                let version = if after_snapshot.len() > 0 {
                    Some(after_snapshot.last().version)
                } else {
                    match snap {
                        Some(s) => Some(s.version),
                        None => None,
                    }
                };
                let decorated = events.map_values(|e: ES::Event| decorator.decorated(e));
                let precondition = match version {
                    Some(v) => Precondition::LastVersion(v),
                    None => Precondition::EmptyStream,
                };
                let (es2, appended) = self.event_store.append_spec(agg_id, decorated, precondition);
                let new_state = apply_all(state, decorated);
                &&& after.event_store == es2
                &&& appended is Err ==> after.state_store == self.state_store && r == Err::<
                    usize,
                    StoreError<ES, SS>,
                >(AggregateError::WriteStream(appended->Err_0))
                &&& appended is Ok && new_state.snapshot_decision() != SnapshotDecision::Persist ==> {
                    &&& after.state_store == self.state_store
                    &&& r == Ok::<usize, StoreError<ES, SS>>(events.len() as usize)
                }
                &&& appended is Ok && new_state.snapshot_decision() == SnapshotDecision::Persist && (
                version matches Some(v) ==> v.0 + events.len() <= usize::MAX) ==> {
                    let last = match version {
                        Some(v) => Version((v.0 + events.len()) as usize),
                        None => Version((events.len() - 1) as usize),
                    };
                    let (ss2, put) = self.state_store.put_state_spec(agg_id, last, new_state);
                    &&& after.state_store == ss2
                    &&& put is Ok ==> r == Ok::<usize, StoreError<ES, SS>>(events.len() as usize)
                    &&& put is Err ==> r == Err::<usize, StoreError<ES, SS>>(
                        AggregateError::WriteState(put->Err_0),
                    )
                }
            }),
    {
        let after_snapshot = match read {
            Some(es) => es,
            None => Seq::empty(),
        };
        assert(payloads(after_snapshot) =~= after_snapshot.map_values(|e: PersistedEvent<ES::Event>| e.event));
    }

    /// Nothing is written unless the command produces events: a failed read
    /// of the snapshot or of the stream, a refused command, or a command that
    /// produces no event leaves both stores as they were, and answers with
    /// that failure, or with zero events. The stream is read from the
    /// snapshot's version on (from its beginning when there is no snapshot).
    pub proof fn law_nothing_written_without_new_events<D: EventDecorator<
        Event = ES::Event,
        DecoratedEvent = ES::Event,
    >>(self, agg_id: ES::AggregateId, cmd: <SS::State as Aggregate>::Command, decorator: D)
        ensures
            ({
                let (after, r) = self.execute_and_persist_spec(agg_id, cmd, decorator);
                match self.state_store.get_state_spec(agg_id) {
                    Err(e) => after == self && r == Err::<usize, StoreError<ES, SS>>(AggregateError::ReadState(e)),
                    Ok(snap) => match self.event_store.read_spec(
                        agg_id,
                        match snap {
                            Some(s) => Since::Version(s.version),
                            None => Since::BeginningOfStream,
                        },
                    ) {
                        Err(e) => after == self && r == Err::<usize, StoreError<ES, SS>>(
                            AggregateError::ReadStream(e),
                        ),
                        Ok(read) => {
                            let base = match snap {
                                Some(s) => s.data,
                                None => SS::State::initial(),
                            };
                            let after_snapshot = match read {
                                Some(es) => es,
                                None => Seq::empty(),
                            };
                            match apply_all(
                                base,
                                after_snapshot.map_values(|e: PersistedEvent<ES::Event>| e.event),
                            ).executed(cmd) {
                                Err(e) => after == self && r == Err::<usize, StoreError<ES, SS>>(
                                    AggregateError::BadCommand(e),
                                ),
                                Ok(events) => events.len() == 0 ==> after == self && r == Ok::<
                                    usize,
                                    StoreError<ES, SS>,
                                >(0),
                            }
                        },
                    },
                }
            }),
    {
        match self.state_store.get_state_spec(agg_id) {
            Ok(snap) => match self.event_store.read_spec(agg_id, Self::read_since(snap)) {
                Ok(read) => {
                    let after_snapshot = match read {
                        Some(es) => es,
                        None => Seq::empty(),
                    };
                    assert(payloads(after_snapshot) =~= after_snapshot.map_values(
                        |e: PersistedEvent<ES::Event>| e.event,
                    ));
                },
                _ => {},
            },
            _ => {},
        }
    }

    /// Loads the aggregate, executes `cmd` against it, appends the decorated
    /// new events after the version it was loaded at, applies them, and
    /// persists a snapshot if the aggregate asks for one. Returns the number of
    /// new events.
    pub fn execute_and_persist<D>(
        &mut self,
        agg_id: &ES::AggregateId,
        cmd: <SS::State as Aggregate>::Command,
        decorator: D,
    ) -> (r: Result<usize, StoreError<ES, SS>>) where
        D: EventDecorator<Event = ES::Event, DecoratedEvent = ES::Event>,

        ensures
            (*final(self), r) == old(self).execute_and_persist_spec(*agg_id, cmd, decorator),
    {
        let saved_snapshot = match self.state_store.get_state(agg_id) {
            Ok(s) => s,
            Err(e) => return Err(AggregateError::ReadState(e)),
        };
        let ghost snap = saved_snapshot;
        let read_since = match &saved_snapshot {
            Some(snapshot) => Since::Version(snapshot.version),
            None => Since::BeginningOfStream,
        };
        let (snapshot_version, mut state) = match saved_snapshot {
            Some(snapshot) => (Some(snapshot.version), snapshot.data),
            None => (None, SS::State::default()),
        };
        let mut version = snapshot_version;
        match self.rehydrate(agg_id, &mut state, read_since) {
            Ok(Some(event_version)) => {
                version = Some(event_version);
            },
            Ok(None) => {},
            Err(e) => return Err(e),
        }
        assert((state, version) == Self::loaded(
            snap,
            self.event_store.read_spec(*agg_id, read_since)->Ok_0,
        ));
        let events = match state.execute(cmd) {
            Ok(events) => events,
            Err(e) => return Err(AggregateError::BadCommand(e)),
        };
        let event_count = events.len();
        if event_count > 0 {
            let decorated_events = decorator.decorate_events(events);
            let precondition = match version {
                Some(v) => Precondition::LastVersion(v),
                None => Precondition::EmptyStream,
            };
            match self.event_store.append_events(agg_id, decorated_events.as_slice(), precondition) {
                Ok(_) => {},
                Err(e) => return Err(AggregateError::WriteStream(e)),
            }
            let ghost before = state;
            let ghost all = decorated_events@;
            for e in it: decorated_events.into_iter()
                invariant
                    all == it.seq(),
                    state == apply_all(before, it.seq().take(it.index() as int)),
            {
                proof {
                    assert(it.seq().take(it.index() + 1).drop_last() =~= it.seq().take(
                        it.index() as int,
                    ));
                }
                state.apply(e);
            }
            proof {
                assert(all.take(all.len() as int) =~= all);
            }
            if state.should_snapshot() == SnapshotDecision::Persist {
                let new_snapshot_version = match version {
                    Some(v) => v.add_wrapping(event_count),
                    None => Version::new(event_count - 1),
                };
                match self.state_store.put_state(agg_id, new_snapshot_version, state) {
                    Ok(_) => {},
                    Err(e) => return Err(AggregateError::WriteState(e)),
                }
            }
        }
        Ok(event_count)
    }

    /// Applies the events read since `since` to `agg`; returns the version of
    /// the last one, if any.
    fn rehydrate(&self, agg_id: &ES::AggregateId, agg: &mut SS::State, since: Since) -> (r: Result<
        Option<Version>,
        StoreError<ES, SS>,
    >)
        ensures
            match self.event_store.read_spec(*agg_id, since) {
                Err(e) => r == Err::<Option<Version>, StoreError<ES, SS>>(
                    AggregateError::ReadStream(e),
                ),
                Ok(read) => {
                    let events = match read {
                        Some(es) => es,
                        None => Seq::empty(),
                    };
                    &&& r == Ok::<Option<Version>, StoreError<ES, SS>>(
                        latest_version(events, None),
                    )
                    &&& *final(agg) == apply_all(*old(agg), payloads(events))
                },
            },
    {
        let read_events = match self.event_store.read(agg_id, since) {
            Ok(r) => r,
            Err(e) => return Err(AggregateError::ReadStream(e)),
        };
        let mut latest: Option<Version> = None;
        match read_events {
            Some(events) => {
                let ghost before = *agg;
                let ghost all = events@;
                for e in it: events.into_iter()
                    invariant
                        all == it.seq(),
                        *agg == apply_all(before, payloads(it.seq().take(it.index() as int))),
                        latest == latest_version(it.seq().take(it.index() as int), None),
                {
                    proof {
                        let t = it.seq().take(it.index() + 1);
                        assert(t.drop_last() =~= it.seq().take(it.index() as int));
                        assert(payloads(t).drop_last() =~= payloads(t.drop_last()));
                    }
                    agg.apply(e.event);
                    latest = Some(e.version);
                }
                proof {
                    assert(all.take(all.len() as int) =~= all);
                }
            },
            None => {
                assert(payloads(Seq::<PersistedEvent<ES::Event>>::empty()) =~= Seq::empty());
            },
        }
        Ok(latest)
    }
}

/// `execute_and_persist` succeeds with the number of events the command
/// produced against the loaded aggregate; a failed load, a refused command
/// and a command that produces no event leave both stores unchanged.
pub proof fn law_execute_reports_event_count<ES, SS, D>(
    store: AggregateStore<ES, SS>,
    agg_id: ES::AggregateId,
    cmd: <SS::State as Aggregate>::Command,
    decorator: D,
) where
    ES: EventStore,
    SS: StateStore<AggregateId = ES::AggregateId>,
    SS::State: Aggregate<Event = ES::Event>,
    D: EventDecorator<Event = ES::Event, DecoratedEvent = ES::Event>,

    ensures
        ({
            let (after, res) = store.execute_and_persist_spec(agg_id, cmd, decorator);
            &&& res matches Ok(n) ==> {
                &&& store.state_store.get_state_spec(agg_id) matches Ok(snap)
                &&& store.event_store.read_spec(agg_id, AggregateStore::<ES, SS>::read_since(snap)) matches Ok(read)
                &&& AggregateStore::<ES, SS>::loaded(snap, read).0.executed(cmd) matches Ok(events)
                &&& n == events.len() as usize
            }
            &&& ({
                &&& store.state_store.get_state_spec(agg_id) matches Ok(snap)
                &&& store.event_store.read_spec(agg_id, AggregateStore::<ES, SS>::read_since(snap)) matches Ok(read)
                &&& AggregateStore::<ES, SS>::loaded(snap, read).0.executed(cmd) matches Ok(events)
                &&& events.len() == 0
            }) ==> after == store && res == Ok::<usize, StoreError<ES, SS>>(0)
            &&& res matches Err(AggregateError::BadCommand(_)) ==> after == store
            &&& res matches Err(AggregateError::ReadState(_)) ==> after == store
            &&& res matches Err(AggregateError::ReadStream(_)) ==> after == store
        }),
{
}

} // verus!
