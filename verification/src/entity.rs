//! Entities: identified aggregates loaded from a snapshot and the events after
//! it, and persisted by appending new events and refreshing the snapshot.
use vstd::prelude::*;
use crate::aggregate::Aggregate;
use crate::okazis::command_view;
use crate::types::{AggregateId, EventNumber, Precondition, SequencedEvent, Since, StateSnapshot, Version};
use core::marker::PhantomData;

verus! {

/// An aggregate loaded from a source, with its current version and the
/// version of its latest snapshot.
#[derive(Clone, Copy, Debug, Hash, PartialEq, Eq)]
pub struct HydratedAggregate<A> {
    version: Version,
    snapshot_version: Version,
    state: A,
}

impl<A> HydratedAggregate<A> {
    /// The current version.
    pub closed spec fn version_spec(self) -> Version {
        self.version
    }

    /// The version of the latest snapshot.
    pub closed spec fn snapshot_version_spec(self) -> Version {
        self.snapshot_version
    }

    /// The aggregate itself.
    pub closed spec fn state_spec(self) -> A {
        self.state
    }

    /// Whether `h` has exactly these three parts.
    pub open spec fn has_parts(h: Self, version: Version, snapshot_version: Version, state: A) -> bool {
        &&& h.version_spec() == version
        &&& h.snapshot_version_spec() == snapshot_version
        &&& h.state_spec() == state
    }

    /// The hydrated aggregate with these three parts.
    pub fn from_parts(version: Version, snapshot_version: Version, state: A) -> (h: Self)
        ensures
            Self::has_parts(h, version, snapshot_version, state),
    {
        HydratedAggregate { version, snapshot_version, state }
    }

    /// Two hydrated aggregates with the same parts are equal.
    pub proof fn lemma_parts_determine(a: Self, b: Self)
        requires
            a.version_spec() == b.version_spec(),
            a.snapshot_version_spec() == b.snapshot_version_spec(),
            a.state_spec() == b.state_spec(),
        ensures
            a == b,
    {
    }

    /// The current version of the aggregate.
    pub fn version(&self) -> (v: Version)
        ensures
            v == self.version_spec(),
    {
        self.version
    }

    /// The version of the snapshot from which the aggregate was loaded.
    pub fn snapshot_version(&self) -> (v: Version)
        ensures
            v == self.snapshot_version_spec(),
    {
        self.snapshot_version
    }

    /// Records that a snapshot was taken at `new_snapshot_version`.
    pub fn set_snapshot_version(&mut self, new_snapshot_version: Version)
        ensures
            Self::has_parts(
                *final(self),
                old(self).version_spec(),
                new_snapshot_version,
                old(self).state_spec(),
            ),
    {
        self.snapshot_version = new_snapshot_version;
    }

    /// The aggregate itself.
    pub fn state(&self) -> (a: &A)
        ensures
            *a == self.state_spec(),
    {
        &self.state
    }
}

impl<A: Aggregate> HydratedAggregate<A> {
    /// The hydrated aggregate before any event.
    pub open spec fn is_initial(h: Self) -> bool {
        Self::has_parts(h, Version::Initial, Version::Initial, A::initial())
    }

    pub fn default() -> (h: Self)
        ensures
            Self::is_initial(h),
    {
        HydratedAggregate { version: Version::Initial, snapshot_version: Version::Initial, state: A::default() }
    }

    /// Whether `after` is `before` with `events` applied: the state folded
    /// over them, the version advanced by their count.
    pub open spec fn applied_all(before: Self, after: Self, events: Seq<A::Event>) -> bool {
        is_parts(
            after,
            parts_after(
                (before.version_spec(), before.snapshot_version_spec(), before.state_spec()),
                events,
            ),
        )
    }

    /// Applies `event` and advances the version by one.
    pub fn apply(&mut self, event: A::Event)
        requires
            old(self).version_spec().value() < usize::MAX,
        ensures
            Self::applied_all(*old(self), *final(self), seq![event]),
    {
        self.state.apply(event);
        self.version = self.version.incr();
        proof {
            crate::aggregate::lemma_apply_one::<A>(old(self).state_spec(), event);
        }
    }

    /// Applies `events` in order.
    pub fn apply_events(&mut self, events: Vec<A::Event>)
        requires
            old(self).version_spec().value() + events@.len() < usize::MAX,
        ensures
            Self::applied_all(*old(self), *final(self), events@),
    {
        let ghost before = *self;
        let ghost all = events@;
        proof {
            assert(all.take(0) =~= Seq::<A::Event>::empty());
        }
        for event in it: events.into_iter()
            invariant
                all == it.seq(),
                before.version_spec().value() + all.len() < usize::MAX,
                Self::applied_all(before, *self, it.seq().take(it.index() as int)),
        {
            proof {
                if it.index() > 0 {
                    Version::lemma_of_count((before.version_spec().value() + it.index()) as nat);
                }
            }
            let ghost mid = *self;
            self.apply(event);
            proof {
                let t = it.seq().take(it.index() + 1);
                assert(t.drop_last() =~= it.seq().take(it.index() as int));
                assert(t.last() == event);
                crate::aggregate::lemma_apply_one::<A>(mid.state_spec(), event);
                assert(self.state_spec() == crate::aggregate::apply_all::<A>(before.state_spec(), t));
            }
        }
        proof {
            assert(all.take(all.len() as int) =~= all);
        }
    }
}

/// The parts (version, snapshot version, state) of a hydrated aggregate.
pub type Parts<A> = (Version, Version, A);

/// Whether `h` has the parts `p`.
pub open spec fn is_parts<A>(h: HydratedAggregate<A>, p: Parts<A>) -> bool {
    HydratedAggregate::has_parts(h, p.0, p.1, p.2)
}

/// The hydrated aggregate with the parts `p`.
pub closed spec fn hydrated<A>(p: Parts<A>) -> HydratedAggregate<A> {
    HydratedAggregate { version: p.0, snapshot_version: p.1, state: p.2 }
}

/// A hydrated aggregate is determined by its parts.
pub proof fn lemma_hydrated<A>(h: HydratedAggregate<A>, p: Parts<A>)
    ensures
        is_parts(hydrated(p), p),
        is_parts(h, p) ==> h == hydrated(p),
{
}

/// The parts of a hydrated aggregate after `events` are applied to one with
/// parts `p`: the state folded over them, the version advanced by their count.
pub open spec fn parts_after<A: Aggregate>(p: Parts<A>, events: Seq<A::Event>) -> Parts<A> {
    (
        if events.len() == 0 {
            p.0
        } else {
            Version::of_count(p.0.value() + events.len())
        },
        p.1,
        crate::aggregate::apply_all::<A>(p.2, events),
    )
}

/// The parts of the hydrated aggregate a snapshot restores, or of the
/// initial one when there is none.
pub open spec fn loaded_parts<A: Aggregate>(snap: Option<StateSnapshot<A>>) -> Parts<A> {
    match snap {
        Some(s) => (s.version, s.version, s.snapshot),
        None => (Version::Initial, Version::Initial, A::initial()),
    }
}

/// The events of a read, or none when there is no stream.
pub open spec fn read_or_empty<Event>(read: Option<Seq<SequencedEvent<Event>>>) -> Seq<Event> {
    match read {
        Some(evs) => payloads(evs),
        None => Seq::empty(),
    }
}

/// An identified, specific instance of a hydrated aggregate.
#[derive(Clone, Copy, Debug, Hash, PartialEq, Eq)]
pub struct Entity<I, A> {
    id: I,
    aggregate: HydratedAggregate<A>,
}

impl<I, A> Entity<I, A> {
    /// The entity's identifier.
    pub closed spec fn id_spec(self) -> I {
        self.id
    }

    /// The entity's hydrated aggregate.
    pub closed spec fn aggregate_spec(self) -> HydratedAggregate<A> {
        self.aggregate
    }

    /// An entity from an identifier and its hydrated aggregate.
    pub fn new(id: I, aggregate: HydratedAggregate<A>) -> (e: Self)
        ensures
            e.id_spec() == id,
            e.aggregate_spec() == aggregate,
    {
        Entity { id, aggregate }
    }

    /// The entity's hydrated aggregate.
    pub fn aggregate(&self) -> (a: &HydratedAggregate<A>)
        ensures
            *a == self.aggregate_spec(),
    {
        &self.aggregate
    }

    /// The entity's hydrated aggregate, to change it in place.
    pub fn aggregate_mut(&mut self) -> (a: &mut HydratedAggregate<A>)
        ensures
            *a == old(self).aggregate_spec(),
            final(self).aggregate_spec() == *final(a),
            final(self).id_spec() == old(self).id_spec(),
    {
        &mut self.aggregate
    }

    /// Gives back the hydrated aggregate.
    pub fn into_aggregate(self) -> (a: HydratedAggregate<A>)
        ensures
            a == self.aggregate_spec(),
    {
        self.aggregate
    }
}

impl<I: AggregateId<A>, A> Entity<I, A> {
    /// The entity's identifier as a string.
    pub fn id(&self) -> (s: &str)
        ensures
            s@ == self.id_spec().id(),
    {
        self.id.as_str()
    }
}

/// The outcome of a read, taken by its view.
pub open spec fn events_view<Event, ReadErr>(r: Result<Option<Vec<SequencedEvent<Event>>>, ReadErr>) -> Result<
    Option<Seq<SequencedEvent<Event>>>,
    ReadErr,
> {
    match r {
        Ok(Some(v)) => Ok(Some(v@)),
        Ok(None) => Ok(None),
        Err(e) => Err(e),
    }
}

/// The payloads of numbered events, in order.
pub open spec fn payloads<Event>(events: Seq<SequencedEvent<Event>>) -> Seq<Event> {
    events.map_values(|e: SequencedEvent<Event>| e.event)
}

/// A source of event streams for aggregates of type `A`.
pub trait EventSource<A: Aggregate>: Sized {
    type Error;

    /// What `read_events` gives back.
    spec fn read_spec(&self, id: Seq<char>, since: Since, max_count: Option<u64>) -> Result<
        Option<Seq<SequencedEvent<A::Event>>>,
        Self::Error,
    >;

    fn read_events<I: AggregateId<A>>(&self, id: &I, since: Since, max_count: Option<u64>) -> (r: Result<
        Option<Vec<SequencedEvent<A::Event>>>,
        Self::Error,
    >)
        ensures
            events_view(r) == self.read_spec(id.id(), since, max_count),
    ;
}

/// A source of snapshots for aggregates of type `A`.
pub trait SnapshotSource<A>: Sized {
    type Error;

    /// What `get_snapshot` gives back.
    spec fn snapshot_spec(&self, id: Seq<char>) -> Result<Option<StateSnapshot<A>>, Self::Error>;

    fn get_snapshot<I: AggregateId<A>>(&self, id: &I) -> (r: Result<Option<StateSnapshot<A>>, Self::Error>)
        ensures
            r == self.snapshot_spec(id.id()),
    ;
}

/// A sink that appends events to the streams of aggregates of type `A`.
pub trait EventSink<A: Aggregate, M>: Sized {
    type Error;

    /// The sink and the outcome after `append_events`.
    spec fn append_spec(
        self,
        id: Seq<char>,
        events: Seq<A::Event>,
        precondition: Option<Precondition>,
        metadata: M,
    ) -> (Self, Result<EventNumber, Self::Error>);

    fn append_events<I: AggregateId<A>>(
        &mut self,
        id: &I,
        events: &[A::Event],
        precondition: Option<Precondition>,
        metadata: M,
    ) -> (r: Result<EventNumber, Self::Error>)
        ensures
            (*final(self), r) == old(self).append_spec(id.id(), events@, precondition, metadata),
    ;
}

/// A sink that stores snapshots of aggregates of type `A`.
pub trait SnapshotSink<A>: Sized {
    type Error;

    /// The sink and the outcome after `persist_snapshot`: the version of the
    /// latest snapshot.
    spec fn persist_spec(
        self,
        id: Seq<char>,
        aggregate: A,
        version: Version,
        last_snapshot_version: Version,
    ) -> (Self, Result<Version, Self::Error>);

    fn persist_snapshot<I: AggregateId<A>>(
        &mut self,
        id: &I,
        aggregate: &A,
        version: Version,
        last_snapshot_version: Version,
    ) -> (r: Result<Version, Self::Error>)
        ensures
            (*final(self), r) == old(self).persist_spec(
                id.id(),
                *aggregate,
                version,
                last_snapshot_version,
            ),
    ;
}

/// The entity that a snapshot and the events read after it give: `None`
/// when there is neither a snapshot nor an event.
pub open spec fn rehydrated<A: Aggregate>(
    snap: Option<StateSnapshot<A>>,
    read: Option<Seq<SequencedEvent<A::Event>>>,
) -> Option<HydratedAggregate<A>> {
    if snap is None && read_or_empty(read).len() == 0 {
        None
    } else {
        Some(hydrated(parts_after(loaded_parts(snap), read_or_empty(read))))
    }
}

/// What loading the entity `id` from `store` gives: its latest snapshot, then
/// the events after it.
pub open spec fn loaded_entity<A: Aggregate, T: EventSource<A> + SnapshotSource<A>>(store: T, id: Seq<char>) -> Result<
    Option<HydratedAggregate<A>>,
    EntityLoadError<<T as EventSource<A>>::Error, <T as SnapshotSource<A>>::Error>,
> {
    match store.snapshot_spec(id) {
        Err(e) => Err(EntityLoadError::SnapshotSource(e)),
        Ok(snap) => match store.read_spec(id, loaded_parts(snap).0.since(), None) {
            Err(e) => Err(EntityLoadError::EventSource(e)),
            Ok(read) => Ok(rehydrated(snap, read)),
        },
    }
}

/// Whether the version of the entity `id` loaded from `store` stays within
/// `usize`.
pub open spec fn loads_within<A: Aggregate, T: EventSource<A> + SnapshotSource<A>>(store: T, id: Seq<char>) -> bool {
    match store.snapshot_spec(id) {
        Ok(snap) => match store.read_spec(id, loaded_parts(snap).0.since(), None) {
            Ok(Some(evs)) => loaded_parts(snap).0.value() + evs.len() < usize::MAX,
            _ => true,
        },
        _ => true,
    }
}

/// Loading entities from an event source and a snapshot source.
pub trait EntitySource<A: Aggregate>: EventSource<A> + SnapshotSource<A> {
    /// Loads an entity from its latest snapshot; `None` when it has none.
    fn load_from_snapshot<I: AggregateId<A>>(&self, id: &I) -> (r: Result<
        Option<HydratedAggregate<A>>,
        <Self as SnapshotSource<A>>::Error,
    >)
        ensures
            match self.snapshot_spec(id.id()) {
                Err(e) => r == Err::<Option<HydratedAggregate<A>>, <Self as SnapshotSource<A>>::Error>(e),
                Ok(None) => r matches Ok(None),
                Ok(Some(s)) => r matches Ok(Some(h)) && is_parts(h, loaded_parts(Some(s))),
            },
    {
        match self.get_snapshot(id) {
            Ok(Some(snapshot)) => Ok(
                Some(HydratedAggregate::from_parts(snapshot.version, snapshot.version, snapshot.snapshot)),
            ),
            Ok(None) => Ok(None),
            Err(e) => Err(e),
        }
    }

    /// Applies to `aggregate` the events of its stream after its version.
    fn refresh<I: AggregateId<A>>(&self, id: &I, aggregate: &mut HydratedAggregate<A>) -> (r: Result<
        (),
        <Self as EventSource<A>>::Error,
    >)
        requires
            match self.read_spec(id.id(), old(aggregate).version_spec().since(), None) {
                Ok(Some(evs)) => old(aggregate).version_spec().value() + evs.len() < usize::MAX,
                _ => true,
            },
        ensures
            match self.read_spec(id.id(), old(aggregate).version_spec().since(), None) {
                Err(e) => r == Err::<(), <Self as EventSource<A>>::Error>(e) && *final(aggregate) == *old(aggregate),
                Ok(read) => r is Ok && HydratedAggregate::applied_all(
                    *old(aggregate),
                    *final(aggregate),
                    read_or_empty(read),
                ),
            },
    {
        let seq_events = match self.read_events(id, aggregate.version().to_since(), None) {
            Ok(e) => e,
            Err(e) => return Err(e),
        };
        match seq_events {
            Some(seq_events) => {
                let ghost evs = seq_events@;
                let mut events: Vec<A::Event> = Vec::new();
                for seq_event in it: seq_events.into_iter()
                    invariant
                        evs == it.seq(),
                        events@ == payloads(it.seq().take(it.index() as int)),
                {
                    proof {
                        assert(payloads(it.seq().take(it.index() + 1)) =~= payloads(it.seq().take(it.index() as int)).push(seq_event.event));
                    }
                    events.push(seq_event.event);
                }
                proof {
                    assert(evs.take(evs.len() as int) =~= evs);
                }
                aggregate.apply_events(events);
            },
            None => {
                proof {
                    assert(crate::aggregate::apply_all::<A>(aggregate.state_spec(), Seq::empty()) == aggregate.state_spec());
                }
            },
        }
        Ok(())
    }

    /// Loads an entity from its latest snapshot (or from scratch), then
    /// applies the events after it; `None` when there is neither a snapshot
    /// nor an event.
    fn rehydrate<I: AggregateId<A>>(&self, id: &I) -> (r: Result<
        Option<HydratedAggregate<A>>,
        EntityLoadError<<Self as EventSource<A>>::Error, <Self as SnapshotSource<A>>::Error>,
    >)
        requires
            loads_within(*self, id.id()),
        ensures
            r == loaded_entity(*self, id.id()),
    {
        let aggregate = match self.load_from_snapshot(id) {
            Ok(a) => a,
            Err(e) => return Err(EntityLoadError::SnapshotSource(e)),
        };
        let missing = aggregate.is_none();
        let mut aggregate = match aggregate {
            Some(a) => a,
            None => HydratedAggregate::default(),
        };
        let ghost before = aggregate;
        match self.refresh(id, &mut aggregate) {
            Ok(_) => {},
            Err(e) => return Err(EntityLoadError::EventSource(e)),
        }
        if missing && aggregate.version() == Version::Initial {
            Ok(None)
        } else {
            proof {
                let snap = self.snapshot_spec(id.id())->Ok_0;
                let read = self.read_spec(id.id(), before.version_spec().since(), None)->Ok_0;
                if read_or_empty(read).len() > 0 {
                    Version::lemma_of_count(before.version_spec().value() + read_or_empty(read).len());
                }
                lemma_hydrated(aggregate, parts_after(loaded_parts(snap), read_or_empty(read)));
            }
            Ok(Some(aggregate))
        }
    }
}

impl<A: Aggregate, T: EventSource<A> + SnapshotSource<A>> EntitySource<A> for T {

}

/// The base an execution starts from: the given aggregate, or the initial one.
pub open spec fn base_parts<A: Aggregate>(aggregate: Option<HydratedAggregate<A>>) -> Parts<A> {
    match aggregate {
        Some(h) => (h.version_spec(), h.snapshot_version_spec(), h.state_spec()),
        None => (Version::Initial, Version::Initial, A::initial()),
    }
}

/// Whether the events `command` produces against the base of `aggregate`
/// still leave its version within `usize`.
pub open spec fn exec_fits<A: Aggregate>(aggregate: Option<HydratedAggregate<A>>, command: A::Command) -> bool {
    match base_parts(aggregate).2.executed(command) {
        Ok(evs) => base_parts(aggregate).0.value() + evs.len() < usize::MAX,
        Err(_) => true,
    }
}

/// The sink and the outcome after `apply_events_and_persist` with an
/// aggregate that had parts `p`: the parts it ends with, and the result.
pub open spec fn apply_and_persist_spec<A: Aggregate, M, T: EventSink<A, M> + SnapshotSink<A>>(
    sink: T,
    id: Seq<char>,
    p: Parts<A>,
    events: Seq<A::Event>,
    expected_version: Version,
    metadata: M,
) -> (T, Parts<A>, Result<(), EntityPersistError<<T as EventSink<A, M>>::Error, <T as SnapshotSink<A>>::Error>>) {
    let (s1, appended) = sink.append_spec(
        id,
        events,
        Some(Precondition::ExpectedVersion(expected_version)),
        metadata,
    );
    match appended {
        Err(e) => (s1, p, Err(EntityPersistError::EventSink(e))),
        Ok(_) => {
            let q = parts_after(p, events);
            let (s2, persisted) = s1.persist_spec(id, q.2, q.0, q.1);
            match persisted {
                Err(e) => (s2, q, Err(EntityPersistError::SnapshotSink(e))),
                Ok(v) => (s2, (q.0, v, q.2), Ok(())),
            }
        },
    }
}

/// The sink and the outcome after `exec_and_persist`: the precondition is
/// checked against the version of `aggregate` (none when it does not exist),
/// the command is executed against it (the initial aggregate when `None`), and
/// the new events are appended at its version, applied and snapshotted.
pub open spec fn exec_and_persist_spec<A: Aggregate, M, T: EventSink<A, M> + SnapshotSink<A>>(
    sink: T,
    id: Seq<char>,
    aggregate: Option<HydratedAggregate<A>>,
    command: A::Command,
    precondition: Option<Precondition>,
    metadata: M,
) -> (T, Result<
    HydratedAggregate<A>,
    EntityExecAndPersistError<A, A::Error, <T as EventSink<A, M>>::Error, <T as SnapshotSink<A>>::Error>,
>) {
    let current = match aggregate {
        Some(h) => Some(h.version_spec()),
        None => None,
    };
    let b = base_parts(aggregate);
    if precondition matches Some(p) && !p.holds(current) {
        (sink, Err(EntityExecAndPersistError::PreconditionFailed(precondition->Some_0)))
    } else {
        match b.2.executed(command) {
            Err(e) => (sink, Err(EntityExecAndPersistError::Exec(hydrated(b), e))),
            Ok(events) => {
                let (s, p, res) = apply_and_persist_spec(sink, id, b, events, b.0, metadata);
                (s, match res {
                    Err(e) => Err(EntityExecAndPersistError::Persist(e)),
                    Ok(_) => Ok(hydrated(p)),
                })
            },
        }
    }
}

/// Persisting entities to an event sink and a snapshot sink.
pub trait EntitySink<A: Aggregate, M>: EventSink<A, M> + SnapshotSink<A> {
    /// Appends `events` to the stream of `id` provided it is still at
    /// `expected_version`, applies them to `aggregate`, then persists its
    /// snapshot and records the snapshot version the sink reports.
    fn apply_events_and_persist<I: AggregateId<A>>(
        &mut self,
        id: &I,
        aggregate: &mut HydratedAggregate<A>,
        events: Vec<A::Event>,
        expected_version: Version,
        metadata: M,
    ) -> (r: Result<(), EntityPersistError<<Self as EventSink<A, M>>::Error, <Self as SnapshotSink<A>>::Error>>)
        requires
            old(aggregate).version_spec().value() + events@.len() < usize::MAX,
        ensures
            ({
                let (s, p, res) = apply_and_persist_spec(
                    *old(self),
                    id.id(),
                    (old(aggregate).version_spec(), old(aggregate).snapshot_version_spec(), old(aggregate).state_spec()),
                    events@,
                    expected_version,
                    metadata,
                );
                &&& *final(self) == s
                &&& is_parts(*final(aggregate), p)
                &&& r == res
            }),
    {
        match self.append_events(
            id,
            events.as_slice(),
            Some(Precondition::ExpectedVersion(expected_version)),
            metadata,
        ) {
            Ok(_) => {},
            Err(e) => return Err(EntityPersistError::EventSink(e)),
        }
        aggregate.apply_events(events);
        let version = aggregate.version();
        let snapshot_version = aggregate.snapshot_version();
        let new_snapshot_version = match self.persist_snapshot(
            id,
            aggregate.state(),
            version,
            snapshot_version,
        ) {
            Ok(v) => v,
            Err(e) => return Err(EntityPersistError::SnapshotSink(e)),
        };
        aggregate.set_snapshot_version(new_snapshot_version);
        Ok(())
    }

    /// Executes `command` against `aggregate` (the initial aggregate when
    /// `None`) unless `precondition` refuses its version, then appends,
    /// applies and snapshots the new events. Returns the resulting aggregate.
    fn exec_and_persist<I: AggregateId<A>>(
        &mut self,
        id: &I,
        aggregate: Option<HydratedAggregate<A>>,
        command: A::Command,
        precondition: Option<Precondition>,
        metadata: M,
    ) -> (r: Result<HydratedAggregate<A>, EntityExecAndPersistError<A, A::Error, <Self as EventSink<A, M>>::Error, <Self as SnapshotSink<A>>::Error>>)
        requires
            exec_fits(aggregate, command),
        ensures
            (*final(self), r) == exec_and_persist_spec(*old(self), id.id(), aggregate, command, precondition, metadata),
    {
        if let Some(p) = precondition {
            let initial_version = match &aggregate {
                Some(agg) => Some(agg.version()),
                None => None,
            };
            match p.verify(initial_version) {
                Ok(_) => {},
                Err(e) => return Err(EntityExecAndPersistError::PreconditionFailed(e)),
            }
        }
        let ghost b = base_parts(aggregate);
        let mut aggregate = match aggregate {
            Some(a) => a,
            None => HydratedAggregate::default(),
        };
        proof {
            lemma_hydrated(aggregate, b);
        }
        let expected_version = aggregate.version();
        match aggregate.state().execute(command) {
            Ok(events) => {
                match self.apply_events_and_persist(id, &mut aggregate, events, expected_version, metadata) {
                    Ok(_) => {},
                    Err(e) => return Err(EntityExecAndPersistError::Persist(e)),
                }
                proof {
                    let (_, p, _) = apply_and_persist_spec(*old(self), id.id(), b, events@, b.0, metadata);
                    lemma_hydrated(aggregate, p);
                }
            },
            Err(e) => {
                return Err(EntityExecAndPersistError::Exec(aggregate, e));
            },
        }
        Ok(aggregate)
    }
}

impl<A: Aggregate, M, T: EventSink<A, M> + SnapshotSink<A>> EntitySink<A, M> for T {

}

/// The entity error that an execution outcome becomes.
pub open spec fn widen_result<LEErr, LSErr, A, CmdErr, PEErr, PSErr>(
    r: Result<HydratedAggregate<A>, EntityExecAndPersistError<A, CmdErr, PEErr, PSErr>>,
) -> Result<HydratedAggregate<A>, EntityError<LEErr, LSErr, A, CmdErr, PEErr, PSErr>> {
    match r {
        Ok(h) => Ok(h),
        Err(e) => Err(widen_error(e)),
    }
}

/// Whether `store` can load the entity `id` and execute `command` against it
/// with every version staying within `usize`.
pub open spec fn store_fits<A: Aggregate, M, T: EntitySource<A> + EntitySink<A, M>>(
    store: T,
    id: Seq<char>,
    command: A::Command,
) -> bool {
    &&& loads_within(store, id)
    &&& match loaded_entity(store, id) {
        Ok(aggregate) => exec_fits(aggregate, command),
        Err(_) => true,
    }
}

/// Loading, executing against and persisting entities in one store.
pub trait EntityStore<A: Aggregate, M>: EntitySource<A> + EntitySink<A, M> {
    /// Loads an entity (the initial aggregate when it does not exist),
    /// executes `command` and persists the outcome.
    fn load_or_default_exec_and_persist<I: AggregateId<A>>(
        &mut self,
        id: &I,
        command: A::Command,
        precondition: Option<Precondition>,
        metadata: M,
    ) -> (r: Result<HydratedAggregate<A>, EntityError<<Self as EventSource<A>>::Error, <Self as SnapshotSource<A>>::Error, A, A::Error, <Self as EventSink<A, M>>::Error, <Self as SnapshotSink<A>>::Error>>)
        requires
            store_fits::<A, M, Self>(*old(self), id.id(), command),
        ensures
            match loaded_entity(*old(self), id.id()) {
                Err(e) => *final(self) == *old(self) && (r matches Err(EntityError::Load(e2)) && e2 == e),
                Ok(aggregate) => {
                    let (s, res) = exec_and_persist_spec(*old(self), id.id(), aggregate, command, precondition, metadata);
                    *final(self) == s && r == widen_result::<<Self as EventSource<A>>::Error, <Self as SnapshotSource<A>>::Error, A, A::Error, <Self as EventSink<A, M>>::Error, <Self as SnapshotSink<A>>::Error>(res)
                },
            },
    {
        let aggregate = match self.rehydrate(id) {
            Ok(a) => a,
            Err(e) => return Err(EntityError::Load(e)),
        };
        match self.exec_and_persist(id, aggregate, command, precondition, metadata) {
            Ok(a) => Ok(a),
            Err(e) => Err(EntityError::from_exec_error(e)),
        }
    }

    /// Loads an entity, executes `command` and persists the outcome; `Ok(None)`
    /// when the entity does not exist.
    fn load_exec_and_persist<I: AggregateId<A>>(
        &mut self,
        id: &I,
        command: A::Command,
        precondition: Option<Precondition>,
        metadata: M,
    ) -> (r: Result<Option<HydratedAggregate<A>>, EntityError<<Self as EventSource<A>>::Error, <Self as SnapshotSource<A>>::Error, A, A::Error, <Self as EventSink<A, M>>::Error, <Self as SnapshotSink<A>>::Error>>)
        requires
            store_fits::<A, M, Self>(*old(self), id.id(), command),
        ensures
            match loaded_entity(*old(self), id.id()) {
                Err(e) => *final(self) == *old(self) && (r matches Err(EntityError::Load(e2)) && e2 == e),
                Ok(None) => *final(self) == *old(self) && r matches Ok(None),
                Ok(Some(h)) => {
                    let (s, res) = exec_and_persist_spec(*old(self), id.id(), Some(h), command, precondition, metadata);
                    &&& *final(self) == s
                    &&& match widen_result::<<Self as EventSource<A>>::Error, <Self as SnapshotSource<A>>::Error, A, A::Error, <Self as EventSink<A, M>>::Error, <Self as SnapshotSink<A>>::Error>(res) {
                        Ok(h2) => r matches Ok(Some(h3)) && h3 == h2,
                        Err(e) => r matches Err(e3) && e3 == e,
                    }
                },
            },
    {
        match self.rehydrate(id) {
            Ok(Some(aggregate)) => {
                match self.exec_and_persist(id, Some(aggregate), command, precondition, metadata) {
                    Ok(a) => Ok(Some(a)),
                    Err(e) => Err(EntityError::from_exec_error(e)),
                }
            },
            Ok(None) => Ok(None),
            Err(e) => Err(EntityError::Load(e)),
        }
    }
}

impl<A: Aggregate, M, T: EntitySource<A> + EntitySink<A, M>> EntityStore<A, M> for T {

}

/// Why loading an entity failed.
#[derive(Clone, Copy, Debug, PartialEq, Eq)]
pub enum EntityLoadError<EErr, SErr> {
    /// Loading the events failed.
    EventSource(EErr),
    /// Loading the snapshot failed.
    SnapshotSource(SErr),
}

/// Why persisting an entity failed.
#[derive(Clone, Copy, Debug, PartialEq, Eq)]
pub enum EntityPersistError<EErr, SErr> {
    /// Persisting the events failed.
    EventSink(EErr),
    /// Persisting the snapshot failed; the events were persisted.
    SnapshotSink(SErr),
}

/// Why executing a command against an entity and persisting it failed.
#[derive(Clone, Debug, PartialEq, Eq)]
pub enum EntityExecAndPersistError<A, CmdErr, PEErr, PSErr> {
    /// The aggregate was not in the state the precondition asked for.
    PreconditionFailed(Precondition),
    /// The command was refused.
    Exec(HydratedAggregate<A>, CmdErr),
    /// Persisting failed.
    Persist(EntityPersistError<PEErr, PSErr>),
}

/// Why loading an entity, executing a command and persisting failed.
#[derive(Clone, Debug, PartialEq, Eq)]
pub enum EntityError<LEErr, LSErr, A, CmdErr, PEErr, PSErr> {
    Load(EntityLoadError<LEErr, LSErr>),
    PreconditionFailed(Precondition),
    Exec(HydratedAggregate<A>, CmdErr),
    Persist(EntityPersistError<PEErr, PSErr>),
}

impl<A, CmdErr, PEErr, PSErr> From<Precondition> for EntityExecAndPersistError<A, CmdErr, PEErr, PSErr> {
    fn from(p: Precondition) -> (e: Self) {
        EntityExecAndPersistError::PreconditionFailed(p)
    }
}

impl<A, CmdErr, PEErr, PSErr> vstd::std_specs::convert::FromSpecImpl<Precondition> for EntityExecAndPersistError<A, CmdErr, PEErr, PSErr> {
    open spec fn obeys_from_spec() -> bool {
        true
    }

    open spec fn from_spec(p: Precondition) -> Self {
        EntityExecAndPersistError::PreconditionFailed(p)
    }
}

/// The entity error an execution error becomes.
pub open spec fn widen_error<LEErr, LSErr, A, CmdErr, PEErr, PSErr>(
    e: EntityExecAndPersistError<A, CmdErr, PEErr, PSErr>,
) -> EntityError<LEErr, LSErr, A, CmdErr, PEErr, PSErr> {
    match e {
        EntityExecAndPersistError::PreconditionFailed(p) => EntityError::PreconditionFailed(p),
        EntityExecAndPersistError::Exec(agg, err) => EntityError::Exec(agg, err),
        EntityExecAndPersistError::Persist(e) => EntityError::Persist(e),
    }
}

impl<LEErr, LSErr, A, CmdErr, PEErr, PSErr> EntityError<LEErr, LSErr, A, CmdErr, PEErr, PSErr> {
    /// The entity error an execution error becomes.
    pub fn from_exec_error(err: EntityExecAndPersistError<A, CmdErr, PEErr, PSErr>) -> (e: Self)
        ensures
            e == widen_error::<LEErr, LSErr, A, CmdErr, PEErr, PSErr>(err),
    {
        match err {
            EntityExecAndPersistError::PreconditionFailed(q) => EntityError::PreconditionFailed(q),
            EntityExecAndPersistError::Exec(agg, x) => EntityError::Exec(agg, x),
            EntityExecAndPersistError::Persist(x) => EntityError::Persist(x),
        }
    }
}

/// Applying events to an aggregate in two batches gives the same parts as
/// applying them at once.
pub proof fn law_apply_in_batches<A: Aggregate>(p: Parts<A>, a: Seq<A::Event>, b: Seq<A::Event>)
    requires
        p.0.value() + a.len() + b.len() <= usize::MAX,
    ensures
        parts_after(parts_after(p, a), b) == parts_after(p, a + b),
{
    crate::aggregate::law_apply_all_concat::<A>(p.2, a, b);
    if a.len() > 0 {
        Version::lemma_of_count(p.0.value() + a.len());
    }
    if b.len() == 0 {
        assert(a + b =~= a);
    }
}

/// An execution whose precondition refuses the aggregate's version leaves
/// the sink unchanged and fails with that precondition.
pub proof fn law_failed_precondition_changes_nothing<A: Aggregate, M, T: EventSink<A, M> + SnapshotSink<A>>(
    sink: T,
    id: Seq<char>,
    aggregate: Option<HydratedAggregate<A>>,
    command: A::Command,
    p: Precondition,
    metadata: M,
)
    requires
        !p.holds(
            match aggregate {
                Some(h) => Some(h.version_spec()),
                None => None,
            },
        ),
    ensures
        exec_and_persist_spec(sink, id, aggregate, command, Some(p), metadata).0 == sink,
        exec_and_persist_spec(sink, id, aggregate, command, Some(p), metadata).1 matches Err(
            EntityExecAndPersistError::PreconditionFailed(q),
        ) && q == p,
{
}

/// A command that the aggregate refuses leaves the sink unchanged and fails
/// with the aggregate as it was and the aggregate's error.
pub proof fn law_refused_command_changes_nothing<A: Aggregate, M, T: EventSink<A, M> + SnapshotSink<A>>(
    sink: T,
    id: Seq<char>,
    aggregate: Option<HydratedAggregate<A>>,
    command: A::Command,
    precondition: Option<Precondition>,
    metadata: M,
)
    requires
        base_parts(aggregate).2.executed(command) is Err,
        precondition matches Some(p) ==> p.holds(
            match aggregate {
                Some(h) => Some(h.version_spec()),
                None => None,
            },
        ),
    ensures
        exec_and_persist_spec(sink, id, aggregate, command, precondition, metadata).0 == sink,
        exec_and_persist_spec(sink, id, aggregate, command, precondition, metadata).1 matches Err(
            EntityExecAndPersistError::Exec(h, e),
        ) && is_parts(h, base_parts(aggregate)) && Err::<Seq<A::Event>, A::Error>(e) == base_parts(aggregate).2.executed(command),
{
    lemma_hydrated(hydrated(base_parts(aggregate)), base_parts(aggregate));
}

/// An event source and a snapshot source of different types, borrowed and
/// used jointly as one entity source.
#[derive(Debug)]
pub struct CompositeEntitySource<'e, 's, A, ES, SS> {
    event_source: &'e ES,
    snapshot_source: &'s SS,
    _phantom: PhantomData<A>,
}

impl<'e, 's, A, ES, SS> CompositeEntitySource<'e, 's, A, ES, SS> {
    /// The event source.
    pub closed spec fn event_source_spec(&self) -> ES {
        *self.event_source
    }

    /// The snapshot source.
    pub closed spec fn snapshot_source_spec(&self) -> SS {
        *self.snapshot_source
    }

    /// The sources `event_source` and `snapshot_source`, used jointly.
    pub fn new(event_source: &'e ES, snapshot_source: &'s SS) -> (c: Self)
        ensures
            c.event_source_spec() == *event_source,
            c.snapshot_source_spec() == *snapshot_source,
    {
        CompositeEntitySource { event_source, snapshot_source, _phantom: PhantomData }
    }

    /// The same composite with its event source replaced.
    pub fn with_event_source<'n, NewES>(self, event_source: &'n NewES) -> (c: CompositeEntitySource<'n, 's, A, NewES, SS>)
        ensures
            c.event_source_spec() == *event_source,
            c.snapshot_source_spec() == self.snapshot_source_spec(),
    {
        CompositeEntitySource { event_source, snapshot_source: self.snapshot_source, _phantom: PhantomData }
    }

    /// The same composite with its snapshot source replaced.
    pub fn with_snapshot_source<'n, NewSS>(self, snapshot_source: &'n NewSS) -> (c: CompositeEntitySource<'e, 'n, A, ES, NewSS>)
        ensures
            c.event_source_spec() == self.event_source_spec(),
            c.snapshot_source_spec() == *snapshot_source,
    {
        CompositeEntitySource { event_source: self.event_source, snapshot_source, _phantom: PhantomData }
    }
}

impl<'e, 's, A: Aggregate, ES: EventSource<A>, SS> EventSource<A> for CompositeEntitySource<'e, 's, A, ES, SS> {
    type Error = ES::Error;

    open spec fn read_spec(&self, id: Seq<char>, since: Since, max_count: Option<u64>) -> Result<
        Option<Seq<SequencedEvent<A::Event>>>,
        ES::Error,
    > {
        self.event_source_spec().read_spec(id, since, max_count)
    }

    fn read_events<I: AggregateId<A>>(&self, id: &I, since: Since, max_count: Option<u64>) -> (r: Result<
        Option<Vec<SequencedEvent<A::Event>>>,
        ES::Error,
    >) {
        self.event_source.read_events(id, since, max_count)
    }
}

impl<'e, 's, A, ES, SS: SnapshotSource<A>> SnapshotSource<A> for CompositeEntitySource<'e, 's, A, ES, SS> {
    type Error = SS::Error;

    open spec fn snapshot_spec(&self, id: Seq<char>) -> Result<Option<StateSnapshot<A>>, SS::Error> {
        self.snapshot_source_spec().snapshot_spec(id)
    }

    fn get_snapshot<I: AggregateId<A>>(&self, id: &I) -> (r: Result<Option<StateSnapshot<A>>, SS::Error>) {
        self.snapshot_source.get_snapshot(id)
    }
}

/// An event sink and a snapshot sink of different types, used jointly as
/// one entity sink. Writing changes a sink, so the composite holds the sinks
/// themselves; `into_parts` hands them back.
#[derive(Debug)]
pub struct CompositeEntitySink<A, M, ES, SS> {
    event_sink: ES,
    snapshot_sink: SS,
    _phantom: PhantomData<(A, M)>,
}

impl<A, M, ES, SS> CompositeEntitySink<A, M, ES, SS> {
    /// The event sink.
    pub closed spec fn event_sink_spec(&self) -> ES {
        self.event_sink
    }

    /// The snapshot sink.
    pub closed spec fn snapshot_sink_spec(&self) -> SS {
        self.snapshot_sink
    }

    /// The composite of `event_sink` and `snapshot_sink`.
    pub closed spec fn of(event_sink: ES, snapshot_sink: SS) -> Self {
        CompositeEntitySink { event_sink, snapshot_sink, _phantom: PhantomData }
    }

    /// A composite is made of its two sinks, and determined by them.
    pub proof fn lemma_of(self, event_sink: ES, snapshot_sink: SS)
        ensures
            Self::of(event_sink, snapshot_sink).event_sink_spec() == event_sink,
            Self::of(event_sink, snapshot_sink).snapshot_sink_spec() == snapshot_sink,
            self == Self::of(self.event_sink_spec(), self.snapshot_sink_spec()),
    {
    }

    /// The sinks `event_sink` and `snapshot_sink`, used jointly.
    pub fn new(event_sink: ES, snapshot_sink: SS) -> (c: Self)
        ensures
            c == Self::of(event_sink, snapshot_sink),
    {
        CompositeEntitySink { event_sink, snapshot_sink, _phantom: PhantomData }
    }

    /// The same composite with its event sink replaced.
    pub fn with_event_sink<NewES>(self, event_sink: NewES) -> (c: CompositeEntitySink<A, M, NewES, SS>)
        ensures
            c == CompositeEntitySink::<A, M, NewES, SS>::of(event_sink, self.snapshot_sink_spec()),
    {
        CompositeEntitySink { event_sink, snapshot_sink: self.snapshot_sink, _phantom: PhantomData }
    }

    /// The same composite with its snapshot sink replaced.
    pub fn with_snapshot_sink<NewSS>(self, snapshot_sink: NewSS) -> (c: CompositeEntitySink<A, M, ES, NewSS>)
        ensures
            c == CompositeEntitySink::<A, M, ES, NewSS>::of(self.event_sink_spec(), snapshot_sink),
    {
        CompositeEntitySink { event_sink: self.event_sink, snapshot_sink, _phantom: PhantomData }
    }

    /// The two sinks.
    pub fn into_parts(self) -> (p: (ES, SS))
        ensures
            p == (self.event_sink_spec(), self.snapshot_sink_spec()),
    {
        (self.event_sink, self.snapshot_sink)
    }
}

impl<A: Aggregate, M, ES: EventSink<A, M>, SS> EventSink<A, M> for CompositeEntitySink<A, M, ES, SS> {
    type Error = ES::Error;

    open spec fn append_spec(
        self,
        id: Seq<char>,
        events: Seq<A::Event>,
        precondition: Option<Precondition>,
        metadata: M,
    ) -> (Self, Result<EventNumber, ES::Error>) {
        let (e, r) = self.event_sink_spec().append_spec(id, events, precondition, metadata);
        (Self::of(e, self.snapshot_sink_spec()), r)
    }

    fn append_events<I: AggregateId<A>>(
        &mut self,
        id: &I,
        events: &[A::Event],
        precondition: Option<Precondition>,
        metadata: M,
    ) -> (r: Result<EventNumber, ES::Error>) {
        self.event_sink.append_events(id, events, precondition, metadata)
    }
}

impl<A, M, ES, SS: SnapshotSink<A>> SnapshotSink<A> for CompositeEntitySink<A, M, ES, SS> {
    type Error = SS::Error;

    open spec fn persist_spec(
        self,
        id: Seq<char>,
        aggregate: A,
        version: Version,
        last_snapshot_version: Version,
    ) -> (Self, Result<Version, SS::Error>) {
        let (s, r) = self.snapshot_sink_spec().persist_spec(id, aggregate, version, last_snapshot_version);
        (Self::of(self.event_sink_spec(), s), r)
    }

    fn persist_snapshot<I: AggregateId<A>>(
        &mut self,
        id: &I,
        aggregate: &A,
        version: Version,
        last_snapshot_version: Version,
    ) -> (r: Result<Version, SS::Error>) {
        self.snapshot_sink.persist_snapshot(id, aggregate, version, last_snapshot_version)
    }
}

/// An entity source and an entity sink of different types, used jointly as
/// one entity store: reads go to the source, writes to the sink.
#[derive(Debug)]
pub struct CompositeEntityStore<A, M, ES, SS> {
    entity_source: ES,
    entity_sink: SS,
    _phantom: PhantomData<(A, M)>,
}

impl<A, M, ES, SS> CompositeEntityStore<A, M, ES, SS> {
    /// The entity source.
    pub closed spec fn entity_source_spec(&self) -> ES {
        self.entity_source
    }

    /// The entity sink.
    pub closed spec fn entity_sink_spec(&self) -> SS {
        self.entity_sink
    }

    /// The composite of `entity_source` and `entity_sink`.
    pub closed spec fn of(entity_source: ES, entity_sink: SS) -> Self {
        CompositeEntityStore { entity_source, entity_sink, _phantom: PhantomData }
    }

    /// A composite is made of its source and sink, and determined by them.
    pub proof fn lemma_of(self, entity_source: ES, entity_sink: SS)
        ensures
            Self::of(entity_source, entity_sink).entity_source_spec() == entity_source,
            Self::of(entity_source, entity_sink).entity_sink_spec() == entity_sink,
            self == Self::of(self.entity_source_spec(), self.entity_sink_spec()),
    {
    }

    /// The source `entity_source` and the sink `entity_sink`, used jointly.
    pub fn new(entity_source: ES, entity_sink: SS) -> (c: Self)
        ensures
            c == Self::of(entity_source, entity_sink),
    {
        CompositeEntityStore { entity_source, entity_sink, _phantom: PhantomData }
    }

    /// The same composite with its entity source replaced.
    pub fn with_entity_source<NewES>(self, entity_source: NewES) -> (c: CompositeEntityStore<A, M, NewES, SS>)
        ensures
            c == CompositeEntityStore::<A, M, NewES, SS>::of(entity_source, self.entity_sink_spec()),
    {
        CompositeEntityStore { entity_source, entity_sink: self.entity_sink, _phantom: PhantomData }
    }

    /// The same composite with its entity sink replaced.
    pub fn with_entity_sink<NewSS>(self, entity_sink: NewSS) -> (c: CompositeEntityStore<A, M, ES, NewSS>)
        ensures
            c == CompositeEntityStore::<A, M, ES, NewSS>::of(self.entity_source_spec(), entity_sink),
    {
        CompositeEntityStore { entity_source: self.entity_source, entity_sink, _phantom: PhantomData }
    }

    /// The source and the sink.
    pub fn into_parts(self) -> (p: (ES, SS))
        ensures
            p == (self.entity_source_spec(), self.entity_sink_spec()),
    {
        (self.entity_source, self.entity_sink)
    }
}

impl<A: Aggregate, M, ES: EventSource<A>, SS> EventSource<A> for CompositeEntityStore<A, M, ES, SS> {
    type Error = ES::Error;

    open spec fn read_spec(&self, id: Seq<char>, since: Since, max_count: Option<u64>) -> Result<
        Option<Seq<SequencedEvent<A::Event>>>,
        ES::Error,
    > {
        self.entity_source_spec().read_spec(id, since, max_count)
    }

    fn read_events<I: AggregateId<A>>(&self, id: &I, since: Since, max_count: Option<u64>) -> (r: Result<
        Option<Vec<SequencedEvent<A::Event>>>,
        ES::Error,
    >) {
        self.entity_source.read_events(id, since, max_count)
    }
}

impl<A, M, ES: SnapshotSource<A>, SS> SnapshotSource<A> for CompositeEntityStore<A, M, ES, SS> {
    type Error = ES::Error;

    open spec fn snapshot_spec(&self, id: Seq<char>) -> Result<Option<StateSnapshot<A>>, ES::Error> {
        self.entity_source_spec().snapshot_spec(id)
    }

    fn get_snapshot<I: AggregateId<A>>(&self, id: &I) -> (r: Result<Option<StateSnapshot<A>>, ES::Error>) {
        self.entity_source.get_snapshot(id)
    }
}

impl<A: Aggregate, M, ES, SS: EventSink<A, M>> EventSink<A, M> for CompositeEntityStore<A, M, ES, SS> {
    type Error = SS::Error;

    open spec fn append_spec(
        self,
        id: Seq<char>,
        events: Seq<A::Event>,
        precondition: Option<Precondition>,
        metadata: M,
    ) -> (Self, Result<EventNumber, SS::Error>) {
        let (s, r) = self.entity_sink_spec().append_spec(id, events, precondition, metadata);
        (Self::of(self.entity_source_spec(), s), r)
    }

    fn append_events<I: AggregateId<A>>(
        &mut self,
        id: &I,
        events: &[A::Event],
        precondition: Option<Precondition>,
        metadata: M,
    ) -> (r: Result<EventNumber, SS::Error>) {
        self.entity_sink.append_events(id, events, precondition, metadata)
    }
}

impl<A, M, ES, SS: SnapshotSink<A>> SnapshotSink<A> for CompositeEntityStore<A, M, ES, SS> {
    type Error = SS::Error;

    open spec fn persist_spec(
        self,
        id: Seq<char>,
        aggregate: A,
        version: Version,
        last_snapshot_version: Version,
    ) -> (Self, Result<Version, SS::Error>) {
        let (s, r) = self.entity_sink_spec().persist_spec(id, aggregate, version, last_snapshot_version);
        (Self::of(self.entity_source_spec(), s), r)
    }

    fn persist_snapshot<I: AggregateId<A>>(
        &mut self,
        id: &I,
        aggregate: &A,
        version: Version,
        last_snapshot_version: Version,
    ) -> (r: Result<Version, SS::Error>) {
        self.entity_sink.persist_snapshot(id, aggregate, version, last_snapshot_version)
    }
}

/// Persisting after an append snapshots the aggregate with the new events
/// applied, at the version that counts them on from its own (its version
/// unchanged when there is no new event), and the aggregate comes out at that
/// version with the snapshot version the sink reports; a refused append
/// leaves the aggregate as it was.
pub proof fn law_snapshot_counts_the_new_events<A: Aggregate, M, T: EventSink<A, M> + SnapshotSink<A>>(
    sink: T,
    id: Seq<char>,
    p: Parts<A>,
    events: Seq<A::Event>,
    expected_version: Version,
    metadata: M,
)
    ensures
        ({
            let (s1, appended) = sink.append_spec(
                id,
                events,
                Some(Precondition::ExpectedVersion(expected_version)),
                metadata,
            );
            let (after, q, r) = apply_and_persist_spec(sink, id, p, events, expected_version, metadata);
            let version = if events.len() > 0 {
                Version::of_count(p.0.value() + events.len())
            } else {
                p.0
            };
            let state = crate::aggregate::apply_all::<A>(p.2, events);
            &&& appended is Err ==> after == s1 && q == p && r == Err::<
                (),
                EntityPersistError<<T as EventSink<A, M>>::Error, <T as SnapshotSink<A>>::Error>,
            >(EntityPersistError::EventSink(appended->Err_0))
            &&& appended is Ok ==> {
                let (s2, persisted) = s1.persist_spec(id, state, version, p.1);
                &&& after == s2
                &&& q.0 == version
                &&& q.2 == state
                &&& persisted is Ok ==> q.1 == persisted->Ok_0 && r is Ok
                &&& persisted is Err ==> q.1 == p.1 && r == Err::<
                    (),
                    EntityPersistError<<T as EventSink<A, M>>::Error, <T as SnapshotSink<A>>::Error>,
                >(EntityPersistError::SnapshotSink(persisted->Err_0))
            }
        }),
{
}

/// When persisting a snapshot fails, the events were already appended: the
/// sink holds them, and the aggregate has them applied.
pub proof fn law_snapshot_failure_comes_after_the_events<A: Aggregate, M, T: EventSink<A, M> + SnapshotSink<A>>(
    sink: T,
    id: Seq<char>,
    p: Parts<A>,
    events: Seq<A::Event>,
    expected_version: Version,
    metadata: M,
)
    ensures
        apply_and_persist_spec(sink, id, p, events, expected_version, metadata).2 matches Err(
            EntityPersistError::SnapshotSink(_),
        ) ==> {
            &&& sink.append_spec(id, events, Some(Precondition::ExpectedVersion(expected_version)), metadata).1 is Ok
            &&& apply_and_persist_spec(sink, id, p, events, expected_version, metadata).1 == parts_after(p, events)
        },
{
}

} // verus!
