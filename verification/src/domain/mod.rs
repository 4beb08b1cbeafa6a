//! Aggregates rebuilt from snapshots and events ("hydrated"), the sources and
//! sinks they are loaded from and written to, and the errors of doing so.
use vstd::prelude::*;
use crate::okazis::{Precondition, Since, Version};

pub mod command;
pub mod execute;
pub mod ident;
pub mod persist;
pub mod query;

verus! {

/// An event as read from a stream, with its version.
pub type VersionedEvent<Event> = crate::okazis::PersistedEvent<Event>;

/// A snapshot together with the version of the last event it includes.
#[derive(Debug, Clone, Copy, Hash, PartialEq)]
pub struct VersionedSnapshot<Snapshot> {
    pub version: Version,
    pub snapshot: Snapshot,
}

/// A consistency boundary whose state is a fold of its events.
///
/// An implementation describes its behaviour through `initial`, `applied`
/// and `executed`.
pub trait Aggregate: Sized {
    type Event;
    type Command;
    type CommandError;

    /// The state before any event.
    spec fn initial() -> Self;

    /// The state after `event`.
    spec fn applied(self, event: Self::Event) -> Self;

    /// What `command` produces against this state.
    spec fn executed(self, command: Self::Command) -> Result<Seq<Self::Event>, Self::CommandError>;

    fn default() -> (a: Self)
        ensures
            a == Self::initial(),
    ;

    fn apply(&mut self, event: Self::Event)
        ensures
            *final(self) == old(self).applied(event),
    ;

    fn execute(&self, command: Self::Command) -> (r: Result<Vec<Self::Event>, Self::CommandError>)
        ensures
            crate::okazis::command_view(r) == self.executed(command),
    ;
}

/// An aggregate that can be turned into a snapshot.
pub trait SnapshotAggregate: Aggregate {
    type Snapshot;

    /// The snapshot of this state.
    spec fn snapshot_of(self) -> Self::Snapshot;

    fn to_snapshot(self) -> (s: Self::Snapshot)
        ensures
            s == self.snapshot_of(),
    ;
}

/// An aggregate that can be restored from a snapshot.
pub trait RestoreAggregate: Aggregate {
    type Snapshot;

    /// The state a snapshot restores.
    spec fn restored(snapshot: Self::Snapshot) -> Self;

    fn restore(snapshot: Self::Snapshot) -> (a: Self)
        ensures
            a == Self::restored(snapshot),
    ;
}

/// The state reached from `state` by applying `events` in order.
pub open spec fn apply_all<A: Aggregate>(state: A, events: Seq<A::Event>) -> A
    decreases events.len(),
{
    if events.len() == 0 {
        state
    } else {
        apply_all(state, events.drop_last()).applied(events.last())
    }
}

/// Applying `a` then `b` is applying `a + b`.
pub proof fn lemma_apply_all_concat<A: Aggregate>(state: A, a: Seq<A::Event>, b: Seq<A::Event>)
    ensures
        apply_all(apply_all(state, a), b) == apply_all(state, a + b),
    decreases b.len(),
{
    if b.len() == 0 {
        assert(a + b =~= a);
    } else {
        lemma_apply_all_concat(state, a, b.drop_last());
        assert((a + b).drop_last() =~= a + b.drop_last());
    }
}

/// The version of an aggregate: `Initial` before any event, else the version
/// of the last event applied.
#[derive(Debug, Clone, Copy, Hash, PartialEq, Eq, PartialOrd, Ord, Structural)]
pub enum AggregateVersion {
    Initial,
    Version(Version),
}

impl AggregateVersion {
    /// The version after `rhs` more events; the count wraps at `usize::MAX`
    /// as unchecked `usize` addition does.
    pub open spec fn advanced(self, rhs: usize) -> AggregateVersion {
        if rhs == 0 {
            self
        } else {
            match self {
                AggregateVersion::Version(v) => AggregateVersion::Version(
                    Version(crate::okazis::wrapping_sum(v.0, rhs)),
                ),
                AggregateVersion::Initial => AggregateVersion::Version(Version((rhs - 1) as usize)),
            }
        }
    }

    /// Advances the version by `rhs` events.
    pub fn add_assign(&mut self, rhs: usize)
        ensures
            *final(self) == old(self).advanced(rhs),
    {
        if rhs == 0 {
            return ;
        }
        match *self {
            AggregateVersion::Version(v) => {
                *self = AggregateVersion::Version(v.add_wrapping(rhs));
            },
            AggregateVersion::Initial => {
                *self = AggregateVersion::Version(Version(rhs - 1));
            },
        }
    }

    /// Where to read a stream from to catch up from this version.
    pub open spec fn since(self) -> Since {
        match self {
            AggregateVersion::Initial => Since::BeginningOfStream,
            AggregateVersion::Version(v) => Since::Version(v),
        }
    }

    /// The precondition that the stream is still at this version.
    pub open spec fn precondition(self) -> Precondition {
        match self {
            AggregateVersion::Version(v) => Precondition::LastVersion(v),
            AggregateVersion::Initial => Precondition::EmptyStream,
        }
    }

    pub fn to_since(self) -> (s: Since)
        ensures
            s == self.since(),
    {
        match self {
            AggregateVersion::Initial => Since::BeginningOfStream,
            AggregateVersion::Version(v) => Since::Version(v),
        }
    }

    pub fn to_precondition(self) -> (p: Precondition)
        ensures
            p == self.precondition(),
    {
        match self {
            AggregateVersion::Version(v) => Precondition::LastVersion(v),
            AggregateVersion::Initial => Precondition::EmptyStream,
        }
    }
}

impl Default for AggregateVersion {
    fn default() -> (v: Self)
        ensures
            v == AggregateVersion::Initial,
    {
        AggregateVersion::Initial
    }
}

impl From<Version> for AggregateVersion {
    fn from(v: Version) -> (a: Self) {
        AggregateVersion::Version(v)
    }
}

impl vstd::std_specs::convert::FromSpecImpl<Version> for AggregateVersion {
    open spec fn obeys_from_spec() -> bool {
        true
    }

    open spec fn from_spec(v: Version) -> Self {
        AggregateVersion::Version(v)
    }
}

impl From<AggregateVersion> for Since {
    fn from(v: AggregateVersion) -> (s: Self) {
        v.to_since()
    }
}

impl vstd::std_specs::convert::FromSpecImpl<AggregateVersion> for Since {
    open spec fn obeys_from_spec() -> bool {
        true
    }

    open spec fn from_spec(v: AggregateVersion) -> Self {
        v.since()
    }
}

impl From<AggregateVersion> for Precondition {
    fn from(av: AggregateVersion) -> (p: Self) {
        av.to_precondition()
    }
}

impl vstd::std_specs::convert::FromSpecImpl<AggregateVersion> for Precondition {
    open spec fn obeys_from_spec() -> bool {
        true
    }

    open spec fn from_spec(av: AggregateVersion) -> Self {
        av.precondition()
    }
}

/// A condition on an aggregate's state for a command to be executed.
#[derive(Debug, Clone, Copy, Hash, PartialEq, Eq, Structural)]
pub enum AggregatePrecondition {
    New,
    Exists,
    ExpectedVersion(AggregateVersion),
}

/// An aggregate together with its current version and the version it was
/// restored from.
#[derive(Debug, Clone, PartialEq, Hash)]
pub struct HydratedAggregate<Agg> {
    pub version: AggregateVersion,
    pub aggregate: Agg,
    pub rehydrated_version: AggregateVersion,
}

impl<Agg: Aggregate> HydratedAggregate<Agg> {
    /// The hydrated aggregate before any event.
    pub open spec fn initial() -> Self {
        HydratedAggregate {
            version: AggregateVersion::Initial,
            aggregate: Agg::initial(),
            rehydrated_version: AggregateVersion::Initial,
        }
    }

    /// This hydrated aggregate after `event`.
    pub open spec fn applied(self, event: VersionedEvent<Agg::Event>) -> Self {
        HydratedAggregate {
            version: AggregateVersion::Version(event.version),
            aggregate: self.aggregate.applied(event.event),
            rehydrated_version: self.rehydrated_version,
        }
    }

    pub fn default() -> (h: Self)
        ensures
            h == Self::initial(),
    {
        HydratedAggregate {
            version: AggregateVersion::Initial,
            aggregate: Agg::default(),
            rehydrated_version: AggregateVersion::Initial,
        }
    }

    pub fn is_initial(&self) -> (b: bool)
        ensures
            b == (self.version == AggregateVersion::Initial),
    {
        self.version == AggregateVersion::Initial
    }

    pub fn get_version(&self) -> (v: AggregateVersion)
        ensures
            v == self.version,
    {
        self.version
    }

    pub fn inspect_aggregate(&self) -> (a: &Agg)
        ensures
            *a == self.aggregate,
    {
        &self.aggregate
    }

    pub fn last_snapshot(&self) -> (v: AggregateVersion)
        ensures
            v == self.rehydrated_version,
    {
        self.rehydrated_version
    }

    /// Applies `event` and takes on its version.
    pub fn apply(&mut self, event: VersionedEvent<Agg::Event>)
        ensures
            *final(self) == old(self).applied(event),
    {
        self.aggregate.apply(event.event);
        self.version = AggregateVersion::Version(event.version);
    }
}

/// A hydrated aggregate after applying `events` in order.
pub open spec fn hydrate_all<Agg: Aggregate>(
    h: HydratedAggregate<Agg>,
    events: Seq<VersionedEvent<Agg::Event>>,
) -> HydratedAggregate<Agg>
    decreases events.len(),
{
    if events.len() == 0 {
        h
    } else {
        hydrate_all(h, events.drop_last()).applied(events.last())
    }
}

/// Applies `events` to `h` in order.
pub fn apply_events<Agg: Aggregate>(
    h: &mut HydratedAggregate<Agg>,
    events: Vec<VersionedEvent<Agg::Event>>,
)
    ensures
        *final(h) == hydrate_all(*old(h), events@),
{
    let ghost before = *h;
    let ghost all = events@;
    for e in it: events.into_iter()
        invariant
            all == it.seq(),
            *h == hydrate_all(before, it.seq().take(it.index() as int)),
    {
        proof {
            assert(it.seq().take(it.index() + 1).drop_last() =~= it.seq().take(it.index() as int));
        }
        h.apply(e);
    }
    proof {
        assert(all.take(all.len() as int) =~= all);
    }
}

/// A hydrated aggregate after applying new `events` one by one, each
/// advancing its version by one.
pub open spec fn apply_counting<Agg: Aggregate>(
    h: HydratedAggregate<Agg>,
    events: Seq<Agg::Event>,
) -> HydratedAggregate<Agg>
    decreases events.len(),
{
    if events.len() == 0 {
        h
    } else {
        let p = apply_counting(h, events.drop_last());
        HydratedAggregate {
            version: p.version.advanced(1),
            aggregate: p.aggregate.applied(events.last()),
            rehydrated_version: p.rehydrated_version,
        }
    }
}

/// Applying new events one by one applies them to the aggregate in order
/// and counts them on from its version: `n` events after version `v` leave
/// it at `v + n`, and `n` events on the initial aggregate at `n - 1` (the
/// first event of a stream has version 0).
pub proof fn lemma_apply_counting_parts<Agg: Aggregate>(h: HydratedAggregate<Agg>, events: Seq<Agg::Event>)
    ensures
        apply_counting(h, events).aggregate == apply_all(h.aggregate, events),
        apply_counting(h, events).rehydrated_version == h.rehydrated_version,
        h.version is Version && h.version->Version_0.0 + events.len() <= usize::MAX ==> apply_counting(
            h,
            events,
        ).version == AggregateVersion::Version(Version((h.version->Version_0.0 + events.len()) as usize)),
        h.version == AggregateVersion::Initial && events.len() == 0 ==> apply_counting(h, events).version
            == AggregateVersion::Initial,
        h.version == AggregateVersion::Initial && 0 < events.len() <= usize::MAX + 1 ==> apply_counting(
            h,
            events,
        ).version == AggregateVersion::Version(Version((events.len() - 1) as usize)),
    decreases events.len(),
{
    if events.len() > 0 {
        lemma_apply_counting_parts(h, events.drop_last());
    }
}

/// Applies new `events` to `h` in order, advancing its version by one for each.
pub fn apply_new_events<Agg: Aggregate>(h: &mut HydratedAggregate<Agg>, events: Vec<Agg::Event>)
    ensures
        *final(h) == apply_counting(*old(h), events@),
{
    let ghost before = *h;
    let ghost all = events@;
    for e in it: events.into_iter()
        invariant
            all == it.seq(),
            *h == apply_counting(before, it.seq().take(it.index() as int)),
    {
        proof {
            assert(it.seq().take(it.index() + 1).drop_last() =~= it.seq().take(it.index() as int));
        }
        h.aggregate.apply(e);
        h.version.add_assign(1);
    }
    proof {
        assert(all.take(all.len() as int) =~= all);
    }
}

impl<Agg: RestoreAggregate> HydratedAggregate<Agg> {
    /// The hydrated aggregate a snapshot restores: at the snapshot's version,
    /// remembered as the version it was restored from.
    pub open spec fn restored(snap: VersionedSnapshot<<Agg as RestoreAggregate>::Snapshot>) -> Self {
        HydratedAggregate {
            version: AggregateVersion::Version(snap.version),
            aggregate: Agg::restored(snap.snapshot),
            rehydrated_version: AggregateVersion::Version(snap.version),
        }
    }

    /// Restores from `snapshot`, or gives the initial aggregate when there is none.
    pub fn restore(snapshot: Option<VersionedSnapshot<<Agg as RestoreAggregate>::Snapshot>>) -> (h: Self)
        ensures
            h == match snapshot {
                Some(s) => Self::restored(s),
                None => Self::initial(),
            },
    {
        match snapshot {
            Some(snap) => HydratedAggregate {
                version: AggregateVersion::Version(snap.version),
                aggregate: Agg::restore(snap.snapshot),
                rehydrated_version: AggregateVersion::Version(snap.version),
            },
            None => HydratedAggregate::default(),
        }
    }
}

impl<Agg: SnapshotAggregate> HydratedAggregate<Agg> {
    /// The snapshot of this aggregate at its version, or `None` before any event.
    pub open spec fn snapshot_spec(self) -> Option<VersionedSnapshot<<Agg as SnapshotAggregate>::Snapshot>> {
        match self.version {
            AggregateVersion::Version(v) => Some(
                VersionedSnapshot { version: v, snapshot: self.aggregate.snapshot_of() },
            ),
            AggregateVersion::Initial => None,
        }
    }

    pub fn to_snapshot(self) -> (s: Option<VersionedSnapshot<<Agg as SnapshotAggregate>::Snapshot>>)
        ensures
            s == self.snapshot_spec(),
    {
        match self.version {
            AggregateVersion::Version(v) => Some(
                VersionedSnapshot { version: v, snapshot: self.aggregate.to_snapshot() },
            ),
            AggregateVersion::Initial => None,
        }
    }
}

/// The outcome of a read, taken by its view.
pub open spec fn read_view<Event, ReadErr>(r: Result<Option<Vec<VersionedEvent<Event>>>, ReadErr>) -> Result<
    Option<Seq<VersionedEvent<Event>>>,
    ReadErr,
> {
    match r {
        Ok(Some(v)) => Ok(Some(v@)),
        Ok(None) => Ok(None),
        Err(e) => Err(e),
    }
}

/// A source of event streams, one per aggregate.
pub trait EventSource: Sized {
    type AggregateId;
    type Event;
    type Error;

    /// What `read_events` gives back.
    spec fn read_spec(&self, agg_id: Self::AggregateId, since: Since) -> Result<
        Option<Seq<VersionedEvent<Self::Event>>>,
        Self::Error,
    >;

    fn read_events(&self, agg_id: &Self::AggregateId, since: Since) -> (r: Result<
        Option<Vec<VersionedEvent<Self::Event>>>,
        Self::Error,
    >)
        ensures
            read_view(r) == self.read_spec(*agg_id, since),
    ;
}

/// A source of snapshots, one per aggregate.
pub trait SnapshotSource: Sized {
    type AggregateId;
    type Snapshot;
    type Error;

    /// What `get_snapshot` gives back.
    spec fn snapshot_spec(&self, agg_id: Self::AggregateId) -> Result<
        Option<VersionedSnapshot<Self::Snapshot>>,
        Self::Error,
    >;

    fn get_snapshot(&self, agg_id: &Self::AggregateId) -> (r: Result<
        Option<VersionedSnapshot<Self::Snapshot>>,
        Self::Error,
    >)
        ensures
            r == self.snapshot_spec(*agg_id),
    ;
}

/// A sink that appends events to an aggregate's stream.
pub trait EventAppend: Sized {
    type AggregateId;
    type Event;
    type Error;

    /// The sink and the outcome after `append_events`.
    spec fn append_spec(
        self,
        agg_id: Self::AggregateId,
        events: Seq<Self::Event>,
        precondition: Option<Precondition>,
    ) -> (Self, Result<(), Self::Error>);

    fn append_events(
        &mut self,
        agg_id: &Self::AggregateId,
        events: &[Self::Event],
        precondition: Option<Precondition>,
    ) -> (r: Result<(), Self::Error>)
        ensures
            (*final(self), r) == old(self).append_spec(*agg_id, events@, precondition),
    ;
}

/// A sink that stores an aggregate's snapshot.
pub trait SnapshotPersist: Sized {
    type AggregateId;
    type Snapshot;
    type Error;

    /// The sink and the outcome after `persist_snapshot`.
    spec fn persist_spec(
        self,
        agg_id: Self::AggregateId,
        snapshot: VersionedSnapshot<Self::Snapshot>,
    ) -> (Self, Result<(), Self::Error>);

    fn persist_snapshot(
        &mut self,
        agg_id: &Self::AggregateId,
        snapshot: VersionedSnapshot<Self::Snapshot>,
    ) -> (r: Result<(), Self::Error>)
        ensures
            (*final(self), r) == old(self).persist_spec(*agg_id, snapshot),
    ;
}

/// Why loading an aggregate failed.
#[derive(Debug, Clone, Hash, PartialEq)]
pub enum LoadAggregateError<EErr, SErr> {
    Snapshot(SErr),
    Events(EErr),
}

/// Why persisting an aggregate failed.
#[derive(Debug, Clone, Hash, PartialEq)]
pub enum PersistAggregateError<EErr, SErr> {
    Events(EErr),
    Snapshot(SErr),
}

/// Why executing a command failed.
#[derive(Debug, Clone, Hash, PartialEq)]
pub enum ExecuteError<CErr, LErr> {
    PreconditionFailed(AggregatePrecondition),
    Command(CErr),
    Load(LErr),
    AggregateNotFound,
}

/// Why executing a command and persisting its events failed.
#[derive(Debug, Clone, Hash, PartialEq)]
pub enum ExecuteAndPersistError<EErr, PErr> {
    Execute(EErr),
    Persist(PErr),
}

/// Why a commander failed.
#[derive(Debug, Clone, Hash, PartialEq)]
pub enum CommandAggregateError<CErr, LErr, PErr> {
    Command(CErr),
    Load(LErr),
    Persist(PErr),
    AggregateNotFound,
}

} // verus!
