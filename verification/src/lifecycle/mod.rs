//! Lifecycles of aggregates: loading them from their latest snapshot and the
//! events after it, executing commands against them, appending the events
//! the commands produce and taking snapshots as a strategy recommends.
//!
//! The sources, sinks and handlers are traits whose implementors state, by
//! spec functions, what each call gives back; the lifecycle operations are
//! specified exactly in terms of them.
use vstd::prelude::*;
use crate::entity::Parts;
use crate::types::{EventNumber, Since, Version};

pub mod basic;
pub mod context;
pub mod static_lifecycle;

pub use self::basic::{
    Basic, ExecAndPersistError, LoadError, LoadExecAndPersistError, LoadRehydrateAndPersistError,
    PersistError,
};
pub use self::context::{of_type, other_types, BorrowableAsContext, BufferedContext, Context, ContextWithMeta, EventBuffer, Sealed};
pub use self::static_lifecycle::Static;

verus! {

/// An event together with its number in its aggregate's stream.
#[derive(Clone, Copy, Debug, Hash, PartialEq, Eq)]
pub struct NumberedEvent<Ev> {
    pub num: EventNumber,
    pub data: Ev,
}

/// An aggregate: a projection of the events of one identified stream.
pub trait Aggregate: Sized {
    /// The identifier of an aggregate instance.
    type Id;

    /// The aggregate before any event.
    spec fn initial() -> Self;

    /// The identifier of this instance.
    spec fn id_spec(&self) -> Self::Id;

    fn default() -> (a: Self)
        ensures
            a == Self::initial(),
    ;

    fn id(&self) -> (id: &Self::Id)
        ensures
            *id == self.id_spec(),
    ;
}

/// An aggregate that events of type `Ev` change.
pub trait EventSourced<Ev>: Aggregate {
    /// The aggregate after `event`.
    spec fn applied(self, event: Ev) -> Self;

    fn apply(&mut self, event: &Ev)
        ensures
            *final(self) == old(self).applied(*event),
    ;
}

/// A command, addressed to an aggregate.
pub trait Command: Sized {
    type Aggregate: Aggregate;

    /// The instance the command is addressed to; `None` for a command that
    /// creates a new instance.
    spec fn aggregate_id_spec(&self) -> Option<<Self::Aggregate as Aggregate>::Id>;

    fn aggregate_id(&self) -> (id: Option<&<Self::Aggregate as Aggregate>::Id>)
        ensures
            match id {
                Some(i) => self.aggregate_id_spec() == Some(*i),
                None => self.aggregate_id_spec() is None,
            },
    ;
}

/// The events of a handled command, taken by their view.
pub open spec fn events_view<Ev, E>(r: Result<Vec<Ev>, E>) -> Result<Seq<Ev>, E> {
    match r {
        Ok(v) => Ok(v@),
        Err(e) => Err(e),
    }
}

/// An aggregate that executes commands of type `Cmd`: it produces events, or
/// refuses the command.
pub trait CommandHandler<Cmd>: Aggregate {
    /// What the handler may consult besides the aggregate.
    type Context;
    type Event;
    type Error;

    /// What handling `cmd` gives.
    spec fn handled(&self, cmd: Cmd, ctx: Self::Context) -> Result<Seq<Self::Event>, Self::Error>;

    fn handle(&self, cmd: Cmd, ctx: &Self::Context) -> (r: Result<Vec<Self::Event>, Self::Error>)
        ensures
            events_view(r) == self.handled(cmd, *ctx),
    ;
}

/// A snapshot taken by its view: the aggregate and the version it was taken at.
pub open spec fn snapshots_view<Agg, E>(r: Result<Vec<(Agg, Version)>, E>) -> Result<Seq<(Agg, Version)>, E> {
    match r {
        Ok(v) => Ok(v@),
        Err(e) => Err(e),
    }
}

/// A source of snapshots of aggregates.
pub trait SnapshotSource<Agg: Aggregate>: Sized {
    type Error;

    /// What `load_snapshot` gives back.
    spec fn snapshot_spec(&self, id: Agg::Id) -> Result<Option<(Agg, Version)>, Self::Error>;

    /// What `load_snapshots` gives back.
    spec fn snapshots_spec(&self, ids: Seq<Agg::Id>) -> Result<Seq<(Agg, Version)>, Self::Error>;

    fn load_snapshot(&self, id: &Agg::Id) -> (r: Result<Option<(Agg, Version)>, Self::Error>)
        ensures
            r == self.snapshot_spec(*id),
    ;

    fn load_snapshots(&self, ids: &[Agg::Id]) -> (r: Result<Vec<(Agg, Version)>, Self::Error>)
        ensures
            snapshots_view(r) == self.snapshots_spec(ids@),
    ;
}

/// A source of event streams: a read yields the events after a position,
/// each of which may instead be an error.
pub trait EventSource<Agg: Aggregate, Ev>: Sized {
    type Error;

    /// What `read_events` yields.
    spec fn read_spec(&self, id: Agg::Id, since: Since) -> Seq<Result<NumberedEvent<Ev>, Self::Error>>;

    fn read_events(&self, id: &Agg::Id, since: Since) -> (r: Vec<Result<NumberedEvent<Ev>, Self::Error>>)
        ensures
            r@ == self.read_spec(*id, since),
    ;
}

/// The numbered events of an append, taken by their view.
pub open spec fn numbered_view<Ev, E>(r: Result<Vec<NumberedEvent<Ev>>, E>) -> Result<
    Seq<NumberedEvent<Ev>>,
    E,
> {
    match r {
        Ok(v) => Ok(v@),
        Err(e) => Err(e),
    }
}

/// A sink that appends events, with metadata, to event streams.
pub trait EventSink<Agg: Aggregate, Ev, Mt>: Sized {
    type Error;

    /// The sink and the outcome after `append_events`: the appended events,
    /// numbered.
    spec fn append_spec(self, id: Agg::Id, events: Seq<Ev>, meta: Mt) -> (Self, Result<
        Seq<NumberedEvent<Ev>>,
        Self::Error,
    >);

    fn append_events(&mut self, id: &Agg::Id, events: &[Ev], meta: &Mt) -> (r: Result<
        Vec<NumberedEvent<Ev>>,
        Self::Error,
    >)
        ensures
            (*final(self), numbered_view(r)) == old(self).append_spec(*id, events@, *meta),
    ;
}

/// The snapshots of a batch, taken by their view.
pub open spec fn batch_view<Agg>(batch: Seq<(&Agg, Version)>) -> Seq<(Agg, Version)> {
    batch.map_values(|p: (&Agg, Version)| (*p.0, p.1))
}

/// A sink that stores snapshots of aggregates.
pub trait SnapshotSink<Agg: Aggregate>: Sized {
    type Error;

    /// The sink and the outcome after `persist_snapshot`.
    spec fn persist_spec(self, aggregate: Agg, version: Version) -> (Self, Result<(), Self::Error>);

    /// The sink and the outcome after `persist_snapshots`.
    spec fn persist_all_spec(self, snapshots: Seq<(Agg, Version)>) -> (Self, Result<(), Self::Error>);

    fn persist_snapshot(&mut self, aggregate: &Agg, version: Version) -> (r: Result<(), Self::Error>)
        ensures
            (*final(self), r) == old(self).persist_spec(*aggregate, version),
    ;

    fn persist_snapshots(&mut self, snapshots: &[(&Agg, Version)]) -> (r: Result<(), Self::Error>)
        ensures
            (*final(self), r) == old(self).persist_all_spec(batch_view(snapshots@)),
    ;
}

/// Whether a snapshot should be taken.
#[derive(Clone, Copy, Debug, PartialEq, Eq, Hash, Structural)]
pub enum SnapshotRecommendation {
    ShouldSnapshot,
    DoNotSnapshot,
}

/// A strategy that decides, from an aggregate's version and the version of
/// its latest snapshot, whether to take a new snapshot.
pub trait SnapshotStrategy: Sized {
    /// What `recommendation` gives.
    spec fn recommendation_spec(&self, version: Version, snapshot_version: Version) -> SnapshotRecommendation;

    fn recommendation(&self, version: Version, snapshot_version: Version) -> (r: SnapshotRecommendation)
        ensures
            r == self.recommendation_spec(version, snapshot_version),
    ;
}

/// The strategy that always recommends a snapshot.
#[derive(Clone, Copy, Debug, Default, PartialEq, Eq, Hash)]
pub struct AlwaysSnapshot;

impl SnapshotStrategy for AlwaysSnapshot {
    open spec fn recommendation_spec(&self, version: Version, snapshot_version: Version) -> SnapshotRecommendation {
        SnapshotRecommendation::ShouldSnapshot
    }

    fn recommendation(&self, version: Version, snapshot_version: Version) -> (r: SnapshotRecommendation) {
        SnapshotRecommendation::ShouldSnapshot
    }
}

/// The strategy that never recommends a snapshot.
#[derive(Clone, Copy, Debug, Default, PartialEq, Eq, Hash)]
pub struct NeverSnapshot;

impl SnapshotStrategy for NeverSnapshot {
    open spec fn recommendation_spec(&self, version: Version, snapshot_version: Version) -> SnapshotRecommendation {
        SnapshotRecommendation::DoNotSnapshot
    }

    fn recommendation(&self, version: Version, snapshot_version: Version) -> (r: SnapshotRecommendation) {
        SnapshotRecommendation::DoNotSnapshot
    }
}

/// An aggregate together with its version and the version of its latest
/// snapshot.
#[derive(Clone, Copy, Debug, Hash, PartialEq, Eq)]
pub struct HydratedAggregate<Agg> {
    version: Version,
    snapshot_version: Version,
    state: Agg,
}

impl<Agg> View for HydratedAggregate<Agg> {
    /// The version, the snapshot version and the aggregate.
    type V = Parts<Agg>;

    closed spec fn view(&self) -> Parts<Agg> {
        (self.version, self.snapshot_version, self.state)
    }
}

/// The hydrated aggregate whose view is `p`.
pub closed spec fn from_view<Agg>(p: Parts<Agg>) -> HydratedAggregate<Agg> {
    HydratedAggregate { version: p.0, snapshot_version: p.1, state: p.2 }
}

/// A hydrated aggregate is determined by its view.
pub proof fn lemma_from_view<Agg>(h: HydratedAggregate<Agg>, p: Parts<Agg>)
    ensures
        from_view(p)@ == p,
        h@ == p ==> h == from_view(p),
{
}

/// The parts of an aggregate restored from a snapshot taken at `version`.
pub open spec fn restored<Agg>(state: Agg, version: Version) -> Parts<Agg> {
    (version, version, state)
}

/// The parts of the aggregate before any event.
pub open spec fn initial_parts<Agg: Aggregate>() -> Parts<Agg> {
    (Version::Initial, Version::Initial, Agg::initial())
}

/// The parts after the numbered event `event`: the aggregate changed by its
/// data, the version set to its number.
pub open spec fn applied_numbered<Agg: EventSourced<Ev>, Ev>(p: Parts<Agg>, event: NumberedEvent<Ev>) -> Parts<Agg> {
    (Version::Number(event.num), p.1, p.2.applied(event.data))
}

/// The parts after the numbered events `events`, in order.
pub open spec fn applied_all<Agg: EventSourced<Ev>, Ev>(p: Parts<Agg>, events: Seq<NumberedEvent<Ev>>) -> Parts<Agg>
    decreases events.len(),
{
    if events.len() == 0 {
        p
    } else {
        applied_numbered(applied_all(p, events.drop_last()), events.last())
    }
}

/// The parts and the outcome after replaying a read: its events are applied
/// in order up to its first error, which is the outcome.
pub open spec fn replayed<Agg: EventSourced<Ev>, Ev, E>(p: Parts<Agg>, items: Seq<Result<NumberedEvent<Ev>, E>>) -> (
    Parts<Agg>,
    Result<(), E>,
)
    decreases items.len(),
{
    if items.len() == 0 {
        (p, Ok(()))
    } else {
        match items[0] {
            Ok(event) => replayed(applied_numbered(p, event), items.skip(1)),
            Err(e) => (p, Err(e)),
        }
    }
}

impl<Agg> HydratedAggregate<Agg> {
    /// The aggregate restored from a snapshot taken at `version`.
    pub fn from_snapshot(state: Agg, version: Version) -> (h: Self)
        ensures
            h@ == restored(state, version),
    {
        HydratedAggregate { version, snapshot_version: version, state }
    }

    /// The current version.
    pub fn version(&self) -> (v: Version)
        ensures
            v == self@.0,
    {
        self.version
    }

    /// The version of the latest snapshot.
    pub fn snapshot_version(&self) -> (v: Version)
        ensures
            v == self@.1,
    {
        self.snapshot_version
    }

    /// The aggregate itself.
    pub fn state(&self) -> (a: &Agg)
        ensures
            *a == self@.2,
    {
        &self.state
    }

    /// Records that a snapshot was taken at `version`.
    pub fn set_snapshot_version(&mut self, version: Version)
        ensures
            final(self)@ == (old(self)@.0, version, old(self)@.2),
    {
        self.snapshot_version = version;
    }
}

impl<Agg: Aggregate> HydratedAggregate<Agg> {
    /// The aggregate before any event.
    pub fn default() -> (h: Self)
        ensures
            h@ == initial_parts::<Agg>(),
    {
        HydratedAggregate { version: Version::Initial, snapshot_version: Version::Initial, state: Agg::default() }
    }

    /// The identifier of the aggregate instance.
    pub fn id(&self) -> (id: &Agg::Id)
        ensures
            *id == self@.2.id_spec(),
    {
        self.state.id()
    }

    /// Applies the event `data` numbered `num`.
    pub(crate) fn apply_data<Ev>(&mut self, num: EventNumber, data: &Ev)
        where Agg: EventSourced<Ev>,
        ensures
            final(self)@ == applied_numbered(old(self)@, NumberedEvent { num, data: *data }),
    {
        self.state.apply(data);
        self.version = Version::Number(num);
    }

    /// Applies a numbered event.
    pub fn apply<Ev>(&mut self, event: &NumberedEvent<Ev>)
        where Agg: EventSourced<Ev>,
        ensures
            final(self)@ == applied_numbered(old(self)@, *event),
    {
        self.apply_data(event.num, &event.data);
    }
}

} // verus!
