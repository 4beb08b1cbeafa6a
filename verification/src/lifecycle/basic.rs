//! The basic lifecycle: every operation takes the sources and sinks it works
//! with as arguments.
use vstd::prelude::*;
use crate::entity::Parts;
use crate::types::{EventNumber, Version};
use super::{
    applied_all, applied_numbered, batch_view, from_view, initial_parts, lemma_from_view, replayed, restored, Aggregate,
    AlwaysSnapshot, BufferedContext, Command, CommandHandler, EventSink, EventSource, EventSourced, HydratedAggregate,
    NeverSnapshot, NumberedEvent, SnapshotRecommendation, SnapshotSink, SnapshotSource, SnapshotStrategy,
};

verus! {

/// Loaded aggregates taken as a sequence.
pub open spec fn vec_view<T, E>(r: Result<Vec<T>, E>) -> Result<Seq<T>, E> {
    match r {
        Ok(v) => Ok(v@),
        Err(e) => Err(e),
    }
}

/// The views of hydrated aggregates.
pub open spec fn views<Agg>(hs: Seq<HydratedAggregate<Agg>>) -> Seq<Parts<Agg>> {
    hs.map_values(|h: HydratedAggregate<Agg>| h@)
}

/// What loading the snapshot of `id` gives: the aggregate restored from it,
/// or `None` when there is none.
pub open spec fn loaded_from_snapshot<Agg: Aggregate, S: SnapshotSource<Agg>>(source: S, id: Agg::Id) -> Result<
    Option<HydratedAggregate<Agg>>,
    S::Error,
> {
    match source.snapshot_spec(id) {
        Err(e) => Err(e),
        Ok(None) => Ok(None),
        Ok(Some(s)) => Ok(Some(from_view(restored(s.0, s.1)))),
    }
}

/// What loading the snapshots of `ids` gives: the aggregates restored from
/// them, in the order the source gives them.
pub open spec fn loaded_all_from_snapshot<Agg: Aggregate, S: SnapshotSource<Agg>>(source: S, ids: Seq<Agg::Id>) -> Result<
    Seq<HydratedAggregate<Agg>>,
    S::Error,
> {
    if ids.len() == 0 {
        Ok(Seq::empty())
    } else {
        match source.snapshots_spec(ids) {
            Err(e) => Err(e),
            Ok(s) => Ok(s.map_values(|p: (Agg, Version)| from_view(restored(p.0, p.1)))),
        }
    }
}

/// The parts and the outcome after replaying onto `p` the events its stream
/// holds after its version.
pub open spec fn rehydrated<Agg: EventSourced<Ev>, Ev, S: EventSource<Agg, Ev>>(source: S, p: Parts<Agg>) -> (
    Parts<Agg>,
    Result<(), S::Error>,
) {
    replayed(p, source.read_spec(p.2.id_spec(), p.0.since()))
}

/// What loading an aggregate from its snapshot and replaying the events
/// after it gives; `None` when it has no snapshot.
pub open spec fn loaded_and_rehydrated<Agg: EventSourced<Ev>, Ev, R: SnapshotSource<Agg> + EventSource<Agg, Ev>>(
    repo: R,
    id: Agg::Id,
) -> Result<Option<HydratedAggregate<Agg>>, LoadError<<R as SnapshotSource<Agg>>::Error, <R as EventSource<Agg, Ev>>::Error>> {
    match loaded_from_snapshot(repo, id) {
        Err(e) => Err(LoadError::Snapshot(e)),
        Ok(None) => Ok(None),
        Ok(Some(h)) => {
            let (q, res) = rehydrated::<Agg, Ev, R>(repo, h@);
            match res {
                Err(e) => Err(LoadError::Events(e)),
                Ok(_) => Ok(Some(from_view(q))),
            }
        },
    }
}

/// What replaying each of `hs` gives, in order: the first error stops it.
pub open spec fn rehydrated_all<Agg: EventSourced<Ev>, Ev, S: EventSource<Agg, Ev>>(
    source: S,
    hs: Seq<HydratedAggregate<Agg>>,
) -> Result<Seq<HydratedAggregate<Agg>>, S::Error>
    decreases hs.len(),
{
    if hs.len() == 0 {
        Ok(Seq::empty())
    } else {
        let (q, res) = rehydrated::<Agg, Ev, S>(source, hs[0]@);
        match res {
            Err(e) => Err(e),
            Ok(_) => match rehydrated_all::<Agg, Ev, S>(source, hs.skip(1)) {
                Err(e) => Err(e),
                Ok(rest) => Ok(seq![from_view(q)] + rest),
            },
        }
    }
}

/// `done` followed by what `r` holds.
pub open spec fn prepend<T, E>(done: Seq<T>, r: Result<Seq<T>, E>) -> Result<Seq<T>, E> {
    match r {
        Ok(rest) => Ok(done + rest),
        Err(e) => Err(e),
    }
}

/// What loading the aggregates of `ids` from their snapshots and replaying
/// the events after each gives.
pub open spec fn loaded_all_and_rehydrated<Agg: EventSourced<Ev>, Ev, R: SnapshotSource<Agg> + EventSource<Agg, Ev>>(
    repo: R,
    ids: Seq<Agg::Id>,
) -> Result<Seq<HydratedAggregate<Agg>>, LoadError<<R as SnapshotSource<Agg>>::Error, <R as EventSource<Agg, Ev>>::Error>> {
    match loaded_all_from_snapshot(repo, ids) {
        Err(e) => Err(LoadError::Snapshot(e)),
        Ok(hs) => match rehydrated_all::<Agg, Ev, R>(repo, hs) {
            Err(e) => Err(LoadError::Events(e)),
            Ok(qs) => Ok(qs),
        },
    }
}

/// Whether `strategy` recommends a snapshot of an aggregate with parts `p`.
pub open spec fn should_snapshot<Agg, Snp: SnapshotStrategy>(strategy: Snp, p: Parts<Agg>) -> bool {
    strategy.recommendation_spec(p.0, p.1) == SnapshotRecommendation::ShouldSnapshot
}

/// The parts after a snapshot is taken at the current version.
pub open spec fn snapshotted<Agg>(p: Parts<Agg>) -> Parts<Agg> {
    (p.0, p.0, p.2)
}

/// The sink, the parts and the outcome after persisting an aggregate with
/// parts `p`: a snapshot is stored, and recorded, only where the strategy
/// recommends one.
pub open spec fn persisted<Agg: Aggregate, Snp: SnapshotStrategy, R: SnapshotSink<Agg>>(
    strategy: Snp,
    repo: R,
    p: Parts<Agg>,
) -> (R, Parts<Agg>, Result<(), R::Error>) {
    if should_snapshot(strategy, p) {
        let (r2, res) = repo.persist_spec(p.2, p.0);
        match res {
            Err(e) => (r2, p, Err(e)),
            Ok(_) => (r2, snapshotted(p), Ok(())),
        }
    } else {
        (repo, p, Ok(()))
    }
}

/// The snapshots to take of `ps`: the aggregate and version of each that
/// the strategy recommends a snapshot of, in order.
pub open spec fn snapshot_batch<Agg, Snp: SnapshotStrategy>(strategy: Snp, ps: Seq<Parts<Agg>>) -> Seq<(Agg, Version)>
    decreases ps.len(),
{
    if ps.len() == 0 {
        Seq::empty()
    } else {
        let p = ps.last();
        snapshot_batch(strategy, ps.drop_last()) + if should_snapshot(strategy, p) {
            seq![(p.2, p.0)]
        } else {
            Seq::empty()
        }
    }
}

/// `ps` with a snapshot recorded for each that the strategy recommends one of.
pub open spec fn marked<Agg, Snp: SnapshotStrategy>(strategy: Snp, ps: Seq<Parts<Agg>>) -> Seq<Parts<Agg>> {
    ps.map_values(|p: Parts<Agg>| if should_snapshot(strategy, p) { snapshotted(p) } else { p })
}

/// The sink, the parts and the outcome after persisting aggregates with
/// parts `ps`: one batch holds the snapshots the strategy recommends, and
/// they are recorded once the batch is stored.
pub open spec fn persisted_all<Agg: Aggregate, Snp: SnapshotStrategy, R: SnapshotSink<Agg>>(
    strategy: Snp,
    repo: R,
    ps: Seq<Parts<Agg>>,
) -> (R, Seq<Parts<Agg>>, Result<(), R::Error>) {
    let batch = snapshot_batch(strategy, ps);
    if batch.len() == 0 {
        (repo, ps, Ok(()))
    } else {
        let (r2, res) = repo.persist_all_spec(batch);
        match res {
            Err(e) => (r2, ps, Err(e)),
            Ok(_) => (r2, marked(strategy, ps), Ok(())),
        }
    }
}

/// The sink, the parts, the events handed to the context and the outcome
/// after appending `events` to the stream of an aggregate with parts `p`,
/// applying the numbered events the sink gives back, and persisting it.
pub open spec fn appended_and_persisted<Agg: EventSourced<Ev>, Ev, Mt, Snp: SnapshotStrategy, R: EventSink<Agg, Ev, Mt> + SnapshotSink<Agg>>(
    strategy: Snp,
    repo: R,
    p: Parts<Agg>,
    events: Seq<Ev>,
    meta: Mt,
) -> (R, Parts<Agg>, Seq<NumberedEvent<Ev>>, Result<(), PersistError<<R as EventSink<Agg, Ev, Mt>>::Error, <R as SnapshotSink<Agg>>::Error>>) {
    let (r1, appended) = repo.append_spec(p.2.id_spec(), events, meta);
    match appended {
        Err(e) => (r1, p, Seq::empty(), Err(PersistError::Events(e))),
        Ok(ns) => {
            let (r2, q, res) = persisted(strategy, r1, applied_all(p, ns));
            (r2, q, ns, match res {
                Err(e) => Err(PersistError::Snapshot(e)),
                Ok(_) => Ok(()),
            })
        },
    }
}

/// The sink, the events handed to the context and the outcome after
/// executing `cmd` against `agg` (the initial aggregate when `None`) and
/// persisting the events it produces. A new aggregate first takes its first
/// event as event number 1, so that it has the identity the events are
/// appended under.
pub open spec fn executed_and_persisted<Agg, Ev, Cmd, Mt, Snp: SnapshotStrategy, R>(
    strategy: Snp,
    repo: R,
    cmd: Cmd,
    agg: Option<HydratedAggregate<Agg>>,
    meta: Mt,
    handler_ctx: <Agg as CommandHandler<Cmd>>::Context,
) -> (R, Seq<NumberedEvent<Ev>>, Result<
    HydratedAggregate<Agg>,
    ExecAndPersistError<Agg, <Agg as CommandHandler<Cmd>>::Error, <R as EventSink<Agg, Ev, Mt>>::Error, <R as SnapshotSink<Agg>>::Error>,
>) where
    Agg: CommandHandler<Cmd, Event = Ev> + EventSourced<Ev>,
    R: EventSink<Agg, Ev, Mt> + SnapshotSink<Agg>,
{
    let p = match agg {
        Some(h) => h@,
        None => initial_parts::<Agg>(),
    };
    match p.2.handled(cmd, handler_ctx) {
        Err(e) => (repo, Seq::empty(), Err(ExecAndPersistError::Exec(from_view(p), e))),
        Ok(events) => if events.len() == 0 {
            (repo, Seq::empty(), Ok(from_view(p)))
        } else {
            let p1 = if agg is None {
                applied_numbered(p, NumberedEvent { num: EventNumber::from_value(1), data: events[0] })
            } else {
                p
            };
            let (r2, q, ns, res) = appended_and_persisted(strategy, repo, p1, events, meta);
            (r2, ns, match res {
                Err(e) => Err(ExecAndPersistError::Persist(e)),
                Ok(_) => Ok(from_view(q)),
            })
        },
    }
}

/// The sink, the events handed to the context and the outcome after loading
/// the aggregate `cmd` is addressed to (the initial aggregate for a command
/// addressed to none), executing `cmd` and persisting; `None` when the
/// aggregate has no snapshot.
pub open spec fn loaded_executed_and_persisted<Agg, Ev, Cmd: Command<Aggregate = Agg>, Mt, Snp: SnapshotStrategy, R>(
    strategy: Snp,
    repo: R,
    cmd: Cmd,
    meta: Mt,
    handler_ctx: <Agg as CommandHandler<Cmd>>::Context,
) -> (R, Seq<NumberedEvent<Ev>>, Result<
    Option<HydratedAggregate<Agg>>,
    LoadExecAndPersistError<
        Agg,
        <Agg as CommandHandler<Cmd>>::Error,
        <R as SnapshotSource<Agg>>::Error,
        <R as EventSource<Agg, Ev>>::Error,
        <R as EventSink<Agg, Ev, Mt>>::Error,
        <R as SnapshotSink<Agg>>::Error,
    >,
>) where
    Agg: CommandHandler<Cmd, Event = Ev> + EventSourced<Ev>,
    R: SnapshotSource<Agg> + EventSource<Agg, Ev> + EventSink<Agg, Ev, Mt> + SnapshotSink<Agg>,
{
    let loaded = match cmd.aggregate_id_spec() {
        Some(id) => match loaded_and_rehydrated::<Agg, Ev, R>(repo, id) {
            Err(e) => Err(e),
            Ok(h) => Ok(h),
        },
        None => Ok(Some(from_view(initial_parts::<Agg>()))),
    };
    match loaded {
        Err(e) => (repo, Seq::empty(), Err(LoadExecAndPersistError::Load(e))),
        Ok(None) => (repo, Seq::empty(), Ok(None)),
        Ok(Some(h)) => {
            let (r2, ns, res) = executed_and_persisted(strategy, repo, cmd, Some(h), meta, handler_ctx);
            (r2, ns, match res {
                Err(e) => Err(widen(e)),
                Ok(h2) => Ok(Some(h2)),
            })
        },
    }
}

/// Why loading an aggregate failed.
#[derive(Clone, Copy, Debug, PartialEq, Eq)]
pub enum LoadError<SsSrcErr, EvSrcErr> {
    /// Loading the snapshot failed.
    Snapshot(SsSrcErr),
    /// Loading the events failed.
    Events(EvSrcErr),
}

/// Why loading, replaying and persisting an aggregate failed.
#[derive(Clone, Copy, Debug, PartialEq, Eq)]
pub enum LoadRehydrateAndPersistError<SsSrcErr, EvSrcErr, SsSnkErr> {
    Load(LoadError<SsSrcErr, EvSrcErr>),
    /// Persisting the snapshot failed.
    Persist(SsSnkErr),
}

/// Why persisting an aggregate failed.
#[derive(Clone, Copy, Debug, PartialEq, Eq)]
pub enum PersistError<EvSnkErr, SsSnkErr> {
    /// Persisting the events failed.
    Events(EvSnkErr),
    /// Persisting the snapshot failed; the events were persisted.
    Snapshot(SsSnkErr),
}

/// Why executing a command and persisting its events failed.
#[derive(Clone, Copy, Debug, PartialEq, Eq)]
pub enum ExecAndPersistError<Agg, CmdErr, EvSnkErr, SsSnkErr> {
    /// The aggregate refused the command.
    Exec(HydratedAggregate<Agg>, CmdErr),
    Persist(PersistError<EvSnkErr, SsSnkErr>),
}

/// Why loading an aggregate, executing a command and persisting failed.
#[derive(Clone, Copy, Debug, PartialEq, Eq)]
pub enum LoadExecAndPersistError<Agg, CmdErr, SsSrcErr, EvSrcErr, EvSnkErr, SsSnkErr> {
    Load(LoadError<SsSrcErr, EvSrcErr>),
    /// The aggregate refused the command.
    Exec(HydratedAggregate<Agg>, CmdErr),
    Persist(PersistError<EvSnkErr, SsSnkErr>),
}

/// The lifecycle error an execution error becomes.
pub open spec fn widen<Agg, CmdErr, SsSrcErr, EvSrcErr, EvSnkErr, SsSnkErr>(
    e: ExecAndPersistError<Agg, CmdErr, EvSnkErr, SsSnkErr>,
) -> LoadExecAndPersistError<Agg, CmdErr, SsSrcErr, EvSrcErr, EvSnkErr, SsSnkErr> {
    match e {
        ExecAndPersistError::Exec(h, c) => LoadExecAndPersistError::Exec(h, c),
        ExecAndPersistError::Persist(p) => LoadExecAndPersistError::Persist(p),
    }
}

impl<Agg, CmdErr, SsSrcErr, EvSrcErr, EvSnkErr, SsSnkErr> From<ExecAndPersistError<Agg, CmdErr, EvSnkErr, SsSnkErr>> for LoadExecAndPersistError<Agg, CmdErr, SsSrcErr, EvSrcErr, EvSnkErr, SsSnkErr> {
    fn from(err: ExecAndPersistError<Agg, CmdErr, EvSnkErr, SsSnkErr>) -> (e: Self) {
        match err {
            ExecAndPersistError::Exec(h, c) => LoadExecAndPersistError::Exec(h, c),
            ExecAndPersistError::Persist(p) => LoadExecAndPersistError::Persist(p),
        }
    }
}

impl<Agg, CmdErr, SsSrcErr, EvSrcErr, EvSnkErr, SsSnkErr> vstd::std_specs::convert::FromSpecImpl<ExecAndPersistError<Agg, CmdErr, EvSnkErr, SsSnkErr>> for LoadExecAndPersistError<Agg, CmdErr, SsSrcErr, EvSrcErr, EvSnkErr, SsSnkErr> {
    open spec fn obeys_from_spec() -> bool {
        true
    }

    open spec fn from_spec(err: ExecAndPersistError<Agg, CmdErr, EvSnkErr, SsSnkErr>) -> Self {
        widen(err)
    }
}

/// The basic lifecycle, with the strategy that decides when to snapshot.
#[derive(Clone, Copy, Debug)]
pub struct Basic<Snp> {
    snapshot_strategy: Snp,
}

impl<Snp> Basic<Snp> {
    /// The snapshot strategy.
    pub closed spec fn strategy(&self) -> Snp {
        self.snapshot_strategy
    }

    /// The lifecycle with the strategy `snapshot_strategy`.
    pub closed spec fn of(snapshot_strategy: Snp) -> Self {
        Basic { snapshot_strategy }
    }

    pub fn new(snapshot_strategy: Snp) -> (b: Self)
        ensures
            b == Self::of(snapshot_strategy),
            b.strategy() == snapshot_strategy,
    {
        Basic { snapshot_strategy }
    }

    /// Loads the aggregate `id` from its snapshot; `None` when it has none.
    pub fn load_aggregate_from_snapshot<Agg: Aggregate, S: SnapshotSource<Agg>>(
        &self,
        id: &Agg::Id,
        snapshot_source: &S,
    ) -> (r: Result<Option<HydratedAggregate<Agg>>, S::Error>)
        ensures
            r == loaded_from_snapshot(*snapshot_source, *id),
    {
        match snapshot_source.load_snapshot(id) {
            Ok(Some(snapshot)) => {
                let (agg, ver) = snapshot;
                let h = HydratedAggregate::from_snapshot(agg, ver);
                proof {
                    lemma_from_view(h, restored(agg, ver));
                }
                Ok(Some(h))
            },
            Ok(None) => Ok(None),
            Err(e) => Err(e),
        }
    }

    /// Loads the aggregates `ids` from their snapshots.
    pub fn load_aggregates_from_snapshot<Agg: Aggregate, S: SnapshotSource<Agg>>(
        &self,
        ids: &[Agg::Id],
        snapshot_source: &S,
    ) -> (r: Result<Vec<HydratedAggregate<Agg>>, S::Error>)
        ensures
            vec_view(r) == loaded_all_from_snapshot(*snapshot_source, ids@),
    {
        if ids.len() == 0 {
            return Ok(Vec::new());
        }
        let snapshots = match snapshot_source.load_snapshots(ids) {
            Ok(s) => s,
            Err(e) => return Err(e),
        };
        let ghost all = snapshots@;
        let mut out: Vec<HydratedAggregate<Agg>> = Vec::new();
        for snapshot in it: snapshots.into_iter()
            invariant
                it.seq() == all,
                out@ == all.take(it.index() as int).map_values(|p: (Agg, Version)| from_view(restored(p.0, p.1))),
        {
            let (agg, ver) = snapshot;
            let h = HydratedAggregate::from_snapshot(agg, ver);
            proof {
                lemma_from_view(h, restored(agg, ver));
                assert(all.take(it.index() + 1).map_values(|p: (Agg, Version)| from_view(restored(p.0, p.1)))
                    =~= out@.push(h));
            }
            out.push(h);
        }
        proof {
            assert(all.take(all.len() as int) =~= all);
        }
        Ok(out)
    }

    /// Replays onto `agg` the events its stream holds after its version, up
    /// to the first error the read yields.
    pub fn rehydrate_aggregate<Ev, Agg: EventSourced<Ev>, S: EventSource<Agg, Ev>>(
        &self,
        agg: &mut HydratedAggregate<Agg>,
        event_source: &S,
    ) -> (r: Result<(), S::Error>)
        ensures
            (final(agg)@, r) == rehydrated::<Agg, Ev, S>(*event_source, old(agg)@),
    {
        let items = event_source.read_events(agg.id(), agg.version().to_since());
        let ghost all = items@;
        let ghost p0 = agg@;
        proof {
            assert(all.skip(0) =~= all);
        }
        for item in it: items.into_iter()
            invariant
                it.seq() == all,
                p0 == old(agg)@,
                all == event_source.read_spec(p0.2.id_spec(), p0.0.since()),
                replayed(agg@, all.skip(it.index() as int)) == replayed(p0, all),
        {
            let ghost i = it.index() as int;
            proof {
                assert(all.skip(i).skip(1) =~= all.skip(i + 1));
                assert(all.skip(i)[0] == item);
            }
            match item {
                Ok(ev) => agg.apply(&ev),
                Err(e) => {
                    proof {
                        assert(replayed(agg@, all.skip(i)) == (agg@, Err::<(), S::Error>(e)));
                    }
                    return Err(e);
                },
            }
        }
        proof {
            assert(all.skip(all.len() as int) =~= Seq::<Result<NumberedEvent<Ev>, S::Error>>::empty());
        }
        Ok(())
    }

    /// Loads the aggregate `id` from its snapshot and replays the events
    /// after it; `None` when it has no snapshot.
    pub fn load_aggregate_and_rehydrate<Ev, Agg: EventSourced<Ev>, R: SnapshotSource<Agg> + EventSource<Agg, Ev>>(
        &self,
        id: &Agg::Id,
        repo: &R,
    ) -> (r: Result<Option<HydratedAggregate<Agg>>, LoadError<<R as SnapshotSource<Agg>>::Error, <R as EventSource<Agg, Ev>>::Error>>)
        ensures
            r == loaded_and_rehydrated::<Agg, Ev, R>(*repo, *id),
    {
        let agg = match self.load_aggregate_from_snapshot(id, repo) {
            Ok(a) => a,
            Err(e) => return Err(LoadError::Snapshot(e)),
        };
        match agg {
            None => Ok(None),
            Some(agg) => {
                let mut agg = agg;
                let ghost h0 = agg;
                match self.rehydrate_aggregate::<Ev, Agg, R>(&mut agg, repo) {
                    Ok(_) => {},
                    Err(e) => return Err(LoadError::Events(e)),
                }
                proof {
                    lemma_from_view(agg, rehydrated::<Agg, Ev, R>(*repo, h0@).0);
                }
                Ok(Some(agg))
            },
        }
    }

    /// Loads the aggregates `ids` from their snapshots and replays the
    /// events after each.
    pub fn load_aggregates_and_rehydrate<Ev, Agg: EventSourced<Ev>, R: SnapshotSource<Agg> + EventSource<Agg, Ev>>(
        &self,
        ids: &[Agg::Id],
        repo: &R,
    ) -> (r: Result<Vec<HydratedAggregate<Agg>>, LoadError<<R as SnapshotSource<Agg>>::Error, <R as EventSource<Agg, Ev>>::Error>>)
        ensures
            vec_view(r) == loaded_all_and_rehydrated::<Agg, Ev, R>(*repo, ids@),
    {
        let aggs = match self.load_aggregates_from_snapshot(ids, repo) {
            Ok(a) => a,
            Err(e) => return Err(LoadError::Snapshot(e)),
        };
        if aggs.len() == 0 {
            proof {
                assert(aggs@ =~= Seq::<HydratedAggregate<Agg>>::empty());
            }
            return Ok(aggs);
        }
        let ghost all = aggs@;
        let mut out: Vec<HydratedAggregate<Agg>> = Vec::new();
        proof {
            assert(all.skip(0) =~= all);
            assert(out@ + all =~= all);
            match rehydrated_all::<Agg, Ev, R>(*repo, all) {
                Ok(rest) => assert(out@ + rest =~= rest),
                Err(_) => {},
            }
        }
        for agg in it: aggs.into_iter()
            invariant
                it.seq() == all,
                loaded_all_from_snapshot(*repo, ids@) matches Ok(hs) && hs == all,
                rehydrated_all::<Agg, Ev, R>(*repo, all) == prepend(out@, rehydrated_all::<Agg, Ev, R>(*repo, all.skip(it.index() as int))),
        {
            let ghost i = it.index() as int;
            proof {
                assert(all.skip(i).skip(1) =~= all.skip(i + 1));
                assert(all.skip(i)[0] == agg);
            }
            let mut agg = agg;
            let ghost h0 = agg;
            match self.rehydrate_aggregate::<Ev, Agg, R>(&mut agg, repo) {
                Ok(_) => {},
                Err(e) => {
                    proof {
                        assert(rehydrated_all::<Agg, Ev, R>(*repo, all.skip(i)) == Err::<Seq<HydratedAggregate<Agg>>, <R as EventSource<Agg, Ev>>::Error>(e));
                    }
                    return Err(LoadError::Events(e));
                },
            }
            proof {
                lemma_from_view(agg, rehydrated::<Agg, Ev, R>(*repo, h0@).0);
                match rehydrated_all::<Agg, Ev, R>(*repo, all.skip(i + 1)) {
                    Ok(rest) => assert(out@ + (seq![agg] + rest) =~= out@.push(agg) + rest),
                    Err(_) => {},
                }
            }
            out.push(agg);
        }
        proof {
            assert(all.skip(all.len() as int) =~= Seq::<HydratedAggregate<Agg>>::empty());
            assert(out@ + Seq::<HydratedAggregate<Agg>>::empty() =~= out@);
        }
        Ok(out)
    }
}

impl<Snp: SnapshotStrategy> Basic<Snp> {
    /// Takes a snapshot of `agg` where the strategy recommends one, and
    /// records it.
    pub fn persist_aggregate<Agg: Aggregate, R: SnapshotSink<Agg>>(
        &self,
        agg: &mut HydratedAggregate<Agg>,
        repo: &mut R,
    ) -> (r: Result<(), R::Error>)
        ensures
            (*final(repo), final(agg)@, r) == persisted(self.strategy(), *old(repo), old(agg)@),
    {
        let rcmnd = self.snapshot_strategy.recommendation(agg.version(), agg.snapshot_version());
        match rcmnd {
            SnapshotRecommendation::ShouldSnapshot => {
                match repo.persist_snapshot(agg.state(), agg.version()) {
                    Ok(_) => {},
                    Err(e) => return Err(e),
                }
                let version = agg.version();
                agg.set_snapshot_version(version);
            },
            SnapshotRecommendation::DoNotSnapshot => {},
        }
        Ok(())
    }

    /// Takes, in one batch, a snapshot of each of `aggs` that the strategy
    /// recommends one of, and records them once the batch is stored.
    pub fn persist_aggregates<Agg: Aggregate, R: SnapshotSink<Agg>>(
        &self,
        aggs: &mut Vec<HydratedAggregate<Agg>>,
        repo: &mut R,
    ) -> (r: Result<(), R::Error>)
        ensures
            (*final(repo), views(final(aggs)@), r) == persisted_all(self.strategy(), *old(repo), views(old(aggs)@)),
    {
        let ghost strategy = self.strategy();
        let ghost all = views(aggs@);
        if aggs.len() == 0 {
            proof {
                assert(all =~= Seq::<Parts<Agg>>::empty());
            }
            return Ok(());
        }
        let mut marks: Vec<bool> = Vec::new();
        let mut batch: Vec<(&Agg, Version)> = Vec::new();
        let mut i: usize = 0;
        while i < aggs.len()
            invariant
                strategy == self.strategy(),
                all == views(aggs@),
                i <= aggs@.len(),
                marks@.len() == i,
                forall|j: int| 0 <= j < i ==> #[trigger] marks@[j] == should_snapshot(strategy, all[j]),
                batch_view(batch@) == snapshot_batch(strategy, all.take(i as int)),
            decreases aggs@.len() - i,
        {
            let agg = &aggs[i];
            let should = match self.snapshot_strategy.recommendation(agg.version(), agg.snapshot_version()) {
                SnapshotRecommendation::ShouldSnapshot => true,
                SnapshotRecommendation::DoNotSnapshot => false,
            };
            proof {
                assert(all.take(i + 1).drop_last() =~= all.take(i as int));
                assert(all[i as int] == agg@);
            }
            if should {
                let ghost before = batch@;
                batch.push((agg.state(), agg.version()));
                proof {
                    assert(batch_view(batch@) =~= batch_view(before) + seq![(agg@.2, agg@.0)]);
                }
            } else {
                proof {
                    assert(snapshot_batch(strategy, all.take(i + 1)) =~= snapshot_batch(strategy, all.take(i as int)));
                }
            }
            marks.push(should);
            i = i + 1;
        }
        proof {
            assert(all.take(all.len() as int) =~= all);
        }
        if batch.len() == 0 {
            return Ok(());
        }
        match repo.persist_snapshots(batch.as_slice()) {
            Ok(_) => {},
            Err(e) => return Err(e),
        }
        let mut taken: Vec<HydratedAggregate<Agg>> = Vec::new();
        std::mem::swap(&mut taken, aggs);
        let ghost hs = taken@;
        let mut k: usize = 0;
        for agg in it: taken.into_iter()
            invariant
                it.seq() == hs,
                views(hs) == all,
                k == it.index(),
                marks@.len() == all.len(),
                forall|j: int| 0 <= j < all.len() ==> #[trigger] marks@[j] == should_snapshot(strategy, all[j]),
                views(aggs@) == marked(strategy, all.take(k as int)),
        {
            let mut agg = agg;
            proof {
                assert(all[k as int] == agg@);
            }
            let mark = marks[k];
            if mark {
                let version = agg.version();
                agg.set_snapshot_version(version);
            }
            let ghost before = aggs@;
            aggs.push(agg);
            proof {
                assert(views(aggs@) =~= views(before).push(agg@));
                assert(marked(strategy, all.take(k + 1)) =~= marked(strategy, all.take(k as int)).push(agg@));
            }
            assert(k < marks.len());
            k = k + 1;
        }
        proof {
            assert(all.take(all.len() as int) =~= all);
        }
        Ok(())
    }

    /// Loads the aggregate `id`, replays the events after its snapshot and
    /// takes a new snapshot where the strategy recommends one.
    pub fn load_aggregate_rehydrate_and_persist<Ev, Agg: EventSourced<Ev>, R: SnapshotSource<Agg> + EventSource<Agg, Ev> + SnapshotSink<Agg>>(
        &self,
        id: &Agg::Id,
        repo: &mut R,
    ) -> (r: Result<(), LoadRehydrateAndPersistError<<R as SnapshotSource<Agg>>::Error, <R as EventSource<Agg, Ev>>::Error, <R as SnapshotSink<Agg>>::Error>>)
        ensures
            match loaded_and_rehydrated::<Agg, Ev, R>(*old(repo), *id) {
                Err(e) => *final(repo) == *old(repo) && r == Err::<(), LoadRehydrateAndPersistError<<R as SnapshotSource<Agg>>::Error, <R as EventSource<Agg, Ev>>::Error, <R as SnapshotSink<Agg>>::Error>>(LoadRehydrateAndPersistError::Load(e)),
                Ok(None) => *final(repo) == *old(repo) && r is Ok,
                Ok(Some(h)) => {
                    let (r2, _, res) = persisted(self.strategy(), *old(repo), h@);
                    &&& *final(repo) == r2
                    &&& match res {
                        Ok(_) => r is Ok,
                        Err(e) => r == Err::<(), LoadRehydrateAndPersistError<<R as SnapshotSource<Agg>>::Error, <R as EventSource<Agg, Ev>>::Error, <R as SnapshotSink<Agg>>::Error>>(LoadRehydrateAndPersistError::Persist(e)),
                    }
                },
            },
    {
        let agg = match self.load_aggregate_and_rehydrate::<Ev, Agg, R>(id, &*repo) {
            Ok(a) => a,
            Err(e) => return Err(LoadRehydrateAndPersistError::Load(e)),
        };
        match agg {
            Some(agg) => {
                let mut agg = agg;
                match self.persist_aggregate(&mut agg, repo) {
                    Ok(_) => {},
                    Err(e) => return Err(LoadRehydrateAndPersistError::Persist(e)),
                }
            },
            None => {},
        }
        Ok(())
    }

    /// Loads the aggregates `ids`, replays the events after their snapshots
    /// and takes new snapshots where the strategy recommends them.
    pub fn load_aggregates_rehydrate_and_persist<Ev, Agg: EventSourced<Ev>, R: SnapshotSource<Agg> + EventSource<Agg, Ev> + SnapshotSink<Agg>>(
        &self,
        ids: &[Agg::Id],
        repo: &mut R,
    ) -> (r: Result<(), LoadRehydrateAndPersistError<<R as SnapshotSource<Agg>>::Error, <R as EventSource<Agg, Ev>>::Error, <R as SnapshotSink<Agg>>::Error>>)
        ensures
            match loaded_all_and_rehydrated::<Agg, Ev, R>(*old(repo), ids@) {
                Err(e) => *final(repo) == *old(repo) && r == Err::<(), LoadRehydrateAndPersistError<<R as SnapshotSource<Agg>>::Error, <R as EventSource<Agg, Ev>>::Error, <R as SnapshotSink<Agg>>::Error>>(LoadRehydrateAndPersistError::Load(e)),
                Ok(hs) => {
                    let (r2, _, res) = persisted_all(self.strategy(), *old(repo), views(hs));
                    &&& *final(repo) == r2
                    &&& match res {
                        Ok(_) => r is Ok,
                        Err(e) => r == Err::<(), LoadRehydrateAndPersistError<<R as SnapshotSource<Agg>>::Error, <R as EventSource<Agg, Ev>>::Error, <R as SnapshotSink<Agg>>::Error>>(LoadRehydrateAndPersistError::Persist(e)),
                    }
                },
            },
    {
        let mut aggs = match self.load_aggregates_and_rehydrate::<Ev, Agg, R>(ids, &*repo) {
            Ok(a) => a,
            Err(e) => return Err(LoadRehydrateAndPersistError::Load(e)),
        };
        if aggs.len() == 0 {
            proof {
                assert(views(aggs@) =~= Seq::<Parts<Agg>>::empty());
            }
            return Ok(());
        }
        match self.persist_aggregates(&mut aggs, repo) {
            Ok(_) => Ok(()),
            Err(e) => Err(LoadRehydrateAndPersistError::Persist(e)),
        }
    }

    /// Appends `events` to the stream of `agg`, applies the numbered events
    /// the sink gives back (handing each to `ctx`, when there is one), then
    /// takes a snapshot where the strategy recommends one.
    pub fn apply_events_and_persist<Ev, Agg: EventSourced<Ev>, Mt, R: EventSink<Agg, Ev, Mt> + SnapshotSink<Agg>, Ctx: BufferedContext<Ev>>(
        &self,
        agg: &mut HydratedAggregate<Agg>,
        events: &[Ev],
        meta: &Mt,
        repo: &mut R,
        ctx: Option<&mut Ctx>,
    ) -> (r: Result<(), PersistError<<R as EventSink<Agg, Ev, Mt>>::Error, <R as SnapshotSink<Agg>>::Error>>)
        ensures
            ({
                let (r2, q, ns, res) = appended_and_persisted(self.strategy(), *old(repo), old(agg)@, events@, *meta);
                &&& *final(repo) == r2
                &&& final(agg)@ == q
                &&& r == res
                &&& match ctx {
                    Some(c) => final(c).buffered() == (*c).buffered() + ns,
                    None => true,
                }
            }),
    {
        let appended = match repo.append_events(agg.id(), events, meta) {
            Ok(a) => a,
            Err(e) => {
                proof {
                    match ctx {
                        Some(c) => assert(c.buffered() + Seq::<NumberedEvent<Ev>>::empty() =~= c.buffered()),
                        None => {},
                    }
                }
                return Err(PersistError::Events(e));
            },
        };
        let ghost p0 = agg@;
        let ghost ns = appended@;
        let mut i: usize = 0;
        while i < appended.len()
            invariant
                ns == appended@,
                i <= ns.len(),
                agg@ == applied_all(p0, ns.take(i as int)),
            decreases ns.len() - i,
        {
            proof {
                assert(ns.take(i + 1).drop_last() =~= ns.take(i as int));
            }
            agg.apply(&appended[i]);
            i = i + 1;
        }
        proof {
            assert(ns.take(ns.len() as int) =~= ns);
        }
        match ctx {
            Some(c) => {
                let ghost b0 = c.buffered();
                for ev in it: appended.into_iter()
                    invariant
                        it.seq() == ns,
                        c.buffered() == b0 + ns.take(it.index() as int),
                {
                    proof {
                        assert(b0 + ns.take(it.index() + 1) =~= (b0 + ns.take(it.index() as int)).push(ev));
                    }
                    c.buffer_event(ev);
                }
                proof {
                    assert(ns.take(ns.len() as int) =~= ns);
                }
            },
            None => {},
        }
        match self.persist_aggregate(agg, repo) {
            Ok(_) => Ok(()),
            Err(e) => Err(PersistError::Snapshot(e)),
        }
    }

    /// Executes `cmd` against `agg` (the initial aggregate when `None`); when
    /// it produces events, appends them, applies them and takes a snapshot
    /// where the strategy recommends one. Returns the resulting aggregate.
    pub fn exec_command_and_persist<Agg, Ev, Cmd, Mt, R, Ctx: BufferedContext<Ev>>(
        &self,
        cmd: Cmd,
        agg: Option<HydratedAggregate<Agg>>,
        meta: &Mt,
        handler_ctx: &<Agg as CommandHandler<Cmd>>::Context,
        repo: &mut R,
        ctx: Option<&mut Ctx>,
    ) -> (r: Result<
        HydratedAggregate<Agg>,
        ExecAndPersistError<Agg, <Agg as CommandHandler<Cmd>>::Error, <R as EventSink<Agg, Ev, Mt>>::Error, <R as SnapshotSink<Agg>>::Error>,
    >) where
        Agg: CommandHandler<Cmd, Event = Ev> + EventSourced<Ev>,
        R: EventSink<Agg, Ev, Mt> + SnapshotSink<Agg>,
        ensures
            ({
                let (r2, ns, res) = executed_and_persisted(self.strategy(), *old(repo), cmd, agg, *meta, *handler_ctx);
                &&& *final(repo) == r2
                &&& r == res
                &&& match ctx {
                    Some(c) => final(c).buffered() == (*c).buffered() + ns,
                    None => true,
                }
            }),
    {
        let is_new = agg.is_none();
        let mut agg = match agg {
            Some(a) => a,
            None => HydratedAggregate::default(),
        };
        let ghost p = agg@;
        proof {
            lemma_from_view(agg, p);
        }
        match agg.state().handle(cmd, handler_ctx) {
            Ok(events) => {
                if events.len() != 0 {
                    if is_new {
                        agg.apply_data(EventNumber::min_value(), &events[0]);
                    }
                    match self.apply_events_and_persist(&mut agg, events.as_slice(), meta, repo, ctx) {
                        Ok(_) => {},
                        Err(e) => return Err(ExecAndPersistError::Persist(e)),
                    }
                    proof {
                        lemma_from_view(agg, agg@);
                    }
                } else {
                    proof {
                        match ctx {
                            Some(c) => assert(c.buffered() + Seq::<NumberedEvent<Ev>>::empty() =~= c.buffered()),
                            None => {},
                        }
                    }
                }
                Ok(agg)
            },
            Err(err) => {
                proof {
                    match ctx {
                        Some(c) => assert(c.buffered() + Seq::<NumberedEvent<Ev>>::empty() =~= c.buffered()),
                        None => {},
                    }
                }
                Err(ExecAndPersistError::Exec(agg, err))
            },
        }
    }

    /// Loads the aggregate `cmd` is addressed to and replays its events (a
    /// command addressed to none runs against the initial aggregate), then
    /// executes `cmd` and persists as `exec_command_and_persist` does;
    /// `None` when the aggregate has no snapshot.
    pub fn load_aggregate_exec_command_and_persist<Agg, Ev, Cmd: Command<Aggregate = Agg>, Mt, R, Ctx: BufferedContext<Ev>>(
        &self,
        cmd: Cmd,
        meta: &Mt,
        handler_ctx: &<Agg as CommandHandler<Cmd>>::Context,
        repo: &mut R,
        ctx: Option<&mut Ctx>,
    ) -> (r: Result<
        Option<HydratedAggregate<Agg>>,
        LoadExecAndPersistError<
            Agg,
            <Agg as CommandHandler<Cmd>>::Error,
            <R as SnapshotSource<Agg>>::Error,
            <R as EventSource<Agg, Ev>>::Error,
            <R as EventSink<Agg, Ev, Mt>>::Error,
            <R as SnapshotSink<Agg>>::Error,
        >,
    >) where
        Agg: CommandHandler<Cmd, Event = Ev> + EventSourced<Ev>,
        R: SnapshotSource<Agg> + EventSource<Agg, Ev> + EventSink<Agg, Ev, Mt> + SnapshotSink<Agg>,
        ensures
            ({
                let (r2, ns, res) = loaded_executed_and_persisted(self.strategy(), *old(repo), cmd, *meta, *handler_ctx);
                &&& *final(repo) == r2
                &&& r == res
                &&& match ctx {
                    Some(c) => final(c).buffered() == (*c).buffered() + ns,
                    None => true,
                }
            }),
    {
        let agg = match cmd.aggregate_id() {
            Some(id) => {
                match self.load_aggregate_and_rehydrate::<Ev, Agg, R>(id, &*repo) {
                    Ok(Some(a)) => a,
                    Ok(None) => {
                        proof {
                            match ctx {
                                Some(c) => assert(c.buffered() + Seq::<NumberedEvent<Ev>>::empty() =~= c.buffered()),
                                None => {},
                            }
                        }
                        return Ok(None);
                    },
                    Err(e) => {
                        proof {
                            match ctx {
                                Some(c) => assert(c.buffered() + Seq::<NumberedEvent<Ev>>::empty() =~= c.buffered()),
                                None => {},
                            }
                        }
                        return Err(LoadExecAndPersistError::Load(e));
                    },
                }
            },
            None => {
                let h = HydratedAggregate::default();
                proof {
                    lemma_from_view(h, initial_parts::<Agg>());
                }
                h
            },
        };
        match self.exec_command_and_persist(cmd, Some(agg), meta, handler_ctx, repo, ctx) {
            Ok(a) => Ok(Some(a)),
            Err(e) => Err(LoadExecAndPersistError::from(e)),
        }
    }
}

/// Persisting never changes an aggregate's version or state, and records a
/// snapshot at its version exactly when the sink stored one. Where the
/// strategy recommends a snapshot, the sink is given the aggregate's current
/// state at its current version; elsewhere the sink is left alone.
pub proof fn law_persisting_keeps_version_and_state<Agg: Aggregate, Snp: SnapshotStrategy, R: SnapshotSink<Agg>>(
    strategy: Snp,
    repo: R,
    p: Parts<Agg>,
)
    ensures
        persisted(strategy, repo, p).0 == if should_snapshot(strategy, p) {
            repo.persist_spec(p.2, p.0).0
        } else {
            repo
        },
        persisted(strategy, repo, p).1.0 == p.0,
        persisted(strategy, repo, p).1.2 == p.2,
        persisted(strategy, repo, p).1.1 == if should_snapshot(strategy, p) && persisted(strategy, repo, p).2 is Ok {
            p.0
        } else {
            p.1
        },
{
}

/// The strategy that never recommends a snapshot never writes to the sink.
pub proof fn law_never_snapshot_writes_nothing<Agg: Aggregate, R: SnapshotSink<Agg>>(
    repo: R,
    p: Parts<Agg>,
    ps: Seq<Parts<Agg>>,
)
    ensures
        persisted(NeverSnapshot, repo, p) == (repo, p, Ok::<(), R::Error>(())),
        persisted_all(NeverSnapshot, repo, ps) == (repo, ps, Ok::<(), R::Error>(())),
    decreases ps.len(),
{
    if ps.len() > 0 {
        law_never_snapshot_writes_nothing(repo, p, ps.drop_last());
        assert(snapshot_batch(NeverSnapshot, ps) =~= snapshot_batch(NeverSnapshot, ps.drop_last()));
    }
}

/// The strategy that always recommends a snapshot puts every aggregate in
/// the batch, in order.
pub proof fn law_always_snapshot_takes_all<Agg>(ps: Seq<Parts<Agg>>)
    ensures
        snapshot_batch(AlwaysSnapshot, ps) == ps.map_values(|p: Parts<Agg>| (p.2, p.0)),
    decreases ps.len(),
{
    if ps.len() > 0 {
        law_always_snapshot_takes_all(ps.drop_last());
        assert(ps.map_values(|p: Parts<Agg>| (p.2, p.0)) =~= ps.drop_last().map_values(|p: Parts<Agg>| (p.2, p.0)).push(
            (ps.last().2, ps.last().0),
        ));
    } else {
        assert(ps.map_values(|p: Parts<Agg>| (p.2, p.0)) =~= Seq::<(Agg, Version)>::empty());
    }
}

/// A read that yields no error replays every event it yields: the aggregate
/// ends with all of them applied, in order.
pub proof fn law_replay_without_errors<Agg: EventSourced<Ev>, Ev, E>(p: Parts<Agg>, events: Seq<NumberedEvent<Ev>>)
    ensures
        replayed(p, events.map_values(|e: NumberedEvent<Ev>| Ok::<NumberedEvent<Ev>, E>(e))) == (
            applied_all(p, events),
            Ok::<(), E>(()),
        ),
    decreases events.len(),
{
    let items = events.map_values(|e: NumberedEvent<Ev>| Ok::<NumberedEvent<Ev>, E>(e));
    if events.len() > 0 {
        let rest = events.skip(1);
        law_replay_without_errors::<Agg, Ev, E>(applied_numbered(p, events[0]), rest);
        assert(items.skip(1) =~= rest.map_values(|e: NumberedEvent<Ev>| Ok::<NumberedEvent<Ev>, E>(e)));
        lemma_applied_all_first(p, events);
    } else {
        assert(items =~= Seq::<Result<NumberedEvent<Ev>, E>>::empty());
    }
}

/// Applying numbered events is applying the first, then the rest.
proof fn lemma_applied_all_first<Agg: EventSourced<Ev>, Ev>(p: Parts<Agg>, events: Seq<NumberedEvent<Ev>>)
    requires
        events.len() > 0,
    ensures
        applied_all(p, events) == applied_all(applied_numbered(p, events[0]), events.skip(1)),
    decreases events.len(),
{
    if events.len() == 1 {
        assert(events.drop_last() =~= Seq::<NumberedEvent<Ev>>::empty());
        assert(events.skip(1) =~= Seq::<NumberedEvent<Ev>>::empty());
        assert(applied_all(p, events) == applied_numbered(applied_all(p, events.drop_last()), events.last()));
        assert(applied_all(p, events) == applied_numbered(p, events[0]));
    } else {
        lemma_applied_all_first(p, events.drop_last());
        let q = applied_numbered(p, events[0]);
        let rest = events.skip(1);
        assert(events.drop_last().skip(1) =~= rest.drop_last());
        assert(events.drop_last()[0] == events[0]);
        assert(rest.last() == events.last());
        assert(applied_all(q, rest) == applied_numbered(applied_all(q, rest.drop_last()), rest.last()));
        assert(applied_all(p, events.drop_last()) == applied_all(q, rest.drop_last()));
        assert(applied_all(p, events) == applied_numbered(applied_all(p, events.drop_last()), events.last()));
    }
}

/// A command that the aggregate refuses writes nothing, hands no event to
/// the context, and fails with the aggregate it ran against.
pub proof fn law_refused_command_changes_nothing<Agg, Ev, Cmd, Mt, Snp: SnapshotStrategy, R>(
    strategy: Snp,
    repo: R,
    cmd: Cmd,
    agg: Option<HydratedAggregate<Agg>>,
    meta: Mt,
    handler_ctx: <Agg as CommandHandler<Cmd>>::Context,
) where
    Agg: CommandHandler<Cmd, Event = Ev> + EventSourced<Ev>,
    R: EventSink<Agg, Ev, Mt> + SnapshotSink<Agg>,
    requires
        (match agg {
            Some(h) => h@,
            None => initial_parts::<Agg>(),
        }).2.handled(cmd, handler_ctx) is Err,
    ensures
        ({
            let p = match agg {
                Some(h) => h@,
                None => initial_parts::<Agg>(),
            };
            let (r2, ns, res) = executed_and_persisted(strategy, repo, cmd, agg, meta, handler_ctx);
            &&& r2 == repo
            &&& ns.len() == 0
            &&& res matches Err(ExecAndPersistError::Exec(h, e)) && h@ == p && Err::<Seq<Ev>, _>(e) == p.2.handled(cmd, handler_ctx)
        }),
{
    let p = match agg {
        Some(h) => h@,
        None => initial_parts::<Agg>(),
    };
    lemma_from_view(from_view(p), p);
}

/// A command that produces no event writes nothing, hands no event to the
/// context, and gives back the aggregate it ran against.
pub proof fn law_no_events_change_nothing<Agg, Ev, Cmd, Mt, Snp: SnapshotStrategy, R>(
    strategy: Snp,
    repo: R,
    cmd: Cmd,
    agg: Option<HydratedAggregate<Agg>>,
    meta: Mt,
    handler_ctx: <Agg as CommandHandler<Cmd>>::Context,
) where
    Agg: CommandHandler<Cmd, Event = Ev> + EventSourced<Ev>,
    R: EventSink<Agg, Ev, Mt> + SnapshotSink<Agg>,
    requires
        (match agg {
            Some(h) => h@,
            None => initial_parts::<Agg>(),
        }).2.handled(cmd, handler_ctx) matches Ok(events) && events.len() == 0,
    ensures
        ({
            let p = match agg {
                Some(h) => h@,
                None => initial_parts::<Agg>(),
            };
            let (r2, ns, res) = executed_and_persisted(strategy, repo, cmd, agg, meta, handler_ctx);
            &&& r2 == repo
            &&& ns.len() == 0
            &&& res matches Ok(h) && h@ == p
        }),
{
    let p = match agg {
        Some(h) => h@,
        None => initial_parts::<Agg>(),
    };
    lemma_from_view(from_view(p), p);
}

} // verus!
