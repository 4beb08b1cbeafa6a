//! A system: a snapshot strategy together with the context that is the
//! source and sink of every operation.
use vstd::prelude::*;
use crate::entity::Parts;
use crate::lifecycle::basic::{appended_and_persisted, loaded_from_snapshot, rehydrated};
use crate::lifecycle::{
    from_view, initial_parts, lemma_from_view, AlwaysSnapshot, Aggregate, Basic, Command, CommandHandler, EventBuffer,
    EventSink, EventSource, EventSourced, HydratedAggregate, NeverSnapshot, SnapshotSink, SnapshotSource,
    SnapshotStrategy,
};

verus! {

/// Why loading an aggregate failed.
#[derive(Debug, Clone, Copy, Eq, PartialEq)]
pub enum LoadError<S, E> {
    /// Loading the snapshot failed.
    Snapshot(S),
    /// Loading the events failed.
    Events(E),
}

/// Why persisting an aggregate failed.
#[derive(Clone, Copy, Debug, Eq, PartialEq)]
pub enum PersistError<E, S> {
    /// Persisting the events failed.
    Events(E),
    /// Persisting the snapshot failed; the events were persisted.
    Snapshot(S),
}

/// Why executing a command and persisting its events failed.
#[derive(Clone, Copy, Debug, Eq, PartialEq)]
pub enum ExecAndPersistError<A, E, EvSnkErr, SsSnkErr> {
    /// The aggregate refused the command.
    Exec(HydratedAggregate<A>, E),
    Persist(PersistError<EvSnkErr, SsSnkErr>),
}

/// Why loading an aggregate, executing a command and persisting failed.
#[derive(Clone, Copy, Debug, Eq, PartialEq)]
pub enum LoadExecAndPersistError<A, E, SsSrcErr, EvSrcErr, EvSnkErr, SsSnkErr> {
    Load(LoadError<SsSrcErr, EvSrcErr>),
    /// The aggregate refused the command.
    Exec(HydratedAggregate<A>, E),
    Persist(PersistError<EvSnkErr, SsSnkErr>),
}

impl<A, E, EvSnkErr, SsSnkErr> From<PersistError<EvSnkErr, SsSnkErr>> for ExecAndPersistError<A, E, EvSnkErr, SsSnkErr> {
    fn from(err: PersistError<EvSnkErr, SsSnkErr>) -> (e: Self) {
        ExecAndPersistError::Persist(err)
    }
}

impl<A, E, EvSnkErr, SsSnkErr> vstd::std_specs::convert::FromSpecImpl<PersistError<EvSnkErr, SsSnkErr>> for ExecAndPersistError<A, E, EvSnkErr, SsSnkErr> {
    open spec fn obeys_from_spec() -> bool {
        true
    }

    open spec fn from_spec(err: PersistError<EvSnkErr, SsSnkErr>) -> Self {
        ExecAndPersistError::Persist(err)
    }
}

impl<A, E, SsSrcErr, EvSrcErr, EvSnkErr, SsSnkErr> From<PersistError<EvSnkErr, SsSnkErr>> for LoadExecAndPersistError<A, E, SsSrcErr, EvSrcErr, EvSnkErr, SsSnkErr> {
    fn from(err: PersistError<EvSnkErr, SsSnkErr>) -> (e: Self) {
        LoadExecAndPersistError::Persist(err)
    }
}

impl<A, E, SsSrcErr, EvSrcErr, EvSnkErr, SsSnkErr> vstd::std_specs::convert::FromSpecImpl<PersistError<EvSnkErr, SsSnkErr>> for LoadExecAndPersistError<A, E, SsSrcErr, EvSrcErr, EvSnkErr, SsSnkErr> {
    open spec fn obeys_from_spec() -> bool {
        true
    }

    open spec fn from_spec(err: PersistError<EvSnkErr, SsSnkErr>) -> Self {
        LoadExecAndPersistError::Persist(err)
    }
}

impl<A, E, SsSrcErr, EvSrcErr, EvSnkErr, SsSnkErr> From<LoadError<SsSrcErr, EvSrcErr>> for LoadExecAndPersistError<A, E, SsSrcErr, EvSrcErr, EvSnkErr, SsSnkErr> {
    fn from(err: LoadError<SsSrcErr, EvSrcErr>) -> (e: Self) {
        LoadExecAndPersistError::Load(err)
    }
}

impl<A, E, SsSrcErr, EvSrcErr, EvSnkErr, SsSnkErr> vstd::std_specs::convert::FromSpecImpl<LoadError<SsSrcErr, EvSrcErr>> for LoadExecAndPersistError<A, E, SsSrcErr, EvSrcErr, EvSnkErr, SsSnkErr> {
    open spec fn obeys_from_spec() -> bool {
        true
    }

    open spec fn from_spec(err: LoadError<SsSrcErr, EvSrcErr>) -> Self {
        LoadExecAndPersistError::Load(err)
    }
}

/// The error an execution error becomes when loading came first.
pub open spec fn widen<A, E, SsSrcErr, EvSrcErr, EvSnkErr, SsSnkErr>(
    err: ExecAndPersistError<A, E, EvSnkErr, SsSnkErr>,
) -> LoadExecAndPersistError<A, E, SsSrcErr, EvSrcErr, EvSnkErr, SsSnkErr> {
    match err {
        ExecAndPersistError::Exec(agg, e) => LoadExecAndPersistError::Exec(agg, e),
        ExecAndPersistError::Persist(e) => LoadExecAndPersistError::Persist(e),
    }
}

impl<A, E, SsSrcErr, EvSrcErr, EvSnkErr, SsSnkErr> From<ExecAndPersistError<A, E, EvSnkErr, SsSnkErr>> for LoadExecAndPersistError<A, E, SsSrcErr, EvSrcErr, EvSnkErr, SsSnkErr> {
    fn from(err: ExecAndPersistError<A, E, EvSnkErr, SsSnkErr>) -> (e: Self) {
        match err {
            ExecAndPersistError::Exec(agg, e) => LoadExecAndPersistError::Exec(agg, e),
            ExecAndPersistError::Persist(e) => LoadExecAndPersistError::Persist(e),
        }
    }
}

impl<A, E, SsSrcErr, EvSrcErr, EvSnkErr, SsSnkErr> vstd::std_specs::convert::FromSpecImpl<ExecAndPersistError<A, E, EvSnkErr, SsSnkErr>> for LoadExecAndPersistError<A, E, SsSrcErr, EvSrcErr, EvSnkErr, SsSnkErr> {
    open spec fn obeys_from_spec() -> bool {
        true
    }

    open spec fn from_spec(err: ExecAndPersistError<A, E, EvSnkErr, SsSnkErr>) -> Self {
        widen(err)
    }
}

/// The system's persist error a lifecycle persist error becomes.
pub open spec fn persist_error<E, S>(e: crate::lifecycle::PersistError<E, S>) -> PersistError<E, S> {
    match e {
        crate::lifecycle::PersistError::Events(x) => PersistError::Events(x),
        crate::lifecycle::PersistError::Snapshot(x) => PersistError::Snapshot(x),
    }
}

/// What loading an aggregate from its snapshot and replaying the events
/// after it gives; `None` when it has no snapshot.
pub open spec fn system_loaded<Agg: EventSourced<Ev>, Ev, R: SnapshotSource<Agg> + EventSource<Agg, Ev>>(
    repo: R,
    id: Agg::Id,
) -> Result<Option<HydratedAggregate<Agg>>, LoadError<<R as SnapshotSource<Agg>>::Error, <R as EventSource<Agg, Ev>>::Error>> {
    match loaded_from_snapshot(repo, id) {
        Err(e) => Err(LoadError::Snapshot(e)),
        Ok(None) => Ok(None),
        Ok(Some(h)) => {
            let (q, res) = rehydrated::<Agg, Ev, R>(repo, h@);
            match res {
                Err(e) => Err(LoadError::Events(e)),
                Ok(_) => Ok(Some(from_view(q))),
            }
        },
    }
}

/// The sink, the parts and the outcome after appending `events` for an
/// aggregate with parts `p`, applying the numbered events and persisting it.
pub open spec fn system_applied<Agg: EventSourced<Ev>, Ev, Mt, Snp: SnapshotStrategy, R: EventSink<Agg, Ev, Mt> + SnapshotSink<Agg>>(
    strategy: Snp,
    repo: R,
    p: Parts<Agg>,
    events: Seq<Ev>,
    meta: Mt,
) -> (R, Parts<Agg>, Result<(), PersistError<<R as EventSink<Agg, Ev, Mt>>::Error, <R as SnapshotSink<Agg>>::Error>>) {
    let (r2, q, _, res) = appended_and_persisted(strategy, repo, p, events, meta);
    (r2, q, match res {
        Ok(_) => Ok(()),
        Err(e) => Err(persist_error(e)),
    })
}

/// The sink and the outcome after executing `cmd` against `agg` (the
/// initial aggregate when `None`) and persisting the events it produces.
pub open spec fn system_executed<Agg, Ev, Cmd, Mt, Snp: SnapshotStrategy, R>(
    strategy: Snp,
    repo: R,
    cmd: Cmd,
    agg: Option<HydratedAggregate<Agg>>,
    meta: Mt,
    handler_ctx: <Agg as CommandHandler<Cmd>>::Context,
) -> (R, Result<
    HydratedAggregate<Agg>,
    ExecAndPersistError<Agg, <Agg as CommandHandler<Cmd>>::Error, <R as EventSink<Agg, Ev, Mt>>::Error, <R as SnapshotSink<Agg>>::Error>,
>) where
    Agg: CommandHandler<Cmd, Event = Ev> + EventSourced<Ev>,
    R: EventSink<Agg, Ev, Mt> + SnapshotSink<Agg>,
{
    let p = match agg {
        Some(h) => h@,
        None => initial_parts::<Agg>(),
    };
    match p.2.handled(cmd, handler_ctx) {
        Err(e) => (repo, Err(ExecAndPersistError::Exec(from_view(p), e))),
        Ok(events) => {
            let (r2, q, res) = system_applied(strategy, repo, p, events, meta);
            (r2, match res {
                Err(e) => Err(ExecAndPersistError::Persist(e)),
                Ok(_) => Ok(from_view(q)),
            })
        },
    }
}

/// A snapshot strategy together with the context the system works in.
#[derive(Debug)]
pub struct System<Snp, Ctx> {
    lifecycle: Basic<Snp>,
    ctx: Ctx,
}

impl<Snp, Ctx> System<Snp, Ctx> {
    /// The snapshot strategy.
    pub closed spec fn strategy(&self) -> Snp {
        self.lifecycle.strategy()
    }

    /// The context.
    pub closed spec fn ctx_spec(&self) -> Ctx {
        self.ctx
    }

    /// The system with the strategy `strategy` and the context `ctx`.
    pub closed spec fn of(strategy: Snp, ctx: Ctx) -> Self {
        System { lifecycle: Basic::of(strategy), ctx }
    }

    pub fn new(strategy: Snp, ctx: Ctx) -> (s: Self)
        ensures
            s == Self::of(strategy, ctx),
            s.strategy() == strategy,
            s.ctx_spec() == ctx,
    {
        System { lifecycle: Basic::new(strategy), ctx }
    }

    /// Loads the aggregate `id` from its snapshot in the context.
    pub fn load_aggregate_from_snapshot<A: Aggregate>(&self, id: &A::Id) -> (r: Result<
        Option<HydratedAggregate<A>>,
        <Ctx as SnapshotSource<A>>::Error,
    >) where Ctx: SnapshotSource<A>,
        ensures
            r == loaded_from_snapshot(self.ctx_spec(), *id),
    {
        self.lifecycle.load_aggregate_from_snapshot(id, &self.ctx)
    }

    /// Replays onto `agg` the events the context holds after its version.
    pub fn rehydrate_aggregate<E, A: EventSourced<E>>(&self, agg: &mut HydratedAggregate<A>) -> (r: Result<
        (),
        <Ctx as EventSource<A, E>>::Error,
    >) where Ctx: EventSource<A, E>,
        ensures
            (final(agg)@, r) == rehydrated::<A, E, Ctx>(self.ctx_spec(), old(agg)@),
    {
        self.lifecycle.rehydrate_aggregate::<E, A, Ctx>(agg, &self.ctx)
    }

    /// Loads the aggregate `id` from its snapshot in the context and replays
    /// the events after it; `None` when it has no snapshot.
    pub fn load_aggregate_and_rehydrate<E, A: EventSourced<E>>(&self, id: &A::Id) -> (r: Result<
        Option<HydratedAggregate<A>>,
        LoadError<<Ctx as SnapshotSource<A>>::Error, <Ctx as EventSource<A, E>>::Error>,
    >) where Ctx: SnapshotSource<A> + EventSource<A, E>,
        ensures
            r == system_loaded::<A, E, Ctx>(self.ctx_spec(), *id),
    {
        let agg = match self.load_aggregate_from_snapshot(id) {
            Ok(a) => a,
            Err(e) => return Err(LoadError::Snapshot(e)),
        };
        match agg {
            None => Ok(None),
            Some(agg) => {
                let mut agg = agg;
                let ghost h0 = agg;
                match self.rehydrate_aggregate::<E, A>(&mut agg) {
                    Ok(_) => {},
                    Err(e) => return Err(LoadError::Events(e)),
                }
                proof {
                    lemma_from_view(agg, rehydrated::<A, E, Ctx>(self.ctx_spec(), h0@).0);
                }
                Ok(Some(agg))
            },
        }
    }
}

impl<Ctx> From<Ctx> for System<AlwaysSnapshot, Ctx> {
    fn from(ctx: Ctx) -> (s: Self) {
        System::new(AlwaysSnapshot, ctx)
    }
}

impl<Ctx> vstd::std_specs::convert::FromSpecImpl<Ctx> for System<AlwaysSnapshot, Ctx> {
    open spec fn obeys_from_spec() -> bool {
        true
    }

    open spec fn from_spec(ctx: Ctx) -> Self {
        System::of(AlwaysSnapshot, ctx)
    }
}

impl<Ctx> From<Ctx> for System<NeverSnapshot, Ctx> {
    fn from(ctx: Ctx) -> (s: Self) {
        System::new(NeverSnapshot, ctx)
    }
}

impl<Ctx> vstd::std_specs::convert::FromSpecImpl<Ctx> for System<NeverSnapshot, Ctx> {
    open spec fn obeys_from_spec() -> bool {
        true
    }

    open spec fn from_spec(ctx: Ctx) -> Self {
        System::of(NeverSnapshot, ctx)
    }
}

impl<Snp: SnapshotStrategy, Ctx> System<Snp, Ctx> {
    /// Appends `events` through the context, applies the numbered events it
    /// gives back, then takes a snapshot where the strategy recommends one.
    pub fn apply_events_and_persist<E, A: EventSourced<E>, M>(
        &mut self,
        agg: &mut HydratedAggregate<A>,
        events: &[E],
        meta: M,
    ) -> (r: Result<(), PersistError<<Ctx as EventSink<A, E, M>>::Error, <Ctx as SnapshotSink<A>>::Error>>) where
        Ctx: EventSink<A, E, M> + SnapshotSink<A>,
        ensures
            final(self).strategy() == old(self).strategy(),
            (final(self).ctx_spec(), final(agg)@, r) == system_applied(
                old(self).strategy(),
                old(self).ctx_spec(),
                old(agg)@,
                events@,
                meta,
            ),
    {
        match self.lifecycle.apply_events_and_persist(agg, events, &meta, &mut self.ctx, None::<&mut EventBuffer<E>>) {
            Ok(_) => Ok(()),
            Err(crate::lifecycle::PersistError::Events(e)) => Err(PersistError::Events(e)),
            Err(crate::lifecycle::PersistError::Snapshot(e)) => Err(PersistError::Snapshot(e)),
        }
    }

    /// Executes `cmd` against `agg` (the initial aggregate when `None`),
    /// then appends and applies the events it produces and takes a snapshot
    /// where the strategy recommends one. Returns the resulting aggregate.
    pub fn exec_command_and_persist<A, E, C, M>(
        &mut self,
        cmd: C,
        agg: Option<HydratedAggregate<A>>,
        meta: M,
        handler_ctx: &<A as CommandHandler<C>>::Context,
    ) -> (r: Result<
        HydratedAggregate<A>,
        ExecAndPersistError<A, <A as CommandHandler<C>>::Error, <Ctx as EventSink<A, E, M>>::Error, <Ctx as SnapshotSink<A>>::Error>,
    >) where
        A: CommandHandler<C, Event = E> + EventSourced<E>,
        Ctx: EventSink<A, E, M> + SnapshotSink<A>,
        ensures
            final(self).strategy() == old(self).strategy(),
            (final(self).ctx_spec(), r) == system_executed(
                old(self).strategy(),
                old(self).ctx_spec(),
                cmd,
                agg,
                meta,
                *handler_ctx,
            ),
    {
        let mut agg = match agg {
            Some(a) => a,
            None => HydratedAggregate::default(),
        };
        let ghost p = agg@;
        proof {
            lemma_from_view(agg, p);
        }
        match agg.state().handle(cmd, handler_ctx) {
            Ok(events) => {
                match self.apply_events_and_persist(&mut agg, events.as_slice(), meta) {
                    Ok(_) => {},
                    Err(e) => return Err(ExecAndPersistError::Persist(e)),
                }
                proof {
                    lemma_from_view(agg, agg@);
                }
                Ok(agg)
            },
            Err(e) => Err(ExecAndPersistError::Exec(agg, e)),
        }
    }

    /// Loads the aggregate `cmd` is addressed to, replays its events,
    /// executes `cmd` and persists; `None` when the aggregate has no
    /// snapshot.
    pub fn load_exec_and_persist<A, E, C: Command<Aggregate = A>, M>(
        &mut self,
        cmd: C,
        meta: M,
        handler_ctx: &<A as CommandHandler<C>>::Context,
    ) -> (r: Result<
        Option<HydratedAggregate<A>>,
        LoadExecAndPersistError<
            A,
            <A as CommandHandler<C>>::Error,
            <Ctx as SnapshotSource<A>>::Error,
            <Ctx as EventSource<A, E>>::Error,
            <Ctx as EventSink<A, E, M>>::Error,
            <Ctx as SnapshotSink<A>>::Error,
        >,
    >) where
        A: CommandHandler<C, Event = E> + EventSourced<E>,
        Ctx: SnapshotSource<A> + EventSource<A, E> + EventSink<A, E, M> + SnapshotSink<A>,
        requires
            cmd.aggregate_id_spec() is Some,
        ensures
            final(self).strategy() == old(self).strategy(),
            match system_loaded::<A, E, Ctx>(old(self).ctx_spec(), cmd.aggregate_id_spec()->Some_0) {
                Err(e) => final(self).ctx_spec() == old(self).ctx_spec() && (r matches Err(LoadExecAndPersistError::Load(e2)) && e2 == e),
                Ok(None) => final(self).ctx_spec() == old(self).ctx_spec() && r matches Ok(None),
                Ok(Some(h)) => {
                    let (c2, res) = system_executed(old(self).strategy(), old(self).ctx_spec(), cmd, Some(h), meta, *handler_ctx);
                    &&& final(self).ctx_spec() == c2
                    &&& match res {
                        Ok(h2) => r matches Ok(Some(h3)) && h3 == h2,
                        Err(e) => r matches Err(e3) && e3 == widen::<A, <A as CommandHandler<C>>::Error, <Ctx as SnapshotSource<A>>::Error, <Ctx as EventSource<A, E>>::Error, <Ctx as EventSink<A, E, M>>::Error, <Ctx as SnapshotSink<A>>::Error>(e),
                    }
                },
            },
    {
        let agg = match cmd.aggregate_id() {
            Some(id) => match self.load_aggregate_and_rehydrate::<E, A>(id) {
                Ok(a) => a,
                Err(e) => return Err(LoadExecAndPersistError::Load(e)),
            },
            None => {
                proof {
                    assert(false);
                }
                return Ok(None);
            },
        };
        match agg {
            None => Ok(None),
            Some(agg) => match self.exec_command_and_persist(cmd, Some(agg), meta, handler_ctx) {
                Ok(a) => Ok(Some(a)),
                Err(e) => Err(LoadExecAndPersistError::from(e)),
            },
        }
    }
}

} // verus!
