//! The lifecycle bound to a context: the context is the source and sink of
//! every operation, and buffers the events appended through it.
use vstd::prelude::*;
use crate::event_processing::{
    handled_all, handled_by_all, lemma_handled_all_stops, lemma_handled_by_all_stops, matching, DynEventHandler,
    EventHandler, EventProcessingConfiguration, RegisteredEvent, Route,
};
use super::basic::{
    executed_and_persisted, loaded_all_and_rehydrated, loaded_all_from_snapshot, loaded_and_rehydrated,
    loaded_executed_and_persisted, loaded_from_snapshot, persisted, persisted_all, rehydrated, vec_view, views,
    appended_and_persisted,
};
use super::context::lemma_of_type_keys;
use super::{
    of_type, other_types, Aggregate, Basic, BufferedContext, Command, CommandHandler, Context, ContextWithMeta, EventSink, EventSource, EventSourced,
    ExecAndPersistError, HydratedAggregate, LoadError, LoadExecAndPersistError, LoadRehydrateAndPersistError, NumberedEvent,
    PersistError, Sealed, SnapshotSink, SnapshotSource, SnapshotStrategy,
};

verus! {

/// A lifecycle together with the context it works in.
#[derive(Debug)]
pub struct Static<Snp, Ctx> {
    basic_lifecycle: Basic<Snp>,
    ctx: Ctx,
}

impl<Snp, Ctx> Sealed for Static<Snp, Ctx> {

}

impl<Snp, Ctx> Static<Snp, Ctx> {
    /// The snapshot strategy.
    pub closed spec fn strategy(&self) -> Snp {
        self.basic_lifecycle.strategy()
    }

    /// The context.
    pub closed spec fn ctx_spec(&self) -> Ctx {
        self.ctx
    }

    pub fn new(snapshot_strategy: Snp, ctx: Ctx) -> (s: Self)
        ensures
            s.strategy() == snapshot_strategy,
            s.ctx_spec() == ctx,
    {
        Static { basic_lifecycle: Basic::new(snapshot_strategy), ctx }
    }

    /// Loads the aggregate `id` from its snapshot in the context.
    pub fn load_aggregate_from_snapshot<Agg: Aggregate>(&self, id: &Agg::Id) -> (r: Result<
        Option<HydratedAggregate<Agg>>,
        <Ctx as SnapshotSource<Agg>>::Error,
    >) where Ctx: SnapshotSource<Agg>,
        ensures
            r == loaded_from_snapshot(self.ctx_spec(), *id),
    {
        self.basic_lifecycle.load_aggregate_from_snapshot(id, &self.ctx)
    }

    /// Loads the aggregates `ids` from their snapshots in the context.
    pub fn load_aggregates_from_snapshot<Agg: Aggregate>(&self, ids: &[Agg::Id]) -> (r: Result<
        Vec<HydratedAggregate<Agg>>,
        <Ctx as SnapshotSource<Agg>>::Error,
    >) where Ctx: SnapshotSource<Agg>,
        ensures
            vec_view(r) == loaded_all_from_snapshot(self.ctx_spec(), ids@),
    {
        self.basic_lifecycle.load_aggregates_from_snapshot(ids, &self.ctx)
    }

    /// Replays onto `agg` the events the context holds after its version.
    pub fn rehydrate_aggregate<Ev, Agg: EventSourced<Ev>>(&self, agg: &mut HydratedAggregate<Agg>) -> (r: Result<
        (),
        <Ctx as EventSource<Agg, Ev>>::Error,
    >) where Ctx: EventSource<Agg, Ev>,
        ensures
            (final(agg)@, r) == rehydrated::<Agg, Ev, Ctx>(self.ctx_spec(), old(agg)@),
    {
        self.basic_lifecycle.rehydrate_aggregate::<Ev, Agg, Ctx>(agg, &self.ctx)
    }

    /// Loads the aggregate `id` from the context and replays its events.
    pub fn load_aggregate_and_rehydrate<Ev, Agg: EventSourced<Ev>>(&self, id: &Agg::Id) -> (r: Result<
        Option<HydratedAggregate<Agg>>,
        LoadError<<Ctx as SnapshotSource<Agg>>::Error, <Ctx as EventSource<Agg, Ev>>::Error>,
    >) where Ctx: SnapshotSource<Agg> + EventSource<Agg, Ev>,
        ensures
            r == loaded_and_rehydrated::<Agg, Ev, Ctx>(self.ctx_spec(), *id),
    {
        self.basic_lifecycle.load_aggregate_and_rehydrate::<Ev, Agg, Ctx>(id, &self.ctx)
    }

    /// Loads the aggregates `ids` from the context and replays their events.
    pub fn load_aggregates_and_rehydrate<Ev, Agg: EventSourced<Ev>>(&self, ids: &[Agg::Id]) -> (r: Result<
        Vec<HydratedAggregate<Agg>>,
        LoadError<<Ctx as SnapshotSource<Agg>>::Error, <Ctx as EventSource<Agg, Ev>>::Error>,
    >) where Ctx: SnapshotSource<Agg> + EventSource<Agg, Ev>,
        ensures
            vec_view(r) == loaded_all_and_rehydrated::<Agg, Ev, Ctx>(self.ctx_spec(), ids@),
    {
        self.basic_lifecycle.load_aggregates_and_rehydrate::<Ev, Agg, Ctx>(ids, &self.ctx)
    }
}

impl<Snp: SnapshotStrategy, Ctx> Static<Snp, Ctx> {
    /// Takes a snapshot of `agg` in the context where the strategy
    /// recommends one.
    pub fn persist_aggregate<Agg: Aggregate>(&mut self, agg: &mut HydratedAggregate<Agg>) -> (r: Result<
        (),
        <Ctx as SnapshotSink<Agg>>::Error,
    >) where Ctx: SnapshotSink<Agg>,
        ensures
            final(self).strategy() == old(self).strategy(),
            (final(self).ctx_spec(), final(agg)@, r) == persisted(old(self).strategy(), old(self).ctx_spec(), old(agg)@),
    {
        self.basic_lifecycle.persist_aggregate(agg, &mut self.ctx)
    }

    /// Takes, in one batch, the snapshots of `aggs` the strategy recommends.
    pub fn persist_aggregates<Agg: Aggregate>(&mut self, aggs: &mut Vec<HydratedAggregate<Agg>>) -> (r: Result<
        (),
        <Ctx as SnapshotSink<Agg>>::Error,
    >) where Ctx: SnapshotSink<Agg>,
        ensures
            final(self).strategy() == old(self).strategy(),
            (final(self).ctx_spec(), views(final(aggs)@), r) == persisted_all(
                old(self).strategy(),
                old(self).ctx_spec(),
                views(old(aggs)@),
            ),
    {
        self.basic_lifecycle.persist_aggregates(aggs, &mut self.ctx)
    }

    /// Loads the aggregate `id`, replays its events and takes a snapshot
    /// where the strategy recommends one.
    pub fn load_aggregate_rehydrate_and_persist<Ev, Agg: EventSourced<Ev>>(&mut self, id: &Agg::Id) -> (r: Result<
        (),
        LoadRehydrateAndPersistError<<Ctx as SnapshotSource<Agg>>::Error, <Ctx as EventSource<Agg, Ev>>::Error, <Ctx as SnapshotSink<Agg>>::Error>,
    >) where Ctx: SnapshotSource<Agg> + EventSource<Agg, Ev> + SnapshotSink<Agg>,
        ensures
            final(self).strategy() == old(self).strategy(),
            match loaded_and_rehydrated::<Agg, Ev, Ctx>(old(self).ctx_spec(), *id) {
                Err(e) => final(self).ctx_spec() == old(self).ctx_spec() && r == Err::<(), LoadRehydrateAndPersistError<<Ctx as SnapshotSource<Agg>>::Error, <Ctx as EventSource<Agg, Ev>>::Error, <Ctx as SnapshotSink<Agg>>::Error>>(LoadRehydrateAndPersistError::Load(e)),
                Ok(None) => final(self).ctx_spec() == old(self).ctx_spec() && r is Ok,
                Ok(Some(h)) => {
                    let (c2, _, res) = persisted(old(self).strategy(), old(self).ctx_spec(), h@);
                    &&& final(self).ctx_spec() == c2
                    &&& match res {
                        Ok(_) => r is Ok,
                        Err(e) => r == Err::<(), LoadRehydrateAndPersistError<<Ctx as SnapshotSource<Agg>>::Error, <Ctx as EventSource<Agg, Ev>>::Error, <Ctx as SnapshotSink<Agg>>::Error>>(LoadRehydrateAndPersistError::Persist(e)),
                    }
                },
            },
    {
        self.basic_lifecycle.load_aggregate_rehydrate_and_persist::<Ev, Agg, Ctx>(id, &mut self.ctx)
    }

    /// Loads the aggregates `ids`, replays their events and takes the
    /// snapshots the strategy recommends.
    pub fn load_aggregates_rehydrate_and_persist<Ev, Agg: EventSourced<Ev>>(&mut self, ids: &[Agg::Id]) -> (r: Result<
        (),
        LoadRehydrateAndPersistError<<Ctx as SnapshotSource<Agg>>::Error, <Ctx as EventSource<Agg, Ev>>::Error, <Ctx as SnapshotSink<Agg>>::Error>,
    >) where Ctx: SnapshotSource<Agg> + EventSource<Agg, Ev> + SnapshotSink<Agg>,
        ensures
            final(self).strategy() == old(self).strategy(),
            match loaded_all_and_rehydrated::<Agg, Ev, Ctx>(old(self).ctx_spec(), ids@) {
                Err(e) => final(self).ctx_spec() == old(self).ctx_spec() && r == Err::<(), LoadRehydrateAndPersistError<<Ctx as SnapshotSource<Agg>>::Error, <Ctx as EventSource<Agg, Ev>>::Error, <Ctx as SnapshotSink<Agg>>::Error>>(LoadRehydrateAndPersistError::Load(e)),
                Ok(hs) => {
                    let (c2, _, res) = persisted_all(old(self).strategy(), old(self).ctx_spec(), views(hs));
                    &&& final(self).ctx_spec() == c2
                    &&& match res {
                        Ok(_) => r is Ok,
                        Err(e) => r == Err::<(), LoadRehydrateAndPersistError<<Ctx as SnapshotSource<Agg>>::Error, <Ctx as EventSource<Agg, Ev>>::Error, <Ctx as SnapshotSink<Agg>>::Error>>(LoadRehydrateAndPersistError::Persist(e)),
                    }
                },
            },
    {
        self.basic_lifecycle.load_aggregates_rehydrate_and_persist::<Ev, Agg, Ctx>(ids, &mut self.ctx)
    }
}

impl<Snp: SnapshotStrategy, Impl, Ev> Static<Snp, Context<Impl, Ev>> {
    /// Appends `events` through the context, applies the numbered events it
    /// gives back and buffers them in it, then takes a snapshot where the
    /// strategy recommends one.
    pub fn apply_events_and_persist<Agg: EventSourced<Ev>, Mt>(
        &mut self,
        agg: &mut HydratedAggregate<Agg>,
        events: &[Ev],
        meta: &Mt,
    ) -> (r: Result<(), PersistError<<Impl as EventSink<Agg, Ev, Mt>>::Error, <Impl as SnapshotSink<Agg>>::Error>>) where
        Impl: EventSink<Agg, Ev, Mt> + SnapshotSink<Agg>,
        ensures
            final(self).strategy() == old(self).strategy(),
            ({
                let (i2, q, ns, res) = appended_and_persisted(
                    old(self).strategy(),
                    old(self).ctx_spec().implementation_spec(),
                    old(agg)@,
                    events@,
                    *meta,
                );
                &&& final(self).ctx_spec().implementation_spec() == i2
                &&& final(self).ctx_spec().buffer_spec() == old(self).ctx_spec().buffer_spec() + ns
                &&& final(agg)@ == q
                &&& r == res
            }),
    {
        proof {
            self.ctx.lemma_fields();
        }
        let r = self.basic_lifecycle.apply_events_and_persist(
            agg,
            events,
            meta,
            &mut self.ctx.implementation,
            Some(&mut self.ctx.buffer),
        );
        proof {
            self.ctx.lemma_fields();
        }
        r
    }

    /// Executes `cmd` against `agg` (the initial aggregate when `None`) and
    /// persists its events through the context, buffering them there.
    pub fn exec_command_and_persist<Agg, Cmd, Mt>(
        &mut self,
        cmd: Cmd,
        agg: Option<HydratedAggregate<Agg>>,
        meta: &Mt,
        handler_ctx: &<Agg as CommandHandler<Cmd>>::Context,
    ) -> (r: Result<
        HydratedAggregate<Agg>,
        ExecAndPersistError<Agg, <Agg as CommandHandler<Cmd>>::Error, <Impl as EventSink<Agg, Ev, Mt>>::Error, <Impl as SnapshotSink<Agg>>::Error>,
    >) where
        Agg: CommandHandler<Cmd, Event = Ev> + EventSourced<Ev>,
        Impl: EventSink<Agg, Ev, Mt> + SnapshotSink<Agg>,
        ensures
            final(self).strategy() == old(self).strategy(),
            ({
                let (i2, ns, res) = executed_and_persisted(
                    old(self).strategy(),
                    old(self).ctx_spec().implementation_spec(),
                    cmd,
                    agg,
                    *meta,
                    *handler_ctx,
                );
                &&& final(self).ctx_spec().implementation_spec() == i2
                &&& final(self).ctx_spec().buffer_spec() == old(self).ctx_spec().buffer_spec() + ns
                &&& r == res
            }),
    {
        proof {
            self.ctx.lemma_fields();
        }
        let r = self.basic_lifecycle.exec_command_and_persist(
            cmd,
            agg,
            meta,
            handler_ctx,
            &mut self.ctx.implementation,
            Some(&mut self.ctx.buffer),
        );
        proof {
            self.ctx.lemma_fields();
        }
        r
    }

    /// Loads the aggregate `cmd` is addressed to from the context, executes
    /// `cmd` and persists its events there, buffering them.
    pub fn load_aggregate_exec_command_and_persist<Agg, Cmd: Command<Aggregate = Agg>, Mt>(
        &mut self,
        cmd: Cmd,
        meta: &Mt,
        handler_ctx: &<Agg as CommandHandler<Cmd>>::Context,
    ) -> (r: Result<
        Option<HydratedAggregate<Agg>>,
        LoadExecAndPersistError<
            Agg,
            <Agg as CommandHandler<Cmd>>::Error,
            <Impl as SnapshotSource<Agg>>::Error,
            <Impl as EventSource<Agg, Ev>>::Error,
            <Impl as EventSink<Agg, Ev, Mt>>::Error,
            <Impl as SnapshotSink<Agg>>::Error,
        >,
    >) where
        Agg: CommandHandler<Cmd, Event = Ev> + EventSourced<Ev>,
        Impl: SnapshotSource<Agg> + EventSource<Agg, Ev> + EventSink<Agg, Ev, Mt> + SnapshotSink<Agg>,
        ensures
            final(self).strategy() == old(self).strategy(),
            ({
                let (i2, ns, res) = loaded_executed_and_persisted(
                    old(self).strategy(),
                    old(self).ctx_spec().implementation_spec(),
                    cmd,
                    *meta,
                    *handler_ctx,
                );
                &&& final(self).ctx_spec().implementation_spec() == i2
                &&& final(self).ctx_spec().buffer_spec() == old(self).ctx_spec().buffer_spec() + ns
                &&& r == res
            }),
    {
        proof {
            self.ctx.lemma_fields();
        }
        let r = self.basic_lifecycle.load_aggregate_exec_command_and_persist(
            cmd,
            meta,
            handler_ctx,
            &mut self.ctx.implementation,
            Some(&mut self.ctx.buffer),
        );
        proof {
            self.ctx.lemma_fields();
        }
        r
    }
}

impl<Snp: SnapshotStrategy, Impl, Mt, Ev> Static<Snp, ContextWithMeta<Impl, Mt, Ev>> {
    /// Appends `events` with the context's metadata, applies the numbered
    /// events the context gives back and buffers them in it, then takes a
    /// snapshot where the strategy recommends one.
    pub fn apply_events_and_persist<Agg: EventSourced<Ev>>(
        &mut self,
        agg: &mut HydratedAggregate<Agg>,
        events: &[Ev],
    ) -> (r: Result<(), PersistError<<Impl as EventSink<Agg, Ev, Mt>>::Error, <Impl as SnapshotSink<Agg>>::Error>>) where
        Impl: EventSink<Agg, Ev, Mt> + SnapshotSink<Agg>,
        ensures
            final(self).strategy() == old(self).strategy(),
            final(self).ctx_spec().meta_spec() == old(self).ctx_spec().meta_spec(),
            ({
                let (i2, q, ns, res) = appended_and_persisted(
                    old(self).strategy(),
                    old(self).ctx_spec().ctx_spec().implementation_spec(),
                    old(agg)@,
                    events@,
                    old(self).ctx_spec().meta_spec(),
                );
                &&& final(self).ctx_spec().ctx_spec().implementation_spec() == i2
                &&& final(self).ctx_spec().ctx_spec().buffer_spec() == old(self).ctx_spec().ctx_spec().buffer_spec() + ns
                &&& final(agg)@ == q
                &&& r == res
            }),
    {
        proof {
            self.ctx.lemma_fields();
            self.ctx.ctx.lemma_fields();
        }
        let r = self.basic_lifecycle.apply_events_and_persist(
            agg,
            events,
            &self.ctx.meta,
            &mut self.ctx.ctx.implementation,
            Some(&mut self.ctx.ctx.buffer),
        );
        proof {
            self.ctx.lemma_fields();
            self.ctx.ctx.lemma_fields();
        }
        r
    }

    /// Executes `cmd` against `agg` (the initial aggregate when `None`) and
    /// persists its events with the context's metadata, buffering them.
    pub fn exec_command_and_persist<Agg, Cmd>(
        &mut self,
        cmd: Cmd,
        agg: Option<HydratedAggregate<Agg>>,
        handler_ctx: &<Agg as CommandHandler<Cmd>>::Context,
    ) -> (r: Result<
        HydratedAggregate<Agg>,
        ExecAndPersistError<Agg, <Agg as CommandHandler<Cmd>>::Error, <Impl as EventSink<Agg, Ev, Mt>>::Error, <Impl as SnapshotSink<Agg>>::Error>,
    >) where
        Agg: CommandHandler<Cmd, Event = Ev> + EventSourced<Ev>,
        Impl: EventSink<Agg, Ev, Mt> + SnapshotSink<Agg>,
        ensures
            final(self).strategy() == old(self).strategy(),
            final(self).ctx_spec().meta_spec() == old(self).ctx_spec().meta_spec(),
            ({
                let (i2, ns, res) = executed_and_persisted(
                    old(self).strategy(),
                    old(self).ctx_spec().ctx_spec().implementation_spec(),
                    cmd,
                    agg,
                    old(self).ctx_spec().meta_spec(),
                    *handler_ctx,
                );
                &&& final(self).ctx_spec().ctx_spec().implementation_spec() == i2
                &&& final(self).ctx_spec().ctx_spec().buffer_spec() == old(self).ctx_spec().ctx_spec().buffer_spec() + ns
                &&& r == res
            }),
    {
        proof {
            self.ctx.lemma_fields();
            self.ctx.ctx.lemma_fields();
        }
        let r = self.basic_lifecycle.exec_command_and_persist(
            cmd,
            agg,
            &self.ctx.meta,
            handler_ctx,
            &mut self.ctx.ctx.implementation,
            Some(&mut self.ctx.ctx.buffer),
        );
        proof {
            self.ctx.lemma_fields();
            self.ctx.ctx.lemma_fields();
        }
        r
    }

    /// Loads the aggregate `cmd` is addressed to from the context, executes
    /// `cmd` and persists its events with the context's metadata.
    pub fn load_aggregate_exec_command_and_persist<Agg, Cmd: Command<Aggregate = Agg>>(
        &mut self,
        cmd: Cmd,
        handler_ctx: &<Agg as CommandHandler<Cmd>>::Context,
    ) -> (r: Result<
        Option<HydratedAggregate<Agg>>,
        LoadExecAndPersistError<
            Agg,
            <Agg as CommandHandler<Cmd>>::Error,
            <Impl as SnapshotSource<Agg>>::Error,
            <Impl as EventSource<Agg, Ev>>::Error,
            <Impl as EventSink<Agg, Ev, Mt>>::Error,
            <Impl as SnapshotSink<Agg>>::Error,
        >,
    >) where
        Agg: CommandHandler<Cmd, Event = Ev> + EventSourced<Ev>,
        Impl: SnapshotSource<Agg> + EventSource<Agg, Ev> + EventSink<Agg, Ev, Mt> + SnapshotSink<Agg>,
        ensures
            final(self).strategy() == old(self).strategy(),
            final(self).ctx_spec().meta_spec() == old(self).ctx_spec().meta_spec(),
            ({
                let (i2, ns, res) = loaded_executed_and_persisted(
                    old(self).strategy(),
                    old(self).ctx_spec().ctx_spec().implementation_spec(),
                    cmd,
                    old(self).ctx_spec().meta_spec(),
                    *handler_ctx,
                );
                &&& final(self).ctx_spec().ctx_spec().implementation_spec() == i2
                &&& final(self).ctx_spec().ctx_spec().buffer_spec() == old(self).ctx_spec().ctx_spec().buffer_spec() + ns
                &&& r == res
            }),
    {
        proof {
            self.ctx.lemma_fields();
            self.ctx.ctx.lemma_fields();
        }
        let r = self.basic_lifecycle.load_aggregate_exec_command_and_persist(
            cmd,
            &self.ctx.meta,
            handler_ctx,
            &mut self.ctx.ctx.implementation,
            Some(&mut self.ctx.ctx.buffer),
        );
        proof {
            self.ctx.lemma_fields();
            self.ctx.ctx.lemma_fields();
        }
        r
    }
}

impl<Snp, Impl, Ev: RegisteredEvent> Static<Snp, Context<Impl, Ev>> {
    /// Takes the events of the type with the key `type_key` buffered in the
    /// context, keeping those of other types, and hands each, in order, to
    /// the handlers registered for that type and `route`, stopping at the
    /// first handler that fails. With no such handler, or no such event, it
    /// succeeds.
    pub fn exec_event_handlers<H, E>(
        &mut self,
        type_key: u64,
        cfg: &EventProcessingConfiguration<H>,
        route: Route,
    ) -> (r: Result<(), E>) where
        H: EventHandler<Ev, Context = Self, Error = E>,
        ensures
            final(self).strategy() == old(self).strategy(),
            final(self).ctx_spec().implementation_spec() == old(self).ctx_spec().implementation_spec(),
            final(self).ctx_spec().buffer_spec() == other_types(old(self).ctx_spec().buffer_spec(), type_key),
            matching(cfg.entries(), type_key, route).len() == 0 ==> r is Ok,
            of_type(old(self).ctx_spec().buffer_spec(), type_key).len() == 0 ==> r is Ok,
            H::obeys_on_spec() ==> r == handled_all(
                of_type(old(self).ctx_spec().buffer_spec(), type_key).map_values(|e: NumberedEvent<Ev>| e.data),
                matching(cfg.entries(), type_key, route),
                *final(self),
            ),
    {
        proof {
            self.ctx.lemma_fields();
        }
        let events = self.ctx.buffer.take_buffered_events(type_key);
        proof {
            self.ctx.lemma_fields();
            lemma_of_type_keys(old(self).ctx_spec().buffer_spec(), type_key);
        }
        let ghost all = events@;
        let ghost entries = cfg.entries();
        let ghost s0 = *self;
        let ghost data = all.map_values(|e: NumberedEvent<Ev>| e.data);
        let ghost hs = matching(entries, type_key, route);
        proof {
            assert(data.take(0) =~= Seq::<Ev>::empty());
        }
        for ev in it: events.into_iter()
            invariant
                it.seq() == all,
                *self == s0,
                data == all.map_values(|e: NumberedEvent<Ev>| e.data),
                hs == matching(entries, type_key, route),
                H::obeys_on_spec() ==> handled_all(data.take(it.index() as int), hs, s0) is Ok,
                entries == cfg.entries(),
                self.strategy() == old(self).strategy(),
                self.ctx_spec().implementation_spec() == old(self).ctx_spec().implementation_spec(),
                self.ctx_spec().buffer_spec() == other_types(old(self).ctx_spec().buffer_spec(), type_key),
                all == of_type(old(self).ctx_spec().buffer_spec(), type_key),
                forall|i: int| 0 <= i < all.len() ==> #[trigger] all[i].data.type_key() == type_key,
        {
            let ghost idx = it.index() as int;
            let handlers = cfg.iter_event_handlers_of(&ev.data, route);
            proof {
                assert(hs.take(0) =~= Seq::<H>::empty());
                assert(data[idx] == ev.data);
            }
            let mut j: usize = 0;
            while j < handlers.len()
                invariant
                    0 <= idx < all.len(),
                    ev == all[idx],
                    *self == s0,
                    data == all.map_values(|e: NumberedEvent<Ev>| e.data),
                    data[idx] == ev.data,
                    hs == matching(entries, type_key, route),
                    H::obeys_on_spec() ==> handled_all(data.take(idx), hs, s0) is Ok,
                    H::obeys_on_spec() ==> handled_by_all(ev.data, hs.take(j as int), s0) is Ok,
                    j <= handlers@.len(),
                    entries == cfg.entries(),
                    handlers@.map_values(|h: &DynEventHandler<H>| h.0) == matching(entries, ev.data.type_key(), route),
                    self.strategy() == old(self).strategy(),
                    self.ctx_spec().implementation_spec() == old(self).ctx_spec().implementation_spec(),
                    self.ctx_spec().buffer_spec() == other_types(old(self).ctx_spec().buffer_spec(), type_key),
                    all == of_type(old(self).ctx_spec().buffer_spec(), type_key),
                    forall|i: int| 0 <= i < all.len() ==> #[trigger] all[i].data.type_key() == type_key,
                decreases handlers@.len() - j,
            {
                let handler = handlers[j];
                proof {
                    assert(all[idx].data.type_key() == type_key);
                    assert(handlers@.map_values(|h: &DynEventHandler<H>| h.0)[j as int] == handler.0);
                    assert(hs[j as int] == handler.0);
                    assert(hs.take(j + 1).drop_last() =~= hs.take(j as int));
                    assert(data.take(idx + 1).drop_last() =~= data.take(idx));
                }
                match handler.on(&ev.data, &*self) {
                    Ok(_) => {},
                    Err(e) => {
                        proof {
                            assert(matching(entries, type_key, route).len() > 0);
                            if H::obeys_on_spec() {
                                lemma_handled_by_all_stops(ev.data, hs, j + 1, s0);
                                lemma_handled_all_stops(data, hs, idx + 1, s0);
                            }
                        }
                        return Err(e);
                    },
                }
                j = j + 1;
            }
            proof {
                assert(hs.take(j as int) =~= hs);
                assert(data.take(idx + 1).drop_last() =~= data.take(idx));
            }
        }
        proof {
            assert(data.take(data.len() as int) =~= data);
            if H::obeys_on_spec() {
                assert(handled_all(data, hs, s0) is Ok);
                assert(handled_all(data, hs, s0)->Ok_0 == ());
                assert(handled_all(data, hs, s0) == Ok::<(), E>(()));
            }
        }
        Ok(())
    }
}

} // verus!
