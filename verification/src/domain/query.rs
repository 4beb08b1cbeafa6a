//! Views that rebuild an aggregate from its events, its snapshot, or both.
use vstd::prelude::*;
use super::{
    hydrate_all, apply_all, apply_events, Aggregate, AggregateVersion, EventSource, HydratedAggregate,
    LoadAggregateError, RestoreAggregate, SnapshotSource, VersionedEvent, VersionedSnapshot,
};
use crate::okazis::Since;
use core::marker::PhantomData;

verus! {

/// Something that can rebuild an aggregate by id.
pub trait AggregateQuery<Agg: Aggregate>: Sized {
    type AggregateId;
    type Error;

    /// What `rehydrate` gives back.
    spec fn rehydrate_spec(&self, agg_id: Self::AggregateId) -> Result<
        Option<HydratedAggregate<Agg>>,
        Self::Error,
    >;

    fn rehydrate(&self, agg_id: &Self::AggregateId) -> (r: Result<
        Option<HydratedAggregate<Agg>>,
        Self::Error,
    >)
        ensures
            r == self.rehydrate_spec(*agg_id),
    ;
}

/// Aggregates that can be rebuilt from their events alone.
pub trait QueryableAggregate: Aggregate {
    fn events_view<ESource>(event_source: ESource) -> (v: EventsView<Self, ESource>) where
        ESource: EventSource<Event = <Self as Aggregate>::Event>,

        ensures
            v.event_source == event_source,
    {
        EventsView { event_source, _phantom: PhantomData }
    }
}

/// Aggregates that can be restored from a snapshot.
pub trait QueryableSnapshotAggregate: RestoreAggregate {
    fn snapshot_view<SSource>(snapshot_source: SSource) -> (v: SnapshotView<Self, SSource>) where
        SSource: SnapshotSource<Snapshot = <Self as RestoreAggregate>::Snapshot>,

        ensures
            v.snapshot_source == snapshot_source,
    {
        SnapshotView { snapshot_source, _phantom: PhantomData }
    }

    fn snapshot_with_events_view<ESource, SSource>(
        event_source: ESource,
        snapshot_source: SSource,
    ) -> (v: SnapshotAndEventsView<Self, ESource, SSource>) where
        ESource: EventSource<Event = <Self as Aggregate>::Event>,
        SSource: SnapshotSource<
            Snapshot = <Self as RestoreAggregate>::Snapshot,
            AggregateId = ESource::AggregateId,
        >,

        ensures
            v.event_source == event_source,
            v.snapshot_source.snapshot_source == snapshot_source,
    {
        SnapshotAndEventsView {
            event_source,
            snapshot_source: SnapshotView { snapshot_source, _phantom: PhantomData },
            _phantom: PhantomData,
        }
    }
}

impl<T: Aggregate> QueryableAggregate for T {

}

impl<T: RestoreAggregate> QueryableSnapshotAggregate for T {

}

/// Rebuilds an aggregate from all of its events.
pub struct EventsView<Agg, ESource> {
    pub event_source: ESource,
    pub _phantom: PhantomData<Agg>,
}

impl<Agg, ESource> EventsView<Agg, ESource> where
    Agg: Aggregate,
    ESource: EventSource<Event = Agg::Event>,
 {
    /// What `rehydrate` gives back: the initial aggregate with every event
    /// applied, or `None` when the aggregate has no stream.
    pub open spec fn rehydrate_events(&self, agg_id: ESource::AggregateId) -> Result<
        Option<HydratedAggregate<Agg>>,
        ESource::Error,
    > {
        match self.event_source.read_spec(agg_id, Since::BeginningOfStream) {
            Err(e) => Err(e),
            Ok(None) => Ok(None),
            Ok(Some(events)) => Ok(Some(hydrate_all(HydratedAggregate::initial(), events))),
        }
    }

    pub fn rehydrate(&self, agg_id: &ESource::AggregateId) -> (r: Result<
        Option<HydratedAggregate<Agg>>,
        ESource::Error,
    >)
        ensures
            r == self.rehydrate_events(*agg_id),
    {
        let events = match self.event_source.read_events(agg_id, Since::BeginningOfStream) {
            Ok(e) => e,
            Err(e) => return Err(e),
        };
        match events {
            Some(evts) => {
                let mut snapshot = HydratedAggregate::default();
                apply_events(&mut snapshot, evts);
                Ok(Some(snapshot))
            },
            None => Ok(None),
        }
    }
}

impl<Agg, ESource> AggregateQuery<Agg> for EventsView<Agg, ESource> where
    Agg: Aggregate,
    ESource: EventSource<Event = Agg::Event>,
 {
    type AggregateId = ESource::AggregateId;
    type Error = ESource::Error;

    open spec fn rehydrate_spec(&self, agg_id: ESource::AggregateId) -> Result<
        Option<HydratedAggregate<Agg>>,
        ESource::Error,
    > {
        self.rehydrate_events(agg_id)
    }

    fn rehydrate(&self, agg_id: &ESource::AggregateId) -> (r: Result<
        Option<HydratedAggregate<Agg>>,
        ESource::Error,
    >) {
        EventsView::rehydrate(self, agg_id)
    }
}

/// Restores an aggregate from its latest snapshot alone.
pub struct SnapshotView<Agg, SSource> {
    pub snapshot_source: SSource,
    pub _phantom: PhantomData<Agg>,
}

impl<Agg, SSource> SnapshotView<Agg, SSource> where
    Agg: RestoreAggregate,
    SSource: SnapshotSource<Snapshot = <Agg as RestoreAggregate>::Snapshot>,
 {
    /// What `rehydrate` gives back: the aggregate its snapshot restores, or
    /// `None` when it has no snapshot.
    pub open spec fn rehydrate_snapshot(&self, agg_id: SSource::AggregateId) -> Result<
        Option<HydratedAggregate<Agg>>,
        SSource::Error,
    > {
        match self.snapshot_source.snapshot_spec(agg_id) {
            Err(e) => Err(e),
            Ok(None) => Ok(None),
            Ok(Some(s)) => Ok(Some(HydratedAggregate::restored(s))),
        }
    }

    pub fn rehydrate(&self, agg_id: &SSource::AggregateId) -> (r: Result<
        Option<HydratedAggregate<Agg>>,
        SSource::Error,
    >)
        ensures
            r == self.rehydrate_snapshot(*agg_id),
    {
        match self.snapshot_source.get_snapshot(agg_id) {
            Ok(Some(s)) => Ok(Some(HydratedAggregate::restore(Some(s)))),
            Ok(None) => Ok(None),
            Err(e) => Err(e),
        }
    }
}

impl<Agg, SSource> AggregateQuery<Agg> for SnapshotView<Agg, SSource> where
    Agg: RestoreAggregate,
    SSource: SnapshotSource<Snapshot = <Agg as RestoreAggregate>::Snapshot>,
 {
    type AggregateId = SSource::AggregateId;
    type Error = SSource::Error;

    open spec fn rehydrate_spec(&self, agg_id: SSource::AggregateId) -> Result<
        Option<HydratedAggregate<Agg>>,
        SSource::Error,
    > {
        self.rehydrate_snapshot(agg_id)
    }

    fn rehydrate(&self, agg_id: &SSource::AggregateId) -> (r: Result<
        Option<HydratedAggregate<Agg>>,
        SSource::Error,
    >) {
        SnapshotView::rehydrate(self, agg_id)
    }
}

/// Restores an aggregate from its latest snapshot, then applies the events
/// after it.
pub struct SnapshotAndEventsView<Agg, ESource, SSource> {
    pub event_source: ESource,
    pub snapshot_source: SnapshotView<Agg, SSource>,
    pub _phantom: PhantomData<Agg>,
}

impl<Agg, ESource, SSource> SnapshotAndEventsView<Agg, ESource, SSource> where
    Agg: RestoreAggregate,
    ESource: EventSource<Event = Agg::Event>,
    SSource: SnapshotSource<
        Snapshot = <Agg as RestoreAggregate>::Snapshot,
        AggregateId = ESource::AggregateId,
    >,
 {
    /// What `rehydrate` gives back: the restored snapshot (or the initial
    /// aggregate) with the events after it applied; `None` when there is
    /// neither a snapshot nor a stream.
    pub open spec fn rehydrate_both(&self, agg_id: ESource::AggregateId) -> Result<
        Option<HydratedAggregate<Agg>>,
        LoadAggregateError<ESource::Error, SSource::Error>,
    > {
        match self.snapshot_source.rehydrate_snapshot(agg_id) {
            Err(e) => Err(LoadAggregateError::Snapshot(e)),
            Ok(snapshot_opt) => {
                let since = match snapshot_opt {
                    Some(s) => s.version.since(),
                    None => Since::BeginningOfStream,
                };
                match self.event_source.read_spec(agg_id, since) {
                    Err(e) => Err(LoadAggregateError::Events(e)),
                    Ok(events_opt) => if snapshot_opt is None && events_opt is None {
                        Ok(None)
                    } else {
                        let base = match snapshot_opt {
                            Some(s) => s,
                            None => HydratedAggregate::initial(),
                        };
                        match events_opt {
                            Some(events) => Ok(Some(hydrate_all(base, events))),
                            None => Ok(Some(base)),
                        }
                    },
                }
            },
        }
    }

    pub fn rehydrate(&self, agg_id: &ESource::AggregateId) -> (r: Result<
        Option<HydratedAggregate<Agg>>,
        LoadAggregateError<ESource::Error, SSource::Error>,
    >)
        ensures
            r == self.rehydrate_both(*agg_id),
    {
        let snapshot_opt = match self.snapshot_source.rehydrate(agg_id) {
            Ok(s) => s,
            Err(e) => return Err(LoadAggregateError::Snapshot(e)),
        };
        let since = match &snapshot_opt {
            Some(s) => s.version.to_since(),
            None => Since::BeginningOfStream,
        };
        let events_opt = match self.event_source.read_events(agg_id, since) {
            Ok(e) => e,
            Err(e) => return Err(LoadAggregateError::Events(e)),
        };
        if snapshot_opt.is_none() && events_opt.is_none() {
            Ok(None)
        } else {
            let mut aggregate = match snapshot_opt {
                Some(s) => s,
                None => HydratedAggregate::default(),
            };
            if let Some(events) = events_opt {
                apply_events(&mut aggregate, events);
            }
            Ok(Some(aggregate))
        }
    }
}

/// Folding events onto a hydrated aggregate applies their payloads to the
/// aggregate in order and leaves it at the version of the last one.
pub proof fn lemma_hydrate_all_parts<Agg: Aggregate>(h: HydratedAggregate<Agg>, events: Seq<VersionedEvent<Agg::Event>>)
    ensures
        hydrate_all(h, events).aggregate == apply_all(
            h.aggregate,
            events.map_values(|e: VersionedEvent<Agg::Event>| e.event),
        ),
        hydrate_all(h, events).version == if events.len() > 0 {
            AggregateVersion::Version(events.last().version)
        } else {
            h.version
        },
        hydrate_all(h, events).rehydrated_version == h.rehydrated_version,
    decreases events.len(),
{
    if events.len() > 0 {
        lemma_hydrate_all_parts(h, events.drop_last());
        assert(events.drop_last().map_values(|e: VersionedEvent<Agg::Event>| e.event) =~= events.map_values(
            |e: VersionedEvent<Agg::Event>| e.event,
        ).drop_last());
    } else {
        assert(events.map_values(|e: VersionedEvent<Agg::Event>| e.event) =~= Seq::<Agg::Event>::empty());
    }
}

impl<Agg, ESource, SSource> SnapshotAndEventsView<Agg, ESource, SSource> where
    Agg: RestoreAggregate,
    ESource: EventSource<Event = Agg::Event>,
    SSource: SnapshotSource<
        Snapshot = <Agg as RestoreAggregate>::Snapshot,
        AggregateId = ESource::AggregateId,
    >,
 {
    /// With a snapshot, rehydrating reads the stream only after the
    /// snapshot's version: the aggregate the snapshot restores has exactly the
    /// events read since that version applied, in order, and ends at the
    /// version of the last of them (the snapshot's, when there is none). No
    /// event at or before the snapshot's version is applied again.
    pub proof fn law_events_after_the_snapshot(
        self,
        agg_id: ESource::AggregateId,
        snap: VersionedSnapshot<<Agg as RestoreAggregate>::Snapshot>,
    )
        requires
            self.snapshot_source.snapshot_source.snapshot_spec(agg_id) == Ok::<
                Option<VersionedSnapshot<<Agg as RestoreAggregate>::Snapshot>>,
                SSource::Error,
            >(Some(snap)),
        ensures
            match self.event_source.read_spec(agg_id, Since::Version(snap.version)) {
                Err(e) => self.rehydrate_both(agg_id) == Err::<
                    Option<HydratedAggregate<Agg>>,
                    LoadAggregateError<ESource::Error, SSource::Error>,
                >(LoadAggregateError::Events(e)),
                Ok(read) => {
                    let after = match read {
                        Some(evs) => evs,
                        None => Seq::empty(),
                    };
                    self.rehydrate_both(agg_id) matches Ok(Some(h)) && {
                        &&& h.aggregate == apply_all(
                            Agg::restored(snap.snapshot),
                            after.map_values(|e: VersionedEvent<Agg::Event>| e.event),
                        )
                        &&& h.version == if after.len() > 0 {
                            AggregateVersion::Version(after.last().version)
                        } else {
                            AggregateVersion::Version(snap.version)
                        }
                        &&& h.rehydrated_version == AggregateVersion::Version(snap.version)
                    }
                },
            },
    {
        let base = HydratedAggregate::<Agg>::restored(snap);
        match self.event_source.read_spec(agg_id, Since::Version(snap.version)) {
            Ok(Some(evs)) => lemma_hydrate_all_parts(base, evs),
            _ => {
                assert(Seq::<VersionedEvent<Agg::Event>>::empty().map_values(
                    |e: VersionedEvent<Agg::Event>| e.event,
                ) =~= Seq::<Agg::Event>::empty());
            },
        }
    }

    /// A failed read of the snapshot is reported as such, before any event
    /// is read.
    pub proof fn law_snapshot_failure_is_reported(self, agg_id: ESource::AggregateId)
        ensures
            self.snapshot_source.snapshot_source.snapshot_spec(agg_id) is Err ==> self.rehydrate_both(agg_id)
                == Err::<Option<HydratedAggregate<Agg>>, LoadAggregateError<ESource::Error, SSource::Error>>(
                LoadAggregateError::Snapshot(self.snapshot_source.snapshot_source.snapshot_spec(agg_id)->Err_0),
            ),
    {
    }

    /// Without a snapshot, rehydrating reads the whole stream onto the
    /// initial aggregate; with neither a snapshot nor a stream there is no
    /// aggregate.
    pub proof fn law_no_snapshot_reads_the_whole_stream(self, agg_id: ESource::AggregateId)
        requires
            self.snapshot_source.snapshot_source.snapshot_spec(agg_id) == Ok::<
                Option<VersionedSnapshot<<Agg as RestoreAggregate>::Snapshot>>,
                SSource::Error,
            >(None),
        ensures
            match self.event_source.read_spec(agg_id, Since::BeginningOfStream) {
                Err(e) => self.rehydrate_both(agg_id) == Err::<
                    Option<HydratedAggregate<Agg>>,
                    LoadAggregateError<ESource::Error, SSource::Error>,
                >(LoadAggregateError::Events(e)),
                Ok(None) => self.rehydrate_both(agg_id) == Ok::<
                    Option<HydratedAggregate<Agg>>,
                    LoadAggregateError<ESource::Error, SSource::Error>,
                >(None),
                Ok(Some(evs)) => self.rehydrate_both(agg_id) matches Ok(Some(h)) && {
                    &&& h.aggregate == apply_all(
                        Agg::initial(),
                        evs.map_values(|e: VersionedEvent<Agg::Event>| e.event),
                    )
                    &&& h.version == if evs.len() > 0 {
                        AggregateVersion::Version(evs.last().version)
                    } else {
                        AggregateVersion::Initial
                    }
                },
            },
    {
        match self.event_source.read_spec(agg_id, Since::BeginningOfStream) {
            Ok(Some(evs)) => lemma_hydrate_all_parts(HydratedAggregate::<Agg>::initial(), evs),
            _ => {},
        }
    }
}

impl<Agg, ESource, SSource> AggregateQuery<Agg> for SnapshotAndEventsView<Agg, ESource, SSource> where
    Agg: RestoreAggregate,
    ESource: EventSource<Event = Agg::Event>,
    SSource: SnapshotSource<
        Snapshot = <Agg as RestoreAggregate>::Snapshot,
        AggregateId = ESource::AggregateId,
    >,
 {
    type AggregateId = ESource::AggregateId;
    type Error = LoadAggregateError<ESource::Error, SSource::Error>;

    open spec fn rehydrate_spec(&self, agg_id: ESource::AggregateId) -> Result<
        Option<HydratedAggregate<Agg>>,
        LoadAggregateError<ESource::Error, SSource::Error>,
    > {
        self.rehydrate_both(agg_id)
    }

    fn rehydrate(&self, agg_id: &ESource::AggregateId) -> (r: Result<
        Option<HydratedAggregate<Agg>>,
        LoadAggregateError<ESource::Error, SSource::Error>,
    >) {
        SnapshotAndEventsView::rehydrate(self, agg_id)
    }
}

} // verus!
