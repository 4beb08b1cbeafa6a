//! Views that always produce an aggregate: from its events, its snapshot, or
//! both, falling back to the initial aggregate.
use vstd::prelude::*;
use crate::domain::query::AggregateQuery;
use crate::domain::{
    apply_events, hydrate_all, Aggregate, EventSource, HydratedAggregate, LoadAggregateError,
    RestoreAggregate, SnapshotSource,
};
use crate::okazis::Since;

verus! {

/// Executes a command against an aggregate and persists its outcome; gives
/// the number of new events.
pub trait AggregateCommand<Agg: Aggregate> {
    type AggregateId;
    type Error;

    fn execute(&mut self, agg_id: &Self::AggregateId, command: Agg::Command) -> Result<usize, Self::Error>;
}

/// Rebuilds an aggregate from all of its events, starting from the initial one.
pub struct EventsOnlyAggregateView<ESource> {
    pub source: ESource,
}

impl<ESource: EventSource> EventsOnlyAggregateView<ESource> {
    pub fn new(event_source: ESource) -> (v: Self)
        ensures
            v.source == event_source,
    {
        EventsOnlyAggregateView { source: event_source }
    }

    /// What `rehydrate` gives back: the initial aggregate with every event
    /// of the stream applied (none when there is no stream).
    pub open spec fn rehydrate_spec<Agg: Aggregate<Event = ESource::Event>>(
        &self,
        agg_id: ESource::AggregateId,
    ) -> Result<HydratedAggregate<Agg>, ESource::Error> {
        match self.source.read_spec(agg_id, Since::BeginningOfStream) {
            Err(e) => Err(e),
            Ok(None) => Ok(HydratedAggregate::initial()),
            Ok(Some(events)) => Ok(hydrate_all(HydratedAggregate::initial(), events)),
        }
    }

    pub fn rehydrate<Agg: Aggregate<Event = ESource::Event>>(&self, agg_id: &ESource::AggregateId) -> (r:
        Result<HydratedAggregate<Agg>, ESource::Error>)
        ensures
            r == self.rehydrate_spec::<Agg>(*agg_id),
    {
        let events = match self.source.read_events(agg_id, Since::BeginningOfStream) {
            Ok(e) => e,
            Err(e) => return Err(e),
        };
        let mut snapshot = HydratedAggregate::default();
        if let Some(evts) = events {
            apply_events(&mut snapshot, evts);
        }
        Ok(snapshot)
    }
}

/// Restores an aggregate from its latest snapshot, or gives the initial one.
pub struct SnapshotOnlyAggregateView<Source> {
    pub source: Source,
}

impl<Source: SnapshotSource> SnapshotOnlyAggregateView<Source> {
    pub fn new(source: Source) -> (v: Self)
        ensures
            v.source == source,
    {
        SnapshotOnlyAggregateView { source }
    }

    /// What `rehydrate` gives back: the aggregate the snapshot restores, or
    /// the initial aggregate when there is none.
    pub open spec fn rehydrate_spec<Agg: RestoreAggregate<Snapshot = Source::Snapshot>>(
        &self,
        agg_id: Source::AggregateId,
    ) -> Result<HydratedAggregate<Agg>, Source::Error> {
        match self.source.snapshot_spec(agg_id) {
            Err(e) => Err(e),
            Ok(Some(s)) => Ok(HydratedAggregate::restored(s)),
            Ok(None) => Ok(HydratedAggregate::initial()),
        }
    }

    pub fn rehydrate<Agg: RestoreAggregate<Snapshot = Source::Snapshot>>(
        &self,
        agg_id: &Source::AggregateId,
    ) -> (r: Result<HydratedAggregate<Agg>, Source::Error>)
        ensures
            r == self.rehydrate_spec::<Agg>(*agg_id),
    {
        match self.source.get_snapshot(agg_id) {
            Ok(snapshot) => Ok(HydratedAggregate::restore(snapshot)),
            Err(e) => Err(e),
        }
    }
}

/// Restores an aggregate from its latest snapshot (or starts from the
/// initial one), then applies the events after it.
pub struct SnapshotPlusEventsAggregateView<ESource, SSource> {
    pub event_source: ESource,
    pub snapshot_source: SnapshotOnlyAggregateView<SSource>,
}

impl<ESource, SSource> SnapshotPlusEventsAggregateView<ESource, SSource> where
    ESource: EventSource,
    SSource: SnapshotSource<AggregateId = ESource::AggregateId>,
 {
    pub fn new(event_source: ESource, snapshot_source: SSource) -> (v: Self)
        ensures
            v.event_source == event_source,
            v.snapshot_source.source == snapshot_source,
    {
        SnapshotPlusEventsAggregateView {
            event_source,
            snapshot_source: SnapshotOnlyAggregateView::new(snapshot_source),
        }
    }

    /// What `rehydrate` gives back: the restored (or initial) aggregate with
    /// the events after its version applied.
    pub open spec fn rehydrate_spec<Agg>(&self, agg_id: ESource::AggregateId) -> Result<
        HydratedAggregate<Agg>,
        LoadAggregateError<ESource::Error, SSource::Error>,
    > where Agg: RestoreAggregate<Snapshot = SSource::Snapshot, Event = ESource::Event> {
        match self.snapshot_source.rehydrate_spec::<Agg>(agg_id) {
            Err(e) => Err(LoadAggregateError::Snapshot(e)),
            Ok(snapshot) => match self.event_source.read_spec(agg_id, snapshot.version.since()) {
                Err(e) => Err(LoadAggregateError::Events(e)),
                Ok(None) => Ok(snapshot),
                Ok(Some(events)) => Ok(hydrate_all(snapshot, events)),
            },
        }
    }

    pub fn rehydrate<Agg>(&self, agg_id: &ESource::AggregateId) -> (r: Result<
        HydratedAggregate<Agg>,
        LoadAggregateError<ESource::Error, SSource::Error>,
    >) where Agg: RestoreAggregate<Snapshot = SSource::Snapshot, Event = ESource::Event>
        ensures
            r == self.rehydrate_spec::<Agg>(*agg_id),
    {
        let mut snapshot = match self.snapshot_source.rehydrate::<Agg>(agg_id) {
            Ok(s) => s,
            Err(e) => return Err(LoadAggregateError::Snapshot(e)),
        };
        let events = match self.event_source.read_events(agg_id, snapshot.version.to_since()) {
            Ok(e) => e,
            Err(e) => return Err(LoadAggregateError::Events(e)),
        };
        if let Some(evts) = events {
            apply_events(&mut snapshot, evts);
        }
        Ok(snapshot)
    }
}

} // verus!
