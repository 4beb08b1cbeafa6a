//! An in-memory store of event streams, one per aggregate.
use vstd::prelude::*;
use crate::okazis::{AppendError, Never, Precondition};
use super::event_stream::{
    allows, read_spec, MemoryEventStream, PersistedEvent, ReadError, Since,
};
use super::key_model;
use std::collections::hash_map::RandomState;
use std::collections::HashMap;
use std::hash::{BuildHasher, Hash};

verus! {

broadcast use vstd::std_specs::hash::group_hash_axioms;

/// Event streams kept in memory, keyed by aggregate id.
#[verifier::reject_recursive_types(AggregateId)]
#[verifier::reject_recursive_types(Event)]
#[verifier::reject_recursive_types(Hasher)]
pub struct MemoryEventStore<AggregateId, Event, Hasher = RandomState> where
    AggregateId: Hash + Eq,
    Hasher: BuildHasher,
 {
    data: HashMap<AggregateId, MemoryEventStream<Event>, Hasher>,
}

/// Whether a new stream may be started under `condition`.
pub open spec fn allows_new_stream(condition: Precondition) -> bool {
    match condition {
        Precondition::Always | Precondition::NewStream | Precondition::EmptyStream => true,
        Precondition::LastVersion(_) => false,
    }
}

/// The streams, and the outcome, after appending `events` to the stream of
/// `agg_id` under `condition`.
pub open spec fn append_spec<AggregateId, Event>(
    streams: Map<AggregateId, Seq<Event>>,
    agg_id: AggregateId,
    events: Seq<Event>,
    condition: Precondition,
) -> (Map<AggregateId, Seq<Event>>, Result<(), AppendError<Never>>) {
    if streams.contains_key(agg_id) {
        if allows(streams[agg_id], condition) {
            (streams.insert(agg_id, streams[agg_id] + events), Ok(()))
        } else {
            (streams, Err(AppendError::PreconditionFailed(condition)))
        }
    } else if allows_new_stream(condition) {
        (streams.insert(agg_id, events), Ok(()))
    } else {
        (streams, Err(AppendError::PreconditionFailed(condition)))
    }
}

impl<AggregateId, Event, Hasher> View for MemoryEventStore<AggregateId, Event, Hasher> where
    AggregateId: Hash + Eq,
    Hasher: BuildHasher,
 {
    type V = Map<AggregateId, Seq<Event>>;

    closed spec fn view(&self) -> Map<AggregateId, Seq<Event>> {
        self.data@.map_values(|s: MemoryEventStream<Event>| s@)
    }
}

impl<AggregateId, Event, Hasher> Default for MemoryEventStore<AggregateId, Event, Hasher> where
    AggregateId: Hash + Eq,
    Hasher: BuildHasher + Default,
 {
    fn default() -> (s: Self)
        ensures
            s@ == Map::<AggregateId, Seq<Event>>::empty(),
    {
        let data: HashMap<AggregateId, MemoryEventStream<Event>, Hasher> = HashMap::default();
        let s = MemoryEventStore { data };
        assert(s@ =~= Map::<AggregateId, Seq<Event>>::empty());
        s
    }
}

impl<AggregateId, Event, Hasher> MemoryEventStore<AggregateId, Event, Hasher> where
    AggregateId: Hash + Eq + Copy,
    Event: Copy,
    Hasher: BuildHasher,
 {
    /// The stream of `agg_id`, if there is one.
    pub fn try_get_stream(&self, agg_id: &AggregateId) -> (r: Option<&MemoryEventStream<Event>>)
        ensures
            key_model::<AggregateId, Hasher>() ==> match r {
                Some(s) => self@.contains_key(*agg_id) && s@ == self@[*agg_id],
                None => !self@.contains_key(*agg_id),
            },
    {
        self.data.get(agg_id)
    }

    /// Starts an empty stream for `agg_id` unless it has one.
    pub fn create_stream(&mut self, agg_id: &AggregateId)
        ensures
            key_model::<AggregateId, Hasher>() ==> final(self)@ == if old(self)@.contains_key(
                *agg_id,
            ) {
                old(self)@
            } else {
                old(self)@.insert(*agg_id, Seq::empty())
            },
    {
        if !self.data.contains_key(agg_id) {
            self.data.insert(*agg_id, MemoryEventStream::new());
            proof {
                if key_model::<AggregateId, Hasher>() {
                    assert(self@ =~= old(self)@.insert(*agg_id, Seq::empty()));
                }
            }
        }
    }

    /// Appends `events` to the stream of `agg_id`. An existing stream is held
    /// to `condition`; a missing one is started when `condition` is `Always`,
    /// `NewStream` or `EmptyStream`, and otherwise the condition is reported.
    pub fn append_events(
        &mut self,
        agg_id: &AggregateId,
        events: &[Event],
        condition: Precondition,
    ) -> (r: Result<(), AppendError<Never>>)
        ensures
            key_model::<AggregateId, Hasher>() ==> (final(self)@, r) == append_spec(
                old(self)@,
                *agg_id,
                events@,
                condition,
            ),
    {
        match self.data.remove(agg_id) {
            Some(mut stream) => {
                let r = stream.append_events(events, condition);
                self.data.insert(*agg_id, stream);
                proof {
                    if key_model::<AggregateId, Hasher>() {
                        if allows(old(self)@[*agg_id], condition) {
                            assert(self@ =~= old(self)@.insert(
                                *agg_id,
                                old(self)@[*agg_id] + events@,
                            ));
                        } else {
                            assert(self@ =~= old(self)@);
                        }
                    }
                }
                r
            },
            None => {
                let start = match condition {
                    Precondition::Always | Precondition::NewStream | Precondition::EmptyStream => true,
                    Precondition::LastVersion(_) => false,
                };
                proof {
                    if key_model::<AggregateId, Hasher>() {
                        assert(self.data@ =~= old(self).data@);
                    }
                }
                if start {
                    let mut stream = MemoryEventStream::new();
                    let _ = stream.append_events(events, Precondition::Always);
                    self.data.insert(*agg_id, stream);
                    proof {
                        if key_model::<AggregateId, Hasher>() {
                            assert(Seq::<Event>::empty() + events@ =~= events@);
                            assert(self@ =~= old(self)@.insert(*agg_id, events@));
                        }
                    }
                    Ok(())
                } else {
                    proof {
                        if key_model::<AggregateId, Hasher>() {
                            assert(self.data@ =~= old(self).data@);
                            assert(self@ =~= old(self)@);
                        }
                    }
                    Err(AppendError::PreconditionFailed(condition))
                }
            },
        }
    }

    /// The events of `agg_id`'s stream after `since`, or `None` when the
    /// aggregate has no stream.
    pub fn read(&self, agg_id: &AggregateId, since: Since) -> (r: Result<
        Option<Vec<PersistedEvent<usize, Event, ()>>>,
        ReadError,
    >)
        ensures
            key_model::<AggregateId, Hasher>() ==> if self@.contains_key(*agg_id) {
                match (r, read_spec(self@[*agg_id], since)) {
                    (Ok(Some(v)), Ok(s)) => v@ == s,
                    (Err(e1), Err(e2)) => e1 == e2,
                    _ => false,
                }
            } else {
                r matches Ok(None)
            },
    {
        match self.try_get_stream(agg_id) {
            Some(es) => match es.read(since) {
                Ok(v) => Ok(Some(v)),
                Err(e) => Err(e),
            },
            None => Ok(None),
        }
    }
}

/// A successful append leaves the stream of `agg_id` holding what it held (or
/// nothing) followed by the appended events; every other stream is left as it
/// was, and a refused append changes nothing.
pub proof fn law_append_touches_one_stream<AggregateId, Event>(
    streams: Map<AggregateId, Seq<Event>>,
    agg_id: AggregateId,
    events: Seq<Event>,
    condition: Precondition,
    other: AggregateId,
)
    requires
        other != agg_id,
    ensures
        ({
            let (after, r) = append_spec(streams, agg_id, events, condition);
            &&& r is Ok ==> after.contains_key(agg_id) && after[agg_id] == (if streams.contains_key(agg_id) {
                streams[agg_id]
            } else {
                Seq::empty()
            }) + events
            &&& r is Err ==> after == streams
            &&& after.contains_key(other) == streams.contains_key(other)
            &&& streams.contains_key(other) ==> after[other] == streams[other]
        }),
{
    if !streams.contains_key(agg_id) {
        assert(Seq::<Event>::empty() + events =~= events);
    }
}

} // verus!
