//! A basic, in-memory event store and snapshot store.
use vstd::prelude::*;
use crate::types::{AggregateId, EventNumber, Precondition, SequencedEvent, Since, StateSnapshot, Version};
use crate::aggregate::Aggregate;
use crate::entity::{EventSource, SnapshotSource};
use core::marker::PhantomData;
use std::sync::Arc;
use void::Void;

verus! {

/// std's `Arc::clone`: a new pointer to the same allocation, so it points to
/// the same value. Claimed: the result equals the argument (Verus compares
/// `Arc`s by the values they point to).
#[verifier::external_body]
fn share<M>(m: &Arc<M>) -> (r: Arc<M>)
    ensures
        r == *m,
{
    Arc::clone(m)
}

/// Whether the records of a stream are numbered 1, 2, ... in order.
pub open spec fn numbered<Event>(records: Seq<SequencedEvent<Event>>) -> bool {
    forall|i: int| 0 <= i < records.len() ==> #[trigger] records[i].sequence_number.value() == i + 1
}

/// The records of `events` appended to a stream that holds `len` records.
pub open spec fn numbered_from<Event>(events: Seq<Event>, len: nat) -> Seq<SequencedEvent<Event>> {
    Seq::new(
        events.len(),
        |i: int| SequencedEvent { sequence_number: EventNumber::from_value((len + i + 1) as nat), event: events[i] },
    )
}

/// The records a read of one stream gives back: those after `since`, at most
/// `max_count` of them.
pub open spec fn read_stream<Event>(
    records: Seq<SequencedEvent<Event>>,
    since: Since,
    max_count: Option<u64>,
) -> Seq<SequencedEvent<Event>> {
    let skipped = match since {
        Since::BeginningOfStream => records,
        Since::Event(n) => if n.value() <= records.len() {
            records.skip(n.value() as int)
        } else {
            Seq::empty()
        },
    };
    match max_count {
        Some(m) => if m < skipped.len() {
            skipped.take(m as int)
        } else {
            skipped
        },
        None => skipped,
    }
}

/// The records a read of every stream gives back: the streams in the order
/// of `ids`, each read as `read_stream` does.
pub open spec fn read_streams<Event>(
    ids: Seq<Seq<char>>,
    streams: Map<Seq<char>, Seq<SequencedEvent<Event>>>,
    since: Since,
    max_count: Option<u64>,
) -> Seq<SequencedEvent<Event>>
    decreases ids.len(),
{
    if ids.len() == 0 {
        Seq::empty()
    } else {
        read_streams(ids.drop_last(), streams, since, max_count) + read_stream(
            streams[ids.last()],
            since,
            max_count,
        )
    }
}

/// Whether `precondition` refuses a write to an aggregate at `current`.
pub open spec fn refuses(precondition: Option<Precondition>, current: Option<Version>) -> bool {
    match precondition {
        Some(p) => !p.holds(current),
        None => false,
    }
}

struct EventStream<Event, Metadata> {
    events: Vec<SequencedEvent<Event>>,
    metadata: Vec<Arc<Metadata>>,
}

struct StreamEntry<Event, Metadata> {
    id: String,
    stream: EventStream<Event, Metadata>,
}

/// An in-memory event store: one stream of numbered events per aggregate id,
/// each event stored with the metadata it was appended with.
pub struct EventStore<A, E, M> {
    inner: Vec<StreamEntry<E, M>>,
    _phantom: PhantomData<A>,
}

impl<A, E, M> EventStore<A, E, M> {
    /// The ids that have a stream, in the order their streams were started.
    pub closed spec fn ids(&self) -> Seq<Seq<char>> {
        self.inner@.map_values(|e: StreamEntry<E, M>| e.id@)
    }

    spec fn index_of(&self, k: Seq<char>) -> int {
        choose|i: int| 0 <= i < self.inner@.len() && #[trigger] self.inner@[i].id@ == k
    }

    /// The stream of records of each id.
    pub closed spec fn streams(&self) -> Map<Seq<char>, Seq<SequencedEvent<E>>> {
        Map::new(
            |k: Seq<char>| self.ids().contains(k),
            |k: Seq<char>| self.inner@[self.index_of(k)].stream.events@,
        )
    }

    /// The metadata stored with each event of each stream.
    pub closed spec fn metadata(&self) -> Map<Seq<char>, Seq<M>> {
        Map::new(
            |k: Seq<char>| self.ids().contains(k),
            |k: Seq<char>| self.inner@[self.index_of(k)].stream.metadata@.map_values(|a: Arc<M>| *a),
        )
    }

    /// The records of `k`'s stream, or none when it has no stream.
    pub open spec fn stream_or_empty(&self, k: Seq<char>) -> Seq<SequencedEvent<E>> {
        if self.streams().contains_key(k) {
            self.streams()[k]
        } else {
            Seq::empty()
        }
    }

    /// The metadata of `k`'s stream, or none when it has no stream.
    pub open spec fn metadata_or_empty(&self, k: Seq<char>) -> Seq<M> {
        if self.metadata().contains_key(k) {
            self.metadata()[k]
        } else {
            Seq::empty()
        }
    }

    /// The current version of the aggregate `k`: `None` when it has no stream.
    pub open spec fn current_version(&self, k: Seq<char>) -> Option<Version> {
        if self.streams().contains_key(k) {
            Some(Version::of_count(self.streams()[k].len()))
        } else {
            None
        }
    }

    /// The store's invariant: ids occur once, each stream is numbered from 1,
    /// and each event has its metadata.
    pub closed spec fn wf(&self) -> bool {
        &&& forall|i: int, j: int|
            0 <= i < j < self.inner@.len() ==> #[trigger] self.inner@[i].id@
                != #[trigger] self.inner@[j].id@
        &&& forall|i: int|
            0 <= i < self.inner@.len() ==> {
                &&& numbered(#[trigger] self.inner@[i].stream.events@)
                &&& self.inner@[i].stream.metadata@.len() == self.inner@[i].stream.events@.len()
            }
    }

    proof fn lemma_index_of(&self, i: int)
        requires
            self.wf(),
            0 <= i < self.inner@.len(),
        ensures
            self.index_of(self.inner@[i].id@) == i,
            self.ids().contains(self.inner@[i].id@),
    {
        let k = self.inner@[i].id@;
        assert(self.ids()[i] == k);
        let j = self.index_of(k);
        assert(0 <= j < self.inner@.len() && self.inner@[j].id@ == k);
    }

    /// In a well-formed store every stream is numbered 1, 2, ... and every
    /// event has its metadata.
    pub proof fn law_streams_numbered(&self, k: Seq<char>)
        requires
            self.wf(),
            self.streams().contains_key(k),
        ensures
            numbered(self.streams()[k]),
            self.metadata().contains_key(k),
            self.metadata()[k].len() == self.streams()[k].len(),
    {
        let i = self.ids().index_of(k);
        self.lemma_index_of(i);
    }

    /// An empty store.
    pub fn new() -> (s: Self)
        ensures
            s.wf(),
            s.ids() == Seq::<Seq<char>>::empty(),
            s.streams() == Map::<Seq<char>, Seq<SequencedEvent<E>>>::empty(),
    {
        let s = EventStore { inner: Vec::new(), _phantom: PhantomData };
        assert(s.ids() =~= Seq::<Seq<char>>::empty());
        assert(s.streams() =~= Map::<Seq<char>, Seq<SequencedEvent<E>>>::empty());
        s
    }

    /// The position of the stream of `key`, if there is one.
    fn find(&self, key: &String) -> (r: Option<usize>)
        requires
            self.wf(),
        ensures
            match r {
                Some(i) => i < self.inner@.len() && self.inner@[i as int].id@ == key@
                    && self.streams().contains_key(key@) && self.index_of(key@) == i,
                None => !self.streams().contains_key(key@),
            },
    {
        let mut i: usize = 0;
        while i < self.inner.len()
            invariant
                self.wf(),
                i <= self.inner@.len(),
                forall|j: int| 0 <= j < i ==> self.inner@[j].id@ != key@,
            decreases self.inner.len() - i,
        {
            if self.inner[i].id == *key {
                proof {
                    self.lemma_index_of(i as int);
                }
                return Some(i);
            }
            i += 1;
        }
        proof {
            if self.ids().contains(key@) {
                let j = self.ids().index_of(key@);
                assert(self.inner@[j].id@ == key@);
            }
        }
        None
    }
}

impl<A, E, M> EventStore<A, E, M> {
    /// The first position holding the stream of `k`.
    spec fn first_index(&self, k: Seq<char>) -> int {
        choose|i: int|
            0 <= i < self.inner@.len() && #[trigger] self.inner@[i].id@ == k && forall|j: int|
                0 <= j < i ==> #[trigger] self.inner@[j].id@ != k
    }

    /// The stream of `k`, when there is one: the first one held for `k`.
    pub closed spec fn found_stream(&self, k: Seq<char>) -> Option<Seq<SequencedEvent<E>>> {
        if exists|i: int| 0 <= i < self.inner@.len() && #[trigger] self.inner@[i].id@ == k {
            Some(self.inner@[self.first_index(k)].stream.events@)
        } else {
            None
        }
    }

    /// A position of `k` with no earlier one is the first.
    proof fn lemma_first_index(&self, k: Seq<char>, i: int)
        requires
            0 <= i < self.inner@.len(),
            self.inner@[i].id@ == k,
            forall|j: int| 0 <= j < i ==> #[trigger] self.inner@[j].id@ != k,
        ensures
            self.first_index(k) == i,
            self.found_stream(k) == Some(self.inner@[i].stream.events@),
    {
        let c = self.first_index(k);
        if c != i {
            if c < i {
                assert(self.inner@[c].id@ != k);
            } else {
                assert(self.inner@[i].id@ != k);
            }
        }
    }

    /// In a well-formed store the stream found for `k` is `k`'s stream.
    pub proof fn lemma_found_stream(&self, k: Seq<char>)
        requires
            self.wf(),
        ensures
            self.found_stream(k) == if self.streams().contains_key(k) {
                Some(self.streams()[k])
            } else {
                None::<Seq<SequencedEvent<E>>>
            },
    {
        if exists|i: int| 0 <= i < self.inner@.len() && #[trigger] self.inner@[i].id@ == k {
            let i = choose|i: int| 0 <= i < self.inner@.len() && #[trigger] self.inner@[i].id@ == k;
            assert forall|j: int| 0 <= j < i implies #[trigger] self.inner@[j].id@ != k by {
                assert(self.inner@[j].id@ != self.inner@[i].id@);
            }
            self.lemma_first_index(k, i);
            self.lemma_index_of(i);
        } else {
            if self.ids().contains(k) {
                let i = self.ids().index_of(k);
                assert(self.inner@[i].id@ == k);
            }
        }
    }

    /// The first position holding the stream of `key`, if there is one.
    fn find_first(&self, key: &String) -> (r: Option<usize>)
        ensures
            match r {
                Some(i) => i < self.inner@.len() && self.found_stream(key@) == Some(
                    self.inner@[i as int].stream.events@,
                ),
                None => self.found_stream(key@) is None,
            },
    {
        let mut i: usize = 0;
        while i < self.inner.len()
            invariant
                i <= self.inner@.len(),
                forall|j: int| 0 <= j < i ==> #[trigger] self.inner@[j].id@ != key@,
            decreases self.inner.len() - i,
        {
            if self.inner[i].id == *key {
                proof {
                    self.lemma_first_index(key@, i as int);
                }
                return Some(i);
            }
            i += 1;
        }
        None
    }
}

impl<A, E, M> Default for EventStore<A, E, M> {
    fn default() -> (s: Self)
        ensures
            s.wf(),
            s.ids() == Seq::<Seq<char>>::empty(),
            s.streams() == Map::<Seq<char>, Seq<SequencedEvent<E>>>::empty(),
    {
        EventStore::new()
    }
}

impl<A, E: Copy, M> EventStore<A, E, M> {
    /// Reads the stream of `id`, or every stream when `id` is `None`: the
    /// events after `since`, at most `max_count` from each stream. `None` when
    /// `id`'s aggregate has no stream.
    pub fn _read_events<I: AggregateId<A>>(
        &self,
        id: Option<&I>,
        since: Since,
        max_count: Option<u64>,
    ) -> (r: Result<Option<Vec<SequencedEvent<E>>>, Void>)
        requires
            self.wf(),
        ensures
            match id {
                Some(id) => if self.streams().contains_key(id.id()) {
                    r matches Ok(Some(v)) && v@ == read_stream(
                        self.streams()[id.id()],
                        since,
                        max_count,
                    )
                } else {
                    r matches Ok(None)
                },
                None => r matches Ok(Some(v)) && v@ == read_streams(
                    self.ids(),
                    self.streams(),
                    since,
                    max_count,
                ),
            },
    {
        match id {
            Some(id) => {
                let key: String = id.as_str().to_owned();
                match self.find(&key) {
                    Some(i) => {
                        let mut out: Vec<SequencedEvent<E>> = Vec::new();
                        self.read_into(i, since, max_count, &mut out);
                        assert(out@ =~= read_stream(self.streams()[id.id()], since, max_count));
                        Ok(Some(out))
                    },
                    None => Ok(None),
                }
            },
            None => {
                let mut out: Vec<SequencedEvent<E>> = Vec::new();
                let mut i: usize = 0;
                while i < self.inner.len()
                    invariant
                        self.wf(),
                        i <= self.inner@.len(),
                        out@ == read_streams(
                            self.ids().take(i as int),
                            self.streams(),
                            since,
                            max_count,
                        ),
                    decreases self.inner.len() - i,
                {
                    proof {
                        self.lemma_index_of(i as int);
                        assert(self.ids().take(i + 1).drop_last() =~= self.ids().take(i as int));
                    }
                    self.read_into(i, since, max_count, &mut out);
                    i += 1;
                }
                proof {
                    assert(self.ids().take(i as int) =~= self.ids());
                }
                Ok(Some(out))
            },
        }
    }

    /// Reads the stream of `id`: the events after `since`, at most
    /// `max_count` of them; `None` when the aggregate has no stream.
    pub fn read_events<I: AggregateId<A>>(
        &self,
        id: &I,
        since: Since,
        max_count: Option<u64>,
    ) -> (r: Result<Option<Vec<SequencedEvent<E>>>, Void>)
        requires
            self.wf(),
        ensures
            if self.streams().contains_key(id.id()) {
                r matches Ok(Some(v)) && v@ == read_stream(
                    self.streams()[id.id()],
                    since,
                    max_count,
                )
            } else {
                r matches Ok(None)
            },
    {
        self._read_events(Some(id), since, max_count)
    }

    /// Appends to `out` what a read of the stream at position `i` gives back.
    fn read_into(
        &self,
        i: usize,
        since: Since,
        max_count: Option<u64>,
        out: &mut Vec<SequencedEvent<E>>,
    )
        requires
            i < self.inner@.len(),
        ensures
            final(out)@ == old(out)@ + read_stream(self.inner@[i as int].stream.events@, since, max_count),
    {
        let records = &self.inner[i].stream.events;
        let lo: usize = match since {
            Since::BeginningOfStream => 0,
            Since::Event(n) => {
                let k = n.get();
                if k <= records.len() {
                    k
                } else {
                    records.len()
                }
            },
        };
        let avail: usize = records.len() - lo;
        let n: usize = match max_count {
            Some(m) => if m < avail as u64 {
                m as usize
            } else {
                avail
            },
            None => avail,
        };
        let ghost expected = read_stream(records@, since, max_count);
        assert(expected =~= records@.subrange(lo as int, lo + n));
        let ghost before = out@;
        assert(lo + n <= records.len());
        let mut j: usize = 0;
        while j < n
            invariant
                j <= n,
                lo <= records@.len(),
                lo + n <= records@.len(),
                lo + n <= usize::MAX,
                records == &self.inner@[i as int].stream.events,
                out@ == before + records@.subrange(lo as int, lo + j),
            decreases n - j,
        {
            let idx: usize = lo + j;
            out.push(records[idx]);
            j += 1;
            assert(out@ =~= before + records@.subrange(lo as int, lo + j));
        }
    }

    /// Appends `events` to the stream of `id`, each stored with `metadata`,
    /// numbering them after the events already there, unless `precondition`
    /// refuses the aggregate's current version (its event count, or `None`
    /// when it has no stream). Returns the number given to the first new event.
    pub fn append_events<I: AggregateId<A>>(
        &mut self,
        id: &I,
        events: &[E],
        precondition: Option<Precondition>,
        metadata: M,
    ) -> (r: Result<EventNumber, PreconditionFailed>)
        requires
            old(self).wf(),
            old(self).stream_or_empty(id.id()).len() + events@.len() < usize::MAX,
        ensures
            final(self).wf(),
            ({
                let k = id.id();
                let len = old(self).stream_or_empty(k).len();
                if refuses(precondition, old(self).current_version(k)) {
                    &&& r == Err::<EventNumber, PreconditionFailed>(
                        PreconditionFailed(precondition->Some_0),
                    )
                    &&& final(self).ids() == old(self).ids()
                    &&& final(self).streams() == old(self).streams()
                    &&& final(self).metadata() == old(self).metadata()
                } else {
                    &&& r == Ok::<EventNumber, PreconditionFailed>(EventNumber::from_value(len + 1))
                    &&& final(self).ids() == if old(self).streams().contains_key(k) {
                        old(self).ids()
                    } else {
                        old(self).ids().push(k)
                    }
                    &&& final(self).streams() == old(self).streams().insert(
                        k,
                        old(self).stream_or_empty(k) + numbered_from(events@, len),
                    )
                    &&& final(self).metadata() == old(self).metadata().insert(
                        k,
                        old(self).metadata_or_empty(k) + Seq::new(events@.len(), |i: int| metadata),
                    )
                }
            }),
    {
        let key: String = id.as_str().to_owned();
        let ghost k = id.id();
        match self.find(&key) {
            Some(i) => {
                let len = self.inner[i].stream.events.len();
                let current = Version::new(len);
                proof {
                    self.lemma_index_of(i as int);
                    assert(self.streams()[k] == self.inner@[i as int].stream.events@);
                }
                if let Some(p) = precondition {
                    if p.verify(Some(current)).is_err() {
                        return Err(PreconditionFailed(p));
                    }
                }
                let mut entry = StreamEntry {
                    id: String::new(),
                    stream: EventStream { events: Vec::new(), metadata: Vec::new() },
                };
                self.inner.set_and_swap(i, &mut entry);
                let ghost old_meta = entry.stream.metadata@;
                let first = Self::push_events(&mut entry.stream, events, metadata);
                self.inner.set_and_swap(i, &mut entry);
                proof {
                    assert(self.inner@ == old(self).inner@.update(
                        i as int,
                        self.inner@[i as int],
                    ));
                    assert forall|a: int, b: int|
                        0 <= a < b < self.inner@.len() implies #[trigger] self.inner@[a].id@
                        != #[trigger] self.inner@[b].id@ by {
                        assert(old(self).inner@[a].id@ != old(self).inner@[b].id@);
                    }
                    assert forall|a: int| 0 <= a < self.inner@.len() implies {
                        &&& numbered(#[trigger] self.inner@[a].stream.events@)
                        &&& self.inner@[a].stream.metadata@.len() == self.inner@[a].stream.events@.len()
                    } by {
                        if a != i {
                            assert(self.inner@[a] == old(self).inner@[a]);
                        }
                    }
                    assert(self.wf());
                    assert(self.ids() =~= old(self).ids());
                    assert forall|kk: Seq<char>| #[trigger]
                        self.streams().contains_key(kk) implies self.streams()[kk]
                        == old(self).streams().insert(k, old(self).streams()[k] + numbered_from(events@, len as nat))[kk] by {
                        let j = self.ids().index_of(kk);
                        self.lemma_index_of(j);
                        old(self).lemma_index_of(j);
                    }
                    assert(self.streams() =~= old(self).streams().insert(
                        k,
                        old(self).streams()[k] + numbered_from(events@, len as nat),
                    ));
                    assert forall|kk: Seq<char>| #[trigger]
                        self.metadata().contains_key(kk) implies self.metadata()[kk]
                        == old(self).metadata().insert(k, old(self).metadata()[k] + Seq::new(events@.len(), |x: int| metadata))[kk] by {
                        let j = self.ids().index_of(kk);
                        self.lemma_index_of(j);
                        old(self).lemma_index_of(j);
                        if j == i {
                            assert(self.inner@[j].stream.metadata@.map_values(|a: Arc<M>| *a) =~= old(self).inner@[j].stream.metadata@.map_values(|a: Arc<M>| *a) + Seq::new(events@.len(), |x: int| metadata));
                        }
                    }
                    assert(self.metadata() =~= old(self).metadata().insert(
                        k,
                        old(self).metadata()[k] + Seq::new(events@.len(), |x: int| metadata),
                    ));
                }
                Ok(first)
            },
            None => {
                if let Some(p) = precondition {
                    if p.verify(None).is_err() {
                        return Err(PreconditionFailed(p));
                    }
                }
                let mut stream = EventStream { events: Vec::new(), metadata: Vec::new() };
                let first = Self::push_events(&mut stream, events, metadata);
                self.inner.push(StreamEntry { id: key, stream });
                proof {
                    let n = old(self).inner@.len() as int;
                    assert forall|a: int, b: int|
                        0 <= a < b < self.inner@.len() implies #[trigger] self.inner@[a].id@
                        != #[trigger] self.inner@[b].id@ by {
                        if b == n {
                            assert(old(self).ids()[a] == old(self).inner@[a].id@);
                        } else {
                            assert(old(self).inner@[a].id@ != old(self).inner@[b].id@);
                        }
                    }
                    assert forall|a: int| 0 <= a < self.inner@.len() implies {
                        &&& numbered(#[trigger] self.inner@[a].stream.events@)
                        &&& self.inner@[a].stream.metadata@.len() == self.inner@[a].stream.events@.len()
                    } by {
                        if a < n {
                            assert(self.inner@[a] == old(self).inner@[a]);
                        }
                    }
                    assert(self.wf());
                    assert(self.ids() =~= old(self).ids().push(k));
                    self.lemma_index_of(n);
                    assert(Seq::<SequencedEvent<E>>::empty() + numbered_from(events@, 0) =~= numbered_from(events@, 0));
                    assert forall|kk: Seq<char>| #[trigger]
                        self.streams().contains_key(kk) implies self.streams()[kk]
                        == old(self).streams().insert(k, numbered_from(events@, 0))[kk] by {
                        let j = self.ids().index_of(kk);
                        self.lemma_index_of(j);
                        if j < n {
                            old(self).lemma_index_of(j);
                        }
                    }
                    assert forall|kk: Seq<char>| #[trigger] self.streams().contains_key(kk)
                        <==> old(self).streams().insert(k, numbered_from(events@, 0)).contains_key(kk) by {
                        if old(self).ids().contains(kk) {
                            let j = old(self).ids().index_of(kk);
                            assert(self.ids()[j] == kk);
                        }
                        if self.ids().contains(kk) && kk != k {
                            let j = self.ids().index_of(kk);
                            assert(j < n);
                            assert(old(self).ids()[j] == kk);
                        }
                    }
                    assert(self.streams() =~= old(self).streams().insert(k, numbered_from(events@, 0)));
                    assert(Seq::<M>::empty() + Seq::new(events@.len(), |x: int| metadata) =~= Seq::new(events@.len(), |x: int| metadata));
                    assert(self.inner@[n].stream.metadata@.map_values(|a: Arc<M>| *a) =~= Seq::new(events@.len(), |x: int| metadata));
                    assert forall|kk: Seq<char>| #[trigger]
                        self.metadata().contains_key(kk) implies self.metadata()[kk]
                        == old(self).metadata().insert(k, Seq::new(events@.len(), |x: int| metadata))[kk] by {
                        let j = self.ids().index_of(kk);
                        self.lemma_index_of(j);
                        if j < n {
                            old(self).lemma_index_of(j);
                        }
                    }
                    assert forall|kk: Seq<char>| #[trigger] self.metadata().contains_key(kk)
                        <==> old(self).metadata().insert(k, Seq::new(events@.len(), |x: int| metadata)).contains_key(kk) by {
                        if old(self).ids().contains(kk) {
                            let j = old(self).ids().index_of(kk);
                            assert(self.ids()[j] == kk);
                        }
                        if self.ids().contains(kk) && kk != k {
                            let j = self.ids().index_of(kk);
                            assert(j < n);
                            assert(old(self).ids()[j] == kk);
                        }
                    }
                    assert(self.metadata() =~= old(self).metadata().insert(k, Seq::new(events@.len(), |x: int| metadata)));
                }
                Ok(first)
            },
        }
    }

    /// Appends `events` to `stream`, numbered after its records, each with
    /// `metadata`; returns the number of the first.
    fn push_events(stream: &mut EventStream<E, M>, events: &[E], metadata: M) -> (first: EventNumber)
        requires
            numbered(old(stream).events@),
            old(stream).metadata@.len() == old(stream).events@.len(),
            old(stream).events@.len() + events@.len() < usize::MAX,
        ensures
            numbered(final(stream).events@),
            final(stream).metadata@.len() == final(stream).events@.len(),
            final(stream).events@ == old(stream).events@ + numbered_from(events@, old(stream).events@.len()),
            final(stream).metadata@.map_values(|a: Arc<M>| *a) == old(stream).metadata@.map_values(|a: Arc<M>| *a) + Seq::new(events@.len(), |i: int| metadata),
            first == EventNumber::from_value(old(stream).events@.len() + 1),
    {
        let len = stream.events.len();
        let first = match EventNumber::new(len + 1) {
            Some(n) => n,
            None => EventNumber::min_value(),
        };
        let shared = Arc::new(metadata);
        let ghost before = stream.events@;
        let ghost before_meta = stream.metadata@;
        let mut i: usize = 0;
        while i < events.len()
            invariant
                i <= events@.len(),
                len == before.len(),
                before.len() + events@.len() < usize::MAX,
                numbered(before),
                stream.events@ == before + numbered_from(events@, len as nat).take(i as int),
                stream.metadata@ == before_meta + Seq::new(i as nat, |x: int| shared),
            decreases events.len() - i,
        {
            let number = match EventNumber::new(len + i + 1) {
                Some(n) => n,
                None => EventNumber::min_value(),
            };
            stream.events.push(SequencedEvent { sequence_number: number, event: events[i] });
            stream.metadata.push(share(&shared));
            i += 1;
            assert(stream.events@ =~= before + numbered_from(events@, len as nat).take(i as int));
            assert(stream.metadata@ =~= before_meta + Seq::new(i as nat, |x: int| shared));
        }
        proof {
            assert(numbered_from(events@, len as nat).take(i as int) =~= numbered_from(events@, len as nat));
            assert forall|j: int| 0 <= j < stream.events@.len() implies #[trigger] stream.events@[j].sequence_number.value() == j + 1 by {
                if j >= len {
                    assert(stream.events@[j] == numbered_from(events@, len as nat)[j - len]);
                    EventNumber::lemma_from_value((j + 1) as nat, stream.events@[j].sequence_number);
                } else {
                    assert(stream.events@[j] == before[j]);
                    assert(before[j].sequence_number.value() == j + 1);
                }
            }
            assert(stream.metadata@.map_values(|a: Arc<M>| *a) =~= before_meta.map_values(|a: Arc<M>| *a) + Seq::new(events@.len(), |x: int| metadata));
        }
        first
    }
}

impl<A: Aggregate, M> EventSource<A> for EventStore<A, A::Event, M> where A::Event: Copy {
    type Error = Void;

    /// The events of `id`'s stream after `since`, at most `max_count` of
    /// them; `None` when it has no stream.
    open spec fn read_spec(&self, id: Seq<char>, since: Since, max_count: Option<u64>) -> Result<
        Option<Seq<SequencedEvent<A::Event>>>,
        Void,
    > {
        match self.found_stream(id) {
            Some(records) => Ok(Some(read_stream(records, since, max_count))),
            None => Ok(None),
        }
    }

    fn read_events<I: AggregateId<A>>(&self, id: &I, since: Since, max_count: Option<u64>) -> (r: Result<
        Option<Vec<SequencedEvent<A::Event>>>,
        Void,
    >) {
        let key: String = id.as_str().to_owned();
        match self.find_first(&key) {
            Some(i) => {
                let mut out: Vec<SequencedEvent<A::Event>> = Vec::new();
                self.read_into(i, since, max_count, &mut out);
                assert(out@ =~= read_stream(self.inner@[i as int].stream.events@, since, max_count));
                Ok(Some(out))
            },
            None => Ok(None),
        }
    }
}

/// An error indicating that a precondition has failed.
#[derive(Clone, Copy, Debug, PartialEq, Eq, Structural)]
pub struct PreconditionFailed(pub Precondition);

impl From<Precondition> for PreconditionFailed {
    fn from(p: Precondition) -> (e: Self) {
        PreconditionFailed(p)
    }
}

impl vstd::std_specs::convert::FromSpecImpl<Precondition> for PreconditionFailed {
    open spec fn obeys_from_spec() -> bool {
        true
    }

    open spec fn from_spec(p: Precondition) -> Self {
        PreconditionFailed(p)
    }
}

struct SnapshotEntry<A> {
    id: String,
    snapshot: StateSnapshot<A>,
}

/// An in-memory store for aggregate snapshots, one per aggregate id.
pub struct StateStore<A> {
    inner: Vec<SnapshotEntry<A>>,
    _phantom: PhantomData<A>,
}

impl<A> StateStore<A> {
    spec fn index_of(&self, k: Seq<char>) -> int {
        choose|i: int| 0 <= i < self.inner@.len() && #[trigger] self.inner@[i].id@ == k
    }

    /// The snapshot stored for each id.
    pub closed spec fn snapshots(&self) -> Map<Seq<char>, StateSnapshot<A>> {
        Map::new(
            |k: Seq<char>| exists|i: int| 0 <= i < self.inner@.len() && #[trigger] self.inner@[i].id@ == k,
            |k: Seq<char>| self.inner@[self.index_of(k)].snapshot,
        )
    }

    /// The store's invariant: each id has at most one snapshot.
    pub closed spec fn wf(&self) -> bool {
        forall|i: int, j: int|
            0 <= i < j < self.inner@.len() ==> #[trigger] self.inner@[i].id@
                != #[trigger] self.inner@[j].id@
    }

    /// An empty store.
    pub fn new() -> (s: Self)
        ensures
            s.wf(),
            s.snapshots() == Map::<Seq<char>, StateSnapshot<A>>::empty(),
    {
        let s = StateStore { inner: Vec::new(), _phantom: PhantomData };
        assert(s.snapshots() =~= Map::<Seq<char>, StateSnapshot<A>>::empty());
        s
    }

    fn find(&self, key: &String) -> (r: Option<usize>)
        requires
            self.wf(),
        ensures
            match r {
                Some(i) => i < self.inner@.len() && self.inner@[i as int].id@ == key@
                    && self.snapshots().contains_key(key@) && self.snapshots()[key@]
                    == self.inner@[i as int].snapshot,
                None => !self.snapshots().contains_key(key@),
            },
    {
        let mut i: usize = 0;
        while i < self.inner.len()
            invariant
                self.wf(),
                i <= self.inner@.len(),
                forall|j: int| 0 <= j < i ==> self.inner@[j].id@ != key@,
            decreases self.inner.len() - i,
        {
            if self.inner[i].id == *key {
                let ghost j = self.index_of(key@);
                assert(self.inner@[i as int].id@ == key@);
                return Some(i);
            }
            i += 1;
        }
        None
    }
}

impl<A> StateStore<A> {
    /// The first position holding a snapshot of `k`.
    spec fn first_index(&self, k: Seq<char>) -> int {
        choose|i: int|
            0 <= i < self.inner@.len() && #[trigger] self.inner@[i].id@ == k && forall|j: int|
                0 <= j < i ==> #[trigger] self.inner@[j].id@ != k
    }

    /// The snapshot of `k`, when there is one: the first one held for `k`.
    pub closed spec fn found_snapshot(&self, k: Seq<char>) -> Option<StateSnapshot<A>> {
        if exists|i: int| 0 <= i < self.inner@.len() && #[trigger] self.inner@[i].id@ == k {
            Some(self.inner@[self.first_index(k)].snapshot)
        } else {
            None
        }
    }

    /// A position of `k` with no earlier one is the first.
    proof fn lemma_first_index(&self, k: Seq<char>, i: int)
        requires
            0 <= i < self.inner@.len(),
            self.inner@[i].id@ == k,
            forall|j: int| 0 <= j < i ==> #[trigger] self.inner@[j].id@ != k,
        ensures
            self.first_index(k) == i,
            self.found_snapshot(k) == Some(self.inner@[i].snapshot),
    {
        let c = self.first_index(k);
        if c != i {
            if c < i {
                assert(self.inner@[c].id@ != k);
            } else {
                assert(self.inner@[i].id@ != k);
            }
        }
    }

    /// In a well-formed store the snapshot found for `k` is `k`'s snapshot.
    pub proof fn lemma_found_snapshot(&self, k: Seq<char>)
        requires
            self.wf(),
        ensures
            self.found_snapshot(k) == if self.snapshots().contains_key(k) {
                Some(self.snapshots()[k])
            } else {
                None::<StateSnapshot<A>>
            },
    {
        if exists|i: int| 0 <= i < self.inner@.len() && #[trigger] self.inner@[i].id@ == k {
            let i = choose|i: int| 0 <= i < self.inner@.len() && #[trigger] self.inner@[i].id@ == k;
            assert forall|j: int| 0 <= j < i implies #[trigger] self.inner@[j].id@ != k by {
                assert(self.inner@[j].id@ != self.inner@[i].id@);
            }
            self.lemma_first_index(k, i);
            let c = self.index_of(k);
            if c != i {
                if c < i {
                    assert(self.inner@[c].id@ != self.inner@[i].id@);
                } else {
                    assert(self.inner@[i].id@ != self.inner@[c].id@);
                }
            }
        }
    }

    /// The first position holding a snapshot of `key`, if there is one.
    fn find_first(&self, key: &String) -> (r: Option<usize>)
        ensures
            match r {
                Some(i) => i < self.inner@.len() && self.found_snapshot(key@) == Some(self.inner@[i as int].snapshot),
                None => self.found_snapshot(key@) is None,
            },
    {
        let mut i: usize = 0;
        while i < self.inner.len()
            invariant
                i <= self.inner@.len(),
                forall|j: int| 0 <= j < i ==> #[trigger] self.inner@[j].id@ != key@,
            decreases self.inner.len() - i,
        {
            if self.inner[i].id == *key {
                proof {
                    self.lemma_first_index(key@, i as int);
                }
                return Some(i);
            }
            i += 1;
        }
        None
    }
}

impl<A: Copy> SnapshotSource<A> for StateStore<A> {
    type Error = Void;

    /// The snapshot of `id`, if one was stored.
    open spec fn snapshot_spec(&self, id: Seq<char>) -> Result<Option<StateSnapshot<A>>, Void> {
        Ok(self.found_snapshot(id))
    }

    fn get_snapshot<I: AggregateId<A>>(&self, id: &I) -> (r: Result<Option<StateSnapshot<A>>, Void>) {
        let key: String = id.as_str().to_owned();
        match self.find_first(&key) {
            Some(i) => {
                let s: StateSnapshot<A> = self.inner[i].snapshot;
                Ok(Some(s))
            },
            None => Ok(None),
        }
    }
}

impl<A> Default for StateStore<A> {
    fn default() -> (s: Self)
        ensures
            s.wf(),
            s.snapshots() == Map::<Seq<char>, StateSnapshot<A>>::empty(),
    {
        StateStore::new()
    }
}

impl<A: Clone> StateStore<A> {
    /// The snapshot of `id`, if one was stored: its version and a clone of
    /// its aggregate.
    pub fn get_snapshot<I: AggregateId<A>>(&self, id: &I) -> (r: Result<Option<StateSnapshot<A>>, Void>)
        requires
            self.wf(),
        ensures
            match r {
                Ok(Some(s)) => {
                    &&& self.snapshots().contains_key(id.id())
                    &&& s.version == self.snapshots()[id.id()].version
                    &&& cloned(self.snapshots()[id.id()].snapshot, s.snapshot)
                },
                Ok(None) => !self.snapshots().contains_key(id.id()),
                Err(_) => false,
            },
    {
        let key: String = id.as_str().to_owned();
        match self.find(&key) {
            Some(i) => {
                let s = &self.inner[i].snapshot;
                Ok(Some(StateSnapshot { version: s.version, snapshot: s.snapshot.clone() }))
            },
            None => Ok(None),
        }
    }

    /// Stores a clone of `aggregate` taken at `version` as the snapshot of
    /// `id`, replacing any earlier one. Returns `version`.
    pub fn persist_snapshot<I: AggregateId<A>>(
        &mut self,
        id: &I,
        aggregate: &A,
        version: Version,
        _last_snapshot_version: Option<Version>,
    ) -> (r: Result<Version, Void>)
        requires
            old(self).wf(),
        ensures
            final(self).wf(),
            r matches Ok(v) && v == version,
            final(self).snapshots().dom() == old(self).snapshots().dom().insert(id.id()),
            final(self).snapshots()[id.id()].version == version,
            cloned(*aggregate, final(self).snapshots()[id.id()].snapshot),
            forall|k: Seq<char>|
                k != id.id() && #[trigger] old(self).snapshots().contains_key(k) ==> final(self).snapshots()[k] == old(self).snapshots()[k],
    {
        let key: String = id.as_str().to_owned();
        let owned = StateSnapshot { version, snapshot: aggregate.clone() };
        match self.find(&key) {
            Some(i) => {
                let mut entry = SnapshotEntry { id: key, snapshot: owned };
                self.inner.set_and_swap(i, &mut entry);
                proof {
                    assert forall|a: int, b: int|
                        0 <= a < b < self.inner@.len() implies #[trigger] self.inner@[a].id@
                        != #[trigger] self.inner@[b].id@ by {
                        assert(old(self).inner@[a].id@ != old(self).inner@[b].id@);
                    }
                    assert forall|k: Seq<char>| #[trigger] self.snapshots().contains_key(k) <==> old(self).snapshots().dom().insert(id.id()).contains(k) by {
                        if self.snapshots().contains_key(k) {
                            let j = choose|j: int| 0 <= j < self.inner@.len() && #[trigger] self.inner@[j].id@ == k;
                            assert(old(self).inner@[j].id@ == k);
                        }
                        if old(self).snapshots().contains_key(k) {
                            let j = choose|j: int| 0 <= j < old(self).inner@.len() && #[trigger] old(self).inner@[j].id@ == k;
                            assert(self.inner@[j].id@ == k);
                        }
                    }
                    assert(self.snapshots().dom() =~= old(self).snapshots().dom().insert(id.id()));
                    let j0 = self.index_of(id.id());
                    assert(self.inner@[i as int].id@ == id.id());
                    assert forall|k: Seq<char>|
                        k != id.id() && #[trigger] old(self).snapshots().contains_key(k) implies self.snapshots()[k] == old(self).snapshots()[k] by {
                        let j = old(self).index_of(k);
                        let j2 = self.index_of(k);
                        assert(self.inner@[j].id@ == k);
                    }
                }
            },
            None => {
                self.inner.push(SnapshotEntry { id: key, snapshot: owned });
                proof {
                    let n = old(self).inner@.len() as int;
                    assert forall|a: int, b: int|
                        0 <= a < b < self.inner@.len() implies #[trigger] self.inner@[a].id@
                        != #[trigger] self.inner@[b].id@ by {
                        if b < n {
                            assert(old(self).inner@[a].id@ != old(self).inner@[b].id@);
                        } else {
                            assert(old(self).inner@[a].id@ == self.inner@[a].id@);
                        }
                    }
                    assert forall|k: Seq<char>| #[trigger] self.snapshots().contains_key(k) <==> old(self).snapshots().dom().insert(id.id()).contains(k) by {
                        if self.snapshots().contains_key(k) && k != id.id() {
                            let j = choose|j: int| 0 <= j < self.inner@.len() && #[trigger] self.inner@[j].id@ == k;
                            assert(old(self).inner@[j].id@ == k);
                        }
                        if old(self).snapshots().contains_key(k) {
                            let j = choose|j: int| 0 <= j < old(self).inner@.len() && #[trigger] old(self).inner@[j].id@ == k;
                            assert(self.inner@[j].id@ == k);
                        }
                        if k == id.id() {
                            assert(self.inner@[n].id@ == k);
                        }
                    }
                    assert(self.snapshots().dom() =~= old(self).snapshots().dom().insert(id.id()));
                    assert(self.inner@[n].id@ == id.id());
                    assert forall|k: Seq<char>|
                        k != id.id() && #[trigger] old(self).snapshots().contains_key(k) implies self.snapshots()[k] == old(self).snapshots()[k] by {
                        let j = old(self).index_of(k);
                        let j2 = self.index_of(k);
                        assert(self.inner@[j].id@ == k);
                    }
                }
            },
        }
        Ok(version)
    }
}

/// Reading a stream from the version it had before an append gives back
/// exactly the appended events, numbered on from that version; reading it
/// from the beginning gives the earlier events followed by them; and the
/// stream stays numbered 1, 2, ... in order.
pub proof fn law_read_after_append<Event>(records: Seq<SequencedEvent<Event>>, events: Seq<Event>)
    requires
        numbered(records),
        records.len() + events.len() <= usize::MAX,
    ensures
        read_stream(
            records + numbered_from(events, records.len()),
            Version::of_count(records.len()).since(),
            None,
        ) == numbered_from(events, records.len()),
        read_stream(records + numbered_from(events, records.len()), Since::BeginningOfStream, None) == records
            + numbered_from(events, records.len()),
        numbered(records + numbered_from(events, records.len())),
{
    let all = records + numbered_from(events, records.len());
    if records.len() > 0 {
        Version::lemma_of_count(records.len());
        assert(all.skip(records.len() as int) =~= numbered_from(events, records.len()));
    } else {
        assert(all =~= numbered_from(events, records.len()));
    }
    assert forall|i: int| 0 <= i < all.len() implies #[trigger] all[i].sequence_number.value() == i + 1 by {
        if i >= records.len() {
            EventNumber::lemma_from_value((i + 1) as nat, all[i].sequence_number);
        }
    }
}

} // verus!
