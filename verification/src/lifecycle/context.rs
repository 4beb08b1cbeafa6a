//! Contexts of a lifecycle: the implementation of the sources and sinks, a
//! buffer of the events appended through them and, for `ContextWithMeta`, the
//! metadata to append them with.
use vstd::prelude::*;
use crate::types::{Since, Version};
use crate::event_processing::RegisteredEvent;
use super::{Aggregate, EventSink, EventSource, NumberedEvent, SnapshotSink, SnapshotSource};

verus! {

/// A marker of the types a context can be borrowed as.
pub trait BorrowableAsContext {

}

impl BorrowableAsContext for () {

}

/// The seal of `BufferedContext`: only the contexts of this crate buffer
/// events.
pub trait Sealed {

}

/// The events of `events` whose type has the key `type_key`, in order.
pub open spec fn of_type<Ev: RegisteredEvent>(events: Seq<NumberedEvent<Ev>>, type_key: u64) -> Seq<NumberedEvent<Ev>>
    decreases events.len(),
{
    if events.len() == 0 {
        Seq::empty()
    } else {
        of_type(events.drop_last(), type_key) + if events.last().data.type_key() == type_key {
            seq![events.last()]
        } else {
            Seq::empty()
        }
    }
}

/// The events of `events` whose type has another key than `type_key`, in
/// order.
pub open spec fn other_types<Ev: RegisteredEvent>(events: Seq<NumberedEvent<Ev>>, type_key: u64) -> Seq<NumberedEvent<Ev>>
    decreases events.len(),
{
    if events.len() == 0 {
        Seq::empty()
    } else {
        other_types(events.drop_last(), type_key) + if events.last().data.type_key() != type_key {
            seq![events.last()]
        } else {
            Seq::empty()
        }
    }
}

/// Every event of `of_type(events, type_key)` has a type with the key
/// `type_key`.
pub proof fn lemma_of_type_keys<Ev: RegisteredEvent>(events: Seq<NumberedEvent<Ev>>, type_key: u64)
    ensures
        forall|i: int| 0 <= i < of_type(events, type_key).len() ==> #[trigger] of_type(events, type_key)[i].data.type_key() == type_key,
    decreases events.len(),
{
    if events.len() > 0 {
        lemma_of_type_keys(events.drop_last(), type_key);
        let a = of_type(events.drop_last(), type_key);
        assert forall|i: int| 0 <= i < of_type(events, type_key).len() implies #[trigger] of_type(events, type_key)[i].data.type_key() == type_key by {
            if i < a.len() {
                assert(of_type(events, type_key)[i] == a[i]);
            }
        }
    }
}

/// Each type has a buffer of its own: taking the events of one type leaves
/// none of that type, and the events of every other type as they were, in
/// order.
pub proof fn law_taking_one_type_keeps_the_others<Ev: RegisteredEvent>(
    events: Seq<NumberedEvent<Ev>>,
    taken: u64,
    other: u64,
)
    ensures
        of_type(other_types(events, taken), taken) == Seq::<NumberedEvent<Ev>>::empty(),
        taken != other ==> of_type(other_types(events, taken), other) == of_type(events, other),
    decreases events.len(),
{
    if events.len() > 0 {
        let init = events.drop_last();
        let last = events.last();
        law_taking_one_type_keeps_the_others(init, taken, other);
        let rest = other_types(init, taken);
        if last.data.type_key() != taken {
            let kept = rest + seq![last];
            assert(other_types(events, taken) == kept);
            assert(kept.drop_last() =~= rest);
            assert(kept.last() == last);
        } else {
            assert(other_types(events, taken) =~= rest);
        }
    }
}

/// A context that buffers the events appended through it, to hand them to
/// event handlers afterwards. Events are taken by the key of their type: each
/// type has its own buffer.
pub trait BufferedContext<Ev>: Sealed {
    /// The events buffered so far, in order.
    spec fn buffered(&self) -> Seq<NumberedEvent<Ev>>;

    fn buffer_event(&mut self, ev: NumberedEvent<Ev>)
        ensures
            final(self).buffered() == old(self).buffered().push(ev),
    ;

    /// Takes the buffered events whose type has the key `type_key`, in the
    /// order they were buffered, and keeps those of every other type.
    fn take_buffered_events(&mut self, type_key: u64) -> (r: Vec<NumberedEvent<Ev>>) where Ev: RegisteredEvent
        ensures
            r@ == of_type(old(self).buffered(), type_key),
            final(self).buffered() == other_types(old(self).buffered(), type_key),
    ;
}

/// A buffer of numbered events.
#[derive(Debug)]
pub struct EventBuffer<Ev> {
    events: Vec<NumberedEvent<Ev>>,
}

impl<Ev> View for EventBuffer<Ev> {
    type V = Seq<NumberedEvent<Ev>>;

    closed spec fn view(&self) -> Seq<NumberedEvent<Ev>> {
        self.events@
    }
}

impl<Ev> EventBuffer<Ev> {
    /// An empty buffer.
    pub fn new() -> (b: Self)
        ensures
            b@ == Seq::<NumberedEvent<Ev>>::empty(),
    {
        EventBuffer { events: Vec::new() }
    }
}

impl<Ev> Sealed for EventBuffer<Ev> {

}

impl<Ev> BufferedContext<Ev> for EventBuffer<Ev> {
    open spec fn buffered(&self) -> Seq<NumberedEvent<Ev>> {
        self@
    }

    fn buffer_event(&mut self, ev: NumberedEvent<Ev>) {
        self.events.push(ev);
    }

    fn take_buffered_events(&mut self, type_key: u64) -> (r: Vec<NumberedEvent<Ev>>) where Ev: RegisteredEvent {
        let mut all: Vec<NumberedEvent<Ev>> = Vec::new();
        std::mem::swap(&mut all, &mut self.events);
        let ghost events = all@;
        let mut taken: Vec<NumberedEvent<Ev>> = Vec::new();
        proof {
            assert(events.take(0) =~= Seq::<NumberedEvent<Ev>>::empty());
        }
        for ev in it: all.into_iter()
            invariant
                it.seq() == events,
                events == old(self).buffered(),
                taken@ == of_type(events.take(it.index() as int), type_key),
                self.events@ == other_types(events.take(it.index() as int), type_key),
        {
            let ghost i = it.index() as int;
            proof {
                assert(events.take(i + 1).drop_last() =~= events.take(i));
                assert(events.take(i + 1).last() == ev);
            }
            if ev.data.type_id() == type_key {
                let ghost before = taken@;
                taken.push(ev);
                proof {
                    assert(taken@ =~= before + seq![ev]);
                    assert(other_types(events.take(i + 1), type_key) =~= other_types(events.take(i), type_key));
                }
            } else {
                let ghost before = self.events@;
                self.events.push(ev);
                proof {
                    assert(self.events@ =~= before + seq![ev]);
                    assert(of_type(events.take(i + 1), type_key) =~= of_type(events.take(i), type_key));
                }
            }
        }
        proof {
            assert(events.take(events.len() as int) =~= events);
        }
        taken
    }
}

/// A context: the implementation of the sources and sinks, and a buffer of
/// the events appended through it.
#[derive(Debug)]
pub struct Context<Impl, Ev> {
    pub(crate) implementation: Impl,
    pub(crate) buffer: EventBuffer<Ev>,
}

impl<Impl, Ev> Context<Impl, Ev> {
    /// The implementation of the sources and sinks.
    pub closed spec fn implementation_spec(&self) -> Impl {
        self.implementation
    }

    /// The events buffered so far.
    pub closed spec fn buffer_spec(&self) -> Seq<NumberedEvent<Ev>> {
        self.buffer@
    }

    /// The context with its implementation replaced by `implementation`.
    pub closed spec fn with_implementation(self, implementation: Impl) -> Self {
        Context { implementation, buffer: self.buffer }
    }

    /// The specs of a context are its fields.
    pub(crate) proof fn lemma_fields(&self)
        ensures
            self.implementation_spec() == self.implementation,
            self.buffer_spec() == self.buffer@,
    {
    }

    /// Replacing the implementation keeps the buffer.
    pub proof fn lemma_with_implementation(self, implementation: Impl)
        ensures
            self.with_implementation(implementation).implementation_spec() == implementation,
            self.with_implementation(implementation).buffer_spec() == self.buffer_spec(),
    {
    }

    /// A context around `implementation`, with an empty buffer.
    pub fn new(implementation: Impl) -> (c: Self)
        ensures
            c.implementation_spec() == implementation,
            c.buffer_spec() == Seq::<NumberedEvent<Ev>>::empty(),
    {
        Context { implementation, buffer: EventBuffer::new() }
    }
}


impl<Impl, Ev> Sealed for Context<Impl, Ev> {

}

impl<Impl, Ev> BufferedContext<Ev> for Context<Impl, Ev> {
    open spec fn buffered(&self) -> Seq<NumberedEvent<Ev>> {
        self.buffer_spec()
    }

    fn buffer_event(&mut self, ev: NumberedEvent<Ev>)
        ensures
            final(self).implementation_spec() == old(self).implementation_spec(),
    {
        self.buffer.buffer_event(ev);
    }

    fn take_buffered_events(&mut self, type_key: u64) -> (r: Vec<NumberedEvent<Ev>>) where Ev: RegisteredEvent
        ensures
            final(self).implementation_spec() == old(self).implementation_spec(),
    {
        self.buffer.take_buffered_events(type_key)
    }
}

impl<Agg: Aggregate, Impl: SnapshotSource<Agg>, Ev> SnapshotSource<Agg> for Context<Impl, Ev> {
    type Error = Impl::Error;

    open spec fn snapshot_spec(&self, id: Agg::Id) -> Result<Option<(Agg, Version)>, Self::Error> {
        self.implementation_spec().snapshot_spec(id)
    }

    open spec fn snapshots_spec(&self, ids: Seq<Agg::Id>) -> Result<Seq<(Agg, Version)>, Self::Error> {
        self.implementation_spec().snapshots_spec(ids)
    }

    fn load_snapshot(&self, id: &Agg::Id) -> (r: Result<Option<(Agg, Version)>, Self::Error>) {
        self.implementation.load_snapshot(id)
    }

    fn load_snapshots(&self, ids: &[Agg::Id]) -> (r: Result<Vec<(Agg, Version)>, Self::Error>) {
        self.implementation.load_snapshots(ids)
    }
}

impl<Agg: Aggregate, E, Impl: EventSource<Agg, E>, Ev> EventSource<Agg, E> for Context<Impl, Ev> {
    type Error = Impl::Error;

    open spec fn read_spec(&self, id: Agg::Id, since: Since) -> Seq<Result<NumberedEvent<E>, Self::Error>> {
        self.implementation_spec().read_spec(id, since)
    }

    fn read_events(&self, id: &Agg::Id, since: Since) -> (r: Vec<Result<NumberedEvent<E>, Self::Error>>) {
        self.implementation.read_events(id, since)
    }
}

impl<Agg: Aggregate, E, Mt, Impl: EventSink<Agg, E, Mt>, Ev> EventSink<Agg, E, Mt> for Context<Impl, Ev> {
    type Error = Impl::Error;

    open spec fn append_spec(self, id: Agg::Id, events: Seq<E>, meta: Mt) -> (Self, Result<
        Seq<NumberedEvent<E>>,
        Self::Error,
    >) {
        let (i, r) = self.implementation_spec().append_spec(id, events, meta);
        (self.with_implementation(i), r)
    }

    fn append_events(&mut self, id: &Agg::Id, events: &[E], meta: &Mt) -> (r: Result<
        Vec<NumberedEvent<E>>,
        Self::Error,
    >) {
        self.implementation.append_events(id, events, meta)
    }
}

impl<Agg: Aggregate, Impl: SnapshotSink<Agg>, Ev> SnapshotSink<Agg> for Context<Impl, Ev> {
    type Error = Impl::Error;

    open spec fn persist_spec(self, aggregate: Agg, version: Version) -> (Self, Result<(), Self::Error>) {
        let (i, r) = self.implementation_spec().persist_spec(aggregate, version);
        (self.with_implementation(i), r)
    }

    open spec fn persist_all_spec(self, snapshots: Seq<(Agg, Version)>) -> (Self, Result<(), Self::Error>) {
        let (i, r) = self.implementation_spec().persist_all_spec(snapshots);
        (self.with_implementation(i), r)
    }

    fn persist_snapshot(&mut self, aggregate: &Agg, version: Version) -> (r: Result<(), Self::Error>) {
        self.implementation.persist_snapshot(aggregate, version)
    }

    fn persist_snapshots(&mut self, snapshots: &[(&Agg, Version)]) -> (r: Result<(), Self::Error>) {
        self.implementation.persist_snapshots(snapshots)
    }
}

/// A context that also holds the metadata that events are appended with.
#[derive(Debug)]
pub struct ContextWithMeta<Impl, Mt, Ev> {
    pub(crate) ctx: Context<Impl, Ev>,
    pub(crate) meta: Mt,
}

impl<Impl, Mt, Ev> ContextWithMeta<Impl, Mt, Ev> {
    /// The inner context.
    pub closed spec fn ctx_spec(&self) -> Context<Impl, Ev> {
        self.ctx
    }

    /// The metadata.
    pub closed spec fn meta_spec(&self) -> Mt {
        self.meta
    }

    /// The context with its inner context replaced by `ctx`.
    pub closed spec fn with_ctx(self, ctx: Context<Impl, Ev>) -> Self {
        ContextWithMeta { ctx, meta: self.meta }
    }

    /// The specs of a context are its fields.
    pub(crate) proof fn lemma_fields(&self)
        ensures
            self.ctx_spec() == self.ctx,
            self.meta_spec() == self.meta,
    {
    }

    /// Replacing the inner context keeps the metadata.
    pub proof fn lemma_with_ctx(self, ctx: Context<Impl, Ev>)
        ensures
            self.with_ctx(ctx).ctx_spec() == ctx,
            self.with_ctx(ctx).meta_spec() == self.meta_spec(),
    {
    }

    /// A context around `implementation` with `meta`, and an empty buffer.
    pub fn new(implementation: Impl, meta: Mt) -> (c: Self)
        ensures
            c.ctx_spec().implementation_spec() == implementation,
            c.ctx_spec().buffer_spec() == Seq::<NumberedEvent<Ev>>::empty(),
            c.meta_spec() == meta,
    {
        ContextWithMeta { ctx: Context::new(implementation), meta }
    }

    /// The metadata events are appended with.
    pub fn meta(&self) -> (m: &Mt)
        ensures
            *m == self.meta_spec(),
    {
        &self.meta
    }
}

impl<Impl, Mt, Ev> Sealed for ContextWithMeta<Impl, Mt, Ev> {

}

impl<Impl, Mt, Ev> BufferedContext<Ev> for ContextWithMeta<Impl, Mt, Ev> {
    open spec fn buffered(&self) -> Seq<NumberedEvent<Ev>> {
        self.ctx_spec().buffer_spec()
    }

    fn buffer_event(&mut self, ev: NumberedEvent<Ev>)
        ensures
            final(self).ctx_spec().implementation_spec() == old(self).ctx_spec().implementation_spec(),
            final(self).meta_spec() == old(self).meta_spec(),
    {
        self.ctx.buffer_event(ev);
    }

    fn take_buffered_events(&mut self, type_key: u64) -> (r: Vec<NumberedEvent<Ev>>) where Ev: RegisteredEvent
        ensures
            final(self).ctx_spec().implementation_spec() == old(self).ctx_spec().implementation_spec(),
            final(self).meta_spec() == old(self).meta_spec(),
    {
        self.ctx.take_buffered_events(type_key)
    }
}

impl<Agg: Aggregate, Impl: SnapshotSource<Agg>, Mt, Ev> SnapshotSource<Agg> for ContextWithMeta<Impl, Mt, Ev> {
    type Error = Impl::Error;

    open spec fn snapshot_spec(&self, id: Agg::Id) -> Result<Option<(Agg, Version)>, Self::Error> {
        self.ctx_spec().snapshot_spec(id)
    }

    open spec fn snapshots_spec(&self, ids: Seq<Agg::Id>) -> Result<Seq<(Agg, Version)>, Self::Error> {
        self.ctx_spec().snapshots_spec(ids)
    }

    fn load_snapshot(&self, id: &Agg::Id) -> (r: Result<Option<(Agg, Version)>, Self::Error>) {
        self.ctx.load_snapshot(id)
    }

    fn load_snapshots(&self, ids: &[Agg::Id]) -> (r: Result<Vec<(Agg, Version)>, Self::Error>) {
        self.ctx.load_snapshots(ids)
    }
}

impl<Agg: Aggregate, E, Impl: EventSource<Agg, E>, Mt, Ev> EventSource<Agg, E> for ContextWithMeta<Impl, Mt, Ev> {
    type Error = Impl::Error;

    open spec fn read_spec(&self, id: Agg::Id, since: Since) -> Seq<Result<NumberedEvent<E>, Self::Error>> {
        self.ctx_spec().read_spec(id, since)
    }

    fn read_events(&self, id: &Agg::Id, since: Since) -> (r: Vec<Result<NumberedEvent<E>, Self::Error>>) {
        self.ctx.read_events(id, since)
    }
}

impl<Agg: Aggregate, E, Impl: EventSink<Agg, E, Mt>, Mt, Ev> EventSink<Agg, E, Mt> for ContextWithMeta<Impl, Mt, Ev> {
    type Error = Impl::Error;

    open spec fn append_spec(self, id: Agg::Id, events: Seq<E>, meta: Mt) -> (Self, Result<
        Seq<NumberedEvent<E>>,
        Self::Error,
    >) {
        let (c, r) = self.ctx_spec().append_spec(id, events, meta);
        (self.with_ctx(c), r)
    }

    fn append_events(&mut self, id: &Agg::Id, events: &[E], meta: &Mt) -> (r: Result<
        Vec<NumberedEvent<E>>,
        Self::Error,
    >) {
        self.ctx.append_events(id, events, meta)
    }
}

impl<Agg: Aggregate, Impl: SnapshotSink<Agg>, Mt, Ev> SnapshotSink<Agg> for ContextWithMeta<Impl, Mt, Ev> {
    type Error = Impl::Error;

    open spec fn persist_spec(self, aggregate: Agg, version: Version) -> (Self, Result<(), Self::Error>) {
        let (c, r) = self.ctx_spec().persist_spec(aggregate, version);
        (self.with_ctx(c), r)
    }

    open spec fn persist_all_spec(self, snapshots: Seq<(Agg, Version)>) -> (Self, Result<(), Self::Error>) {
        let (c, r) = self.ctx_spec().persist_all_spec(snapshots);
        (self.with_ctx(c), r)
    }

    fn persist_snapshot(&mut self, aggregate: &Agg, version: Version) -> (r: Result<(), Self::Error>) {
        self.ctx.persist_snapshot(aggregate, version)
    }

    fn persist_snapshots(&mut self, snapshots: &[(&Agg, Version)]) -> (r: Result<(), Self::Error>) {
        self.ctx.persist_snapshots(snapshots)
    }
}

} // verus!
