//! Event processing: handlers registered for events and looked up by keys of
//! the event's own type and of the route it is handled by (the type it is
//! handled as, the context type and the error type).
use vstd::prelude::*;
use std::sync::Arc;

verus! {

/// A handler of events of type `Ev`.
///
/// A handler may describe what it answers through `on_spec`, and say so
/// through `obeys_on_spec`; one that does not is claimed nothing of.
pub trait EventHandler<Ev> {
    /// What the handler may consult besides the event.
    type Context;
    type Error;

    /// Whether `on` answers as `on_spec` says.
    open spec fn obeys_on_spec() -> bool {
        false
    }

    /// What `on` answers for `event` in `ctx`, for a handler that obeys it.
    open spec fn on_spec(&self, event: Ev, ctx: Self::Context) -> Result<(), Self::Error> {
        arbitrary()
    }

    fn on(&self, event: &Ev, ctx: &Self::Context) -> (r: Result<(), Self::Error>)
        ensures
            Self::obeys_on_spec() ==> r == self.on_spec(*event, *ctx),
    ;
}

/// An event whose handlers are looked up by the key of its own type.
pub trait RegisteredEvent {
    /// The key of the event's own type.
    spec fn type_key(&self) -> u64;

    fn type_id(&self) -> (k: u64)
        ensures
            k == self.type_key(),
    ;
}

/// The route an event is handled by: the keys of the type it is handled as,
/// of the context type and of the error type.
#[derive(Clone, Copy, Debug, PartialEq, Eq, Hash, Structural)]
pub struct Route {
    pub as_event: u64,
    pub context: u64,
    pub error: u64,
}

/// The key a handler is registered under: the key of the event's own type,
/// the route and the key of the handler's type.
#[derive(Clone, Copy, Debug, PartialEq, Eq, Hash, Structural)]
pub struct HandlerKey {
    pub event: u64,
    pub route: Route,
    pub handler: u64,
}

/// A registered handler.
#[derive(Debug)]
pub struct DynEventHandler<H>(pub H);

impl<Ev, H: EventHandler<Ev>> EventHandler<Ev> for DynEventHandler<H> {
    type Context = H::Context;
    type Error = H::Error;

    open spec fn obeys_on_spec() -> bool {
        H::obeys_on_spec()
    }

    open spec fn on_spec(&self, event: Ev, ctx: H::Context) -> Result<(), H::Error> {
        self.0.on_spec(event, ctx)
    }

    fn on(&self, event: &Ev, ctx: &Self::Context) -> Result<(), Self::Error> {
        self.0.on(event, ctx)
    }
}

/// What handing `event` to each of `handlers` in turn answers: the answer
/// of the first handler that fails, or success.
pub open spec fn handled_by_all<Ev, H: EventHandler<Ev>>(event: Ev, handlers: Seq<H>, ctx: H::Context) -> Result<
    (),
    H::Error,
>
    decreases handlers.len(),
{
    if handlers.len() == 0 {
        Ok(())
    } else {
        match handled_by_all(event, handlers.drop_last(), ctx) {
            Err(e) => Err(e),
            Ok(_) => handlers.last().on_spec(event, ctx),
        }
    }
}

/// What handing each of `events` in turn to each of `handlers` answers: the
/// answer of the first call that fails, or success.
pub open spec fn handled_all<Ev, H: EventHandler<Ev>>(events: Seq<Ev>, handlers: Seq<H>, ctx: H::Context) -> Result<
    (),
    H::Error,
>
    decreases events.len(),
{
    if events.len() == 0 {
        Ok(())
    } else {
        match handled_all(events.drop_last(), handlers, ctx) {
            Err(e) => Err(e),
            Ok(_) => handled_by_all(events.last(), handlers, ctx),
        }
    }
}

/// Once handing an event to the first `k` handlers fails, handing it to all
/// of them answers the same.
pub proof fn lemma_handled_by_all_stops<Ev, H: EventHandler<Ev>>(event: Ev, handlers: Seq<H>, k: int, ctx: H::Context)
    requires
        0 <= k <= handlers.len(),
        handled_by_all(event, handlers.take(k), ctx) is Err,
    ensures
        handled_by_all(event, handlers, ctx) == handled_by_all(event, handlers.take(k), ctx),
    decreases handlers.len(),
{
    if k < handlers.len() {
        assert(handlers.drop_last().take(k) =~= handlers.take(k));
        lemma_handled_by_all_stops(event, handlers.drop_last(), k, ctx);
    } else {
        assert(handlers.take(k) =~= handlers);
    }
}

/// Once handing the first `k` events fails, handing all of them answers the
/// same.
pub proof fn lemma_handled_all_stops<Ev, H: EventHandler<Ev>>(events: Seq<Ev>, handlers: Seq<H>, k: int, ctx: H::Context)
    requires
        0 <= k <= events.len(),
        handled_all(events.take(k), handlers, ctx) is Err,
    ensures
        handled_all(events, handlers, ctx) == handled_all(events.take(k), handlers, ctx),
    decreases events.len(),
{
    if k < events.len() {
        assert(events.drop_last().take(k) =~= events.take(k));
        lemma_handled_all_stops(events.drop_last(), handlers, k, ctx);
    } else {
        assert(events.take(k) =~= events);
    }
}

/// Handing one event to handlers succeeds exactly when every handler
/// accepts it, and otherwise answers as the first that refuses.
proof fn lemma_handled_by_all<Ev, H: EventHandler<Ev>>(event: Ev, handlers: Seq<H>, ctx: H::Context)
    ensures
        (forall|j: int| 0 <= j < handlers.len() ==> (#[trigger] handlers[j].on_spec(event, ctx)) is Ok)
            ==> handled_by_all(event, handlers, ctx) is Ok,
        forall|j: int|
            0 <= j < handlers.len() && (#[trigger] handlers[j].on_spec(event, ctx)) is Err && (forall|k: int|
                0 <= k < j ==> (#[trigger] handlers[k].on_spec(event, ctx)) is Ok) ==> handled_by_all(
                event,
                handlers,
                ctx,
            ) == handlers[j].on_spec(event, ctx),
    decreases handlers.len(),
{
    if handlers.len() > 0 {
        let init = handlers.drop_last();
        lemma_handled_by_all(event, init, ctx);
        assert forall|j: int| 0 <= j < init.len() implies #[trigger] init[j] == handlers[j] by {}
        assert forall|j: int|
            0 <= j < handlers.len() && (#[trigger] handlers[j].on_spec(event, ctx)) is Err && (forall|k: int|
                0 <= k < j ==> (#[trigger] handlers[k].on_spec(event, ctx)) is Ok) implies handled_by_all(
                event,
                handlers,
                ctx,
            ) == handlers[j].on_spec(event, ctx) by {
            if j < init.len() {
                assert(init[j] == handlers[j]);
                assert forall|k: int| 0 <= k < j implies (#[trigger] init[k].on_spec(event, ctx)) is Ok by {
                    assert(init[k] == handlers[k]);
                }
            } else {
                assert forall|k: int| 0 <= k < init.len() implies (#[trigger] init[k].on_spec(event, ctx)) is Ok by {
                    assert(init[k] == handlers[k]);
                }
            }
        }
        if forall|j: int| 0 <= j < handlers.len() ==> (#[trigger] handlers[j].on_spec(event, ctx)) is Ok {
            assert forall|k: int| 0 <= k < init.len() implies (#[trigger] init[k].on_spec(event, ctx)) is Ok by {
                assert(init[k] == handlers[k]);
            }
            assert(handlers[handlers.len() - 1].on_spec(event, ctx) is Ok);
        }
    }
}

/// Every event is handed to every handler, events in order and, for each
/// event, handlers in order, until a call fails: when every call succeeds
/// the answer is success, and otherwise it is the answer of the first call
/// that fails (no event or handler is skipped before it).
#[verifier::spinoff_prover]
#[verifier::rlimit(40)]
pub proof fn law_every_event_reaches_every_handler<Ev, H: EventHandler<Ev>>(
    events: Seq<Ev>,
    handlers: Seq<H>,
    ctx: H::Context,
)
    ensures
        (forall|i: int, j: int|
            0 <= i < events.len() && 0 <= j < handlers.len() ==> (#[trigger] handlers[j].on_spec(
                events[i],
                ctx,
            )) is Ok) ==> handled_all(events, handlers, ctx) is Ok,
        forall|i: int, j: int|
            0 <= i < events.len() && 0 <= j < handlers.len() && (#[trigger] handlers[j].on_spec(
                events[i],
                ctx,
            )) is Err && (forall|i2: int, j2: int|
                0 <= i2 < events.len() && 0 <= j2 < handlers.len() && (i2 < i || (i2 == i && j2 < j))
                    ==> (#[trigger] handlers[j2].on_spec(events[i2], ctx)) is Ok) ==> handled_all(
                events,
                handlers,
                ctx,
            ) == handlers[j].on_spec(events[i], ctx),
    decreases events.len(),
{
    if events.len() > 0 {
        let init = events.drop_last();
        let last = events.last();
        law_every_event_reaches_every_handler(init, handlers, ctx);
        lemma_handled_by_all(last, handlers, ctx);
        assert forall|i: int, j: int|
            0 <= i < events.len() && 0 <= j < handlers.len() && (#[trigger] handlers[j].on_spec(
                events[i],
                ctx,
            )) is Err && (forall|i2: int, j2: int|
                0 <= i2 < events.len() && 0 <= j2 < handlers.len() && (i2 < i || (i2 == i && j2 < j))
                    ==> (#[trigger] handlers[j2].on_spec(events[i2], ctx)) is Ok) implies handled_all(
                events,
                handlers,
                ctx,
            ) == handlers[j].on_spec(events[i], ctx) by {
            if i < init.len() {
                assert(init[i] == events[i]);
                assert forall|i2: int, j2: int|
                    0 <= i2 < init.len() && 0 <= j2 < handlers.len() && (i2 < i || (i2 == i && j2 < j)) implies (
                    #[trigger] handlers[j2].on_spec(init[i2], ctx)) is Ok by {
                    assert(init[i2] == events[i2]);
                }
            } else {
                assert forall|i2: int, j2: int|
                    0 <= i2 < init.len() && 0 <= j2 < handlers.len() implies (#[trigger] handlers[j2].on_spec(
                        init[i2],
                        ctx,
                    )) is Ok by {
                    assert(init[i2] == events[i2]);
                }
                assert forall|k: int| 0 <= k < j implies (#[trigger] handlers[k].on_spec(last, ctx)) is Ok by {
                    assert(events[i] == last);
                }
            }
        }
        if forall|i: int, j: int|
            0 <= i < events.len() && 0 <= j < handlers.len() ==> (#[trigger] handlers[j].on_spec(
                events[i],
                ctx,
            )) is Ok {
            assert forall|i2: int, j2: int|
                0 <= i2 < init.len() && 0 <= j2 < handlers.len() implies (#[trigger] handlers[j2].on_spec(
                    init[i2],
                    ctx,
                )) is Ok by {
                assert(init[i2] == events[i2]);
            }
            assert forall|k: int| 0 <= k < handlers.len() implies (#[trigger] handlers[k].on_spec(last, ctx)) is Ok by {
                assert(events[events.len() - 1] == last);
            }
        }
    }
}

/// Whether no two entries share a key.
pub open spec fn keys_unique<H>(entries: Seq<(HandlerKey, H)>) -> bool {
    forall|i: int, j: int| 0 <= i < j < entries.len() ==> #[trigger] entries[i].0 != #[trigger] entries[j].0
}

/// The handlers of the entries registered for `event` and `route`, in the
/// order they were first registered.
pub open spec fn matching<H>(entries: Seq<(HandlerKey, H)>, event: u64, route: Route) -> Seq<H>
    decreases entries.len(),
{
    if entries.len() == 0 {
        Seq::empty()
    } else {
        let e = entries.last();
        matching(entries.drop_last(), event, route) + if e.0.event == event && e.0.route == route {
            seq![e.1]
        } else {
            Seq::empty()
        }
    }
}

/// The entries registered for `event` and `route`, in the order their keys
/// were first registered.
pub open spec fn matching_entries<H>(entries: Seq<(HandlerKey, H)>, event: u64, route: Route) -> Seq<(HandlerKey, H)>
    decreases entries.len(),
{
    if entries.len() == 0 {
        Seq::empty()
    } else {
        let e = entries.last();
        matching_entries(entries.drop_last(), event, route) + if e.0.event == event && e.0.route == route {
            seq![e]
        } else {
            Seq::empty()
        }
    }
}

/// The position of an entry with the key `key`.
pub open spec fn index_of_key<H>(entries: Seq<(HandlerKey, H)>, key: HandlerKey) -> int {
    choose|i: int| 0 <= i < entries.len() && #[trigger] entries[i].0 == key
}

/// The entries after `handler` is registered under `key`: it replaces the
/// entry with that key, or comes last when there is none.
pub open spec fn registered<H>(entries: Seq<(HandlerKey, H)>, key: HandlerKey, handler: H) -> Seq<(HandlerKey, H)> {
    if exists|i: int| 0 <= i < entries.len() && #[trigger] entries[i].0 == key {
        entries.update(index_of_key(entries, key), (key, handler))
    } else {
        entries.push((key, handler))
    }
}

/// The handlers of a registry, by key.
pub open spec fn as_map<H>(entries: Seq<(HandlerKey, H)>) -> Map<HandlerKey, H> {
    Map::new(
        |k: HandlerKey| exists|i: int| 0 <= i < entries.len() && #[trigger] entries[i].0 == k,
        |k: HandlerKey| entries[choose|i: int| 0 <= i < entries.len() && #[trigger] entries[i].0 == k].1,
    )
}

/// The registered handlers, each under its key.
#[derive(Debug)]
struct EventHandlersRegistry<H> {
    entries: Vec<(HandlerKey, DynEventHandler<H>)>,
}

impl<H> EventHandlersRegistry<H> {
    spec fn view(&self) -> Seq<(HandlerKey, H)> {
        self.entries@.map_values(|e: (HandlerKey, DynEventHandler<H>)| (e.0, e.1.0))
    }

    spec fn wf(&self) -> bool {
        keys_unique(self.view())
    }

    fn new() -> (r: Self)
        ensures
            r.view() == Seq::<(HandlerKey, H)>::empty(),
            r.wf(),
    {
        EventHandlersRegistry { entries: Vec::new() }
    }

    /// Registers `handler` under `key`, replacing the handler registered
    /// under it before.
    fn register(&mut self, key: HandlerKey, handler: H)
        requires
            old(self).wf(),
        ensures
            final(self).wf(),
            final(self).view() == registered(old(self).view(), key, handler),
    {
        let ghost before = self.view();
        let mut i: usize = 0;
        while i < self.entries.len()
            invariant
                self.view() == before,
                before == old(self).view(),
                keys_unique(before),
                i <= self.entries@.len(),
                forall|j: int| 0 <= j < i ==> #[trigger] before[j].0 != key,
            decreases self.entries@.len() - i,
        {
            if self.entries[i].0 == key {
                self.entries.set(i, (key, DynEventHandler(handler)));
                proof {
                    assert(before[i as int].0 == key);
                    let k = index_of_key(before, key);
                    if k != i {
                        if k < i {
                            assert(before[k].0 != before[i as int].0);
                        } else {
                            assert(before[i as int].0 != before[k].0);
                        }
                    }
                    assert(self.view() =~= before.update(i as int, (key, handler)));
                }
                return;
            }
            i = i + 1;
        }
        self.entries.push((key, DynEventHandler(handler)));
        proof {
            assert(self.view() =~= before.push((key, handler)));
        }
    }

    /// The handlers registered for `event` and `route`, in the order they
    /// were first registered.
    fn iter(&self, event: u64, route: Route) -> (r: Vec<&DynEventHandler<H>>)
        ensures
            r@.map_values(|h: &DynEventHandler<H>| h.0) == matching(self.view(), event, route),
    {
        let mut out: Vec<&DynEventHandler<H>> = Vec::new();
        let mut i: usize = 0;
        while i < self.entries.len()
            invariant
                i <= self.entries@.len(),
                out@.map_values(|h: &DynEventHandler<H>| h.0) == matching(self.view().take(i as int), event, route),
            decreases self.entries@.len() - i,
        {
            let entry = &self.entries[i];
            let ghost before = out@;
            proof {
                assert(self.view().take(i + 1).drop_last() =~= self.view().take(i as int));
            }
            if entry.0.event == event && entry.0.route == route {
                out.push(&entry.1);
                proof {
                    assert(out@.map_values(|h: &DynEventHandler<H>| h.0) =~= before.map_values(|h: &DynEventHandler<H>| h.0).push(entry.1.0));
                }
            } else {
                proof {
                    assert(matching(self.view().take(i + 1), event, route) =~= matching(self.view().take(i as int), event, route));
                }
            }
            i = i + 1;
        }
        proof {
            assert(self.view().take(self.entries@.len() as int) =~= self.view());
        }
        out
    }
}

/// The configuration of event processing: the registered handlers, shared.
#[derive(Clone, Debug)]
pub struct EventProcessingConfiguration<H> {
    handlers: Arc<EventHandlersRegistry<H>>,
}

impl<H> EventProcessingConfiguration<H> {
    /// The registered handlers, each with its key, in the order their keys
    /// were first registered.
    pub closed spec fn entries(&self) -> Seq<(HandlerKey, H)> {
        (*self.handlers).view()
    }

    /// A builder with no handler registered.
    pub fn new() -> (b: EventProcessingConfigurationBuilder<H>)
        ensures
            b.entries() == Seq::<(HandlerKey, H)>::empty(),
            keys_unique(b.entries()),
    {
        EventProcessingConfigurationBuilder { handlers: EventHandlersRegistry::new() }
    }

    /// The handlers registered for the type of `ev` and for `route`, in the
    /// order they were first registered.
    pub fn iter_event_handlers_of<Ev: RegisteredEvent>(&self, ev: &Ev, route: Route) -> (r: Vec<&DynEventHandler<H>>)
        ensures
            r@.map_values(|h: &DynEventHandler<H>| h.0) == matching(self.entries(), ev.type_key(), route),
    {
        self.handlers.iter(ev.type_id(), route)
    }
}

/// Collects the handlers of an event processing configuration.
#[derive(Debug)]
pub struct EventProcessingConfigurationBuilder<H> {
    handlers: EventHandlersRegistry<H>,
}

impl<H> EventProcessingConfigurationBuilder<H> {
    #[verifier::type_invariant]
    spec fn keys_are_unique(self) -> bool {
        self.handlers.wf()
    }

    /// The registered handlers, each with its key, in the order their keys
    /// were first registered.
    pub closed spec fn entries(&self) -> Seq<(HandlerKey, H)> {
        self.handlers.view()
    }

    /// The configuration with the registered handlers.
    pub fn build(self) -> (c: EventProcessingConfiguration<H>)
        ensures
            c.entries() == self.entries(),
            keys_unique(c.entries()),
    {
        proof {
            use_type_invariant(&self);
        }
        EventProcessingConfiguration { handlers: Arc::new(self.handlers) }
    }

    /// Registers `handler` under `key`, replacing the handler registered
    /// under that key before.
    pub fn register_event_handler(&mut self, key: HandlerKey, handler: H)
        ensures
            final(self).entries() == registered(old(self).entries(), key, handler),
            keys_unique(final(self).entries()),
    {
        proof {
            use_type_invariant(&*self);
        }
        let mut handlers = EventHandlersRegistry::new();
        std::mem::swap(&mut handlers, &mut self.handlers);
        handlers.register(key, handler);
        self.handlers = handlers;
    }
}

/// Registers a set of handlers with a builder.
pub trait EventHandlersRegistrar<H> {
    fn register_event_handlers(&self, builder: &mut EventProcessingConfigurationBuilder<H>);
}

/// An entry registered for `event` and `route` is among their handlers.
proof fn lemma_matching_contains<H>(entries: Seq<(HandlerKey, H)>, i: int, event: u64, route: Route)
    requires
        0 <= i < entries.len(),
        entries[i].0.event == event,
        entries[i].0.route == route,
    ensures
        matching(entries, event, route).contains(entries[i].1),
    decreases entries.len(),
{
    let m = matching(entries, event, route);
    if i == entries.len() - 1 {
        assert(m[m.len() - 1] == entries[i].1);
    } else {
        lemma_matching_contains(entries.drop_last(), i, event, route);
        let m0 = matching(entries.drop_last(), event, route);
        let j = choose|j: int| 0 <= j < m0.len() && m0[j] == entries[i].1;
        assert(m[j] == m0[j]);
    }
}

/// Replacing an entry by one with the same key changes only the handlers
/// of that key's event and route.
proof fn lemma_matching_update_other<H>(
    entries: Seq<(HandlerKey, H)>,
    i: int,
    x: (HandlerKey, H),
    event: u64,
    route: Route,
)
    requires
        0 <= i < entries.len(),
        entries[i].0 == x.0,
        !(x.0.event == event && x.0.route == route),
    ensures
        matching(entries.update(i, x), event, route) == matching(entries, event, route),
    decreases entries.len(),
{
    let u = entries.update(i, x);
    if i == entries.len() - 1 {
        assert(u.drop_last() =~= entries.drop_last());
    } else {
        lemma_matching_update_other(entries.drop_last(), i, x, event, route);
        assert(u.drop_last() =~= entries.drop_last().update(i, x));
    }
}

/// A handler just registered is among the handlers of its key's event and
/// route.
pub proof fn law_registered_handler_is_found<H>(entries: Seq<(HandlerKey, H)>, key: HandlerKey, handler: H)
    requires
        keys_unique(entries),
    ensures
        matching(registered(entries, key, handler), key.event, key.route).contains(handler),
        keys_unique(registered(entries, key, handler)),
{
    let r = registered(entries, key, handler);
    if exists|i: int| 0 <= i < entries.len() && #[trigger] entries[i].0 == key {
        let i = index_of_key(entries, key);
        lemma_matching_contains(r, i, key.event, key.route);
        assert forall|a: int, b: int| 0 <= a < b < r.len() implies #[trigger] r[a].0 != #[trigger] r[b].0 by {
            assert(entries[a].0 != entries[b].0);
        }
    } else {
        lemma_matching_contains(r, entries.len() as int, key.event, key.route);
        assert forall|a: int, b: int| 0 <= a < b < r.len() implies #[trigger] r[a].0 != #[trigger] r[b].0 by {
            if b < entries.len() {
                assert(entries[a].0 != entries[b].0);
            } else {
                assert(entries[a].0 != key);
            }
        }
    }
}

/// Registering a handler leaves the handlers of every other event and route
/// as they were.
pub proof fn law_registration_keeps_other_routes<H>(
    entries: Seq<(HandlerKey, H)>,
    key: HandlerKey,
    handler: H,
    event: u64,
    route: Route,
)
    requires
        !(key.event == event && key.route == route),
    ensures
        matching(registered(entries, key, handler), event, route) == matching(entries, event, route),
{
    if exists|i: int| 0 <= i < entries.len() && #[trigger] entries[i].0 == key {
        let i = index_of_key(entries, key);
        lemma_matching_update_other(entries, i, (key, handler), event, route);
        assert(registered(entries, key, handler) == entries.update(i, (key, handler)));
    } else {
        let r = entries.push((key, handler));
        assert(registered(entries, key, handler) == r);
        assert(r.drop_last() =~= entries);
        assert(matching(r, event, route) =~= matching(entries, event, route) + Seq::<H>::empty());
        assert(matching(r, event, route) =~= matching(entries, event, route));
    }
}

/// The handlers registered for an event and a route are those of the
/// entries registered for them; each entry registered for them is among
/// those, and no other.
proof fn lemma_matching_entries<H>(entries: Seq<(HandlerKey, H)>, event: u64, route: Route)
    ensures
        matching(entries, event, route) == matching_entries(entries, event, route).map_values(|e: (HandlerKey, H)| e.1),
        forall|e: (HandlerKey, H)| #[trigger] matching_entries(entries, event, route).contains(e) <==> (entries.contains(e)
            && e.0.event == event && e.0.route == route),
        keys_unique(entries) ==> keys_unique(matching_entries(entries, event, route)),
    decreases entries.len(),
{
    if entries.len() > 0 {
        let init = entries.drop_last();
        let last = entries.last();
        lemma_matching_entries(init, event, route);
        let m0 = matching_entries(init, event, route);
        let m = matching_entries(entries, event, route);
        let hit = last.0.event == event && last.0.route == route;
        if hit {
            assert(m =~= m0.push(last));
            assert(m.map_values(|e: (HandlerKey, H)| e.1) =~= m0.map_values(|e: (HandlerKey, H)| e.1).push(last.1));
        } else {
            assert(m =~= m0);
        }
        assert forall|e: (HandlerKey, H)| #[trigger] m.contains(e) <==> (entries.contains(e) && e.0.event == event
            && e.0.route == route) by {
            if entries.contains(e) {
                let j = choose|j: int| 0 <= j < entries.len() && entries[j] == e;
                if j < init.len() {
                    assert(init[j] == e);
                }
            }
            if init.contains(e) {
                let j = choose|j: int| 0 <= j < init.len() && init[j] == e;
                assert(entries[j] == e);
            }
            if hit {
                if e == last {
                    assert(m[m0.len() as int] == e);
                    assert(entries[entries.len() - 1] == e);
                }
                if m.contains(e) {
                    let j = choose|j: int| 0 <= j < m.len() && m[j] == e;
                    if j < m0.len() {
                        assert(m0[j] == e);
                    }
                }
                if m0.contains(e) {
                    let j = choose|j: int| 0 <= j < m0.len() && m0[j] == e;
                    assert(m[j] == e);
                }
            }
        }
        if keys_unique(entries) {
            assert forall|a: int, b: int| 0 <= a < b < init.len() implies #[trigger] init[a].0 != #[trigger] init[b].0 by {
                assert(entries[a].0 != entries[b].0);
            }
            if hit {
                assert forall|a: int, b: int| 0 <= a < b < m.len() implies #[trigger] m[a].0 != #[trigger] m[b].0 by {
                    if b < m0.len() {
                        assert(m0[a].0 != m0[b].0);
                    } else {
                        assert(m0.contains(m[a]));
                        assert(init.contains(m[a]));
                        let j = choose|j: int| 0 <= j < init.len() && init[j] == m[a];
                        assert(entries[j].0 != entries[entries.len() - 1].0);
                    }
                }
            }
        }
    }
}

/// The handlers found for an event and a route are those of the entries
/// registered for that event's type and that route, in order: each such
/// entry once (no two of them share a handler key), and nothing else.
pub proof fn law_each_registered_handler_is_found_once<H>(entries: Seq<(HandlerKey, H)>, event: u64, route: Route)
    requires
        keys_unique(entries),
    ensures
        matching(entries, event, route) == matching_entries(entries, event, route).map_values(|e: (HandlerKey, H)| e.1),
        keys_unique(matching_entries(entries, event, route)),
        forall|e: (HandlerKey, H)| #[trigger] matching_entries(entries, event, route).contains(e) <==> (entries.contains(e)
            && e.0.event == event && e.0.route == route),
{
    lemma_matching_entries(entries, event, route);
}

/// Registering a handler under a key replaces whatever was registered under
/// that key and keeps every other key's handler: the registry, as a map from
/// keys to handlers, gains or updates that one key. The entry registered is
/// among the entries, and no two entries share a key.
pub proof fn law_registration_replaces<H>(entries: Seq<(HandlerKey, H)>, key: HandlerKey, handler: H)
    requires
        keys_unique(entries),
    ensures
        as_map(registered(entries, key, handler)) == as_map(entries).insert(key, handler),
        registered(entries, key, handler).contains((key, handler)),
        keys_unique(registered(entries, key, handler)),
{
    let r = registered(entries, key, handler);
    law_registered_handler_is_found(entries, key, handler);
    let found = exists|i: int| 0 <= i < entries.len() && #[trigger] entries[i].0 == key;
    let idx = if found { index_of_key(entries, key) } else { entries.len() as int };
    assert(r[idx] == (key, handler));
    assert(r.contains((key, handler)));
    assert forall|i: int| 0 <= i < r.len() && i != idx implies #[trigger] r[i] == entries[i] by {}
    let m = as_map(r);
    let n = as_map(entries).insert(key, handler);
    assert forall|k: HandlerKey| #[trigger] m.dom().contains(k) <==> n.dom().contains(k) by {
        if k != key {
            if exists|i: int| 0 <= i < r.len() && #[trigger] r[i].0 == k {
                let i = choose|i: int| 0 <= i < r.len() && #[trigger] r[i].0 == k;
                assert(entries[i].0 == k);
            }
            if exists|i: int| 0 <= i < entries.len() && #[trigger] entries[i].0 == k {
                let i = choose|i: int| 0 <= i < entries.len() && #[trigger] entries[i].0 == k;
                assert(r[i].0 == k);
            }
        } else {
            assert(r[idx].0 == k);
        }
    }
    assert forall|k: HandlerKey| #[trigger] m.dom().contains(k) implies m[k] == n[k] by {
        let a = choose|i: int| 0 <= i < r.len() && #[trigger] r[i].0 == k;
        if k == key {
            if a != idx {
                if a < idx {
                    assert(r[a].0 != r[idx].0);
                } else {
                    assert(r[idx].0 != r[a].0);
                }
            }
        } else {
            let b = choose|i: int| 0 <= i < entries.len() && #[trigger] entries[i].0 == k;
            assert(entries[a].0 == k);
            if a != b {
                if a < b {
                    assert(entries[a].0 != entries[b].0);
                } else {
                    assert(entries[b].0 != entries[a].0);
                }
            }
        }
    }
    assert(m =~= n);
}

} // verus!
