//! Aggregates, command handlers and projections: the ways state is derived
//! from events and events from commands.
use vstd::prelude::*;

pub mod hydrated;

verus! {

/// A consistency boundary whose state is a fold of its events, and which
/// decides what new events a command produces.
///
/// An implementation describes its behaviour through `initial`, `applied` and
/// `executed`.
pub trait Aggregate: Sized {
    type Event;
    type Command;
    type Error;

    /// The state before any event.
    spec fn initial() -> Self;

    /// The state after `event`.
    spec fn applied(self, event: Self::Event) -> Self;

    /// What `command` produces against this state.
    spec fn executed(self, command: Self::Command) -> Result<Seq<Self::Event>, Self::Error>;

    fn default() -> (a: Self)
        ensures
            a == Self::initial(),
    ;

    fn apply(&mut self, event: Self::Event)
        ensures
            *final(self) == old(self).applied(event),
    ;

    fn execute(&self, command: Self::Command) -> (r: Result<Vec<Self::Event>, Self::Error>)
        ensures
            crate::okazis::command_view(r) == self.executed(command),
    ;

    /// The name of the kind of entity the aggregate models.
    fn entity_type() -> &'static str;
}

/// The state reached from `state` by applying `events` in order.
pub open spec fn apply_all<A: Aggregate>(state: A, events: Seq<A::Event>) -> A
    decreases events.len(),
{
    if events.len() == 0 {
        state
    } else {
        apply_all(state, events.drop_last()).applied(events.last())
    }
}

/// Applying `a` and then `b` is applying `a + b`.
pub proof fn law_apply_all_concat<A: Aggregate>(state: A, a: Seq<A::Event>, b: Seq<A::Event>)
    ensures
        apply_all(apply_all(state, a), b) == apply_all(state, a + b),
    decreases b.len(),
{
    if b.len() == 0 {
        assert(a + b =~= a);
    } else {
        law_apply_all_concat(state, a, b.drop_last());
        assert((a + b).drop_last() =~= a + b.drop_last());
    }
}

/// Applying one event is applying it.
pub proof fn lemma_apply_one<A: Aggregate>(state: A, event: A::Event)
    ensures
        apply_all(state, seq![event]) == state.applied(event),
{
    assert(seq![event].drop_last() =~= Seq::<A::Event>::empty());
    assert(apply_all(state, Seq::<A::Event>::empty()) == state);
}

/// Decides what events a command produces against a state.
pub trait CommandHandler<Command>: Sized {
    type Event;
    type Error;

    /// What `command` produces against this state.
    spec fn handled(self, command: Command) -> Result<Seq<Self::Event>, Self::Error>;

    fn execute(&self, command: Command) -> (r: Result<Vec<Self::Event>, Self::Error>)
        ensures
            crate::okazis::command_view(r) == self.handled(command),
    ;
}

/// A state that is a fold of events.
pub trait Projection: Sized {
    type Event;

    /// The state after `event`.
    spec fn projected(self, event: Self::Event) -> Self;

    fn apply(&mut self, event: Self::Event)
        ensures
            *final(self) == old(self).projected(event),
    ;
}

} // verus!
