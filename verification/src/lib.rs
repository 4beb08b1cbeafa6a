//! # cqrs
//!
//! An event-driven framework for software that uses events as the "source of
//! truth" and separates commands from queries (CQRS).
//!
//! * _Events_: the things that happened in the system;
//! * _Aggregates_: projections of events that give a view of the current state;
//! * _Commands_: intentions which, executed against an aggregate, produce zero or
//!   more events, or are refused by the aggregate's current state;
//! * _Reactions_: processes that run when certain events occur.
//!
//! Every store in this crate is specified over a mathematical model (`Seq`,
//! `Map`), and every operation states exactly how it changes that model.
use vstd::prelude::*;

pub mod types;
pub mod error;
pub mod entity;
pub mod event_processing;
pub mod aggregate;
pub mod store;
pub mod testing;
pub mod trivial;
pub mod memory;
pub mod lifecycle;
pub mod system;
pub mod okazis;
pub mod domain;
pub mod okazis_memory;

verus! {

/// The name of a kind of event.
pub type EventType = &'static str;

/// An event: something that happened in the system.
pub trait Event {
    fn event_type(&self) -> EventType;
}

/// An event of the domain, as opposed to one of an aggregate's own stream.
pub trait DomainEvent: Event {

}

/// An event of an aggregate's stream.
pub trait AggregateEvent: Event {
    type Aggregate: lifecycle::Aggregate;

    /// The kinds of events the aggregate's stream holds.
    fn event_types() -> &'static [EventType];
}

/// Sends commands, with metadata, to be executed.
pub trait CommandGateway<Cmd: lifecycle::Command, Mt> {
    type Error;
    type Output;

    fn send(&mut self, cmd: Cmd, meta: Mt) -> Result<Self::Output, Self::Error>;
}

/// Dispatches commands to be executed.
pub trait CommandBus<Cmd: lifecycle::Command> {
    type Error;
    type Output;

    fn dispatch(&mut self, cmd: Cmd) -> Result<Self::Output, Self::Error>;
}

/// A query: a request for a view of the system's state.
pub trait Query {

}

/// Answers queries.
pub trait QueryGateway<Qr: Query> {
    type Error;
    type Output;

    fn query(&self, query: Qr) -> Result<Self::Output, Self::Error>;
}

/// Answers queries of type `Qr`, consulting a context.
pub trait QueryHandler<Qr: Query> {
    type Context;
    type Error;
    type Output;

    fn handle(&self, query: Qr, ctx: &Self::Context) -> Result<Self::Output, Self::Error>;
}

} // verus!
