use cqrs::event_processing::{
    EventHandler, EventProcessingConfiguration, HandlerKey, RegisteredEvent, Route,
};
use std::any::TypeId;
use std::collections::hash_map::DefaultHasher;
use std::convert::Infallible;
use std::hash::{Hash, Hasher};

fn key_of<T: ?Sized + 'static>() -> u64 {
    let mut hasher = DefaultHasher::new();
    TypeId::of::<T>().hash(&mut hasher);
    hasher.finish()
}

struct TestEvent;

enum TestAggregateEvent {
    TestEvent(TestEvent),
}

impl From<TestEvent> for TestAggregateEvent {
    fn from(e: TestEvent) -> Self {
        TestAggregateEvent::TestEvent(e)
    }
}

impl RegisteredEvent for TestAggregateEvent {
    fn type_key(&self) -> u64 {
        self.type_id()
    }

    fn type_id(&self) -> u64 {
        match self {
            TestAggregateEvent::TestEvent(_) => key_of::<TestEvent>(),
        }
    }
}

struct OtherEvent;

impl RegisteredEvent for OtherEvent {
    fn type_key(&self) -> u64 {
        self.type_id()
    }

    fn type_id(&self) -> u64 {
        key_of::<OtherEvent>()
    }
}

struct TestHandler;

impl EventHandler<TestEvent> for TestHandler {
    type Context = ();
    type Error = Infallible;

    fn on(&self, _ev: &TestEvent, _ctx: &Self::Context) -> Result<(), Self::Error> {
        unreachable!()
    }
}

struct CustomError;

struct CustomContext(());

fn route() -> Route {
    Route {
        as_event: key_of::<TestAggregateEvent>(),
        context: key_of::<CustomContext>(),
        error: key_of::<CustomError>(),
    }
}

fn handler_key() -> HandlerKey {
    HandlerKey { event: key_of::<TestEvent>(), route: route(), handler: key_of::<TestHandler>() }
}

#[test]
fn returns_registered_handlers() {
    let mut cfg = EventProcessingConfiguration::new();
    cfg.register_event_handler(handler_key(), TestHandler);
    let cfg = cfg.build();

    let ev: TestAggregateEvent = TestEvent.into();
    let handlers = cfg.iter_event_handlers_of(&ev, route());
    let mut iter = handlers.iter();

    assert!(iter.next().is_some())
}

#[test]
fn returns_no_handler_for_an_unregistered_event() {
    let mut cfg = EventProcessingConfiguration::new();
    cfg.register_event_handler(handler_key(), TestHandler);
    let cfg = cfg.build();

    assert!(cfg.iter_event_handlers_of(&OtherEvent, route()).is_empty());
}

#[test]
fn returns_no_handler_for_another_route() {
    let mut cfg = EventProcessingConfiguration::new();
    cfg.register_event_handler(handler_key(), TestHandler);
    let cfg = cfg.build();

    let ev: TestAggregateEvent = TestEvent.into();
    let other = Route { as_event: key_of::<TestAggregateEvent>(), context: key_of::<()>(), error: key_of::<CustomError>() };
    assert!(cfg.iter_event_handlers_of(&ev, other).is_empty());
}

#[test]
fn registering_under_the_same_key_replaces_the_handler() {
    let mut cfg = EventProcessingConfiguration::new();
    cfg.register_event_handler(handler_key(), 1u8);
    cfg.register_event_handler(handler_key(), 2u8);
    let second = HandlerKey { handler: key_of::<u8>(), ..handler_key() };
    cfg.register_event_handler(second, 3u8);
    let cfg = cfg.build();

    let ev: TestAggregateEvent = TestEvent.into();
    let found: Vec<u8> = cfg.iter_event_handlers_of(&ev, route()).iter().map(|h| h.0).collect();
    assert_eq!(found, vec![2u8, 3u8]);
}

#[test]
fn each_handler_is_found_once_and_only_for_its_route() {
    let mut cfg = EventProcessingConfiguration::new();
    cfg.register_event_handler(handler_key(), 1u8);
    let elsewhere = Route { context: key_of::<()>(), ..route() };
    cfg.register_event_handler(HandlerKey { route: elsewhere, ..handler_key() }, 5u8);
    cfg.register_event_handler(handler_key(), 7u8);
    let cfg = cfg.build();

    let ev: TestAggregateEvent = TestEvent.into();
    let found: Vec<u8> = cfg.iter_event_handlers_of(&ev, route()).iter().map(|h| h.0).collect();
    assert_eq!(found, vec![7u8]);
    let found: Vec<u8> = cfg.iter_event_handlers_of(&ev, elsewhere).iter().map(|h| h.0).collect();
    assert_eq!(found, vec![5u8]);
}
