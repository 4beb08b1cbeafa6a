use cqrs::aggregate::Aggregate;
use cqrs::entity::{
    CompositeEntitySink, CompositeEntitySource, CompositeEntityStore, Entity, EntityError, EntityExecAndPersistError, EntityLoadError, EntityPersistError,
    EntitySink, EntitySource, EntityStore, EventSink, EventSource, HydratedAggregate, SnapshotSink, SnapshotSource,
};
use cqrs::memory::{EventStore as MemoryEventStore, StateStore as MemoryStateStore};
use cqrs::trivial::{NullEventStore, NullSnapshotStore};
use cqrs::types::{AggregateId, EventNumber, Precondition, SequencedEvent, Since, StateSnapshot, Version};
use std::collections::HashMap;
use vstd::seq::Seq;

#[derive(Clone, Copy, Debug, Default, PartialEq, Eq)]
struct Account {
    balance: u64,
}

#[derive(Clone, Copy, Debug, PartialEq, Eq)]
enum AccountEvent {
    Deposited(u64),
}

#[derive(Clone, Copy, Debug, PartialEq, Eq)]
enum AccountCommand {
    Deposit(u64),
    Nothing,
}

impl Aggregate for Account {
    type Event = AccountEvent;
    type Command = AccountCommand;
    type Error = &'static str;

    fn initial() -> Self {
        Account { balance: 0 }
    }

    fn applied(self, event: AccountEvent) -> Self {
        let mut a = self;
        a.apply(event);
        a
    }

    fn executed(self, _command: AccountCommand) -> Result<Seq<AccountEvent>, &'static str> {
        unreachable!()
    }

    fn default() -> Self {
        Account { balance: 0 }
    }

    fn apply(&mut self, event: AccountEvent) {
        match event {
            AccountEvent::Deposited(n) => self.balance += n,
        }
    }

    fn execute(&self, command: AccountCommand) -> Result<Vec<AccountEvent>, &'static str> {
        match command {
            AccountCommand::Deposit(0) => Err("empty deposit"),
            AccountCommand::Deposit(n) => Ok(vec![AccountEvent::Deposited(n)]),
            AccountCommand::Nothing => Ok(vec![]),
        }
    }

    fn entity_type() -> &'static str {
        "account"
    }
}

struct Id(&'static str);

impl AggregateId<Account> for Id {
    fn id(&self) -> Seq<char> {
        unreachable!()
    }

    fn as_str(&self) -> &str {
        self.0
    }
}

/// An in-memory store of event streams and snapshots.
#[derive(Clone, Debug, Default)]
struct Store {
    streams: HashMap<String, Vec<SequencedEvent<AccountEvent>>>,
    snapshots: HashMap<String, StateSnapshot<Account>>,
    fail_snapshot: bool,
    fail_read: bool,
}

impl EventSource<Account> for Store {
    type Error = &'static str;

    fn read_spec(
        &self,
        _id: Seq<char>,
        _since: Since,
        _max_count: Option<u64>,
    ) -> Result<Option<Seq<SequencedEvent<AccountEvent>>>, &'static str> {
        unreachable!()
    }

    fn read_events<I: AggregateId<Account>>(
        &self,
        id: &I,
        since: Since,
        _max_count: Option<u64>,
    ) -> Result<Option<Vec<SequencedEvent<AccountEvent>>>, &'static str> {
        if self.fail_read {
            return Err("read refused");
        }
        let skip = match since {
            Since::BeginningOfStream => 0,
            Since::Event(n) => n.get(),
        };
        Ok(self.streams.get(id.as_str()).map(|s| s.iter().skip(skip).copied().collect()))
    }
}

impl SnapshotSource<Account> for Store {
    type Error = &'static str;

    fn snapshot_spec(&self, _id: Seq<char>) -> Result<Option<StateSnapshot<Account>>, &'static str> {
        unreachable!()
    }

    fn get_snapshot<I: AggregateId<Account>>(&self, id: &I) -> Result<Option<StateSnapshot<Account>>, &'static str> {
        Ok(self.snapshots.get(id.as_str()).copied())
    }
}

impl EventSink<Account, ()> for Store {
    type Error = Precondition;

    fn append_spec(
        self,
        _id: Seq<char>,
        _events: Seq<AccountEvent>,
        _precondition: Option<Precondition>,
        _metadata: (),
    ) -> (Self, Result<EventNumber, Precondition>) {
        unreachable!()
    }

    fn append_events<I: AggregateId<Account>>(
        &mut self,
        id: &I,
        events: &[AccountEvent],
        precondition: Option<Precondition>,
        _metadata: (),
    ) -> Result<EventNumber, Precondition> {
        let exists = self.streams.contains_key(id.as_str());
        let len = self.streams.get(id.as_str()).map_or(0, |s| s.len());
        let refused = match precondition {
            Some(Precondition::New) => exists,
            Some(Precondition::Exists) => !exists,
            Some(Precondition::ExpectedVersion(v)) => Version::new(len) != v,
            None => false,
        };
        if refused {
            return Err(precondition.unwrap());
        }
        let stream = self.streams.entry(id.as_str().to_string()).or_default();
        let first = EventNumber::new(stream.len() + 1).unwrap();
        for e in events {
            let n = EventNumber::new(stream.len() + 1).unwrap();
            stream.push(SequencedEvent { sequence_number: n, event: *e });
        }
        Ok(first)
    }
}

impl SnapshotSink<Account> for Store {
    type Error = &'static str;

    fn persist_spec(
        self,
        _id: Seq<char>,
        _aggregate: Account,
        _version: Version,
        _last_snapshot_version: Version,
    ) -> (Self, Result<Version, &'static str>) {
        unreachable!()
    }

    fn persist_snapshot<I: AggregateId<Account>>(
        &mut self,
        id: &I,
        aggregate: &Account,
        version: Version,
        _last_snapshot_version: Version,
    ) -> Result<Version, &'static str> {
        if self.fail_snapshot {
            return Err("snapshot refused");
        }
        self.snapshots.insert(id.as_str().to_string(), StateSnapshot { version, snapshot: *aggregate });
        Ok(version)
    }
}

#[test]
fn executing_against_a_new_entity_appends_and_snapshots() {
    let mut store = Store::default();
    let agg = store.load_or_default_exec_and_persist(&Id("a"), AccountCommand::Deposit(5), None, ()).unwrap();
    assert_eq!(*agg.state(), Account { balance: 5 });
    assert_eq!(agg.version(), Version::new(1));
    assert_eq!(agg.snapshot_version(), Version::new(1));
    assert_eq!(store.streams["a"].len(), 1);
    assert_eq!(store.snapshots["a"].version, Version::new(1));

    let agg = store.load_or_default_exec_and_persist(&Id("a"), AccountCommand::Deposit(2), None, ()).unwrap();
    assert_eq!(*agg.state(), Account { balance: 7 });
    assert_eq!(agg.version(), Version::new(2));
}

#[test]
fn rehydrating_folds_the_events_after_the_snapshot() {
    let mut store = Store::default();
    store.load_or_default_exec_and_persist(&Id("a"), AccountCommand::Deposit(5), None, ()).unwrap();
    store.streams.get_mut("a").unwrap().push(SequencedEvent {
        sequence_number: EventNumber::new(2).unwrap(),
        event: AccountEvent::Deposited(4),
    });
    let agg = store.rehydrate(&Id("a")).unwrap().unwrap();
    assert_eq!(*agg.state(), Account { balance: 9 });
    assert_eq!(agg.version(), Version::new(2));
    assert_eq!(agg.snapshot_version(), Version::new(1));
    assert_eq!(store.rehydrate(&Id("b")), Ok(None));
}

#[test]
fn a_failed_precondition_changes_nothing() {
    let mut store = Store::default();
    store.load_or_default_exec_and_persist(&Id("a"), AccountCommand::Deposit(5), None, ()).unwrap();
    let r = store.load_or_default_exec_and_persist(&Id("a"), AccountCommand::Deposit(1), Some(Precondition::New), ());
    assert_eq!(r, Err(EntityError::PreconditionFailed(Precondition::New)));
    assert_eq!(store.streams["a"].len(), 1);
}

#[test]
fn a_refused_command_changes_nothing() {
    let mut store = Store::default();
    let r = store.load_or_default_exec_and_persist(&Id("a"), AccountCommand::Deposit(0), None, ());
    match r {
        Err(EntityError::Exec(agg, e)) => {
            assert_eq!(e, "empty deposit");
            assert_eq!(agg.version(), Version::Initial);
        },
        _ => panic!("the command was not refused"),
    }
    assert!(store.streams.is_empty());
}

#[test]
fn a_failed_snapshot_is_reported_after_the_events_are_stored() {
    let mut store = Store::default();
    store.fail_snapshot = true;
    let r = store.load_or_default_exec_and_persist(&Id("a"), AccountCommand::Deposit(5), None, ());
    assert_eq!(r, Err(EntityError::Persist(EntityPersistError::SnapshotSink("snapshot refused"))));
    assert_eq!(store.streams["a"].len(), 1);
}

#[test]
fn loading_a_missing_entity_for_execution_gives_none() {
    let mut store = Store::default();
    assert_eq!(store.load_exec_and_persist(&Id("a"), AccountCommand::Deposit(5), None, ()), Ok(None));
    store.load_or_default_exec_and_persist(&Id("a"), AccountCommand::Deposit(5), None, ()).unwrap();
    let agg = store.load_exec_and_persist(&Id("a"), AccountCommand::Deposit(1), None, ()).unwrap().unwrap();
    assert_eq!(*agg.state(), Account { balance: 6 });
}

#[test]
fn executing_with_the_expected_version_succeeds() {
    let mut store = Store::default();
    let agg = store.load_or_default_exec_and_persist(&Id("a"), AccountCommand::Deposit(5), None, ()).unwrap();
    let r = store.exec_and_persist(&Id("a"), Some(agg), AccountCommand::Deposit(1), Some(Precondition::ExpectedVersion(Version::new(1))), ());
    assert_eq!(r.map(|h| h.version()), Ok(Version::new(2)));
    let r = store.exec_and_persist(&Id("a"), None, AccountCommand::Deposit(1), Some(Precondition::Exists), ());
    assert_eq!(r, Err(EntityExecAndPersistError::PreconditionFailed(Precondition::Exists)));
}

#[test]
fn a_command_without_events_keeps_the_entity() {
    let mut store = Store::default();
    let agg = store.load_or_default_exec_and_persist(&Id("a"), AccountCommand::Deposit(5), None, ()).unwrap();
    let after = store.exec_and_persist(&Id("a"), Some(agg), AccountCommand::Nothing, None, ()).unwrap();
    assert_eq!(after, agg);
}

#[test]
fn null_stores_hold_nothing_and_accept_everything() {
    let events: NullEventStore<Account, AccountEvent> = NullEventStore::default();
    let snapshots: NullSnapshotStore<Account> = NullSnapshotStore::default();
    let source = CompositeEntitySource::new(&events, &snapshots);
    assert_eq!(source.rehydrate(&Id("a")).map(|a| a.is_none()), Ok(true));
    let mut events = events.clone();
    assert_eq!(
        EventSink::<Account, ()>::append_events(&mut events, &Id("a"), &[AccountEvent::Deposited(1)], None, ()),
        Ok(EventNumber::min_value())
    );
    let mut snapshots = snapshots.clone();
    assert_eq!(
        snapshots.persist_snapshot(&Id("a"), &Account { balance: 1 }, Version::new(3), Version::new(2)),
        Ok(Version::new(2))
    );
}

#[test]
fn can_construct_composite_entity_source() {
    let null = NullEventStore::<Account, AccountEvent>::default();
    let memory = Store::default();
    let source = CompositeEntitySource::new(&null, &NullSnapshotStore::<Account>::default()).with_snapshot_source(&memory);
    assert_eq!(source.load_from_snapshot(&Id("a")), Ok(None));
    let other = Store::default();
    let _source = source.with_event_source(&other);
}

#[test]
fn entities_hold_their_id_and_aggregate() {
    let mut entity = Entity::new(Id("x"), HydratedAggregate::<Account>::default());
    assert_eq!(entity.id(), "x");
    entity.aggregate_mut().apply(AccountEvent::Deposited(3));
    assert_eq!(*entity.aggregate().state(), Account { balance: 3 });
    assert_eq!(entity.into_aggregate().version(), Version::new(1));
}

#[test]
fn applying_events_in_two_batches_is_applying_them_at_once() {
    let mut once = HydratedAggregate::<Account>::default();
    once.apply_events(vec![AccountEvent::Deposited(1), AccountEvent::Deposited(2), AccountEvent::Deposited(3)]);
    let mut twice = HydratedAggregate::<Account>::default();
    twice.apply_events(vec![AccountEvent::Deposited(1)]);
    twice.apply_events(vec![AccountEvent::Deposited(2), AccountEvent::Deposited(3)]);
    assert_eq!(once, twice);
    assert_eq!(once.version(), Version::new(3));
    assert_eq!(*once.state(), Account { balance: 6 });
}

#[test]
fn a_failed_read_is_a_load_error() {
    let mut store = Store::default();
    store.fail_read = true;
    let r = store.load_or_default_exec_and_persist(&Id("a"), AccountCommand::Deposit(5), None, ());
    assert_eq!(r, Err(EntityError::Load(EntityLoadError::EventSource("read refused"))));
    assert!(store.streams.is_empty());
}

#[test]
fn the_memory_stores_serve_as_an_entity_source() {
    let mut events: MemoryEventStore<Account, AccountEvent, ()> = MemoryEventStore::new();
    let mut snapshots: MemoryStateStore<Account> = MemoryStateStore::new();
    events
        .append_events(&Id("a"), &[AccountEvent::Deposited(5), AccountEvent::Deposited(7)], None, ())
        .unwrap();
    snapshots.persist_snapshot(&Id("a"), &Account { balance: 5 }, Version::new(1), None).unwrap();

    let source = CompositeEntitySource::new(&events, &snapshots);
    let agg = source.rehydrate(&Id("a")).unwrap().unwrap();
    assert_eq!(*agg.state(), Account { balance: 12 });
    assert_eq!(agg.version(), Version::new(2));
    assert_eq!(agg.snapshot_version(), Version::new(1));
    assert_eq!(source.rehydrate(&Id("b")).map(|a| a.is_none()), Ok(true));
    assert_eq!(
        EventSource::<Account>::read_events(&events, &Id("a"), Since::BeginningOfStream, Some(1)),
        Ok(Some(vec![SequencedEvent { sequence_number: EventNumber::new(1).unwrap(), event: AccountEvent::Deposited(5) }]))
    );
    assert_eq!(
        SnapshotSource::<Account>::get_snapshot(&snapshots, &Id("a")),
        Ok(Some(StateSnapshot { version: Version::new(1), snapshot: Account { balance: 5 } }))
    );
}

#[test]
fn composite_sinks_and_stores_send_writes_to_their_sinks() {
    let sink: CompositeEntitySink<Account, (), NullEventStore<Account, AccountEvent>, NullSnapshotStore<Account>> =
        CompositeEntitySink::new(NullEventStore::default(), NullSnapshotStore::default());
    let mut sink = sink.with_event_sink(Store::default());
    let mut agg: HydratedAggregate<Account> = HydratedAggregate::default();
    sink.apply_events_and_persist(&Id("a"), &mut agg, vec![AccountEvent::Deposited(3)], Version::Initial, ())
        .unwrap();
    assert_eq!(*agg.state(), Account { balance: 3 });
    assert_eq!(agg.version(), Version::new(1));
    let (events, _snapshots) = sink.into_parts();
    assert_eq!(events.streams["a"].len(), 1);

    let sink = CompositeEntitySink::<Account, (), Store, NullSnapshotStore<Account>>::new(
        Store::default(),
        NullSnapshotStore::default(),
    )
    .with_snapshot_sink(Store::default());
    let mut store = CompositeEntityStore::<Account, (), Store, _>::new(events.clone(), sink);
    let agg = store.load_or_default_exec_and_persist(&Id("b"), AccountCommand::Deposit(2), None, ()).unwrap();
    assert_eq!(*agg.state(), Account { balance: 2 });
    let store = store.with_entity_source(events.clone());
    let (source, sink) = store.into_parts();
    assert!(!source.streams.contains_key("b"));
    let (written, snapshotted) = sink.into_parts();
    assert_eq!(written.streams["b"].len(), 1);
    assert_eq!(snapshotted.snapshots["b"].version, Version::new(1));
}
