use cqrs::event_processing::{
    EventHandler, EventProcessingConfiguration, HandlerKey, RegisteredEvent, Route,
};
use cqrs::lifecycle::{
    Aggregate, AlwaysSnapshot, Basic, BufferedContext, Command, CommandHandler, Context, ContextWithMeta,
    EventBuffer, EventSink, EventSource, EventSourced, ExecAndPersistError, HydratedAggregate, LoadError,
    LoadExecAndPersistError, LoadRehydrateAndPersistError, NeverSnapshot, NumberedEvent, PersistError,
    SnapshotRecommendation, SnapshotSink, SnapshotSource, SnapshotStrategy, Static,
};
use cqrs::system::System;
use cqrs::types::{EventNumber, Since, Version};
use std::cell::Cell;
use std::collections::HashMap;
use vstd::seq::Seq;

#[derive(Clone, Copy, Debug, PartialEq, Eq)]
struct Counter {
    id: u64,
    value: u64,
}

#[derive(Clone, Copy, Debug, PartialEq, Eq)]
enum CounterEvent {
    Created(u64),
    Added(u64),
}

impl Aggregate for Counter {
    type Id = u64;

    fn initial() -> Self {
        Counter { id: 0, value: 0 }
    }

    fn id_spec(&self) -> u64 {
        self.id
    }

    fn default() -> Self {
        Counter { id: 0, value: 0 }
    }

    fn id(&self) -> &u64 {
        &self.id
    }
}

impl EventSourced<CounterEvent> for Counter {
    fn applied(self, event: CounterEvent) -> Self {
        let mut c = self;
        c.apply(&event);
        c
    }

    fn apply(&mut self, event: &CounterEvent) {
        match event {
            CounterEvent::Created(id) => self.id = *id,
            CounterEvent::Added(n) => self.value += n,
        }
    }
}

impl RegisteredEvent for CounterEvent {
    fn type_key(&self) -> u64 {
        self.type_id()
    }

    fn type_id(&self) -> u64 {
        match self {
            CounterEvent::Created(_) => 1,
            CounterEvent::Added(_) => 2,
        }
    }
}

/// Creates a counter, adds to one, or (with an amount of 0) is refused; an
/// amount of 999 produces no event.
#[derive(Clone, Copy, Debug, PartialEq, Eq)]
enum CounterCommand {
    Create(u64),
    Add(Option<u64>, u64),
}

impl Command for CounterCommand {
    type Aggregate = Counter;

    fn aggregate_id_spec(&self) -> Option<u64> {
        self.aggregate_id().copied()
    }

    fn aggregate_id(&self) -> Option<&u64> {
        match self {
            CounterCommand::Create(_) => None,
            CounterCommand::Add(id, _) => id.as_ref(),
        }
    }
}

impl CommandHandler<CounterCommand> for Counter {
    type Context = ();
    type Event = CounterEvent;
    type Error = &'static str;

    fn handled(&self, _cmd: CounterCommand, _ctx: ()) -> Result<Seq<CounterEvent>, &'static str> {
        unreachable!()
    }

    fn handle(&self, cmd: CounterCommand, _ctx: &()) -> Result<Vec<CounterEvent>, &'static str> {
        match cmd {
            CounterCommand::Create(id) => Ok(vec![CounterEvent::Created(id)]),
            CounterCommand::Add(_, 0) => Err("nothing to add"),
            CounterCommand::Add(_, 999) => Ok(vec![]),
            CounterCommand::Add(_, n) => Ok(vec![CounterEvent::Added(n)]),
        }
    }
}

#[derive(Clone, Copy, Debug, PartialEq, Eq)]
struct RepoError(&'static str);

/// An in-memory repository of snapshots and event streams, whose writes and
/// reads can be made to fail.
#[derive(Clone, Debug, Default)]
struct Repo {
    snapshots: HashMap<u64, (Counter, Version)>,
    streams: HashMap<u64, Vec<NumberedEvent<CounterEvent>>>,
    metadata: Vec<&'static str>,
    batches: Vec<Vec<(Counter, Version)>>,
    fail_append: bool,
    fail_snapshot: bool,
    fail_load: bool,
    read_error_after: Option<usize>,
}

impl SnapshotSource<Counter> for Repo {
    type Error = RepoError;

    fn snapshot_spec(&self, _id: u64) -> Result<Option<(Counter, Version)>, RepoError> {
        unreachable!()
    }

    fn snapshots_spec(&self, _ids: Seq<u64>) -> Result<Seq<(Counter, Version)>, RepoError> {
        unreachable!()
    }

    fn load_snapshot(&self, id: &u64) -> Result<Option<(Counter, Version)>, RepoError> {
        if self.fail_load {
            return Err(RepoError("load"));
        }
        Ok(self.snapshots.get(id).copied())
    }

    fn load_snapshots(&self, ids: &[u64]) -> Result<Vec<(Counter, Version)>, RepoError> {
        if self.fail_load {
            return Err(RepoError("load"));
        }
        Ok(ids.iter().filter_map(|id| self.snapshots.get(id).copied()).collect())
    }
}

impl EventSource<Counter, CounterEvent> for Repo {
    type Error = RepoError;

    fn read_spec(&self, _id: u64, _since: Since) -> Seq<Result<NumberedEvent<CounterEvent>, RepoError>> {
        unreachable!()
    }

    fn read_events(&self, id: &u64, since: Since) -> Vec<Result<NumberedEvent<CounterEvent>, RepoError>> {
        let stream = self.streams.get(id).cloned().unwrap_or_default();
        let skip = match since {
            Since::BeginningOfStream => 0,
            Since::Event(n) => n.get(),
        };
        let mut out: Vec<Result<NumberedEvent<CounterEvent>, RepoError>> =
            stream.into_iter().skip(skip).map(Ok).collect();
        if let Some(k) = self.read_error_after {
            out.insert(k.min(out.len()), Err(RepoError("read")));
        }
        out
    }
}

impl EventSink<Counter, CounterEvent, &'static str> for Repo {
    type Error = RepoError;

    fn append_spec(
        self,
        _id: u64,
        _events: Seq<CounterEvent>,
        _meta: &'static str,
    ) -> (Self, Result<Seq<NumberedEvent<CounterEvent>>, RepoError>) {
        unreachable!()
    }

    fn append_events(
        &mut self,
        id: &u64,
        events: &[CounterEvent],
        meta: &&'static str,
    ) -> Result<Vec<NumberedEvent<CounterEvent>>, RepoError> {
        if self.fail_append {
            return Err(RepoError("append"));
        }
        let stream = self.streams.entry(*id).or_default();
        let mut out = Vec::new();
        for e in events {
            let num = EventNumber::new(stream.len() + 1).unwrap();
            let numbered = NumberedEvent { num, data: *e };
            stream.push(numbered);
            out.push(numbered);
            self.metadata.push(*meta);
        }
        Ok(out)
    }
}

impl SnapshotSink<Counter> for Repo {
    type Error = RepoError;

    fn persist_spec(self, _aggregate: Counter, _version: Version) -> (Self, Result<(), RepoError>) {
        unreachable!()
    }

    fn persist_all_spec(self, _snapshots: Seq<(Counter, Version)>) -> (Self, Result<(), RepoError>) {
        unreachable!()
    }

    fn persist_snapshot(&mut self, aggregate: &Counter, version: Version) -> Result<(), RepoError> {
        if self.fail_snapshot {
            return Err(RepoError("snapshot"));
        }
        self.snapshots.insert(aggregate.id, (*aggregate, version));
        Ok(())
    }

    fn persist_snapshots(&mut self, snapshots: &[(&Counter, Version)]) -> Result<(), RepoError> {
        if self.fail_snapshot {
            return Err(RepoError("snapshot"));
        }
        self.batches.push(snapshots.iter().map(|(a, v)| (**a, *v)).collect());
        for (a, v) in snapshots {
            self.snapshots.insert(a.id, (**a, *v));
        }
        Ok(())
    }
}

/// Recommends a snapshot once the aggregate is at least two events past its
/// latest one.
#[derive(Clone, Copy, Debug)]
struct EveryTwoEvents;

impl SnapshotStrategy for EveryTwoEvents {
    fn recommendation_spec(&self, version: Version, snapshot_version: Version) -> SnapshotRecommendation {
        self.recommendation(version, snapshot_version)
    }

    fn recommendation(&self, version: Version, snapshot_version: Version) -> SnapshotRecommendation {
        if version.get() >= snapshot_version.get() + 2 {
            SnapshotRecommendation::ShouldSnapshot
        } else {
            SnapshotRecommendation::DoNotSnapshot
        }
    }
}

fn num(n: usize) -> EventNumber {
    EventNumber::new(n).unwrap()
}

fn ev(n: usize, data: CounterEvent) -> NumberedEvent<CounterEvent> {
    NumberedEvent { num: num(n), data }
}

/// A repository holding counter 7: created, then 5 and 2 added, with a
/// snapshot after its first event.
fn repo_with_counter() -> Repo {
    let mut repo = Repo::default();
    repo.streams.insert(
        7,
        vec![ev(1, CounterEvent::Created(7)), ev(2, CounterEvent::Added(5)), ev(3, CounterEvent::Added(2))],
    );
    repo.snapshots.insert(7, (Counter { id: 7, value: 0 }, Version::new(1)));
    repo
}

#[test]
fn loading_without_a_snapshot_gives_none() {
    let basic = Basic::new(NeverSnapshot);
    let repo = Repo::default();
    let loaded = basic.load_aggregate_and_rehydrate::<CounterEvent, Counter, Repo>(&3, &repo);
    assert_eq!(loaded, Ok(None));
}

#[test]
fn loading_replays_the_events_after_the_snapshot() {
    let basic = Basic::new(NeverSnapshot);
    let repo = repo_with_counter();
    let agg = basic.load_aggregate_and_rehydrate::<CounterEvent, Counter, Repo>(&7, &repo).unwrap().unwrap();
    assert_eq!(*agg.state(), Counter { id: 7, value: 7 });
    assert_eq!(agg.version(), Version::new(3));
    assert_eq!(agg.snapshot_version(), Version::new(1));
}

#[test]
fn loading_reports_a_failed_snapshot_load() {
    let basic = Basic::new(NeverSnapshot);
    let mut repo = repo_with_counter();
    repo.fail_load = true;
    let loaded = basic.load_aggregate_and_rehydrate::<CounterEvent, Counter, Repo>(&7, &repo);
    assert_eq!(loaded, Err(LoadError::Snapshot(RepoError("load"))));
}

#[test]
fn replaying_stops_at_the_first_error() {
    let basic = Basic::new(NeverSnapshot);
    let mut repo = repo_with_counter();
    repo.read_error_after = Some(1);
    let mut agg = HydratedAggregate::from_snapshot(Counter { id: 7, value: 0 }, Version::new(1));
    let r = basic.rehydrate_aggregate::<CounterEvent, Counter, Repo>(&mut agg, &repo);
    assert_eq!(r, Err(RepoError("read")));
    assert_eq!(*agg.state(), Counter { id: 7, value: 5 });
    assert_eq!(agg.version(), Version::new(2));
    let loaded = basic.load_aggregate_and_rehydrate::<CounterEvent, Counter, Repo>(&7, &repo);
    assert_eq!(loaded, Err(LoadError::Events(RepoError("read"))));
}

#[test]
fn loading_many_aggregates_loads_those_with_snapshots() {
    let basic = Basic::new(NeverSnapshot);
    let repo = repo_with_counter();
    let aggs = basic.load_aggregates_and_rehydrate::<CounterEvent, Counter, Repo>(&[7, 8], &repo).unwrap();
    assert_eq!(aggs.len(), 1);
    assert_eq!(*aggs[0].state(), Counter { id: 7, value: 7 });
    let none = basic.load_aggregates_and_rehydrate::<CounterEvent, Counter, Repo>(&[], &repo).unwrap();
    assert!(none.is_empty());
}

#[test]
fn persisting_with_always_snapshot_records_the_snapshot() {
    let basic = Basic::new(AlwaysSnapshot);
    let mut repo = repo_with_counter();
    let mut agg = basic.load_aggregate_and_rehydrate::<CounterEvent, Counter, Repo>(&7, &repo).unwrap().unwrap();
    basic.persist_aggregate(&mut agg, &mut repo).unwrap();
    assert_eq!(agg.snapshot_version(), Version::new(3));
    assert_eq!(repo.snapshots[&7], (Counter { id: 7, value: 7 }, Version::new(3)));
}

#[test]
fn persisting_with_never_snapshot_writes_nothing() {
    let basic = Basic::new(NeverSnapshot);
    let mut repo = repo_with_counter();
    let mut agg = basic.load_aggregate_and_rehydrate::<CounterEvent, Counter, Repo>(&7, &repo).unwrap().unwrap();
    basic.persist_aggregate(&mut agg, &mut repo).unwrap();
    assert_eq!(agg.snapshot_version(), Version::new(1));
    assert_eq!(repo.snapshots[&7], (Counter { id: 7, value: 0 }, Version::new(1)));
}

#[test]
fn persisting_many_snapshots_only_those_the_strategy_recommends() {
    let basic = Basic::new(EveryTwoEvents);
    let mut repo = Repo::default();
    let mut aggs = vec![
        HydratedAggregate::from_snapshot(Counter { id: 1, value: 1 }, Version::new(1)),
        HydratedAggregate::from_snapshot(Counter { id: 2, value: 2 }, Version::new(2)),
    ];
    let mut far = HydratedAggregate::from_snapshot(Counter { id: 3, value: 3 }, Version::new(1));
    far.apply(&ev(2, CounterEvent::Added(1)));
    far.apply(&ev(3, CounterEvent::Added(1)));
    aggs.push(far);
    basic.persist_aggregates(&mut aggs, &mut repo).unwrap();
    assert_eq!(repo.batches, vec![vec![(Counter { id: 3, value: 5 }, Version::new(3))]]);
    assert_eq!(aggs[2].snapshot_version(), Version::new(3));
    assert_eq!(aggs[0].snapshot_version(), Version::new(1));
}

#[test]
fn a_failed_batch_leaves_the_aggregates_unmarked() {
    let basic = Basic::new(AlwaysSnapshot);
    let mut repo = Repo::default();
    repo.fail_snapshot = true;
    let mut agg = HydratedAggregate::from_snapshot(Counter { id: 1, value: 1 }, Version::new(1));
    agg.apply(&ev(2, CounterEvent::Added(1)));
    let mut aggs = vec![agg];
    assert_eq!(basic.persist_aggregates(&mut aggs, &mut repo), Err(RepoError("snapshot")));
    assert_eq!(aggs[0].snapshot_version(), Version::new(1));
}

#[test]
fn load_rehydrate_and_persist_snapshots_the_loaded_aggregate() {
    let basic = Basic::new(AlwaysSnapshot);
    let mut repo = repo_with_counter();
    basic.load_aggregate_rehydrate_and_persist::<CounterEvent, Counter, Repo>(&7, &mut repo).unwrap();
    assert_eq!(repo.snapshots[&7], (Counter { id: 7, value: 7 }, Version::new(3)));
    basic.load_aggregates_rehydrate_and_persist::<CounterEvent, Counter, Repo>(&[7], &mut repo).unwrap();
    repo.fail_snapshot = true;
    repo.streams.get_mut(&7).unwrap().push(ev(4, CounterEvent::Added(1)));
    let r = basic.load_aggregate_rehydrate_and_persist::<CounterEvent, Counter, Repo>(&7, &mut repo);
    assert_eq!(r, Err(LoadRehydrateAndPersistError::Persist(RepoError("snapshot"))));
}

#[test]
fn executing_against_a_new_aggregate_numbers_its_first_event() {
    let basic = Basic::new(AlwaysSnapshot);
    let mut repo = Repo::default();
    let mut buffer = EventBuffer::new();
    let agg = basic
        .exec_command_and_persist(CounterCommand::Create(9), None, &"meta", &(), &mut repo, Some(&mut buffer))
        .unwrap();
    assert_eq!(*agg.state(), Counter { id: 9, value: 0 });
    assert_eq!(agg.version(), Version::new(1));
    assert_eq!(agg.snapshot_version(), Version::new(1));
    assert_eq!(repo.streams[&9], vec![ev(1, CounterEvent::Created(9))]);
    assert_eq!(repo.metadata, vec!["meta"]);
    assert_eq!(buffer.take_buffered_events(1), vec![ev(1, CounterEvent::Created(9))]);
}

#[test]
fn a_refused_command_writes_nothing() {
    let basic = Basic::new(AlwaysSnapshot);
    let mut repo = repo_with_counter();
    let agg = HydratedAggregate::from_snapshot(Counter { id: 7, value: 7 }, Version::new(3));
    let mut buffer = EventBuffer::new();
    let r = basic.exec_command_and_persist(
        CounterCommand::Add(Some(7), 0),
        Some(agg),
        &"meta",
        &(),
        &mut repo,
        Some(&mut buffer),
    );
    assert_eq!(r, Err(ExecAndPersistError::Exec(agg, "nothing to add")));
    assert_eq!(repo.streams[&7].len(), 3);
    assert!(buffer.take_buffered_events(2).is_empty());
}

#[test]
fn a_command_without_events_writes_nothing() {
    let basic = Basic::new(AlwaysSnapshot);
    let mut repo = repo_with_counter();
    let agg = HydratedAggregate::from_snapshot(Counter { id: 7, value: 7 }, Version::new(3));
    let r = basic.exec_command_and_persist(
        CounterCommand::Add(Some(7), 999),
        Some(agg),
        &"meta",
        &(),
        &mut repo,
        None::<&mut EventBuffer<CounterEvent>>,
    );
    assert_eq!(r, Ok(agg));
    assert_eq!(repo.streams[&7].len(), 3);
    assert_eq!(repo.snapshots[&7].1, Version::new(1));
}

#[test]
fn a_failed_append_is_a_persist_error() {
    let basic = Basic::new(AlwaysSnapshot);
    let mut repo = repo_with_counter();
    repo.fail_append = true;
    let agg = HydratedAggregate::from_snapshot(Counter { id: 7, value: 7 }, Version::new(3));
    let r = basic.exec_command_and_persist(
        CounterCommand::Add(Some(7), 1),
        Some(agg),
        &"meta",
        &(),
        &mut repo,
        None::<&mut EventBuffer<CounterEvent>>,
    );
    assert_eq!(r, Err(ExecAndPersistError::Persist(PersistError::Events(RepoError("append")))));
}

#[test]
fn a_failed_snapshot_after_the_events_is_a_persist_error() {
    let basic = Basic::new(AlwaysSnapshot);
    let mut repo = repo_with_counter();
    repo.fail_snapshot = true;
    let agg = HydratedAggregate::from_snapshot(Counter { id: 7, value: 7 }, Version::new(3));
    let r = basic.exec_command_and_persist(
        CounterCommand::Add(Some(7), 1),
        Some(agg),
        &"meta",
        &(),
        &mut repo,
        None::<&mut EventBuffer<CounterEvent>>,
    );
    assert_eq!(r, Err(ExecAndPersistError::Persist(PersistError::Snapshot(RepoError("snapshot")))));
    assert_eq!(repo.streams[&7].len(), 4);
}

#[test]
fn load_exec_and_persist_runs_against_the_loaded_aggregate() {
    let basic = Basic::new(NeverSnapshot);
    let mut repo = repo_with_counter();
    let agg = basic
        .load_aggregate_exec_command_and_persist(
            CounterCommand::Add(Some(7), 3),
            &"meta",
            &(),
            &mut repo,
            None::<&mut EventBuffer<CounterEvent>>,
        )
        .unwrap()
        .unwrap();
    assert_eq!(*agg.state(), Counter { id: 7, value: 10 });
    assert_eq!(agg.version(), Version::new(4));
    assert_eq!(repo.streams[&7][3], ev(4, CounterEvent::Added(3)));
    let missing = basic.load_aggregate_exec_command_and_persist(
        CounterCommand::Add(Some(8), 3),
        &"meta",
        &(),
        &mut repo,
        None::<&mut EventBuffer<CounterEvent>>,
    );
    assert_eq!(missing, Ok(None));
    repo.fail_load = true;
    let failed = basic.load_aggregate_exec_command_and_persist(
        CounterCommand::Add(Some(7), 3),
        &"meta",
        &(),
        &mut repo,
        None::<&mut EventBuffer<CounterEvent>>,
    );
    assert_eq!(failed, Err(LoadExecAndPersistError::Load(LoadError::Snapshot(RepoError("load")))));
}

#[test]
fn a_command_addressed_to_no_aggregate_runs_against_the_initial_one() {
    let basic = Basic::new(NeverSnapshot);
    let mut repo = Repo::default();
    let agg = basic
        .load_aggregate_exec_command_and_persist(
            CounterCommand::Create(4),
            &"meta",
            &(),
            &mut repo,
            None::<&mut EventBuffer<CounterEvent>>,
        )
        .unwrap()
        .unwrap();
    assert_eq!(*agg.state(), Counter { id: 4, value: 0 });
    assert_eq!(repo.streams[&0], vec![ev(1, CounterEvent::Created(4))]);
}

struct Recorder {
    seen: Cell<u32>,
    fail_on_added: bool,
}

type CounterStatic = Static<AlwaysSnapshot, Context<Repo, CounterEvent>>;

impl EventHandler<CounterEvent> for Recorder {
    type Context = CounterStatic;
    type Error = &'static str;

    fn on(&self, event: &CounterEvent, _ctx: &CounterStatic) -> Result<(), &'static str> {
        self.seen.set(self.seen.get() + 1);
        match event {
            CounterEvent::Added(_) if self.fail_on_added => Err("refused"),
            _ => Ok(()),
        }
    }
}

fn route() -> Route {
    Route { as_event: 10, context: 20, error: 30 }
}

#[test]
fn the_static_lifecycle_buffers_and_hands_events_to_handlers() {
    let mut lifecycle: CounterStatic = Static::new(AlwaysSnapshot, Context::new(repo_with_counter()));
    let agg = lifecycle
        .load_aggregate_exec_command_and_persist(CounterCommand::Add(Some(7), 1), &"meta", &())
        .unwrap()
        .unwrap();
    assert_eq!(*agg.state(), Counter { id: 7, value: 8 });

    let mut builder = EventProcessingConfiguration::new();
    builder.register_event_handler(
        HandlerKey { event: 2, route: route(), handler: 1 },
        Recorder { seen: Cell::new(0), fail_on_added: false },
    );
    let cfg = builder.build();
    assert_eq!(lifecycle.exec_event_handlers(2, &cfg, route()), Ok(()));
    assert_eq!(cfg.iter_event_handlers_of(&CounterEvent::Added(0), route())[0].0.seen.get(), 1);
    assert_eq!(lifecycle.exec_event_handlers(2, &cfg, route()), Ok(()));
    assert_eq!(cfg.iter_event_handlers_of(&CounterEvent::Added(0), route())[0].0.seen.get(), 1);
}

#[test]
fn event_handling_stops_at_the_first_failure() {
    let mut lifecycle: CounterStatic = Static::new(AlwaysSnapshot, Context::new(repo_with_counter()));
    let mut agg = lifecycle.load_aggregate_and_rehydrate::<CounterEvent, Counter>(&7).unwrap().unwrap();
    lifecycle
        .apply_events_and_persist(&mut agg, &[CounterEvent::Added(1), CounterEvent::Added(2)], &"meta")
        .unwrap();
    assert_eq!(agg.version(), Version::new(5));
    let mut builder = EventProcessingConfiguration::new();
    builder.register_event_handler(
        HandlerKey { event: 2, route: route(), handler: 1 },
        Recorder { seen: Cell::new(0), fail_on_added: true },
    );
    let cfg = builder.build();
    assert_eq!(lifecycle.exec_event_handlers(2, &cfg, route()), Err("refused"));
    assert_eq!(cfg.iter_event_handlers_of(&CounterEvent::Added(0), route())[0].0.seen.get(), 1);
}

#[test]
fn the_static_lifecycle_with_meta_appends_with_its_metadata() {
    let mut lifecycle = Static::new(NeverSnapshot, ContextWithMeta::<Repo, &'static str, CounterEvent>::new(Repo::default(), "from context"));
    let agg = lifecycle.exec_command_and_persist(CounterCommand::Create(5), None, &()).unwrap();
    assert_eq!(agg.version(), Version::new(1));
    let agg = lifecycle.load_aggregate_exec_command_and_persist(CounterCommand::Add(Some(5), 2), &()).unwrap();
    assert_eq!(agg, None);
}

#[test]
fn the_system_appends_even_when_there_is_no_event() {
    let mut system: System<AlwaysSnapshot, Repo> = System::from(repo_with_counter());
    let agg = HydratedAggregate::from_snapshot(Counter { id: 7, value: 7 }, Version::new(3));
    let after = system.exec_command_and_persist(CounterCommand::Add(Some(7), 999), Some(agg), "meta", &()).unwrap();
    assert_eq!(after.snapshot_version(), Version::new(3));
    let loaded = system.load_exec_and_persist(CounterCommand::Add(Some(7), 2), "meta", &()).unwrap().unwrap();
    assert_eq!(*loaded.state(), Counter { id: 7, value: 9 });
    assert_eq!(loaded.version(), Version::new(4));
    assert_eq!(loaded.snapshot_version(), Version::new(4));
}

#[test]
fn the_system_reports_a_refused_command() {
    let mut system = System::new(NeverSnapshot, repo_with_counter());
    let r = system.load_exec_and_persist(CounterCommand::Add(Some(7), 0), "meta", &());
    match r {
        Err(cqrs::system::LoadExecAndPersistError::Exec(agg, e)) => {
            assert_eq!(e, "nothing to add");
            assert_eq!(*agg.state(), Counter { id: 7, value: 7 });
        },
        _ => panic!("the command was not refused"),
    }
}

#[test]
fn load_rehydrate_and_persist_reports_a_failed_load() {
    let basic = Basic::new(AlwaysSnapshot);
    let mut repo = repo_with_counter();
    repo.read_error_after = Some(0);
    let r = basic.load_aggregate_rehydrate_and_persist::<CounterEvent, Counter, Repo>(&7, &mut repo);
    assert_eq!(r, Err(LoadRehydrateAndPersistError::Load(LoadError::Events(RepoError("read")))));
    let r = basic.load_aggregates_rehydrate_and_persist::<CounterEvent, Counter, Repo>(&[7], &mut repo);
    assert_eq!(r, Err(LoadRehydrateAndPersistError::Load(LoadError::Events(RepoError("read")))));
    assert_eq!(repo.snapshots[&7].1, Version::new(1));
}

#[test]
fn the_system_reports_failed_loads_and_writes() {
    let mut repo = repo_with_counter();
    repo.fail_load = true;
    let mut system = System::new(AlwaysSnapshot, repo);
    match system.load_exec_and_persist(CounterCommand::Add(Some(7), 1), "meta", &()) {
        Err(cqrs::system::LoadExecAndPersistError::Load(cqrs::system::LoadError::Snapshot(e))) => {
            assert_eq!(e, RepoError("load"))
        },
        _ => panic!("the load did not fail"),
    }
    let mut repo = repo_with_counter();
    repo.fail_append = true;
    let mut system = System::new(AlwaysSnapshot, repo);
    match system.load_exec_and_persist(CounterCommand::Add(Some(7), 1), "meta", &()) {
        Err(cqrs::system::LoadExecAndPersistError::Persist(cqrs::system::PersistError::Events(e))) => {
            assert_eq!(e, RepoError("append"))
        },
        _ => panic!("the append did not fail"),
    }
    assert_eq!(system.load_exec_and_persist(CounterCommand::Add(Some(8), 1), "meta", &()).map(|a| a.is_none()), Ok(true));
}

#[test]
fn taking_one_event_type_keeps_the_others_buffered() {
    let mut buffer = EventBuffer::new();
    buffer.buffer_event(ev(1, CounterEvent::Created(3)));
    buffer.buffer_event(ev(2, CounterEvent::Added(4)));
    buffer.buffer_event(ev(3, CounterEvent::Added(5)));
    assert_eq!(
        buffer.take_buffered_events(2),
        vec![ev(2, CounterEvent::Added(4)), ev(3, CounterEvent::Added(5))]
    );
    assert!(buffer.take_buffered_events(2).is_empty());
    assert_eq!(buffer.take_buffered_events(1), vec![ev(1, CounterEvent::Created(3))]);
    assert!(buffer.take_buffered_events(1).is_empty());
}

#[test]
fn buffering_keeps_the_metadata_of_a_context() {
    let mut ctx = ContextWithMeta::<Repo, &'static str, CounterEvent>::new(Repo::default(), "m");
    assert_eq!(*ctx.meta(), "m");
    ctx.buffer_event(ev(1, CounterEvent::Created(3)));
    assert_eq!(*ctx.meta(), "m");
    assert_eq!(ctx.take_buffered_events(1), vec![ev(1, CounterEvent::Created(3))]);
    assert_eq!(*ctx.meta(), "m");
}
