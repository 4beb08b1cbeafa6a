use cqrs::memory::{EventStore, PreconditionFailed, StateStore};
use cqrs::testing::{TestAggregate, TestEvent, TestId, TestMetadata};
use cqrs::types::{EventNumber, Precondition, SequencedEvent, Since, Version};

type TestMemoryEventStore = EventStore<TestAggregate, TestEvent, TestMetadata>;

#[test]
fn can_get_an_event_stream_with_expected_count_of_events() {
    let mut es = TestMemoryEventStore::default();
    let id = TestId("");
    es.append_events(&id, &vec![TestEvent], None, TestMetadata).unwrap();
    let events = es.read_events(&id, Since::BeginningOfStream, None).unwrap().unwrap();
    assert_eq!(events.len(), 1);
}

#[test]
fn can_get_an_event_stream_with_expected_count_of_events_when_not_starting_from_beginning_of_stream(
) {
    let mut es = TestMemoryEventStore::default();
    let id = TestId("");
    es.append_events(&id, &vec![TestEvent], None, TestMetadata).unwrap();
    let events = es
        .read_events(&id, Since::Event(EventNumber::min_value()), None)
        .unwrap()
        .unwrap();
    assert_eq!(events.len(), 0);
}

#[test]
fn can_get_an_event_stream_with_expected_count_of_events_when_asking_past_end_of_stream() {
    let mut es = TestMemoryEventStore::default();
    let id = TestId("");
    es.append_events(&id, &vec![TestEvent], None, TestMetadata).unwrap();
    let events = es
        .read_events(&id, Since::Event(EventNumber::min_value().incr()), None)
        .unwrap()
        .unwrap();
    assert_eq!(events.len(), 0);
}

#[test]
fn memory_tests_can_get_an_event_stream_multiple_times_are_equal() {
    let mut es = TestMemoryEventStore::default();
    let id = TestId("");
    es.append_events(&id, &vec![TestEvent], None, TestMetadata).unwrap();
    let events1 = es.read_events(&id, Since::BeginningOfStream, None);
    let events2 = es.read_events(&id, Since::BeginningOfStream, None);
    assert_eq!(events1, events2);
}

#[test]
fn memory_tests_can_get_different_event_streams() {
    let mut es = TestMemoryEventStore::default();

    es.append_events(&TestId(""), &vec![TestEvent], None, TestMetadata).unwrap();
    let events1 = es.read_events(&TestId(""), Since::BeginningOfStream, None);
    let events2 = es.read_events(&TestId("other"), Since::BeginningOfStream, None);
    assert_ne!(events1, events2);
}

#[test]
fn reading_from_the_version_before_an_append_gives_the_appended_events() {
    let mut es = TestMemoryEventStore::default();
    let id = TestId("a");
    let first = es.append_events(&id, &vec![TestEvent, TestEvent], None, TestMetadata).unwrap();
    assert_eq!(first, EventNumber::min_value());
    let second = es
        .append_events(&id, &vec![TestEvent], Some(Precondition::ExpectedVersion(Version::new(2))), TestMetadata)
        .unwrap();
    assert_eq!(second.get(), 3);
    let after = es.read_events(&id, Since::Event(EventNumber::new(2).unwrap()), None).unwrap().unwrap();
    assert_eq!(after, vec![SequencedEvent { sequence_number: EventNumber::new(3).unwrap(), event: TestEvent }]);
    let all = es.read_events(&id, Since::BeginningOfStream, None).unwrap().unwrap();
    let numbers: Vec<usize> = all.iter().map(|e| e.sequence_number.get()).collect();
    assert_eq!(numbers, vec![1, 2, 3]);
    let limited = es.read_events(&id, Since::BeginningOfStream, Some(2)).unwrap().unwrap();
    assert_eq!(limited.len(), 2);
}

#[test]
fn a_refused_append_leaves_the_stream_unchanged() {
    let mut es = TestMemoryEventStore::default();
    let id = TestId("a");
    es.append_events(&id, &vec![TestEvent], None, TestMetadata).unwrap();
    let refused = es.append_events(&id, &vec![TestEvent], Some(Precondition::New), TestMetadata);
    assert_eq!(refused, Err(PreconditionFailed(Precondition::New)));
    let stale = es.append_events(&id, &vec![TestEvent], Some(Precondition::ExpectedVersion(Version::new(3))), TestMetadata);
    assert_eq!(stale, Err(PreconditionFailed(Precondition::ExpectedVersion(Version::new(3)))));
    assert_eq!(es.read_events(&id, Since::BeginningOfStream, None).unwrap().unwrap().len(), 1);
    let missing = es.append_events(&TestId("b"), &vec![TestEvent], Some(Precondition::Exists), TestMetadata);
    assert_eq!(missing, Err(PreconditionFailed(Precondition::Exists)));
    assert_eq!(es.read_events(&TestId("b"), Since::BeginningOfStream, None), Ok(None));
}

#[test]
fn a_snapshot_reads_back_as_persisted() {
    let mut ss = StateStore::<TestAggregate>::default();
    assert_eq!(ss.get_snapshot(&TestId("a")), Ok(None));
    assert_eq!(ss.persist_snapshot(&TestId("a"), &TestAggregate, Version::new(2), None), Ok(Version::new(2)));
    assert_eq!(ss.persist_snapshot(&TestId("a"), &TestAggregate, Version::new(5), Some(Version::new(2))), Ok(Version::new(5)));
    let snapshot = ss.get_snapshot(&TestId("a")).unwrap().unwrap();
    assert_eq!(snapshot.version, Version::new(5));
    assert_eq!(ss.get_snapshot(&TestId("b")), Ok(None));
}
