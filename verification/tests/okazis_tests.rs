use cqrs::okazis::trivial::{NopEventDecorator, NullEventStore, NullStateStore};
use vstd::seq::Seq;
use cqrs::okazis::{Aggregate, AggregateStore, CommandResult, Never, SnapshotDecision};

#[derive(Debug, Copy, Clone, Hash, PartialEq, Eq)]
enum MyEvent {
    Wow,
}

#[derive(Debug, Copy, Clone, Hash, PartialEq, Eq)]
enum MyCommand {
    Much,
}

#[derive(Debug, Default, Copy, Clone, Hash, PartialEq, Eq)]
struct CoolAggregate;

impl Aggregate for CoolAggregate {
    type Event = MyEvent;
    type Command = MyCommand;
    type CommandError = Never;

    fn initial() -> Self {
        CoolAggregate
    }

    fn applied(self, _evt: Self::Event) -> Self {
        self
    }

    fn executed(self, _cmd: Self::Command) -> Result<Seq<Self::Event>, Self::CommandError> {
        unreachable!()
    }

    fn snapshot_decision(self) -> SnapshotDecision {
        SnapshotDecision::Skip
    }

    fn default() -> Self {
        CoolAggregate
    }

    fn apply(&mut self, _evt: Self::Event) {}

    fn execute(&self, _cmd: Self::Command) -> CommandResult<Self::Event, Self::CommandError> {
        Ok(vec![MyEvent::Wow])
    }

    fn should_snapshot(&self) -> SnapshotDecision {
        SnapshotDecision::Skip
    }
}

#[test]
fn maybe_this_works_() {
    let es: NullEventStore<MyEvent, usize> = NullEventStore { _phantom: ::std::marker::PhantomData };
    let ss: NullStateStore<CoolAggregate, usize> =
        NullStateStore { _phantom: ::std::marker::PhantomData };

    let mut agg = AggregateStore::new(es, ss);

    let result = agg.execute_and_persist(&0, MyCommand::Much, NopEventDecorator::default());
    assert_eq!(result, Ok(1usize));
}

#[test]
fn versions_compare_with_numbers_and_move_on() {
    let v = cqrs::okazis::Version::new(2) + 3;
    assert_eq!(v, cqrs::okazis::Version::new(5));
    assert!(v == 5usize);
    assert!(5usize == v);
    assert!(v != 4usize);
    let mut w = cqrs::okazis::Version::new(1);
    w += 4;
    assert_eq!(w.number(), 5);
}
