use cqrs::domain::command::CommandExecutor;
use cqrs::domain::query::AggregateQuery;
use cqrs::domain::{Aggregate, AggregateVersion, HydratedAggregate};
use cqrs::okazis::trivial::NopEventDecorator;
use vstd::seq::Seq;

#[derive(Clone, Copy, Debug, PartialEq, Eq)]
struct Tally(u64);

impl Aggregate for Tally {
    type Event = u64;
    type Command = u64;
    type CommandError = &'static str;

    fn initial() -> Self {
        unreachable!()
    }

    fn applied(self, _event: u64) -> Self {
        unreachable!()
    }

    fn executed(self, _command: u64) -> Result<Seq<u64>, &'static str> {
        unreachable!()
    }

    fn default() -> Self {
        Tally(0)
    }

    fn apply(&mut self, event: u64) {
        self.0 += event;
    }

    fn execute(&self, command: u64) -> Result<Vec<u64>, &'static str> {
        if command == 0 {
            Err("nothing to add")
        } else {
            Ok(vec![command])
        }
    }
}

/// A view that has no aggregate.
struct EmptyView;

impl AggregateQuery<Tally> for EmptyView {
    type AggregateId = u8;
    type Error = &'static str;

    fn rehydrate_spec(&self, _agg_id: u8) -> Result<Option<HydratedAggregate<Tally>>, &'static str> {
        unreachable!()
    }

    fn rehydrate(&self, _agg_id: &u8) -> Result<Option<HydratedAggregate<Tally>>, &'static str> {
        Ok(None)
    }
}

#[test]
fn an_executor_keeps_its_view_when_given_a_decorator() {
    let executor = CommandExecutor::<Tally, EmptyView>::from_view(EmptyView);
    let r = executor.execute_on_current_or_default(&1, 4).unwrap();
    assert_eq!(r.hydrated_aggregate.aggregate, Tally(0));
    assert!(matches!(r.hydrated_aggregate.version, AggregateVersion::Initial));
    assert_eq!(r.command_events, vec![4]);

    let decorated = executor.with_decorator::<NopEventDecorator<u64>>();
    assert_eq!(decorated.view.rehydrate(&1), Ok(None));
}
