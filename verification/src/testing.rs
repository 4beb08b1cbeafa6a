//! Minimal aggregate, event, command and id types for exercising the stores.
use vstd::prelude::*;
use crate::types::AggregateId;

verus! {

/// A test aggregate with no state.
#[derive(Clone, Copy, Debug, Default, PartialEq, Eq, Structural)]
pub struct TestAggregate;

/// A test event with no data.
#[derive(Clone, Copy, Debug, Default, PartialEq, Eq, Structural)]
pub struct TestEvent;

/// Test metadata with no data.
#[derive(Clone, Copy, Debug, Default, PartialEq, Eq, Structural)]
pub struct TestMetadata;

/// A test command with no data.
#[derive(Clone, Copy, Debug, Default, PartialEq, Eq, Structural)]
pub struct TestCommand;

/// A test view with no data.
#[derive(Clone, Copy, Debug, Default, PartialEq, Eq, Structural)]
pub struct TestView;

/// A test identifier.
#[derive(Clone, Copy, Debug, Default, PartialEq, Eq)]
pub struct TestId<'a>(pub &'a str);

impl<'a> AggregateId<TestAggregate> for TestId<'a> {
    open spec fn id(&self) -> Seq<char> {
        self.0@
    }

    fn as_str(&self) -> (s: &str) {
        self.0
    }
}

impl TestAggregate {
    /// The type name of the aggregate.
    pub fn aggregate_type() -> (s: &'static str)
        ensures
            s@ == "test"@,
    {
        "test"
    }
}

impl TestCommand {
    /// Executes the command: it never fails and produces no events.
    pub fn execute_on(self, _aggregate: &TestAggregate) -> (r: Result<Vec<TestEvent>, crate::okazis::Never>)
        ensures
            r matches Ok(v) && v@.len() == 0,
    {
        Ok(Vec::new())
    }
}

impl TestEvent {
    /// The event's type name.
    pub fn event_type(&self) -> (s: &'static str)
        ensures
            s@ == "test"@,
    {
        "test"
    }

    /// Applying the event leaves the aggregate as it is.
    pub fn apply_to(&self, _aggregate: &mut TestAggregate)
        ensures
            *final(_aggregate) == *old(_aggregate),
    {
    }
}

impl TestView {
    /// Applying events leaves the view as it is.
    pub fn apply_events(&mut self, _events: &Vec<TestEvent>)
        ensures
            *final(self) == *old(self),
    {
    }
}

} // verus!
