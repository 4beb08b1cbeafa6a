//! Executing a command against an aggregate loaded through a view, after
//! checking a precondition on the loaded state.
use vstd::prelude::*;
use super::query::AggregateQuery;
use super::{Aggregate, AggregatePrecondition, ExecuteError, HydratedAggregate};
use core::marker::PhantomData;

verus! {

/// A loaded aggregate together with the events a command produced against it.
pub struct AggregateWithNewEvents<Agg: Aggregate> {
    pub hydrated_aggregate: HydratedAggregate<Agg>,
    pub command_events: Vec<Agg::Event>,
}

/// The outcome of an execution, taken by its view.
pub open spec fn execute_view<Agg: Aggregate, E>(r: Result<AggregateWithNewEvents<Agg>, E>) -> Result<
    (HydratedAggregate<Agg>, Seq<Agg::Event>),
    E,
> {
    match r {
        Ok(a) => Ok((a.hydrated_aggregate, a.command_events@)),
        Err(e) => Err(e),
    }
}

/// Executes commands against aggregates it loads itself.
pub trait Executor<Agg: Aggregate>: Sized {
    type AggregateId;
    type Error;

    /// What `execute` gives back.
    spec fn execute_spec(
        &self,
        agg_id: Self::AggregateId,
        command: Agg::Command,
        precondition: Option<AggregatePrecondition>,
    ) -> Result<(HydratedAggregate<Agg>, Seq<Agg::Event>), ExecuteError<Agg::CommandError, Self::Error>>;

    fn execute(
        &self,
        agg_id: &Self::AggregateId,
        command: Agg::Command,
        precondition: Option<AggregatePrecondition>,
    ) -> (r: Result<AggregateWithNewEvents<Agg>, ExecuteError<Agg::CommandError, Self::Error>>)
        ensures
            execute_view(r) == self.execute_spec(*agg_id, command, precondition),
    ;
}

/// The state a command runs against, given what was loaded and the
/// precondition: `New` accepts only a missing aggregate (starting from the
/// initial one), `Exists` only a present one, `ExpectedVersion` only a present
/// one at that version; without a precondition a missing aggregate starts
/// from the initial one.
pub open spec fn checked_state<Agg: Aggregate, CErr, LErr>(
    state_opt: Option<HydratedAggregate<Agg>>,
    precondition: Option<AggregatePrecondition>,
) -> Result<HydratedAggregate<Agg>, ExecuteError<CErr, LErr>> {
    match precondition {
        Some(p) => match state_opt {
            Some(state) => match p {
                AggregatePrecondition::Exists => Ok(state),
                AggregatePrecondition::ExpectedVersion(v) => if v == state.version {
                    Ok(state)
                } else {
                    Err(ExecuteError::PreconditionFailed(p))
                },
                AggregatePrecondition::New => Err(ExecuteError::PreconditionFailed(p)),
            },
            None => if p == AggregatePrecondition::New {
                Ok(HydratedAggregate::initial())
            } else {
                Err(ExecuteError::PreconditionFailed(p))
            },
        },
        None => match state_opt {
            Some(state) => Ok(state),
            None => Ok(HydratedAggregate::initial()),
        },
    }
}

/// Each precondition admits exactly the loaded states it names: `New` only a
/// missing aggregate, which then starts from the initial one; `Exists` only a
/// present one; `ExpectedVersion(v)` only a present one at version `v`. A
/// precondition that does not hold fails with itself, and with no
/// precondition a missing aggregate starts from the initial one.
pub proof fn law_preconditions_admit_what_they_name<Agg: Aggregate, CErr, LErr>(
    state_opt: Option<HydratedAggregate<Agg>>,
    v: super::AggregateVersion,
)
    ensures
        checked_state::<Agg, CErr, LErr>(state_opt, Some(AggregatePrecondition::ExpectedVersion(v))) == if state_opt
            matches Some(s) && s.version == v {
            Ok::<HydratedAggregate<Agg>, ExecuteError<CErr, LErr>>(state_opt->Some_0)
        } else {
            Err(ExecuteError::PreconditionFailed(AggregatePrecondition::ExpectedVersion(v)))
        },
        checked_state::<Agg, CErr, LErr>(state_opt, Some(AggregatePrecondition::Exists)) == match state_opt {
            Some(s) => Ok::<HydratedAggregate<Agg>, ExecuteError<CErr, LErr>>(s),
            None => Err(ExecuteError::PreconditionFailed(AggregatePrecondition::Exists)),
        },
        checked_state::<Agg, CErr, LErr>(state_opt, Some(AggregatePrecondition::New)) == match state_opt {
            Some(_) => Err(ExecuteError::PreconditionFailed(AggregatePrecondition::New)),
            None => Ok::<HydratedAggregate<Agg>, ExecuteError<CErr, LErr>>(HydratedAggregate::initial()),
        },
        checked_state::<Agg, CErr, LErr>(state_opt, None) == match state_opt {
            Some(s) => Ok::<HydratedAggregate<Agg>, ExecuteError<CErr, LErr>>(s),
            None => Ok(HydratedAggregate::initial()),
        },
{
}

/// Executes commands against aggregates loaded through a view.
pub struct ViewExecutor<Agg, View> {
    pub view: View,
    pub _phantom: PhantomData<Agg>,
}

impl<Agg, View> ViewExecutor<Agg, View> where Agg: Aggregate, View: AggregateQuery<Agg> {
    pub fn new(view: View) -> (e: Self)
        ensures
            e.view == view,
    {
        ViewExecutor { view, _phantom: PhantomData }
    }

    /// The state the command runs against, or the failed precondition.
    pub fn verify_precondition(
        state_opt: Option<HydratedAggregate<Agg>>,
        precondition: Option<AggregatePrecondition>,
    ) -> (r: Result<HydratedAggregate<Agg>, ExecuteError<Agg::CommandError, View::Error>>)
        ensures
            r == checked_state::<Agg, Agg::CommandError, View::Error>(state_opt, precondition),
    {
        match precondition {
            Some(p) => match state_opt {
                Some(state) => match p {
                    AggregatePrecondition::Exists => Ok(state),
                    AggregatePrecondition::ExpectedVersion(v) => {
                        if v == state.get_version() {
                            Ok(state)
                        } else {
                            Err(ExecuteError::PreconditionFailed(p))
                        }
                    },
                    AggregatePrecondition::New => Err(ExecuteError::PreconditionFailed(p)),
                },
                None => {
                    if p == AggregatePrecondition::New {
                        Ok(HydratedAggregate::default())
                    } else {
                        Err(ExecuteError::PreconditionFailed(p))
                    }
                },
            },
            None => match state_opt {
                Some(state) => Ok(state),
                None => Ok(HydratedAggregate::default()),
            },
        }
    }
}

impl<Agg, View> ViewExecutor<Agg, View> where Agg: Aggregate, View: AggregateQuery<Agg> {
    /// A command runs under `ExpectedVersion(v)` only against an aggregate
    /// loaded at version `v`: if the view loads it at another version, or
    /// loads none, execution fails with that precondition; when it succeeds,
    /// the command ran against the loaded aggregate, which is at version `v`.
    pub proof fn law_expected_version_is_checked(
        self,
        agg_id: View::AggregateId,
        command: Agg::Command,
        v: super::AggregateVersion,
    )
        ensures
            self.view.rehydrate_spec(agg_id) is Err ==> self.execute_spec(
                agg_id,
                command,
                Some(AggregatePrecondition::ExpectedVersion(v)),
            ) == Err::<(HydratedAggregate<Agg>, Seq<Agg::Event>), ExecuteError<Agg::CommandError, View::Error>>(
                ExecuteError::Load(self.view.rehydrate_spec(agg_id)->Err_0),
            ),
            ({
                let r = self.execute_spec(agg_id, command, Some(AggregatePrecondition::ExpectedVersion(v)));
                let loaded = self.view.rehydrate_spec(agg_id);
                &&& (loaded is Ok && (loaded->Ok_0 is None || loaded->Ok_0->Some_0.version != v)) ==> r == Err::<
                    (HydratedAggregate<Agg>, Seq<Agg::Event>),
                    ExecuteError<Agg::CommandError, View::Error>,
                >(ExecuteError::PreconditionFailed(AggregatePrecondition::ExpectedVersion(v)))
                &&& r matches Ok((state, events)) ==> {
                    &&& self.view.rehydrate_spec(agg_id) == Ok::<
                        Option<HydratedAggregate<Agg>>,
                        View::Error,
                    >(Some(state))
                    &&& state.version == v
                    &&& state.aggregate.executed(command) == Ok::<Seq<Agg::Event>, Agg::CommandError>(events)
                }
            }),
    {
    }
}

impl<Agg, View> Executor<Agg> for ViewExecutor<Agg, View> where
    Agg: Aggregate,
    View: AggregateQuery<Agg>,
 {
    type AggregateId = View::AggregateId;
    type Error = View::Error;

    open spec fn execute_spec(
        &self,
        agg_id: View::AggregateId,
        command: Agg::Command,
        precondition: Option<AggregatePrecondition>,
    ) -> Result<(HydratedAggregate<Agg>, Seq<Agg::Event>), ExecuteError<Agg::CommandError, View::Error>> {
        match self.view.rehydrate_spec(agg_id) {
            Err(e) => Err(ExecuteError::Load(e)),
            Ok(loaded) => match checked_state::<Agg, Agg::CommandError, View::Error>(
                loaded,
                precondition,
            ) {
                Err(e) => Err(e),
                Ok(state) => match state.aggregate.executed(command) {
                    Err(e) => Err(ExecuteError::Command(e)),
                    Ok(events) => Ok((state, events)),
                },
            },
        }
    }

    /// Loads the aggregate, checks `precondition` on it, and executes `command`.
    fn execute(
        &self,
        agg_id: &View::AggregateId,
        command: Agg::Command,
        precondition: Option<AggregatePrecondition>,
    ) -> (r: Result<AggregateWithNewEvents<Agg>, ExecuteError<Agg::CommandError, View::Error>>) {
        let loaded_aggregate = match self.view.rehydrate(agg_id) {
            Ok(l) => l,
            Err(e) => return Err(ExecuteError::Load(e)),
        };
        let hydrated_aggregate = match Self::verify_precondition(loaded_aggregate, precondition) {
            Ok(h) => h,
            Err(e) => return Err(e),
        };
        let command_events = match hydrated_aggregate.aggregate.execute(command) {
            Ok(events) => events,
            Err(e) => return Err(ExecuteError::Command(e)),
        };
        Ok(AggregateWithNewEvents { hydrated_aggregate, command_events })
    }
}

} // verus!
