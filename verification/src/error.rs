//! The error of appending events to a stream.
use vstd::prelude::*;
use crate::types::Precondition;

verus! {

/// Why appending events failed.
#[derive(Debug, Clone, Hash, PartialEq)]
pub enum AppendEventsError<WriteErr> {
    /// The stream was not in the state the precondition asked for.
    PreconditionFailed(Precondition),
    /// The sink failed to write.
    WriteError(WriteErr),
}

impl<WriteErr> AppendEventsError<WriteErr> {
    /// A short description of the kind of failure.
    pub fn description(&self) -> (s: &'static str)
        ensures
            s@ == match self {
                AppendEventsError::PreconditionFailed(_) => "precondition failed"@,
                AppendEventsError::WriteError(_) => "error appending events"@,
            },
    {
        proof {
            reveal_strlit("precondition failed");
            reveal_strlit("error appending events");
        }
        match self {
            AppendEventsError::PreconditionFailed(_) => "precondition failed",
            AppendEventsError::WriteError(_) => "error appending events",
        }
    }

    /// The underlying write error, if that is the kind of failure.
    pub fn cause(&self) -> (c: Option<&WriteErr>)
        ensures
            match self {
                AppendEventsError::WriteError(e) => c == Some(e),
                AppendEventsError::PreconditionFailed(_) => c is None,
            },
    {
        match self {
            AppendEventsError::WriteError(e) => Some(e),
            AppendEventsError::PreconditionFailed(_) => None,
        }
    }
}

impl<WriteErr> From<Precondition> for AppendEventsError<WriteErr> {
    fn from(p: Precondition) -> (e: Self) {
        AppendEventsError::PreconditionFailed(p)
    }
}

impl<WriteErr> vstd::std_specs::convert::FromSpecImpl<Precondition> for AppendEventsError<WriteErr> {
    open spec fn obeys_from_spec() -> bool {
        true
    }

    open spec fn from_spec(p: Precondition) -> Self {
        AppendEventsError::PreconditionFailed(p)
    }
}

} // verus!
