//! In-memory event and state stores.
use vstd::prelude::*;

pub mod event_store;
pub mod event_stream;
pub mod state_store;

pub use event_store::MemoryEventStore;
pub use event_stream::{EventStream, MemoryEventStream, PersistedEvent, ReadError, Since};
pub use state_store::{MemoryStateStore, PersistedSnapshot};

verus! {

/// The error type of operations that cannot fail; it has no values.
pub type Never = crate::okazis::Never;

/// Whether the key type and hasher behave as the map model of `HashMap`
/// assumes; true of the integer key types with `RandomState`.
pub open spec fn key_model<AggregateId, Hasher>() -> bool {
    &&& vstd::std_specs::hash::obeys_key_model::<AggregateId>()
    &&& vstd::std_specs::hash::builds_valid_hashers::<Hasher>()
}

} // verus!
