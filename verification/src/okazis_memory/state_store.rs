//! An in-memory store of snapshots, one per aggregate.
use vstd::prelude::*;
use crate::okazis::Never;
use super::key_model;
use std::collections::hash_map::RandomState;
use std::collections::HashMap;
use std::hash::{BuildHasher, Hash};

verus! {

broadcast use vstd::std_specs::hash::group_hash_axioms;

/// A snapshot as stored, with the version it was taken at.
#[derive(Debug, Clone, Copy, Hash, PartialEq)]
pub struct PersistedSnapshot<Version, State> {
    pub version: Version,
    pub data: State,
}

/// Snapshots kept in memory, keyed by aggregate id.
#[verifier::reject_recursive_types(AggregateId)]
#[verifier::reject_recursive_types(Version)]
#[verifier::reject_recursive_types(State)]
#[verifier::reject_recursive_types(Hasher)]
#[derive(Debug)]
pub struct MemoryStateStore<AggregateId, Version, State, Hasher = RandomState> where
    AggregateId: Eq + Hash,
    Hasher: BuildHasher,
 {
    data: HashMap<AggregateId, PersistedSnapshot<Version, State>, Hasher>,
}

impl<AggregateId, Version, State, Hasher> View for MemoryStateStore<
    AggregateId,
    Version,
    State,
    Hasher,
> where AggregateId: Eq + Hash, Hasher: BuildHasher {
    type V = Map<AggregateId, PersistedSnapshot<Version, State>>;

    closed spec fn view(&self) -> Map<AggregateId, PersistedSnapshot<Version, State>> {
        self.data@
    }
}

impl<AggregateId, Version, State, Hasher> Default for MemoryStateStore<
    AggregateId,
    Version,
    State,
    Hasher,
> where AggregateId: Eq + Hash, Hasher: BuildHasher + Default {
    fn default() -> (s: Self)
        ensures
            s@ == Map::<AggregateId, PersistedSnapshot<Version, State>>::empty(),
    {
        MemoryStateStore { data: HashMap::default() }
    }
}

impl<AggregateId, Version, State, Hasher> MemoryStateStore<AggregateId, Version, State, Hasher> where
    AggregateId: Eq + Hash + Copy,
    Version: Copy,
    State: Clone,
    Hasher: BuildHasher,
 {
    /// The snapshot of `agg_id`, if one was stored: its version, and a clone
    /// of its state.
    pub fn get_state(&self, agg_id: &AggregateId) -> (r: Result<
        Option<PersistedSnapshot<Version, State>>,
        Never,
    >)
        ensures
            key_model::<AggregateId, Hasher>() ==> match r {
                Ok(Some(s)) => {
                    &&& self@.contains_key(*agg_id)
                    &&& s.version == self@[*agg_id].version
                    &&& cloned(self@[*agg_id].data, s.data)
                },
                Ok(None) => !self@.contains_key(*agg_id),
                Err(_) => false,
            },
    {
        match self.data.get(agg_id) {
            Some(s) => Ok(Some(PersistedSnapshot { version: s.version, data: s.data.clone() })),
            None => Ok(None),
        }
    }

    /// Stores `state` taken at `version` as the snapshot of `agg_id`,
    /// replacing any earlier one.
    pub fn put_state(&mut self, agg_id: &AggregateId, version: Version, state: State) -> (r: Result<
        (),
        Never,
    >)
        ensures
            r is Ok,
            key_model::<AggregateId, Hasher>() ==> final(self)@ == old(self)@.insert(
                *agg_id,
                PersistedSnapshot { version, data: state },
            ),
    {
        let new_val = PersistedSnapshot { version, data: state };
        self.data.insert(*agg_id, new_val);
        Ok(())
    }
}

} // verus!
