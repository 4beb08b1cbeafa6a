//! Providers of fresh aggregate ids.
use vstd::prelude::*;
use std::sync::atomic::AtomicUsize;

verus! {

/// Hands out ids for new aggregates.
pub trait AggregateIdProvider {
    type AggregateId;

    fn new_id(&self) -> Self::AggregateId;
}

/// Hands out consecutive `usize` ids from a shared atomic counter.
#[derive(Debug, Default)]
pub struct UsizeIdProvider(pub AtomicUsize);

impl AggregateIdProvider for UsizeIdProvider {
    type AggregateId = usize;

    /// The counter's value before an atomic increment; which value a call
    /// gets depends on the calls made before it, from any thread.
    fn new_id(&self) -> usize {
        self.0.fetch_add(1, std::sync::atomic::Ordering::SeqCst)
    }
}

} // verus!
