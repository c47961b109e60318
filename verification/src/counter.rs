//! The registry-wide identifier counter.
//!
//! A single persisted counter hands out metadata-key identifiers by
//! fetch-and-increment; it is capped at the representable maximum and
//! refuses to wrap.

use vstd::prelude::*;

use crate::constants::COUNTER_SIZE;
use crate::errors::MythicMetadataError;

verus! {

/// The persisted identifier counter.
#[derive(Clone, Copy, Debug, PartialEq, Eq, Structural)]
pub struct Counter {
    /// Address-derivation bump supplied by the host.
    pub bump: u8,
    /// The next identifier to hand out.
    pub id: u64,
}

impl Counter {
    /// The serialized byte footprint of the counter.
    pub fn size() -> (size: usize)
        ensures
            size == COUNTER_SIZE,
    {
        8 + 1 + 8
    }

    /// The counter can still hand out an identifier.
    pub fn validate(&self) -> (result: Result<(), MythicMetadataError>)
        ensures
            result is Ok <==> self.id != u64::MAX,
            result is Err ==> result == Err::<(), MythicMetadataError>(
                MythicMetadataError::CounterIdReachedMax,
            ),
    {
        if self.id == u64::MAX {
            return Err(MythicMetadataError::CounterIdReachedMax);
        }
        Ok(())
    }

    /// Fetch-and-increment: hands out the current identifier and advances
    /// the counter, refusing once the maximum is reached.
    pub fn next_id(&mut self) -> (result: Result<u64, MythicMetadataError>)
        ensures
            old(self).id == u64::MAX ==> result == Err::<u64, MythicMetadataError>(
                MythicMetadataError::CounterIdReachedMax,
            ) && *final(self) == *old(self),
            old(self).id != u64::MAX ==> result == Ok::<u64, MythicMetadataError>(old(self).id)
                && final(self).id == old(self).id + 1 && final(self).bump == old(self).bump,
    {
        if self.id == u64::MAX {
            return Err(MythicMetadataError::CounterIdReachedMax);
        }
        let id = self.id;
        self.id = id + 1;
        Ok(id)
    }
}

/// A fresh counter; the first identifier it hands out is 1.
pub fn initialize_counter(bump: u8) -> (counter: Counter)
    ensures
        counter.bump == bump,
        counter.id == 1,
{
    Counter { bump, id: 1 }
}

} // verus!
