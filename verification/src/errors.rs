//! The registry's error taxonomy.

use vstd::prelude::*;

verus! {

/// Every way a registry operation can fail.
///
/// All failures are terminal and synchronous: an operation that returns one
/// of these has left the record exactly as it found it.
#[derive(Clone, Copy, Debug, PartialEq, Eq, Structural)]
pub enum MythicMetadataError {
    /// The identifier counter has reached the representable maximum.
    CounterIdReachedMax,
    /// The backing account is not owned by this registry.
    InvalidAccountOwner,
    /// The caller is not the effective update authority of the target scope.
    Unauthorized,
    /// A `None` update authority was met on the resolution path.
    ImmutableMetadata,
    /// A metadata-key field exceeds its length bound.
    InvalidMetadataKey,
    /// The record already holds the maximum number of collections.
    MetadataCollectionFull,
    /// A collection with the given identifier already exists.
    MetadataCollectionAlreadyExists,
    /// No collection with the given identifier exists.
    MetadataCollectionNonExistent,
    /// The target container already holds the maximum number of items.
    MetadataItemFull,
    /// An item with the given identifier already exists in the container.
    MetadataItemAlreadyExists,
    /// No item with the given identifier exists in the container.
    MetadataItemNonExistent,
    /// The supplied item value exceeds the length bound.
    MetadataItemValueLenExceeded,
}

} // verus!
