//! Capacity maxima and persisted-layout size constants.

use vstd::prelude::*;

verus! {

/// Longest accepted metadata-key name, in characters.
pub const MAX_NAME_LEN: usize = 30;

/// Longest accepted metadata-key label, in characters.
pub const MAX_LABEL_LEN: usize = 50;

/// Longest accepted metadata-key description, in characters.
pub const MAX_DESCRIPTION_LEN: usize = 100;

/// Longest accepted metadata-key content type, in characters.
pub const MAX_CONTENT_TYPE_LEN: usize = 20;

/// Longest accepted serialized item value, in bytes.
pub const MAX_VALUE_LEN: usize = 10000;

/// Most collections a metadata record may hold.
pub const MAX_COLLECTIONS_PER_METADATA: usize = 100;

/// Most items a single container (the root or one collection) may hold.
pub const MAX_ITEMS_PER_COLLECTION: usize = 100;

/// Fixed serialized footprint of one item besides its value bytes:
/// metadata-key identifier (8), update slot (8), value length prefix (4).
pub const METADATA_ITEM_BASE_SIZE: usize = 20;

/// Fixed serialized footprint of one collection besides its items:
/// metadata-key identifier (8), update slot (8), optional authority (33),
/// item-count prefix (4).
pub const METADATA_COLLECTION_BASE_SIZE: usize = 53;

/// Fixed serialized footprint of a record besides its items and
/// collections: discriminator (8), metadata-key identifier (8), subject
/// (32), issuing authority (32), optional update authority (33), update
/// slot (8), two container-count prefixes (4 + 4), bump (1).
pub const METADATA_BASE_SIZE: usize = 130;

/// Fixed serialized footprint of a metadata key besides its four strings:
/// discriminator (8), identifier (8), namespace authority (32), four
/// string length prefixes (16), bump (1).
pub const METADATA_KEY_BASE_SIZE: usize = 65;

/// Serialized footprint of the identifier counter: discriminator (8),
/// bump (1), identifier (8).
pub const COUNTER_SIZE: usize = 17;

} // verus!
