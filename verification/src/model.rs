//! The specification model of the registry.
//!
//! Every mutating operation is specified here as a total function from a
//! record view and the call's arguments to either the successor view or
//! the exact error. The executable operations in [`crate::instructions`]
//! promise to agree with these functions on every input, so all reasoning
//! about the registry — including the laws in [`crate::laws`] — happens
//! over this model.
//!
//! Authority is resolved the same way for every operation:
//! 1. a record whose root authority is `None` is entirely immutable —
//!    checked before anything else;
//! 2. a call whose collection identifier equals the record's own
//!    identifier targets the root, and the caller must be the root
//!    authority;
//! 3. any other call targets the named collection, and the caller must be
//!    its effective authority: the collection's own if set — which fully
//!    shadows the root's — else the root's.

use vstd::prelude::*;

use crate::constants::MAX_COLLECTIONS_PER_METADATA;
use crate::constants::MAX_ITEMS_PER_COLLECTION;
use crate::constants::MAX_VALUE_LEN;
use crate::errors::MythicMetadataError;
use crate::ordered::contains_key_id;
use crate::ordered::index_of_key_id;
use crate::ordered::insert_sorted_by_key;
use crate::principal::Principal;
use crate::state::MetadataCollectionView;
use crate::state::MetadataItemView;
use crate::state::MetadataView;

verus! {

/// The call targets the root's own item container rather than a nested
/// collection.
pub open spec fn targets_root(m: MetadataView, collection_metadata_key_id: u64) -> bool {
    collection_metadata_key_id == m.metadata_key_id
}

/// The authority that effectively governs a collection: its own when set,
/// else the root's.
pub open spec fn effective_update_authority(
    m: MetadataView,
    collection: MetadataCollectionView,
) -> Option<Principal> {
    if collection.update_authority is Some {
        collection.update_authority
    } else {
        m.update_authority
    }
}

/// Root-scope authority check: `Err` when the record is immutable,
/// otherwise whether `caller` is the root authority.
pub open spec fn spec_verify_metadata_update_authority(
    m: MetadataView,
    caller: Principal,
) -> Result<bool, MythicMetadataError> {
    if m.update_authority is None {
        Err(MythicMetadataError::ImmutableMetadata)
    } else {
        Ok(m.update_authority == Some(caller))
    }
}

/// Collection-scope authority resolution: the index of the collection the
/// caller may mutate, or the exact refusal.
pub open spec fn spec_resolve_collection(
    m: MetadataView,
    collection_metadata_key_id: u64,
    caller: Principal,
) -> Result<int, MythicMetadataError> {
    if m.update_authority is None {
        Err(MythicMetadataError::ImmutableMetadata)
    } else if !contains_key_id(m.collections, collection_metadata_key_id) {
        Err(MythicMetadataError::MetadataCollectionNonExistent)
    } else {
        let k = index_of_key_id(m.collections, collection_metadata_key_id);
        if effective_update_authority(m, m.collections[k]) != Some(caller) {
            Err(MythicMetadataError::Unauthorized)
        } else {
            Ok(k)
        }
    }
}

// ---------------------------------------------------------------------------
// Container-level mutations
// ---------------------------------------------------------------------------

/// Insert an item into one sorted container: membership, then capacity,
/// then the value bound, then the ordered insert.
pub open spec fn spec_append_to_items(
    items: Seq<MetadataItemView>,
    item_metadata_key_id: u64,
    value: Seq<u8>,
    slot: u64,
) -> Result<Seq<MetadataItemView>, MythicMetadataError> {
    if contains_key_id(items, item_metadata_key_id) {
        Err(MythicMetadataError::MetadataItemAlreadyExists)
    } else if items.len() >= MAX_ITEMS_PER_COLLECTION {
        Err(MythicMetadataError::MetadataItemFull)
    } else if value.len() > MAX_VALUE_LEN {
        Err(MythicMetadataError::MetadataItemValueLenExceeded)
    } else {
        Ok(
            insert_sorted_by_key(
                items,
                MetadataItemView { metadata_key_id: item_metadata_key_id, update_slot: slot, value },
            ),
        )
    }
}

/// Replace the value of an existing item in one sorted container.
pub open spec fn spec_update_in_items(
    items: Seq<MetadataItemView>,
    item_metadata_key_id: u64,
    new_value: Seq<u8>,
    slot: u64,
) -> Result<Seq<MetadataItemView>, MythicMetadataError> {
    if !contains_key_id(items, item_metadata_key_id) {
        Err(MythicMetadataError::MetadataItemNonExistent)
    } else if new_value.len() > MAX_VALUE_LEN {
        Err(MythicMetadataError::MetadataItemValueLenExceeded)
    } else {
        let k = index_of_key_id(items, item_metadata_key_id);
        Ok(
            items.update(
                k,
                MetadataItemView {
                    metadata_key_id: item_metadata_key_id,
                    update_slot: slot,
                    value: new_value,
                },
            ),
        )
    }
}

/// Remove an existing item from one sorted container.
pub open spec fn spec_remove_from_items(
    items: Seq<MetadataItemView>,
    item_metadata_key_id: u64,
) -> Result<Seq<MetadataItemView>, MythicMetadataError> {
    if !contains_key_id(items, item_metadata_key_id) {
        Err(MythicMetadataError::MetadataItemNonExistent)
    } else {
        Ok(items.remove(index_of_key_id(items, item_metadata_key_id)))
    }
}

// ---------------------------------------------------------------------------
// Operations
// ---------------------------------------------------------------------------

/// Append an empty collection under the root authority.
///
/// The root's own identifier is never accepted as a collection identifier:
/// it already addresses the root's item container, so a collection reusing
/// it is reported as already existing.
pub open spec fn spec_append_metadata_collection(
    m: MetadataView,
    collection_metadata_key_id: u64,
    update_authority: Option<Principal>,
    caller: Principal,
    slot: u64,
) -> Result<MetadataView, MythicMetadataError> {
    if m.update_authority is None {
        Err(MythicMetadataError::ImmutableMetadata)
    } else if m.update_authority != Some(caller) {
        Err(MythicMetadataError::Unauthorized)
    } else if targets_root(m, collection_metadata_key_id) || contains_key_id(
        m.collections,
        collection_metadata_key_id,
    ) {
        Err(MythicMetadataError::MetadataCollectionAlreadyExists)
    } else if m.collections.len() >= MAX_COLLECTIONS_PER_METADATA {
        Err(MythicMetadataError::MetadataCollectionFull)
    } else {
        Ok(
            MetadataView {
                collections: insert_sorted_by_key(
                    m.collections,
                    MetadataCollectionView {
                        metadata_key_id: collection_metadata_key_id,
                        update_slot: slot,
                        update_authority,
                        items: Seq::empty(),
                    },
                ),
                ..m
            },
        )
    }
}

/// Remove a collection; the caller must be its effective authority.
pub open spec fn spec_remove_metadata_collection(
    m: MetadataView,
    collection_metadata_key_id: u64,
    caller: Principal,
) -> Result<MetadataView, MythicMetadataError> {
    if m.update_authority is None {
        Err(MythicMetadataError::ImmutableMetadata)
    } else if targets_root(m, collection_metadata_key_id) {
        Err(MythicMetadataError::MetadataCollectionNonExistent)
    } else {
        match spec_resolve_collection(m, collection_metadata_key_id, caller) {
            Ok(k) => Ok(MetadataView { collections: m.collections.remove(k), ..m }),
            Err(e) => Err(e),
        }
    }
}

/// Hand a scope's update authority to `new_update_authority`.
pub open spec fn spec_set_collection_update_authority(
    m: MetadataView,
    collection_metadata_key_id: u64,
    new_update_authority: Principal,
    caller: Principal,
) -> Result<MetadataView, MythicMetadataError> {
    if m.update_authority is None {
        Err(MythicMetadataError::ImmutableMetadata)
    } else if targets_root(m, collection_metadata_key_id) {
        if m.update_authority != Some(caller) {
            Err(MythicMetadataError::Unauthorized)
        } else {
            Ok(MetadataView { update_authority: Some(new_update_authority), ..m })
        }
    } else {
        match spec_resolve_collection(m, collection_metadata_key_id, caller) {
            Ok(k) => Ok(
                MetadataView {
                    collections: m.collections.update(
                        k,
                        MetadataCollectionView {
                            update_authority: Some(new_update_authority),
                            ..m.collections[k]
                        },
                    ),
                    ..m
                },
            ),
            Err(e) => Err(e),
        }
    }
}

/// Revoke a scope's update authority. Revoking the root's makes the whole
/// record permanently immutable.
pub open spec fn spec_revoke_collection_update_authority(
    m: MetadataView,
    collection_metadata_key_id: u64,
    caller: Principal,
) -> Result<MetadataView, MythicMetadataError> {
    if m.update_authority is None {
        Err(MythicMetadataError::ImmutableMetadata)
    } else if targets_root(m, collection_metadata_key_id) {
        if m.update_authority != Some(caller) {
            Err(MythicMetadataError::Unauthorized)
        } else {
            Ok(MetadataView { update_authority: None, ..m })
        }
    } else {
        match spec_resolve_collection(m, collection_metadata_key_id, caller) {
            Ok(k) => Ok(
                MetadataView {
                    collections: m.collections.update(
                        k,
                        MetadataCollectionView { update_authority: None, ..m.collections[k] },
                    ),
                    ..m
                },
            ),
            Err(e) => Err(e),
        }
    }
}

/// Append one item, to the root's container or to a collection's,
/// refreshing the touched container's update slot.
pub open spec fn spec_append_metadata_item(
    m: MetadataView,
    collection_metadata_key_id: u64,
    item_metadata_key_id: u64,
    value: Seq<u8>,
    caller: Principal,
    slot: u64,
) -> Result<MetadataView, MythicMetadataError> {
    if m.update_authority is None {
        Err(MythicMetadataError::ImmutableMetadata)
    } else if targets_root(m, collection_metadata_key_id) {
        if m.update_authority != Some(caller) {
            Err(MythicMetadataError::Unauthorized)
        } else {
            match spec_append_to_items(m.items, item_metadata_key_id, value, slot) {
                Ok(items) => Ok(MetadataView { items, update_slot: slot, ..m }),
                Err(e) => Err(e),
            }
        }
    } else {
        match spec_resolve_collection(m, collection_metadata_key_id, caller) {
            Ok(k) => match spec_append_to_items(
                m.collections[k].items,
                item_metadata_key_id,
                value,
                slot,
            ) {
                Ok(items) => Ok(
                    MetadataView {
                        collections: m.collections.update(
                            k,
                            MetadataCollectionView {
                                items,
                                update_slot: slot,
                                ..m.collections[k]
                            },
                        ),
                        ..m
                    },
                ),
                Err(e) => Err(e),
            },
            Err(e) => Err(e),
        }
    }
}

/// Append a batch of items strictly left to right; the first failure is
/// the batch's result. The executable operation applies a batch all or
/// nothing: on an error the record keeps its old state, never the prefix.
pub open spec fn spec_append_metadata_items(
    m: MetadataView,
    collection_metadata_key_id: u64,
    item_metadata_key_ids: Seq<u64>,
    values: Seq<Seq<u8>>,
    caller: Principal,
    slot: u64,
) -> Result<MetadataView, MythicMetadataError>
    decreases item_metadata_key_ids.len(),
{
    if item_metadata_key_ids.len() == 0 {
        Ok(m)
    } else {
        match spec_append_metadata_item(
            m,
            collection_metadata_key_id,
            item_metadata_key_ids[0],
            values[0],
            caller,
            slot,
        ) {
            Ok(next) => spec_append_metadata_items(
                next,
                collection_metadata_key_id,
                item_metadata_key_ids.drop_first(),
                values.drop_first(),
                caller,
                slot,
            ),
            Err(e) => Err(e),
        }
    }
}

/// Replace an existing item's value, refreshing the touched container's
/// update slot.
pub open spec fn spec_update_metadata_item(
    m: MetadataView,
    collection_metadata_key_id: u64,
    item_metadata_key_id: u64,
    new_value: Seq<u8>,
    caller: Principal,
    slot: u64,
) -> Result<MetadataView, MythicMetadataError> {
    if m.update_authority is None {
        Err(MythicMetadataError::ImmutableMetadata)
    } else if targets_root(m, collection_metadata_key_id) {
        if m.update_authority != Some(caller) {
            Err(MythicMetadataError::Unauthorized)
        } else {
            match spec_update_in_items(m.items, item_metadata_key_id, new_value, slot) {
                Ok(items) => Ok(MetadataView { items, update_slot: slot, ..m }),
                Err(e) => Err(e),
            }
        }
    } else {
        match spec_resolve_collection(m, collection_metadata_key_id, caller) {
            Ok(k) => match spec_update_in_items(
                m.collections[k].items,
                item_metadata_key_id,
                new_value,
                slot,
            ) {
                Ok(items) => Ok(
                    MetadataView {
                        collections: m.collections.update(
                            k,
                            MetadataCollectionView {
                                items,
                                update_slot: slot,
                                ..m.collections[k]
                            },
                        ),
                        ..m
                    },
                ),
                Err(e) => Err(e),
            },
            Err(e) => Err(e),
        }
    }
}

/// Remove an existing item. The container's update slot is left as it
/// was: a removal erases the entry rather than recording a write to it.
pub open spec fn spec_remove_metadata_item(
    m: MetadataView,
    collection_metadata_key_id: u64,
    item_metadata_key_id: u64,
    caller: Principal,
) -> Result<MetadataView, MythicMetadataError> {
    if m.update_authority is None {
        Err(MythicMetadataError::ImmutableMetadata)
    } else if targets_root(m, collection_metadata_key_id) {
        if m.update_authority != Some(caller) {
            Err(MythicMetadataError::Unauthorized)
        } else {
            match spec_remove_from_items(m.items, item_metadata_key_id) {
                Ok(items) => Ok(MetadataView { items, ..m }),
                Err(e) => Err(e),
            }
        }
    } else {
        match spec_resolve_collection(m, collection_metadata_key_id, caller) {
            Ok(k) => match spec_remove_from_items(m.collections[k].items, item_metadata_key_id) {
                Ok(items) => Ok(
                    MetadataView {
                        collections: m.collections.update(
                            k,
                            MetadataCollectionView { items, ..m.collections[k] },
                        ),
                        ..m
                    },
                ),
                Err(e) => Err(e),
            },
            Err(e) => Err(e),
        }
    }
}

} // verus!
