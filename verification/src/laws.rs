//! Laws of the registry, proved over the specification model.
//!
//! The executable operations agree with the model exactly (see
//! [`crate::instructions`]) and leave the record untouched on every
//! error, so each statement here carries over to the running code.

use vstd::prelude::*;

use crate::constants::METADATA_ITEM_BASE_SIZE;
use crate::errors::MythicMetadataError;
use crate::model::effective_update_authority;
use crate::model::spec_append_metadata_collection;
use crate::model::spec_append_metadata_item;
use crate::model::spec_append_metadata_items;
use crate::model::spec_remove_metadata_collection;
use crate::model::spec_remove_metadata_item;
use crate::model::spec_resolve_collection;
use crate::model::spec_revoke_collection_update_authority;
use crate::model::spec_set_collection_update_authority;
use crate::model::spec_update_metadata_item;
use crate::model::targets_root;
use crate::ordered::HasKeyId;
use crate::ordered::contains_key_id;
use crate::ordered::index_of_key_id;
use crate::ordered::insert_sorted_by_key;
use crate::ordered::lemma_index_of_key_id;
use crate::ordered::lemma_insert_sorted_by_key_properties;
use crate::ordered::lemma_update_keeps_sorted;
use crate::principal::Principal;
use crate::sizes::lemma_collections_size_update;
use crate::sizes::lemma_items_size_insert_sorted;
use crate::sizes::spec_collection_size;
use crate::sizes::spec_metadata_size;
use crate::state::MetadataCollectionView;
use crate::state::MetadataItemView;
use crate::state::MetadataView;
use crate::state::metadata_wf;

verus! {

/// A record whose root authority is `None` refuses every mutation with
/// `ImmutableMetadata`, whatever the target scope, the caller, or the
/// collection's own authority.
pub proof fn lemma_immutable_record_rejects_mutations(
    m: MetadataView,
    collection_metadata_key_id: u64,
    item_metadata_key_id: u64,
    value: Seq<u8>,
    new_collection_authority: Option<Principal>,
    new_update_authority: Principal,
    item_metadata_key_ids: Seq<u64>,
    values: Seq<Seq<u8>>,
    caller: Principal,
    slot: u64,
)
    requires
        m.update_authority is None,
    ensures
        spec_append_metadata_collection(
            m,
            collection_metadata_key_id,
            new_collection_authority,
            caller,
            slot,
        ) == Err::<MetadataView, MythicMetadataError>(MythicMetadataError::ImmutableMetadata),
        spec_remove_metadata_collection(m, collection_metadata_key_id, caller) == Err::<
            MetadataView,
            MythicMetadataError,
        >(MythicMetadataError::ImmutableMetadata),
        spec_set_collection_update_authority(
            m,
            collection_metadata_key_id,
            new_update_authority,
            caller,
        ) == Err::<MetadataView, MythicMetadataError>(MythicMetadataError::ImmutableMetadata),
        spec_revoke_collection_update_authority(m, collection_metadata_key_id, caller) == Err::<
            MetadataView,
            MythicMetadataError,
        >(MythicMetadataError::ImmutableMetadata),
        spec_append_metadata_item(
            m,
            collection_metadata_key_id,
            item_metadata_key_id,
            value,
            caller,
            slot,
        ) == Err::<MetadataView, MythicMetadataError>(MythicMetadataError::ImmutableMetadata),
        spec_update_metadata_item(
            m,
            collection_metadata_key_id,
            item_metadata_key_id,
            value,
            caller,
            slot,
        ) == Err::<MetadataView, MythicMetadataError>(MythicMetadataError::ImmutableMetadata),
        spec_remove_metadata_item(
            m,
            collection_metadata_key_id,
            item_metadata_key_id,
            caller,
        ) == Err::<MetadataView, MythicMetadataError>(MythicMetadataError::ImmutableMetadata),
        item_metadata_key_ids.len() > 0 ==> spec_append_metadata_items(
            m,
            collection_metadata_key_id,
            item_metadata_key_ids,
            values,
            caller,
            slot,
        ) == Err::<MetadataView, MythicMetadataError>(MythicMetadataError::ImmutableMetadata),
{
}

/// Revoking the root's update authority is terminal: afterwards every
/// mutation of the record — of the root or of any collection, by any
/// caller — fails `ImmutableMetadata`.
pub proof fn lemma_revoked_root_makes_record_immutable(
    m: MetadataView,
    m1: MetadataView,
    revoker: Principal,
    collection_metadata_key_id: u64,
    item_metadata_key_id: u64,
    value: Seq<u8>,
    new_collection_authority: Option<Principal>,
    new_update_authority: Principal,
    item_metadata_key_ids: Seq<u64>,
    values: Seq<Seq<u8>>,
    caller: Principal,
    slot: u64,
)
    requires
        spec_revoke_collection_update_authority(m, m.metadata_key_id, revoker) == Ok::<
            MetadataView,
            MythicMetadataError,
        >(m1),
    ensures
        m1.update_authority is None,
        spec_append_metadata_collection(
            m1,
            collection_metadata_key_id,
            new_collection_authority,
            caller,
            slot,
        ) == Err::<MetadataView, MythicMetadataError>(MythicMetadataError::ImmutableMetadata),
        spec_remove_metadata_collection(m1, collection_metadata_key_id, caller) == Err::<
            MetadataView,
            MythicMetadataError,
        >(MythicMetadataError::ImmutableMetadata),
        spec_set_collection_update_authority(
            m1,
            collection_metadata_key_id,
            new_update_authority,
            caller,
        ) == Err::<MetadataView, MythicMetadataError>(MythicMetadataError::ImmutableMetadata),
        spec_revoke_collection_update_authority(m1, collection_metadata_key_id, caller) == Err::<
            MetadataView,
            MythicMetadataError,
        >(MythicMetadataError::ImmutableMetadata),
        spec_append_metadata_item(
            m1,
            collection_metadata_key_id,
            item_metadata_key_id,
            value,
            caller,
            slot,
        ) == Err::<MetadataView, MythicMetadataError>(MythicMetadataError::ImmutableMetadata),
        spec_update_metadata_item(
            m1,
            collection_metadata_key_id,
            item_metadata_key_id,
            value,
            caller,
            slot,
        ) == Err::<MetadataView, MythicMetadataError>(MythicMetadataError::ImmutableMetadata),
        spec_remove_metadata_item(
            m1,
            collection_metadata_key_id,
            item_metadata_key_id,
            caller,
        ) == Err::<MetadataView, MythicMetadataError>(MythicMetadataError::ImmutableMetadata),
        item_metadata_key_ids.len() > 0 ==> spec_append_metadata_items(
            m1,
            collection_metadata_key_id,
            item_metadata_key_ids,
            values,
            caller,
            slot,
        ) == Err::<MetadataView, MythicMetadataError>(MythicMetadataError::ImmutableMetadata),
{
    lemma_immutable_record_rejects_mutations(
        m1,
        collection_metadata_key_id,
        item_metadata_key_id,
        value,
        new_collection_authority,
        new_update_authority,
        item_metadata_key_ids,
        values,
        caller,
        slot,
    );
}

/// Appending the same item identifier twice fails: once the first append
/// succeeded, a second append under the same identifiers is refused with
/// `MetadataItemAlreadyExists` — whatever value or slot it carries. Since
/// every operation leaves the record untouched when it fails, the record
/// after the second call is exactly the record after the first.
pub proof fn lemma_append_item_twice_fails(
    m: MetadataView,
    m1: MetadataView,
    collection_metadata_key_id: u64,
    item_metadata_key_id: u64,
    value: Seq<u8>,
    second_value: Seq<u8>,
    caller: Principal,
    slot: u64,
    second_slot: u64,
)
    requires
        metadata_wf(m),
        spec_append_metadata_item(
            m,
            collection_metadata_key_id,
            item_metadata_key_id,
            value,
            caller,
            slot,
        ) == Ok::<MetadataView, MythicMetadataError>(m1),
    ensures
        spec_append_metadata_item(
            m1,
            collection_metadata_key_id,
            item_metadata_key_id,
            second_value,
            caller,
            second_slot,
        ) == Err::<MetadataView, MythicMetadataError>(
            MythicMetadataError::MetadataItemAlreadyExists,
        ),
{
    let item = MetadataItemView {
        metadata_key_id: item_metadata_key_id,
        update_slot: slot,
        value,
    };
    if targets_root(m, collection_metadata_key_id) {
        lemma_insert_sorted_by_key_properties(m.items, item);
        assert(m1.items == insert_sorted_by_key(m.items, item));
        assert(contains_key_id(m1.items, item_metadata_key_id));
    } else {
        let k = index_of_key_id(m.collections, collection_metadata_key_id);
        lemma_index_of_key_id(m.collections, collection_metadata_key_id);
        let c = m.collections[k];
        lemma_insert_sorted_by_key_properties(c.items, item);
        let c1 = MetadataCollectionView {
            items: insert_sorted_by_key(c.items, item),
            update_slot: slot,
            ..c
        };
        assert(m1.collections == m.collections.update(k, c1));
        lemma_update_keeps_sorted(m.collections, k, c1);
        assert(contains_key_id(m1.collections, collection_metadata_key_id));
        lemma_index_of_key_id(m1.collections, collection_metadata_key_id);
        assert(m1.collections[k].key_id() == collection_metadata_key_id);
        assert(index_of_key_id(m1.collections, collection_metadata_key_id) == k);
        assert(m1.collections[k] == c1);
        assert(effective_update_authority(m1, c1) == effective_update_authority(m, c));
        assert(contains_key_id(c1.items, item_metadata_key_id));
    }
}

/// Once a collection's authority is delegated, the delegate fully shadows
/// the root: any mutation of that collection attempted by the root
/// authority itself fails `Unauthorized`.
pub proof fn lemma_delegated_authority_shadows_root(
    m: MetadataView,
    m1: MetadataView,
    collection_metadata_key_id: u64,
    delegate: Principal,
    root_authority: Principal,
    item_metadata_key_id: u64,
    value: Seq<u8>,
    new_update_authority: Principal,
    slot: u64,
)
    requires
        metadata_wf(m),
        m.update_authority == Some(root_authority),
        delegate != root_authority,
        !targets_root(m, collection_metadata_key_id),
        spec_set_collection_update_authority(
            m,
            collection_metadata_key_id,
            delegate,
            root_authority,
        ) == Ok::<MetadataView, MythicMetadataError>(m1),
    ensures
        spec_append_metadata_item(
            m1,
            collection_metadata_key_id,
            item_metadata_key_id,
            value,
            root_authority,
            slot,
        ) == Err::<MetadataView, MythicMetadataError>(MythicMetadataError::Unauthorized),
        spec_update_metadata_item(
            m1,
            collection_metadata_key_id,
            item_metadata_key_id,
            value,
            root_authority,
            slot,
        ) == Err::<MetadataView, MythicMetadataError>(MythicMetadataError::Unauthorized),
        spec_remove_metadata_item(
            m1,
            collection_metadata_key_id,
            item_metadata_key_id,
            root_authority,
        ) == Err::<MetadataView, MythicMetadataError>(MythicMetadataError::Unauthorized),
        spec_remove_metadata_collection(m1, collection_metadata_key_id, root_authority) == Err::<
            MetadataView,
            MythicMetadataError,
        >(MythicMetadataError::Unauthorized),
        spec_set_collection_update_authority(
            m1,
            collection_metadata_key_id,
            new_update_authority,
            root_authority,
        ) == Err::<MetadataView, MythicMetadataError>(MythicMetadataError::Unauthorized),
        spec_revoke_collection_update_authority(
            m1,
            collection_metadata_key_id,
            root_authority,
        ) == Err::<MetadataView, MythicMetadataError>(MythicMetadataError::Unauthorized),
{
    let k = index_of_key_id(m.collections, collection_metadata_key_id);
    lemma_index_of_key_id(m.collections, collection_metadata_key_id);
    let c1 = MetadataCollectionView { update_authority: Some(delegate), ..m.collections[k] };
    assert(m1.collections == m.collections.update(k, c1));
    lemma_update_keeps_sorted(m.collections, k, c1);
    assert(contains_key_id(m1.collections, collection_metadata_key_id));
    lemma_index_of_key_id(m1.collections, collection_metadata_key_id);
    assert(m1.collections[k].key_id() == collection_metadata_key_id);
    assert(index_of_key_id(m1.collections, collection_metadata_key_id) == k);
    assert(m1.collections[k] == c1);
    assert(effective_update_authority(m1, c1) == Some(delegate));
    assert(spec_resolve_collection(m1, collection_metadata_key_id, root_authority) == Err::<
        int,
        MythicMetadataError,
    >(MythicMetadataError::Unauthorized));
}

/// Appending a value of length `L` grows the record's required backing
/// size by exactly the fixed per-item overhead plus `L`, whether the item
/// lands in the root's container or in a collection's.
pub proof fn lemma_required_size_after_append(
    m: MetadataView,
    m1: MetadataView,
    collection_metadata_key_id: u64,
    item_metadata_key_id: u64,
    value: Seq<u8>,
    caller: Principal,
    slot: u64,
)
    requires
        metadata_wf(m),
        spec_append_metadata_item(
            m,
            collection_metadata_key_id,
            item_metadata_key_id,
            value,
            caller,
            slot,
        ) == Ok::<MetadataView, MythicMetadataError>(m1),
    ensures
        spec_metadata_size(m1) == spec_metadata_size(m) + METADATA_ITEM_BASE_SIZE + value.len(),
{
    let item = MetadataItemView {
        metadata_key_id: item_metadata_key_id,
        update_slot: slot,
        value,
    };
    if targets_root(m, collection_metadata_key_id) {
        assert(m1.items == insert_sorted_by_key(m.items, item));
        lemma_items_size_insert_sorted(m.items, item);
        assert(m1.collections == m.collections);
    } else {
        let k = index_of_key_id(m.collections, collection_metadata_key_id);
        lemma_index_of_key_id(m.collections, collection_metadata_key_id);
        let c = m.collections[k];
        let c1 = MetadataCollectionView {
            items: insert_sorted_by_key(c.items, item),
            update_slot: slot,
            ..c
        };
        assert(m1.collections == m.collections.update(k, c1));
        assert(m1.items == m.items);
        lemma_collections_size_update(m.collections, c1, k);
        lemma_items_size_insert_sorted(c.items, item);
        assert(spec_collection_size(c1) == spec_collection_size(c) + METADATA_ITEM_BASE_SIZE
            + value.len());
    }
}

} // verus!
