//! The registry's mutating operations.
//!
//! Every operation takes the record by mutable reference together with the
//! caller's identity and, where a write is recorded, the current slot
//! supplied by the host. Each one promises to agree exactly with its
//! specification function in [`crate::model`], and to leave the record
//! untouched whenever it fails.

use vstd::prelude::*;

use crate::constants::MAX_COLLECTIONS_PER_METADATA;
use crate::constants::MAX_ITEMS_PER_COLLECTION;
use crate::constants::MAX_VALUE_LEN;
use crate::errors::MythicMetadataError;
use crate::model::spec_append_metadata_collection;
use crate::model::spec_append_metadata_item;
use crate::model::spec_append_metadata_items;
use crate::model::spec_append_to_items;
use crate::model::spec_remove_from_items;
use crate::model::spec_remove_metadata_collection;
use crate::model::spec_remove_metadata_item;
use crate::model::spec_revoke_collection_update_authority;
use crate::model::spec_set_collection_update_authority;
use crate::model::spec_update_in_items;
use crate::model::spec_update_metadata_item;
use crate::ordered::lemma_remove_keeps_sorted;
use crate::ordered::binary_search_collections;
use crate::ordered::binary_search_items;
use crate::ordered::lemma_insert_at_keeps_sorted;
use crate::ordered::lemma_insert_sorted_by_key_at;
use crate::ordered::lemma_update_keeps_sorted;
use crate::ordered::strictly_sorted_by_key;
use crate::principal::Principal;
use crate::state::Metadata;
use crate::state::MetadataCollection;
use crate::state::MetadataItem;
use crate::state::MetadataView;
use crate::state::collection_views;
use crate::state::item_views;
use crate::state::item_fits;
use crate::state::items_within_bounds;
use crate::state::metadata_wf;

verus! {

/// The views of a sequence of byte vectors.
pub open spec fn byte_views(values: Seq<Vec<u8>>) -> Seq<Seq<u8>> {
    values.map_values(|v: Vec<u8>| v@)
}

/// Creates an empty metadata record.
///
/// The host addresses the record's storage by `(metadata_key_id,
/// issuing_authority, subject)` and refuses to create a second record at
/// an occupied address; `subject` and `issuing_authority` are never
/// rewritten afterwards.
pub fn create_metadata(
    metadata_key_id: u64,
    subject: Principal,
    issuing_authority: Principal,
    update_authority: Option<Principal>,
    slot: u64,
    bump: u8,
) -> (metadata: Metadata)
    ensures
        metadata@ == (MetadataView {
            metadata_key_id,
            subject,
            issuing_authority,
            update_authority,
            update_slot: slot,
            items: Seq::empty(),
            collections: Seq::empty(),
            bump,
        }),
        metadata_wf(metadata@),
{
    let metadata = Metadata {
        metadata_key_id,
        subject,
        issuing_authority,
        update_authority,
        update_slot: slot,
        items: Vec::new(),
        collections: Vec::new(),
        bump,
    };
    proof {
        assert(metadata@ =~= (MetadataView {
            metadata_key_id,
            subject,
            issuing_authority,
            update_authority,
            update_slot: slot,
            items: Seq::empty(),
            collections: Seq::empty(),
            bump,
        }));
    }
    metadata
}

/// Ordered insert into one container, shared by the root and the nested
/// paths: membership, capacity and value-length checks, then insertion at
/// the position binary search found.
fn append_to_items(
    items: &mut Vec<MetadataItem>,
    item_metadata_key_id: u64,
    value: Vec<u8>,
    slot: u64,
) -> (result: Result<(), MythicMetadataError>)
    requires
        strictly_sorted_by_key(item_views(old(items)@)),
        items_within_bounds(item_views(old(items)@)),
    ensures
        (match spec_append_to_items(item_views(old(items)@), item_metadata_key_id, value@, slot) {
            Ok(s) => result is Ok && item_views(final(items)@) == s,
            Err(e) => result == Err::<(), MythicMetadataError>(e) && final(items)@ == old(items)@,
        }),
        result is Ok ==> strictly_sorted_by_key(item_views(final(items)@)),
        result is Ok ==> items_within_bounds(item_views(final(items)@)),
{
    let ghost old_views = item_views(items@);
    match binary_search_items(items, item_metadata_key_id) {
        Ok(_) => Err(MythicMetadataError::MetadataItemAlreadyExists),
        Err(pos) => {
            if items.len() >= MAX_ITEMS_PER_COLLECTION {
                return Err(MythicMetadataError::MetadataItemFull);
            }
            if value.len() > MAX_VALUE_LEN {
                return Err(MythicMetadataError::MetadataItemValueLenExceeded);
            }
            let item = MetadataItem {
                metadata_key_id: item_metadata_key_id,
                update_slot: slot,
                value,
            };
            let ghost item_view = item@;
            proof {
                lemma_insert_sorted_by_key_at(old_views, item_view, pos as int);
                lemma_insert_at_keeps_sorted(old_views, item_view, pos as int);
            }
            items.insert(pos, item);
            proof {
                assert(item_views(items@) =~= old_views.insert(pos as int, item_view));
                assert forall|i: int| 0 <= i < item_views(items@).len() implies item_fits(
                    #[trigger] item_views(items@)[i],
                ) by {
                    if i < pos {
                        assert(item_views(items@)[i] == old_views[i]);
                    } else if i > pos {
                        assert(item_views(items@)[i] == old_views[i - 1]);
                    }
                }
            }
            Ok(())
        },
    }
}

/// Ordered in-place replacement of one item's value, shared by the root
/// and the nested paths.
fn update_in_items(
    items: &mut Vec<MetadataItem>,
    item_metadata_key_id: u64,
    new_value: Vec<u8>,
    slot: u64,
) -> (result: Result<(), MythicMetadataError>)
    requires
        strictly_sorted_by_key(item_views(old(items)@)),
        items_within_bounds(item_views(old(items)@)),
    ensures
        (match spec_update_in_items(
            item_views(old(items)@),
            item_metadata_key_id,
            new_value@,
            slot,
        ) {
            Ok(s) => result is Ok && item_views(final(items)@) == s,
            Err(e) => result == Err::<(), MythicMetadataError>(e) && final(items)@ == old(items)@,
        }),
        result is Ok ==> strictly_sorted_by_key(item_views(final(items)@)),
        result is Ok ==> items_within_bounds(item_views(final(items)@)),
{
    let ghost old_views = item_views(items@);
    match binary_search_items(items, item_metadata_key_id) {
        Err(_) => Err(MythicMetadataError::MetadataItemNonExistent),
        Ok(k) => {
            if new_value.len() > MAX_VALUE_LEN {
                return Err(MythicMetadataError::MetadataItemValueLenExceeded);
            }
            let item = MetadataItem {
                metadata_key_id: item_metadata_key_id,
                update_slot: slot,
                value: new_value,
            };
            let ghost item_view = item@;
            proof {
                lemma_update_keeps_sorted(old_views, k as int, item_view);
            }
            items[k] = item;
            proof {
                assert(item_views(items@) =~= old_views.update(k as int, item_view));
                assert forall|i: int| 0 <= i < item_views(items@).len() implies item_fits(
                    #[trigger] item_views(items@)[i],
                ) by {
                    if i != k {
                        assert(item_views(items@)[i] == old_views[i]);
                    }
                }
            }
            Ok(())
        },
    }
}

/// Ordered removal of one item, shared by the root and the nested paths.
fn remove_from_items(
    items: &mut Vec<MetadataItem>,
    item_metadata_key_id: u64,
) -> (result: Result<(), MythicMetadataError>)
    requires
        strictly_sorted_by_key(item_views(old(items)@)),
        items_within_bounds(item_views(old(items)@)),
    ensures
        (match spec_remove_from_items(item_views(old(items)@), item_metadata_key_id) {
            Ok(s) => result is Ok && item_views(final(items)@) == s,
            Err(e) => result == Err::<(), MythicMetadataError>(e) && final(items)@ == old(items)@,
        }),
        result is Ok ==> strictly_sorted_by_key(item_views(final(items)@)),
        result is Ok ==> items_within_bounds(item_views(final(items)@)),
{
    let ghost old_views = item_views(items@);
    match binary_search_items(items, item_metadata_key_id) {
        Err(_) => Err(MythicMetadataError::MetadataItemNonExistent),
        Ok(k) => {
            proof {
                lemma_remove_keeps_sorted(old_views, k as int);
            }
            items.remove(k);
            proof {
                assert(item_views(items@) =~= old_views.remove(k as int));
                assert forall|i: int| 0 <= i < item_views(items@).len() implies item_fits(
                    #[trigger] item_views(items@)[i],
                ) by {
                    if i < k {
                        assert(item_views(items@)[i] == old_views[i]);
                    } else {
                        assert(item_views(items@)[i] == old_views[i + 1]);
                    }
                }
            }
            Ok(())
        },
    }
}

/// Appends one item to the record, into the root's own container when
/// `collection_metadata_key_id` names the root, else into that collection.
pub fn append_metadata_item(
    metadata: &mut Metadata,
    collection_metadata_key_id: u64,
    item_metadata_key_id: u64,
    value: Vec<u8>,
    caller: Principal,
    slot: u64,
) -> (result: Result<(), MythicMetadataError>)
    requires
        metadata_wf(old(metadata)@),
    ensures
        metadata_wf(final(metadata)@),
        (match spec_append_metadata_item(
            old(metadata)@,
            collection_metadata_key_id,
            item_metadata_key_id,
            value@,
            caller,
            slot,
        ) {
            Ok(v) => result is Ok && final(metadata)@ == v,
            Err(e) => result == Err::<(), MythicMetadataError>(e) && final(metadata)@ == old(
                metadata,
            )@,
        }),
{
    let ghost m0 = metadata@;
    let root_authority = match metadata.update_authority {
        Some(a) => a,
        None => {
            return Err(MythicMetadataError::ImmutableMetadata);
        },
    };
    if collection_metadata_key_id == metadata.metadata_key_id {
        if root_authority != caller {
            return Err(MythicMetadataError::Unauthorized);
        }
        match append_to_items(&mut metadata.items, item_metadata_key_id, value, slot) {
            Ok(()) => {
                metadata.update_slot = slot;
                proof {
                    let target = spec_append_metadata_item(
                        m0,
                        collection_metadata_key_id,
                        item_metadata_key_id,
                        value@,
                        caller,
                        slot,
                    );
                    assert(metadata@ =~= target->Ok_0);
                }
                Ok(())
            },
            Err(e) => {
                proof {
                    assert(metadata@ =~= m0);
                }
                Err(e)
            },
        }
    } else {
        let ci = match binary_search_collections(&metadata.collections, collection_metadata_key_id) {
            Ok(ci) => ci,
            Err(_) => {
                return Err(MythicMetadataError::MetadataCollectionNonExistent);
            },
        };
        let effective = match metadata.collections[ci].update_authority {
            Some(a) => a,
            None => root_authority,
        };
        if effective != caller {
            return Err(MythicMetadataError::Unauthorized);
        }
        let mut collection = metadata.collections[ci].clone();
        match append_to_items(&mut collection.items, item_metadata_key_id, value, slot) {
            Ok(()) => {
                collection.update_slot = slot;
                proof {
                    assert(collection@.metadata_key_id == m0.collections[ci as int].metadata_key_id);
                    lemma_update_keeps_sorted(m0.collections, ci as int, collection@);
                }
                metadata.collections[ci] = collection;
                proof {
                    assert(collection_views(metadata.collections@) =~= m0.collections.update(
                        ci as int,
                        collection@,
                    ));
                    let target = spec_append_metadata_item(
                        m0,
                        collection_metadata_key_id,
                        item_metadata_key_id,
                        value@,
                        caller,
                        slot,
                    );
                    assert(target is Ok);
                    assert(metadata@.collections =~= target->Ok_0.collections);
                    assert(metadata@ =~= target->Ok_0);
                    assert forall|i: int|
                        0 <= i < metadata@.collections.len() implies items_within_bounds(
                        (#[trigger] metadata@.collections[i]).items,
                    ) && strictly_sorted_by_key(metadata@.collections[i].items) && metadata@.collections[i].metadata_key_id
                        != metadata@.metadata_key_id by {
                        if i != ci {
                            assert(metadata@.collections[i] == m0.collections[i]);
                        }
                    }
                }
                Ok(())
            },
            Err(e) => {
                proof {
                    assert(metadata@ =~= m0);
                }
                Err(e)
            },
        }
    }
}

/// Appends an empty collection; only the root authority may do so.
pub fn append_metadata_collection(
    metadata: &mut Metadata,
    collection_metadata_key_id: u64,
    update_authority: Option<Principal>,
    caller: Principal,
    slot: u64,
) -> (result: Result<(), MythicMetadataError>)
    requires
        metadata_wf(old(metadata)@),
    ensures
        metadata_wf(final(metadata)@),
        (match spec_append_metadata_collection(
            old(metadata)@,
            collection_metadata_key_id,
            update_authority,
            caller,
            slot,
        ) {
            Ok(v) => result is Ok && final(metadata)@ == v,
            Err(e) => result == Err::<(), MythicMetadataError>(e) && final(metadata)@ == old(
                metadata,
            )@,
        }),
{
    let ghost m0 = metadata@;
    let root_authority = match metadata.update_authority {
        Some(a) => a,
        None => {
            return Err(MythicMetadataError::ImmutableMetadata);
        },
    };
    if root_authority != caller {
        return Err(MythicMetadataError::Unauthorized);
    }
    if collection_metadata_key_id == metadata.metadata_key_id {
        return Err(MythicMetadataError::MetadataCollectionAlreadyExists);
    }
    let pos = match binary_search_collections(&metadata.collections, collection_metadata_key_id) {
        Ok(_) => {
            return Err(MythicMetadataError::MetadataCollectionAlreadyExists);
        },
        Err(pos) => pos,
    };
    if metadata.collections.len() >= MAX_COLLECTIONS_PER_METADATA {
        return Err(MythicMetadataError::MetadataCollectionFull);
    }
    let collection = MetadataCollection {
        metadata_key_id: collection_metadata_key_id,
        update_slot: slot,
        update_authority,
        items: Vec::new(),
    };
    let ghost collection_view = collection@;
    proof {
        assert(collection_view.items =~= Seq::<crate::state::MetadataItemView>::empty());
        lemma_insert_sorted_by_key_at(m0.collections, collection_view, pos as int);
        lemma_insert_at_keeps_sorted(m0.collections, collection_view, pos as int);
    }
    metadata.collections.insert(pos, collection);
    proof {
        assert(collection_views(metadata.collections@) =~= m0.collections.insert(
            pos as int,
            collection_view,
        ));
        let target = spec_append_metadata_collection(
            m0,
            collection_metadata_key_id,
            update_authority,
            caller,
            slot,
        );
        assert(target is Ok);
        assert(metadata@.collections =~= target->Ok_0.collections);
        assert(metadata@ =~= target->Ok_0);
        assert forall|i: int|
            0 <= i < metadata@.collections.len() implies items_within_bounds(
            (#[trigger] metadata@.collections[i]).items,
        ) && strictly_sorted_by_key(metadata@.collections[i].items) && metadata@.collections[i].metadata_key_id
            != metadata@.metadata_key_id by {
            if i < pos {
                assert(metadata@.collections[i] == m0.collections[i]);
            } else if i > pos {
                assert(metadata@.collections[i] == m0.collections[i - 1]);
            }
        }
    }
    Ok(())
}

/// Appends a batch of items strictly left to right, all or nothing: the
/// first failure is returned and the record keeps its old state, with no
/// partial insert of the earlier elements.
pub fn append_metadata_items(
    metadata: &mut Metadata,
    collection_metadata_key_id: u64,
    item_metadata_key_ids: Vec<u64>,
    values: Vec<Vec<u8>>,
    caller: Principal,
    slot: u64,
) -> (result: Result<(), MythicMetadataError>)
    requires
        metadata_wf(old(metadata)@),
        item_metadata_key_ids@.len() == values@.len(),
    ensures
        metadata_wf(final(metadata)@),
        (match spec_append_metadata_items(
            old(metadata)@,
            collection_metadata_key_id,
            item_metadata_key_ids@,
            byte_views(values@),
            caller,
            slot,
        ) {
            Ok(v) => result is Ok && final(metadata)@ == v,
            Err(e) => result == Err::<(), MythicMetadataError>(e) && final(metadata)@ == old(
                metadata,
            )@,
        }),
{
    let ghost ids = item_metadata_key_ids@;
    let ghost vals = byte_views(values@);
    let mut work = metadata.clone();
    let mut i: usize = 0;
    proof {
        assert(ids.skip(0) =~= ids);
        assert(vals.skip(0) =~= vals);
    }
    while i < item_metadata_key_ids.len()
        invariant
            i <= ids.len(),
            ids.len() == vals.len(),
            ids == item_metadata_key_ids@,
            vals == byte_views(values@),
            values@.len() == ids.len(),
            *metadata == *old(metadata),
            metadata_wf(old(metadata)@),
            metadata_wf(work@),
            spec_append_metadata_items(
                old(metadata)@,
                collection_metadata_key_id,
                ids,
                vals,
                caller,
                slot,
            ) == spec_append_metadata_items(
                work@,
                collection_metadata_key_id,
                ids.skip(i as int),
                vals.skip(i as int),
                caller,
                slot,
            ),
        decreases ids.len() - i,
    {
        let ghost work_before = work@;
        let value = values[i].clone();
        proof {
            assert(value@ =~= values@[i as int]@);
            assert(ids.skip(i as int)[0] == ids[i as int]);
            assert(vals.skip(i as int)[0] == vals[i as int]);
            assert(ids.skip(i as int).drop_first() =~= ids.skip(i + 1));
            assert(vals.skip(i as int).drop_first() =~= vals.skip(i + 1));
        }
        match append_metadata_item(
            &mut work,
            collection_metadata_key_id,
            item_metadata_key_ids[i],
            value,
            caller,
            slot,
        ) {
            Ok(()) => {},
            Err(e) => {
                proof {
                    assert(spec_append_metadata_items(
                        work_before,
                        collection_metadata_key_id,
                        ids.skip(i as int),
                        vals.skip(i as int),
                        caller,
                        slot,
                    ) == Err::<MetadataView, MythicMetadataError>(e));
                }
                return Err(e);
            },
        }
        i += 1;
    }
    proof {
        assert(ids.skip(i as int) =~= Seq::<u64>::empty());
        assert(spec_append_metadata_items(
            work@,
            collection_metadata_key_id,
            ids.skip(i as int),
            vals.skip(i as int),
            caller,
            slot,
        ) == Ok::<MetadataView, MythicMetadataError>(work@));
    }
    *metadata = work;
    Ok(())
}

/// Replaces an existing item's value, in the root's container or a
/// collection's.
pub fn update_metadata_item(
    metadata: &mut Metadata,
    collection_metadata_key_id: u64,
    item_metadata_key_id: u64,
    new_value: Vec<u8>,
    caller: Principal,
    slot: u64,
) -> (result: Result<(), MythicMetadataError>)
    requires
        metadata_wf(old(metadata)@),
    ensures
        metadata_wf(final(metadata)@),
        (match spec_update_metadata_item(
            old(metadata)@,
            collection_metadata_key_id,
            item_metadata_key_id,
            new_value@,
            caller,
            slot,
        ) {
            Ok(v) => result is Ok && final(metadata)@ == v,
            Err(e) => result == Err::<(), MythicMetadataError>(e) && final(metadata)@ == old(
                metadata,
            )@,
        }),
{
    let ghost m0 = metadata@;
    let root_authority = match metadata.update_authority {
        Some(a) => a,
        None => {
            return Err(MythicMetadataError::ImmutableMetadata);
        },
    };
    if collection_metadata_key_id == metadata.metadata_key_id {
        if root_authority != caller {
            return Err(MythicMetadataError::Unauthorized);
        }
        match update_in_items(&mut metadata.items, item_metadata_key_id, new_value, slot) {
            Ok(()) => {
                metadata.update_slot = slot;
                proof {
                    let target = spec_update_metadata_item(
                        m0,
                        collection_metadata_key_id,
                        item_metadata_key_id,
                        new_value@,
                        caller,
                        slot,
                    );
                    assert(metadata@ =~= target->Ok_0);
                }
                Ok(())
            },
            Err(e) => {
                proof {
                    assert(metadata@ =~= m0);
                }
                Err(e)
            },
        }
    } else {
        let ci = match binary_search_collections(&metadata.collections, collection_metadata_key_id) {
            Ok(ci) => ci,
            Err(_) => {
                return Err(MythicMetadataError::MetadataCollectionNonExistent);
            },
        };
        let effective = match metadata.collections[ci].update_authority {
            Some(a) => a,
            None => root_authority,
        };
        if effective != caller {
            return Err(MythicMetadataError::Unauthorized);
        }
        let mut collection = metadata.collections[ci].clone();
        match update_in_items(&mut collection.items, item_metadata_key_id, new_value, slot) {
            Ok(()) => {
                collection.update_slot = slot;
                proof {
                    lemma_update_keeps_sorted(m0.collections, ci as int, collection@);
                }
                metadata.collections[ci] = collection;
                proof {
                    assert(collection_views(metadata.collections@) =~= m0.collections.update(
                        ci as int,
                        collection@,
                    ));
                    let target = spec_update_metadata_item(
                        m0,
                        collection_metadata_key_id,
                        item_metadata_key_id,
                        new_value@,
                        caller,
                        slot,
                    );
                    assert(target is Ok);
                    assert(metadata@.collections =~= target->Ok_0.collections);
                    assert(metadata@ =~= target->Ok_0);
                    assert forall|i: int|
                        0 <= i < metadata@.collections.len() implies items_within_bounds(
                        (#[trigger] metadata@.collections[i]).items,
                    ) && strictly_sorted_by_key(metadata@.collections[i].items)
                        && metadata@.collections[i].metadata_key_id != metadata@.metadata_key_id by {
                        if i != ci {
                            assert(metadata@.collections[i] == m0.collections[i]);
                        }
                    }
                }
                Ok(())
            },
            Err(e) => {
                proof {
                    assert(metadata@ =~= m0);
                }
                Err(e)
            },
        }
    }
}

/// Removes an existing item, from the root's container or a collection's.
pub fn remove_metadata_item(
    metadata: &mut Metadata,
    collection_metadata_key_id: u64,
    item_metadata_key_id: u64,
    caller: Principal,
) -> (result: Result<(), MythicMetadataError>)
    requires
        metadata_wf(old(metadata)@),
    ensures
        metadata_wf(final(metadata)@),
        (match spec_remove_metadata_item(
            old(metadata)@,
            collection_metadata_key_id,
            item_metadata_key_id,
            caller,
        ) {
            Ok(v) => result is Ok && final(metadata)@ == v,
            Err(e) => result == Err::<(), MythicMetadataError>(e) && final(metadata)@ == old(
                metadata,
            )@,
        }),
{
    let ghost m0 = metadata@;
    let root_authority = match metadata.update_authority {
        Some(a) => a,
        None => {
            return Err(MythicMetadataError::ImmutableMetadata);
        },
    };
    if collection_metadata_key_id == metadata.metadata_key_id {
        if root_authority != caller {
            return Err(MythicMetadataError::Unauthorized);
        }
        match remove_from_items(&mut metadata.items, item_metadata_key_id) {
            Ok(()) => {
                proof {
                    let target = spec_remove_metadata_item(
                        m0,
                        collection_metadata_key_id,
                        item_metadata_key_id,
                        caller,
                    );
                    assert(metadata@ =~= target->Ok_0);
                }
                Ok(())
            },
            Err(e) => {
                proof {
                    assert(metadata@ =~= m0);
                }
                Err(e)
            },
        }
    } else {
        let ci = match binary_search_collections(&metadata.collections, collection_metadata_key_id) {
            Ok(ci) => ci,
            Err(_) => {
                return Err(MythicMetadataError::MetadataCollectionNonExistent);
            },
        };
        let effective = match metadata.collections[ci].update_authority {
            Some(a) => a,
            None => root_authority,
        };
        if effective != caller {
            return Err(MythicMetadataError::Unauthorized);
        }
        let mut collection = metadata.collections[ci].clone();
        match remove_from_items(&mut collection.items, item_metadata_key_id) {
            Ok(()) => {
                proof {
                    lemma_update_keeps_sorted(m0.collections, ci as int, collection@);
                }
                metadata.collections[ci] = collection;
                proof {
                    assert(collection_views(metadata.collections@) =~= m0.collections.update(
                        ci as int,
                        collection@,
                    ));
                    let target = spec_remove_metadata_item(
                        m0,
                        collection_metadata_key_id,
                        item_metadata_key_id,
                        caller,
                    );
                    assert(target is Ok);
                    assert(metadata@.collections =~= target->Ok_0.collections);
                    assert(metadata@ =~= target->Ok_0);
                    assert forall|i: int|
                        0 <= i < metadata@.collections.len() implies items_within_bounds(
                        (#[trigger] metadata@.collections[i]).items,
                    ) && strictly_sorted_by_key(metadata@.collections[i].items)
                        && metadata@.collections[i].metadata_key_id != metadata@.metadata_key_id by {
                        if i != ci {
                            assert(metadata@.collections[i] == m0.collections[i]);
                        }
                    }
                }
                Ok(())
            },
            Err(e) => {
                proof {
                    assert(metadata@ =~= m0);
                }
                Err(e)
            },
        }
    }
}

/// Removes a collection; the caller must be its effective authority.
pub fn remove_metadata_collection(
    metadata: &mut Metadata,
    collection_metadata_key_id: u64,
    caller: Principal,
) -> (result: Result<(), MythicMetadataError>)
    requires
        metadata_wf(old(metadata)@),
    ensures
        metadata_wf(final(metadata)@),
        (match spec_remove_metadata_collection(
            old(metadata)@,
            collection_metadata_key_id,
            caller,
        ) {
            Ok(v) => result is Ok && final(metadata)@ == v,
            Err(e) => result == Err::<(), MythicMetadataError>(e) && final(metadata)@ == old(
                metadata,
            )@,
        }),
{
    let ghost m0 = metadata@;
    let root_authority = match metadata.update_authority {
        Some(a) => a,
        None => {
            return Err(MythicMetadataError::ImmutableMetadata);
        },
    };
    if collection_metadata_key_id == metadata.metadata_key_id {
        return Err(MythicMetadataError::MetadataCollectionNonExistent);
    }
    let ci = match binary_search_collections(&metadata.collections, collection_metadata_key_id) {
        Ok(ci) => ci,
        Err(_) => {
            return Err(MythicMetadataError::MetadataCollectionNonExistent);
        },
    };
    let effective = match metadata.collections[ci].update_authority {
        Some(a) => a,
        None => root_authority,
    };
    if effective != caller {
        return Err(MythicMetadataError::Unauthorized);
    }
    proof {
        lemma_remove_keeps_sorted(m0.collections, ci as int);
    }
    metadata.collections.remove(ci);
    proof {
        assert(collection_views(metadata.collections@) =~= m0.collections.remove(ci as int));
        let target = spec_remove_metadata_collection(m0, collection_metadata_key_id, caller);
        assert(target is Ok);
        assert(metadata@.collections =~= target->Ok_0.collections);
        assert(metadata@ =~= target->Ok_0);
        assert forall|i: int|
            0 <= i < metadata@.collections.len() implies items_within_bounds(
            (#[trigger] metadata@.collections[i]).items,
        ) && strictly_sorted_by_key(metadata@.collections[i].items)
            && metadata@.collections[i].metadata_key_id != metadata@.metadata_key_id by {
            if i < ci {
                assert(metadata@.collections[i] == m0.collections[i]);
            } else {
                assert(metadata@.collections[i] == m0.collections[i + 1]);
            }
        }
    }
    Ok(())
}

/// Hands a scope's update authority to `new_update_authority`: the root's
/// when the root is targeted, else the named collection's.
pub fn set_collection_update_authority(
    metadata: &mut Metadata,
    collection_metadata_key_id: u64,
    new_update_authority: Principal,
    caller: Principal,
) -> (result: Result<(), MythicMetadataError>)
    requires
        metadata_wf(old(metadata)@),
    ensures
        metadata_wf(final(metadata)@),
        (match spec_set_collection_update_authority(
            old(metadata)@,
            collection_metadata_key_id,
            new_update_authority,
            caller,
        ) {
            Ok(v) => result is Ok && final(metadata)@ == v,
            Err(e) => result == Err::<(), MythicMetadataError>(e) && final(metadata)@ == old(
                metadata,
            )@,
        }),
{
    let ghost m0 = metadata@;
    let root_authority = match metadata.update_authority {
        Some(a) => a,
        None => {
            return Err(MythicMetadataError::ImmutableMetadata);
        },
    };
    if collection_metadata_key_id == metadata.metadata_key_id {
        if root_authority != caller {
            return Err(MythicMetadataError::Unauthorized);
        }
        metadata.update_authority = Some(new_update_authority);
        proof {
            let target = spec_set_collection_update_authority(
                m0,
                collection_metadata_key_id,
                new_update_authority,
                caller,
            );
            assert(metadata@ =~= target->Ok_0);
        }
        return Ok(());
    }
    let ci = match binary_search_collections(&metadata.collections, collection_metadata_key_id) {
        Ok(ci) => ci,
        Err(_) => {
            return Err(MythicMetadataError::MetadataCollectionNonExistent);
        },
    };
    let effective = match metadata.collections[ci].update_authority {
        Some(a) => a,
        None => root_authority,
    };
    if effective != caller {
        return Err(MythicMetadataError::Unauthorized);
    }
    let mut collection = metadata.collections[ci].clone();
    collection.update_authority = Some(new_update_authority);
    proof {
        lemma_update_keeps_sorted(m0.collections, ci as int, collection@);
    }
    metadata.collections[ci] = collection;
    proof {
        assert(collection_views(metadata.collections@) =~= m0.collections.update(
            ci as int,
            collection@,
        ));
        let target = spec_set_collection_update_authority(
            m0,
            collection_metadata_key_id,
            new_update_authority,
            caller,
        );
        assert(target is Ok);
        assert(metadata@.collections =~= target->Ok_0.collections);
        assert(metadata@ =~= target->Ok_0);
        assert forall|i: int|
            0 <= i < metadata@.collections.len() implies items_within_bounds(
            (#[trigger] metadata@.collections[i]).items,
        ) && strictly_sorted_by_key(metadata@.collections[i].items)
            && metadata@.collections[i].metadata_key_id != metadata@.metadata_key_id by {
            if i != ci {
                assert(metadata@.collections[i] == m0.collections[i]);
            }
        }
    }
    Ok(())
}

/// Revokes a scope's update authority: on the root this makes the whole
/// record permanently immutable; on a collection it hands control back to
/// the root authority.
pub fn revoke_collection_update_authority(
    metadata: &mut Metadata,
    collection_metadata_key_id: u64,
    caller: Principal,
) -> (result: Result<(), MythicMetadataError>)
    requires
        metadata_wf(old(metadata)@),
    ensures
        metadata_wf(final(metadata)@),
        (match spec_revoke_collection_update_authority(
            old(metadata)@,
            collection_metadata_key_id,
            caller,
        ) {
            Ok(v) => result is Ok && final(metadata)@ == v,
            Err(e) => result == Err::<(), MythicMetadataError>(e) && final(metadata)@ == old(
                metadata,
            )@,
        }),
{
    let ghost m0 = metadata@;
    let root_authority = match metadata.update_authority {
        Some(a) => a,
        None => {
            return Err(MythicMetadataError::ImmutableMetadata);
        },
    };
    if collection_metadata_key_id == metadata.metadata_key_id {
        if root_authority != caller {
            return Err(MythicMetadataError::Unauthorized);
        }
        metadata.update_authority = None;
        proof {
            let target = spec_revoke_collection_update_authority(
                m0,
                collection_metadata_key_id,
                caller,
            );
            assert(metadata@ =~= target->Ok_0);
        }
        return Ok(());
    }
    let ci = match binary_search_collections(&metadata.collections, collection_metadata_key_id) {
        Ok(ci) => ci,
        Err(_) => {
            return Err(MythicMetadataError::MetadataCollectionNonExistent);
        },
    };
    let effective = match metadata.collections[ci].update_authority {
        Some(a) => a,
        None => root_authority,
    };
    if effective != caller {
        return Err(MythicMetadataError::Unauthorized);
    }
    let mut collection = metadata.collections[ci].clone();
    collection.update_authority = None;
    proof {
        lemma_update_keeps_sorted(m0.collections, ci as int, collection@);
    }
    metadata.collections[ci] = collection;
    proof {
        assert(collection_views(metadata.collections@) =~= m0.collections.update(
            ci as int,
            collection@,
        ));
        let target = spec_revoke_collection_update_authority(
            m0,
            collection_metadata_key_id,
            caller,
        );
        assert(target is Ok);
        assert(metadata@.collections =~= target->Ok_0.collections);
        assert(metadata@ =~= target->Ok_0);
        assert forall|i: int|
            0 <= i < metadata@.collections.len() implies items_within_bounds(
            (#[trigger] metadata@.collections[i]).items,
        ) && strictly_sorted_by_key(metadata@.collections[i].items)
            && metadata@.collections[i].metadata_key_id != metadata@.metadata_key_id by {
            if i != ci {
                assert(metadata@.collections[i] == m0.collections[i]);
            }
        }
    }
    Ok(())
}

} // verus!
