//! Two-tier dispatch and ordered-container behavior of the record.

use mythic_metadata::errors::MythicMetadataError;
use mythic_metadata::instructions::append_metadata_collection;
use mythic_metadata::instructions::append_metadata_item;
use mythic_metadata::instructions::create_metadata;
use mythic_metadata::instructions::remove_metadata_collection;
use mythic_metadata::instructions::remove_metadata_item;
use mythic_metadata::instructions::update_metadata_item;
use mythic_metadata::metadata_key::create_metadata_key;
use mythic_metadata::principal::Principal;
use mythic_metadata::state::Metadata;

fn principal(n: u128) -> Principal {
    Principal { hi: n, lo: n }
}

fn assert_strictly_sorted(metadata: &Metadata) {
    for w in metadata.items.windows(2) {
        assert!(w[0].metadata_key_id < w[1].metadata_key_id);
    }
    for w in metadata.collections.windows(2) {
        assert!(w[0].metadata_key_id < w[1].metadata_key_id);
    }
    for collection in &metadata.collections {
        for w in collection.items.windows(2) {
            assert!(w[0].metadata_key_id < w[1].metadata_key_id);
        }
    }
}

#[test]
fn end_to_end_root_then_nested() {
    let issuer = principal(1);
    let subject = principal(2);
    let key = create_metadata_key(
        1,
        issuer,
        String::from("status"),
        String::from("Status"),
        String::from("current status"),
        String::from("string"),
        0,
    )
    .unwrap();
    assert_eq!(key.id, 1);

    let mut metadata = create_metadata(1, subject, issuer, Some(issuer), 100, 0);
    // target == collection == the root's field: the item lands in the
    // root's own container.
    let r = append_metadata_item(&mut metadata, 1, 1, vec![0x01], issuer, 101);
    assert!(r.is_ok());
    assert_eq!(metadata.items.len(), 1);
    assert_eq!(metadata.items[0].metadata_key_id, 1);
    assert_eq!(metadata.items[0].value, vec![0x01]);
    assert_eq!(metadata.update_slot, 101);

    let r = append_metadata_collection(&mut metadata, 2, None, issuer, 102);
    assert!(r.is_ok());
    let r = append_metadata_item(&mut metadata, 2, 3, vec![0x02], issuer, 103);
    assert!(r.is_ok());
    assert_eq!(metadata.collections.len(), 1);
    assert_eq!(metadata.collections[0].metadata_key_id, 2);
    assert_eq!(metadata.collections[0].items.len(), 1);
    assert_eq!(metadata.collections[0].items[0].metadata_key_id, 3);
    assert_eq!(metadata.collections[0].items[0].value, vec![0x02]);
    // the root's own items are untouched by the nested insert
    assert_eq!(metadata.items.len(), 1);
    assert_eq!(metadata.items[0].value, vec![0x01]);
}

#[test]
fn interleaved_inserts_and_removes_stay_sorted() {
    let a = principal(1);
    let subject = principal(2);
    let mut metadata = create_metadata(50, subject, a, Some(a), 1, 0);
    let ids = [5u64, 1, 9, 3, 7, 2, 8, 4, 6];
    for (i, id) in ids.iter().enumerate() {
        let r = append_metadata_item(&mut metadata, 50, *id, vec![*id as u8], a, 10 + i as u64);
        assert!(r.is_ok());
        assert_strictly_sorted(&metadata);
    }
    assert_eq!(metadata.items.len(), 9);
    for (i, item) in metadata.items.iter().enumerate() {
        assert_eq!(item.metadata_key_id, i as u64 + 1);
    }
    for id in [3u64, 9, 1, 6] {
        let r = remove_metadata_item(&mut metadata, 50, id, a);
        assert!(r.is_ok());
        assert_strictly_sorted(&metadata);
    }
    assert_eq!(
        metadata.items.iter().map(|it| it.metadata_key_id).collect::<Vec<_>>(),
        vec![2, 4, 5, 7, 8]
    );
    // collections interleaved with items keep their own order
    for id in [40u64, 10, 30, 20] {
        let r = append_metadata_collection(&mut metadata, id, None, a, 30);
        assert!(r.is_ok());
        assert_strictly_sorted(&metadata);
    }
    let r = remove_metadata_collection(&mut metadata, 30, a);
    assert!(r.is_ok());
    assert_eq!(
        metadata.collections.iter().map(|c| c.metadata_key_id).collect::<Vec<_>>(),
        vec![10, 20, 40]
    );
}

#[test]
fn append_twice_fails_and_leaves_state() {
    let a = principal(1);
    let mut metadata = create_metadata(7, principal(2), a, Some(a), 10, 0);
    let r = append_metadata_item(&mut metadata, 7, 3, vec![1, 2], a, 11);
    assert!(r.is_ok());
    let slot_after_first = metadata.update_slot;
    let r = append_metadata_item(&mut metadata, 7, 3, vec![9, 9, 9], a, 12);
    assert_eq!(r, Err(MythicMetadataError::MetadataItemAlreadyExists));
    assert_eq!(metadata.items.len(), 1);
    assert_eq!(metadata.items[0].value, vec![1, 2]);
    assert_eq!(metadata.items[0].update_slot, 11);
    assert_eq!(metadata.update_slot, slot_after_first);
}

#[test]
fn update_item_replaces_value_in_place() {
    let a = principal(1);
    let mut metadata = create_metadata(7, principal(2), a, Some(a), 10, 0);
    append_metadata_item(&mut metadata, 7, 3, vec![1], a, 11).unwrap();
    append_metadata_item(&mut metadata, 7, 5, vec![2], a, 12).unwrap();
    let r = update_metadata_item(&mut metadata, 7, 3, vec![7, 7], a, 13);
    assert!(r.is_ok());
    assert_eq!(metadata.items.len(), 2);
    assert_eq!(metadata.items[0].metadata_key_id, 3);
    assert_eq!(metadata.items[0].value, vec![7, 7]);
    assert_eq!(metadata.items[0].update_slot, 13);
    assert_eq!(metadata.items[1].value, vec![2]);
    assert_eq!(metadata.update_slot, 13);
}

#[test]
fn update_missing_item_fails_non_existent() {
    let a = principal(1);
    let mut metadata = create_metadata(7, principal(2), a, Some(a), 10, 0);
    let r = update_metadata_item(&mut metadata, 7, 3, vec![7], a, 11);
    assert_eq!(r, Err(MythicMetadataError::MetadataItemNonExistent));
}

#[test]
fn remove_missing_item_fails_non_existent() {
    let a = principal(1);
    let mut metadata = create_metadata(7, principal(2), a, Some(a), 10, 0);
    append_metadata_collection(&mut metadata, 9, None, a, 10).unwrap();
    let r = remove_metadata_item(&mut metadata, 9, 3, a);
    assert_eq!(r, Err(MythicMetadataError::MetadataItemNonExistent));
}

#[test]
fn nested_item_ops_only_touch_their_collection() {
    let a = principal(1);
    let mut metadata = create_metadata(7, principal(2), a, Some(a), 10, 0);
    append_metadata_collection(&mut metadata, 9, None, a, 11).unwrap();
    append_metadata_collection(&mut metadata, 12, None, a, 11).unwrap();
    append_metadata_item(&mut metadata, 9, 3, vec![1], a, 12).unwrap();
    append_metadata_item(&mut metadata, 12, 3, vec![2], a, 13).unwrap();
    update_metadata_item(&mut metadata, 9, 3, vec![9], a, 14).unwrap();
    assert_eq!(metadata.collections[0].items[0].value, vec![9]);
    assert_eq!(metadata.collections[1].items[0].value, vec![2]);
    remove_metadata_item(&mut metadata, 12, 3, a).unwrap();
    assert_eq!(metadata.collections[0].items.len(), 1);
    assert_eq!(metadata.collections[1].items.len(), 0);
}

#[test]
fn item_into_missing_collection_fails() {
    let a = principal(1);
    let mut metadata = create_metadata(7, principal(2), a, Some(a), 10, 0);
    let r = append_metadata_item(&mut metadata, 9, 3, vec![1], a, 11);
    assert_eq!(r, Err(MythicMetadataError::MetadataCollectionNonExistent));
}

#[test]
fn duplicate_collection_fails_already_exists() {
    let a = principal(1);
    let mut metadata = create_metadata(7, principal(2), a, Some(a), 10, 0);
    append_metadata_collection(&mut metadata, 9, None, a, 11).unwrap();
    let r = append_metadata_collection(&mut metadata, 9, None, a, 12);
    assert_eq!(r, Err(MythicMetadataError::MetadataCollectionAlreadyExists));
    assert_eq!(metadata.collections.len(), 1);
}

#[test]
fn collection_under_root_identifier_is_refused() {
    // The root's own identifier addresses the root's item container; a
    // collection may not reuse it.
    let a = principal(1);
    let mut metadata = create_metadata(7, principal(2), a, Some(a), 10, 0);
    let r = append_metadata_collection(&mut metadata, 7, None, a, 11);
    assert_eq!(r, Err(MythicMetadataError::MetadataCollectionAlreadyExists));
    let r = remove_metadata_collection(&mut metadata, 7, a);
    assert_eq!(r, Err(MythicMetadataError::MetadataCollectionNonExistent));
}

#[test]
fn remove_missing_collection_fails_non_existent() {
    let a = principal(1);
    let mut metadata = create_metadata(7, principal(2), a, Some(a), 10, 0);
    let r = remove_metadata_collection(&mut metadata, 9, a);
    assert_eq!(r, Err(MythicMetadataError::MetadataCollectionNonExistent));
}

#[test]
fn capacity_limits_are_enforced() {
    let a = principal(1);
    let mut metadata = create_metadata(0, principal(2), a, Some(a), 10, 0);
    for id in 1..=100u64 {
        append_metadata_item(&mut metadata, 0, id, vec![], a, 11).unwrap();
    }
    let r = append_metadata_item(&mut metadata, 0, 101, vec![], a, 12);
    assert_eq!(r, Err(MythicMetadataError::MetadataItemFull));
    assert_eq!(metadata.items.len(), 100);

    for id in 1..=100u64 {
        append_metadata_collection(&mut metadata, id, None, a, 13).unwrap();
    }
    let r = append_metadata_collection(&mut metadata, 101, None, a, 14);
    assert_eq!(r, Err(MythicMetadataError::MetadataCollectionFull));
    assert_eq!(metadata.collections.len(), 100);
}

#[test]
fn oversized_value_is_refused() {
    let a = principal(1);
    let mut metadata = create_metadata(7, principal(2), a, Some(a), 10, 0);
    let r = append_metadata_item(&mut metadata, 7, 3, vec![0; 10001], a, 11);
    assert_eq!(r, Err(MythicMetadataError::MetadataItemValueLenExceeded));
    let r = append_metadata_item(&mut metadata, 7, 3, vec![0; 10000], a, 11);
    assert!(r.is_ok());
    let r = update_metadata_item(&mut metadata, 7, 3, vec![0; 10001], a, 12);
    assert_eq!(r, Err(MythicMetadataError::MetadataItemValueLenExceeded));
}
