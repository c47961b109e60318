//! Batched appends: strictly left to right, all or nothing.

use mythic_metadata::errors::MythicMetadataError;
use mythic_metadata::instructions::append_metadata_collection;
use mythic_metadata::instructions::append_metadata_item;
use mythic_metadata::instructions::append_metadata_items;
use mythic_metadata::instructions::create_metadata;
use mythic_metadata::principal::Principal;
use mythic_metadata::state::Metadata;

fn principal(n: u128) -> Principal {
    Principal { hi: n, lo: n }
}

fn snapshot(metadata: &Metadata) -> Vec<(u64, u64, Vec<u8>)> {
    let mut all = Vec::new();
    for item in &metadata.items {
        all.push((0, item.metadata_key_id, item.value.clone()));
    }
    for collection in &metadata.collections {
        for item in &collection.items {
            all.push((collection.metadata_key_id, item.metadata_key_id, item.value.clone()));
        }
    }
    all
}

#[test]
fn batch_appends_left_to_right() {
    let a = principal(1);
    let mut metadata = create_metadata(7, principal(2), a, Some(a), 10, 0);
    let r = append_metadata_items(
        &mut metadata,
        7,
        vec![5, 2, 9],
        vec![vec![5], vec![2], vec![9]],
        a,
        11,
    );
    assert!(r.is_ok());
    assert_eq!(
        metadata.items.iter().map(|it| it.metadata_key_id).collect::<Vec<_>>(),
        vec![2, 5, 9]
    );
    assert_eq!(metadata.items[0].value, vec![2]);
    assert_eq!(metadata.update_slot, 11);
}

#[test]
fn batch_with_duplicate_second_element_has_no_effect() {
    let a = principal(1);
    let mut metadata = create_metadata(7, principal(2), a, Some(a), 10, 0);
    append_metadata_item(&mut metadata, 7, 2, vec![0xaa], a, 11).unwrap();
    let before = snapshot(&metadata);
    let slot_before = metadata.update_slot;

    // the second of three already exists: the whole batch is refused and
    // neither the first nor the third element is inserted
    let r = append_metadata_items(
        &mut metadata,
        7,
        vec![1, 2, 3],
        vec![vec![1], vec![2], vec![3]],
        a,
        12,
    );
    assert_eq!(r, Err(MythicMetadataError::MetadataItemAlreadyExists));
    assert_eq!(snapshot(&metadata), before);
    assert_eq!(metadata.update_slot, slot_before);
}

#[test]
fn batch_into_collection() {
    let a = principal(1);
    let mut metadata = create_metadata(7, principal(2), a, Some(a), 10, 0);
    append_metadata_collection(&mut metadata, 9, None, a, 11).unwrap();
    let r = append_metadata_items(
        &mut metadata,
        9,
        vec![4, 1],
        vec![vec![4], vec![1]],
        a,
        12,
    );
    assert!(r.is_ok());
    assert_eq!(
        metadata.collections[0].items.iter().map(|it| it.metadata_key_id).collect::<Vec<_>>(),
        vec![1, 4]
    );
    assert_eq!(metadata.items.len(), 0);
}

#[test]
fn empty_batch_is_a_no_op() {
    let a = principal(1);
    let mut metadata = create_metadata(7, principal(2), a, Some(a), 10, 0);
    let r = append_metadata_items(&mut metadata, 7, vec![], vec![], a, 11);
    assert!(r.is_ok());
    assert_eq!(metadata.items.len(), 0);
    assert_eq!(metadata.update_slot, 10);
}

#[test]
fn unauthorized_batch_has_no_effect() {
    let a = principal(1);
    let stranger = principal(9);
    let mut metadata = create_metadata(7, principal(2), a, Some(a), 10, 0);
    let before = snapshot(&metadata);
    let r = append_metadata_items(&mut metadata, 7, vec![1], vec![vec![1]], stranger, 11);
    assert_eq!(r, Err(MythicMetadataError::Unauthorized));
    assert_eq!(snapshot(&metadata), before);
}
