//! Exact storage sizing and growth planning.

use mythic_metadata::constants::METADATA_ITEM_BASE_SIZE;
use mythic_metadata::counter::Counter;
use mythic_metadata::errors::MythicMetadataError;
use mythic_metadata::instructions::append_metadata_collection;
use mythic_metadata::instructions::append_metadata_item;
use mythic_metadata::instructions::create_metadata;
use mythic_metadata::instructions::remove_metadata_item;
use mythic_metadata::metadata_key::MetadataKey;
use mythic_metadata::principal::Principal;
use mythic_metadata::state::Metadata;
use mythic_metadata::state::MetadataCollection;
use mythic_metadata::state::MetadataItem;
use mythic_metadata::utils::realloc_account;
use mythic_metadata::utils::AccountGrowth;

fn principal(n: u128) -> Principal {
    Principal { hi: n, lo: n }
}

#[test]
fn item_size_is_overhead_plus_value() {
    assert_eq!(MetadataItem::size(&vec![]), 20);
    assert_eq!(MetadataItem::size(&vec![1, 2, 3]), 23);
}

#[test]
fn collection_size_sums_item_footprints() {
    assert_eq!(MetadataCollection::size(&vec![]), 53);
    let items = vec![
        MetadataItem { metadata_key_id: 1, update_slot: 0, value: vec![1] },
        MetadataItem { metadata_key_id: 2, update_slot: 0, value: vec![1, 2] },
    ];
    assert_eq!(MetadataCollection::size(&items), 53 + 21 + 22);
}

#[test]
fn empty_record_size() {
    let metadata = create_metadata(7, principal(2), principal(1), None, 10, 0);
    assert_eq!(Metadata::size(&metadata.items, &metadata.collections), 130);
}

#[test]
fn required_size_grows_by_item_overhead_plus_value_len() {
    let a = principal(1);
    let mut metadata = create_metadata(7, principal(2), a, Some(a), 10, 0);
    append_metadata_collection(&mut metadata, 9, None, a, 11).unwrap();
    let before = Metadata::size(&metadata.items, &metadata.collections);

    // a root append of a 3-byte value
    append_metadata_item(&mut metadata, 7, 3, vec![1, 2, 3], a, 12).unwrap();
    let after = Metadata::size(&metadata.items, &metadata.collections);
    assert_eq!(after, before + METADATA_ITEM_BASE_SIZE + 3);

    // a nested append of a 5-byte value
    append_metadata_item(&mut metadata, 9, 4, vec![0; 5], a, 13).unwrap();
    let after_nested = Metadata::size(&metadata.items, &metadata.collections);
    assert_eq!(after_nested, after + METADATA_ITEM_BASE_SIZE + 5);
}

#[test]
fn growth_is_monotonic_and_exactly_funded() {
    // a resize below the current size is a no-op: storage never shrinks
    assert_eq!(realloc_account(true, 200, 150, 0, 0), Ok(None));
    assert_eq!(realloc_account(true, 200, 200, 0, 0), Ok(None));
    // a real growth names the exact shortfall
    assert_eq!(
        realloc_account(true, 100, 150, 5, 30),
        Ok(Some(AccountGrowth { new_size: 150, fund_lamports: 25 }))
    );
    // an already rent-exempt record needs no funding
    assert_eq!(
        realloc_account(true, 100, 150, 40, 30),
        Ok(Some(AccountGrowth { new_size: 150, fund_lamports: 0 }))
    );
}

#[test]
fn realloc_refuses_foreign_account() {
    assert_eq!(
        realloc_account(false, 100, 150, 0, 0),
        Err(MythicMetadataError::InvalidAccountOwner)
    );
}

#[test]
fn size_unchanged_by_remove_is_a_host_matter() {
    // the required size does shrink logically after a removal; the
    // monotonic-growth rule lives in the growth planner, which refuses
    // to shrink the physical allocation
    let a = principal(1);
    let mut metadata = create_metadata(7, principal(2), a, Some(a), 10, 0);
    append_metadata_item(&mut metadata, 7, 3, vec![1, 2, 3], a, 11).unwrap();
    let grown = Metadata::size(&metadata.items, &metadata.collections);
    remove_metadata_item(&mut metadata, 7, 3, a).unwrap();
    let shrunk = Metadata::size(&metadata.items, &metadata.collections);
    assert_eq!(shrunk + METADATA_ITEM_BASE_SIZE + 3, grown);
    assert_eq!(realloc_account(true, grown, shrunk, 0, 0), Ok(None));
}

#[test]
fn metadata_key_size_counts_string_lengths() {
    assert_eq!(MetadataKey::size("status", "Status", "current status", "string"), 65 + 6 + 6 + 14 + 6);
    assert_eq!(MetadataKey::size("", "", "", ""), 65);
}

#[test]
fn counter_size_is_fixed() {
    assert_eq!(Counter::size(), 17);
}
