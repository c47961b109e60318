//! Descriptor bounds, capacity validation, and the identifier counter.

use mythic_metadata::counter::initialize_counter;
use mythic_metadata::counter::Counter;
use mythic_metadata::errors::MythicMetadataError;
use mythic_metadata::instructions::append_metadata_item;
use mythic_metadata::instructions::create_metadata;
use mythic_metadata::metadata_key::create_metadata_key;
use mythic_metadata::metadata_key::MetadataKey;
use mythic_metadata::principal::Principal;
use mythic_metadata::state::MetadataCollection;
use mythic_metadata::state::MetadataItem;

fn principal(n: u128) -> Principal {
    Principal { hi: n, lo: n }
}

#[test]
fn create_metadata_key_keeps_fields() {
    let ns = principal(4);
    let key = create_metadata_key(
        42,
        ns,
        String::from("status"),
        String::from("Status"),
        String::from("current status"),
        String::from("string"),
        7,
    )
    .unwrap();
    assert_eq!(key.id, 42);
    assert_eq!(key.namespace_authority, ns);
    assert_eq!(key.name, "status");
    assert_eq!(key.label, "Status");
    assert_eq!(key.description, "current status");
    assert_eq!(key.content_type, "string");
    assert_eq!(key.bump, 7);
}

#[test]
fn metadata_key_bounds_are_enforced() {
    let ns = principal(4);
    let make = |name: usize, label: usize, description: usize, content_type: usize| {
        create_metadata_key(
            1,
            ns,
            "n".repeat(name),
            "l".repeat(label),
            "d".repeat(description),
            "c".repeat(content_type),
            0,
        )
    };
    assert!(make(30, 50, 100, 20).is_ok());
    assert_eq!(make(31, 1, 1, 1).unwrap_err(), MythicMetadataError::InvalidMetadataKey);
    assert_eq!(make(1, 51, 1, 1).unwrap_err(), MythicMetadataError::InvalidMetadataKey);
    assert_eq!(make(1, 1, 101, 1).unwrap_err(), MythicMetadataError::InvalidMetadataKey);
    assert_eq!(make(1, 1, 1, 21).unwrap_err(), MythicMetadataError::InvalidMetadataKey);
    assert!(MetadataKey::validate("status", "Status", "", "string").is_ok());
}

#[test]
fn item_validate_checks_value_length() {
    let ok = MetadataItem { metadata_key_id: 1, update_slot: 0, value: vec![0; 10000] };
    assert!(ok.validate().is_ok());
    let too_big = MetadataItem { metadata_key_id: 1, update_slot: 0, value: vec![0; 10001] };
    assert_eq!(
        too_big.validate().unwrap_err(),
        MythicMetadataError::MetadataItemValueLenExceeded
    );
}

#[test]
fn collection_validate_checks_counts_then_values() {
    let small = |id: u64| MetadataItem { metadata_key_id: id, update_slot: 0, value: vec![] };
    let collection = MetadataCollection {
        metadata_key_id: 1,
        update_slot: 0,
        update_authority: None,
        items: (1..=100).map(small).collect(),
    };
    assert!(collection.validate().is_ok());
    let overfull = MetadataCollection {
        metadata_key_id: 1,
        update_slot: 0,
        update_authority: None,
        items: (1..=101).map(small).collect(),
    };
    assert_eq!(overfull.validate().unwrap_err(), MythicMetadataError::MetadataItemFull);
    let oversized = MetadataCollection {
        metadata_key_id: 1,
        update_slot: 0,
        update_authority: None,
        items: vec![MetadataItem { metadata_key_id: 1, update_slot: 0, value: vec![0; 10001] }],
    };
    assert_eq!(
        oversized.validate().unwrap_err(),
        MythicMetadataError::MetadataItemValueLenExceeded
    );
}

#[test]
fn metadata_validate_accepts_every_reachable_state() {
    let a = principal(1);
    let mut metadata = create_metadata(7, principal(2), a, Some(a), 10, 0);
    assert!(metadata.validate().is_ok());
    append_metadata_item(&mut metadata, 7, 3, vec![0; 10000], a, 11).unwrap();
    assert!(metadata.validate().is_ok());
}

#[test]
fn counter_starts_at_one_and_increments() {
    let mut counter = initialize_counter(3);
    assert_eq!(counter.bump, 3);
    assert_eq!(counter.id, 1);
    assert!(counter.validate().is_ok());
    assert_eq!(counter.next_id(), Ok(1));
    assert_eq!(counter.next_id(), Ok(2));
    assert_eq!(counter.id, 3);
}

#[test]
fn counter_refuses_to_wrap() {
    let mut counter = Counter { bump: 0, id: u64::MAX };
    assert_eq!(counter.validate().unwrap_err(), MythicMetadataError::CounterIdReachedMax);
    assert_eq!(counter.next_id(), Err(MythicMetadataError::CounterIdReachedMax));
    assert_eq!(counter.id, u64::MAX);
    let mut almost = Counter { bump: 0, id: u64::MAX - 1 };
    assert_eq!(almost.next_id(), Ok(u64::MAX - 1));
    assert_eq!(almost.next_id(), Err(MythicMetadataError::CounterIdReachedMax));
}
