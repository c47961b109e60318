//! Authority resolution: root immutability, delegation, shadowing.

use mythic_metadata::errors::MythicMetadataError;
use mythic_metadata::instructions::append_metadata_collection;
use mythic_metadata::instructions::append_metadata_item;
use mythic_metadata::instructions::create_metadata;
use mythic_metadata::instructions::remove_metadata_collection;
use mythic_metadata::instructions::remove_metadata_item;
use mythic_metadata::instructions::revoke_collection_update_authority;
use mythic_metadata::instructions::set_collection_update_authority;
use mythic_metadata::instructions::update_metadata_item;
use mythic_metadata::metadata_key::create_metadata_key;
use mythic_metadata::principal::Principal;
use mythic_metadata::utils::check_collection_metadata_equality;
use mythic_metadata::utils::verify_collection_update_authority;
use mythic_metadata::utils::verify_metadata_update_authority;

fn principal(n: u128) -> Principal {
    Principal { hi: n, lo: n }
}

#[test]
fn stranger_cannot_mutate_root() {
    let a = principal(1);
    let stranger = principal(9);
    let mut metadata = create_metadata(7, principal(2), a, Some(a), 10, 0);
    let r = append_metadata_item(&mut metadata, 7, 3, vec![1], stranger, 11);
    assert_eq!(r, Err(MythicMetadataError::Unauthorized));
    let r = append_metadata_collection(&mut metadata, 9, None, stranger, 11);
    assert_eq!(r, Err(MythicMetadataError::Unauthorized));
    let r = revoke_collection_update_authority(&mut metadata, 7, stranger);
    assert_eq!(r, Err(MythicMetadataError::Unauthorized));
    assert_eq!(metadata.update_authority, Some(a));
}

#[test]
fn record_without_authority_is_immutable() {
    let a = principal(1);
    let mut metadata = create_metadata(7, principal(2), a, None, 10, 0);
    let r = append_metadata_item(&mut metadata, 7, 3, vec![1], a, 11);
    assert_eq!(r, Err(MythicMetadataError::ImmutableMetadata));
}

#[test]
fn revoking_root_makes_whole_record_immutable() {
    let a = principal(1);
    let b = principal(3);
    let mut metadata = create_metadata(7, principal(2), a, Some(a), 10, 0);
    // one collection inheriting the root's authority, one delegated
    append_metadata_collection(&mut metadata, 9, None, a, 11).unwrap();
    append_metadata_collection(&mut metadata, 12, Some(b), a, 11).unwrap();
    append_metadata_item(&mut metadata, 9, 3, vec![1], a, 12).unwrap();

    let r = revoke_collection_update_authority(&mut metadata, 7, a);
    assert!(r.is_ok());
    assert_eq!(metadata.update_authority, None);

    // every mutation now fails `ImmutableMetadata`, root or nested,
    // whatever the collection's own authority says
    let r = append_metadata_item(&mut metadata, 7, 4, vec![1], a, 13);
    assert_eq!(r, Err(MythicMetadataError::ImmutableMetadata));
    let r = append_metadata_item(&mut metadata, 9, 4, vec![1], a, 13);
    assert_eq!(r, Err(MythicMetadataError::ImmutableMetadata));
    let r = update_metadata_item(&mut metadata, 9, 3, vec![2], a, 13);
    assert_eq!(r, Err(MythicMetadataError::ImmutableMetadata));
    let r = remove_metadata_item(&mut metadata, 9, 3, a);
    assert_eq!(r, Err(MythicMetadataError::ImmutableMetadata));
    let r = append_metadata_item(&mut metadata, 12, 4, vec![1], b, 13);
    assert_eq!(r, Err(MythicMetadataError::ImmutableMetadata));
    let r = set_collection_update_authority(&mut metadata, 9, b, a);
    assert_eq!(r, Err(MythicMetadataError::ImmutableMetadata));
    let r = revoke_collection_update_authority(&mut metadata, 7, a);
    assert_eq!(r, Err(MythicMetadataError::ImmutableMetadata));
    let r = remove_metadata_collection(&mut metadata, 9, a);
    assert_eq!(r, Err(MythicMetadataError::ImmutableMetadata));
}

#[test]
fn delegated_authority_shadows_root() {
    let a = principal(1);
    let b = principal(3);
    let mut metadata = create_metadata(7, principal(2), a, Some(a), 10, 0);
    append_metadata_collection(&mut metadata, 9, None, a, 11).unwrap();
    // the root authority may write while the collection inherits
    append_metadata_item(&mut metadata, 9, 3, vec![1], a, 12).unwrap();

    let r = set_collection_update_authority(&mut metadata, 9, b, a);
    assert!(r.is_ok());
    assert_eq!(metadata.collections[0].update_authority, Some(b));

    // now the root authority itself is refused on that collection
    let r = append_metadata_item(&mut metadata, 9, 4, vec![1], a, 13);
    assert_eq!(r, Err(MythicMetadataError::Unauthorized));
    let r = update_metadata_item(&mut metadata, 9, 3, vec![2], a, 13);
    assert_eq!(r, Err(MythicMetadataError::Unauthorized));
    let r = remove_metadata_item(&mut metadata, 9, 3, a);
    assert_eq!(r, Err(MythicMetadataError::Unauthorized));
    let r = remove_metadata_collection(&mut metadata, 9, a);
    assert_eq!(r, Err(MythicMetadataError::Unauthorized));
    let r = set_collection_update_authority(&mut metadata, 9, a, a);
    assert_eq!(r, Err(MythicMetadataError::Unauthorized));
    let r = revoke_collection_update_authority(&mut metadata, 9, a);
    assert_eq!(r, Err(MythicMetadataError::Unauthorized));

    // while the delegate may write
    let r = append_metadata_item(&mut metadata, 9, 4, vec![1], b, 14);
    assert!(r.is_ok());
    // and the root's own container still obeys the root authority
    let r = append_metadata_item(&mut metadata, 7, 4, vec![1], a, 15);
    assert!(r.is_ok());
}

#[test]
fn delegate_can_hand_authority_back() {
    let a = principal(1);
    let b = principal(3);
    let mut metadata = create_metadata(7, principal(2), a, Some(a), 10, 0);
    append_metadata_collection(&mut metadata, 9, Some(b), a, 11).unwrap();
    // the delegate revokes its own authority: the collection inherits again
    let r = revoke_collection_update_authority(&mut metadata, 9, b);
    assert!(r.is_ok());
    assert_eq!(metadata.collections[0].update_authority, None);
    let r = append_metadata_item(&mut metadata, 9, 3, vec![1], a, 12);
    assert!(r.is_ok());
}

#[test]
fn root_authority_can_be_reassigned() {
    let a = principal(1);
    let b = principal(3);
    let mut metadata = create_metadata(7, principal(2), a, Some(a), 10, 0);
    let r = set_collection_update_authority(&mut metadata, 7, b, a);
    assert!(r.is_ok());
    assert_eq!(metadata.update_authority, Some(b));
    let r = append_metadata_item(&mut metadata, 7, 3, vec![1], a, 11);
    assert_eq!(r, Err(MythicMetadataError::Unauthorized));
    let r = append_metadata_item(&mut metadata, 7, 3, vec![1], b, 11);
    assert!(r.is_ok());
}

#[test]
fn metadata_update_authority_check() {
    let a = principal(1);
    let b = principal(3);
    let metadata = create_metadata(7, principal(2), a, Some(a), 10, 0);
    assert_eq!(verify_metadata_update_authority(&metadata, &a), Ok(true));
    assert_eq!(verify_metadata_update_authority(&metadata, &b), Ok(false));
    let immutable = create_metadata(7, principal(2), a, None, 10, 0);
    assert_eq!(
        verify_metadata_update_authority(&immutable, &a),
        Err(MythicMetadataError::ImmutableMetadata)
    );
}

#[test]
fn collection_update_authority_resolution() {
    let a = principal(1);
    let b = principal(3);
    let mut metadata = create_metadata(7, principal(2), a, Some(a), 10, 0);
    append_metadata_collection(&mut metadata, 9, Some(b), a, 11).unwrap();
    append_metadata_collection(&mut metadata, 12, None, a, 11).unwrap();

    let (index, copy) = verify_collection_update_authority(&metadata, 9, &b).unwrap();
    assert_eq!(index, 0);
    assert_eq!(copy.metadata_key_id, 9);
    assert_eq!(copy.update_authority, Some(b));

    // the inheriting collection answers to the root authority
    let (index, _) = verify_collection_update_authority(&metadata, 12, &a).unwrap();
    assert_eq!(index, 1);

    let r = verify_collection_update_authority(&metadata, 9, &a);
    assert_eq!(r.unwrap_err(), MythicMetadataError::Unauthorized);
    let r = verify_collection_update_authority(&metadata, 99, &a);
    assert_eq!(r.unwrap_err(), MythicMetadataError::MetadataCollectionNonExistent);

    revoke_collection_update_authority(&mut metadata, 7, a).unwrap();
    let r = verify_collection_update_authority(&metadata, 9, &b);
    assert_eq!(r.unwrap_err(), MythicMetadataError::ImmutableMetadata);
}

#[test]
fn key_equality_is_identifier_equality() {
    let ns = principal(1);
    let k1 = create_metadata_key(
        5,
        ns,
        String::from("a"),
        String::from("a"),
        String::from(""),
        String::from("t"),
        0,
    )
    .unwrap();
    let k2 = create_metadata_key(
        5,
        principal(2),
        String::from("b"),
        String::from("b"),
        String::from(""),
        String::from("t"),
        0,
    )
    .unwrap();
    let k3 = create_metadata_key(
        6,
        ns,
        String::from("a"),
        String::from("a"),
        String::from(""),
        String::from("t"),
        0,
    )
    .unwrap();
    assert!(check_collection_metadata_equality(&k1, &k2));
    assert!(!check_collection_metadata_equality(&k1, &k3));
}
