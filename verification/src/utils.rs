//! Shared authority checks and storage-growth planning.

use vstd::prelude::*;

use crate::errors::MythicMetadataError;
use crate::metadata_key::MetadataKey;
use crate::model::spec_resolve_collection;
use crate::model::spec_verify_metadata_update_authority;
use crate::ordered::binary_search_collections;
use crate::principal::Principal;
use crate::state::Metadata;
use crate::state::MetadataCollection;
use crate::state::metadata_wf;

verus! {

/// Whether two metadata keys denote the same field.
///
/// The host derives a key's storage address injectively from its
/// identifier, so identifier equality is field equality.
pub fn check_collection_metadata_equality(
    metadata_collection_metadata_key: &MetadataKey,
    collection_metadata_key: &MetadataKey,
) -> (result: bool)
    ensures
        result == (metadata_collection_metadata_key.id == collection_metadata_key.id),
{
    metadata_collection_metadata_key.id == collection_metadata_key.id
}

/// Root-scope authority check: fails when the record is immutable, else
/// reports whether `update_authority` is the root authority.
pub fn verify_metadata_update_authority(
    metadata: &Metadata,
    update_authority: &Principal,
) -> (result: Result<bool, MythicMetadataError>)
    ensures
        result == spec_verify_metadata_update_authority(metadata@, *update_authority),
{
    match metadata.update_authority {
        None => Err(MythicMetadataError::ImmutableMetadata),
        Some(authority) => Ok(authority == *update_authority),
    }
}

/// Collection-scope authority resolution.
///
/// Returns the index of the collection together with an owned copy of it,
/// so the caller can mutate the copy and write it back at the same index
/// without aliasing the record. The root's immutability is checked before
/// anything else; a collection's own authority, when set, fully shadows
/// the root's.
pub fn verify_collection_update_authority(
    metadata: &Metadata,
    collection_metadata_key_id: u64,
    update_authority: &Principal,
) -> (result: Result<(usize, MetadataCollection), MythicMetadataError>)
    requires
        metadata_wf(metadata@),
    ensures
        (match result {
            Ok((index, collection)) => {
                &&& index < metadata@.collections.len()
                &&& spec_resolve_collection(metadata@, collection_metadata_key_id, *update_authority)
                    == Ok::<int, MythicMetadataError>(index as int)
                &&& collection@ == metadata@.collections[index as int]
            },
            Err(e) => spec_resolve_collection(
                metadata@,
                collection_metadata_key_id,
                *update_authority,
            ) == Err::<int, MythicMetadataError>(e),
        }),
{
    let root_authority = match metadata.update_authority {
        Some(a) => a,
        None => {
            return Err(MythicMetadataError::ImmutableMetadata);
        },
    };
    let index = match binary_search_collections(&metadata.collections, collection_metadata_key_id) {
        Ok(index) => index,
        Err(_) => {
            return Err(MythicMetadataError::MetadataCollectionNonExistent);
        },
    };
    let effective = match metadata.collections[index].update_authority {
        Some(a) => a,
        None => root_authority,
    };
    if effective != *update_authority {
        return Err(MythicMetadataError::Unauthorized);
    }
    let collection = metadata.collections[index].clone();
    Ok((index, collection))
}

/// A funded growth step for a record's backing allocation.
#[derive(Clone, Copy, Debug, PartialEq, Eq, Structural)]
pub struct AccountGrowth {
    /// The size to extend the backing allocation to.
    pub new_size: usize,
    /// The lamports to transfer to the record first, so the enlarged
    /// allocation stays rent-exempt.
    pub fund_lamports: u64,
}

/// Plans a backing-allocation resize.
///
/// Storage only grows: when the current allocation already covers the
/// required size the plan is empty, even after removals. Otherwise the
/// plan names the exact funding shortfall — to be transferred before the
/// resize, so a failed transfer aborts the call with no resize observed —
/// and the new size. Fails when the record is not owned by this registry.
pub fn realloc_account(
    registry_owned: bool,
    current_account_size: usize,
    new_account_size: usize,
    current_lamports: u64,
    rent_exempt_minimum: u64,
) -> (result: Result<Option<AccountGrowth>, MythicMetadataError>)
    ensures
        !registry_owned ==> result == Err::<Option<AccountGrowth>, MythicMetadataError>(
            MythicMetadataError::InvalidAccountOwner,
        ),
        registry_owned && current_account_size >= new_account_size ==> result == Ok::<
            Option<AccountGrowth>,
            MythicMetadataError,
        >(None),
        registry_owned && current_account_size < new_account_size ==> result == (Ok::<
            Option<AccountGrowth>,
            MythicMetadataError,
        >(
            Some(
                AccountGrowth {
                    new_size: new_account_size,
                    fund_lamports: if rent_exempt_minimum > current_lamports {
                        (rent_exempt_minimum - current_lamports) as u64
                    } else {
                        0
                    },
                },
            ),
        )),
{
    if !registry_owned {
        return Err(MythicMetadataError::InvalidAccountOwner);
    }
    if current_account_size >= new_account_size {
        return Ok(None);
    }
    let fund_lamports = if rent_exempt_minimum > current_lamports {
        rent_exempt_minimum - current_lamports
    } else {
        0
    };
    Ok(Some(AccountGrowth { new_size: new_account_size, fund_lamports }))
}

} // verus!
