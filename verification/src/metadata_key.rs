//! Metadata keys: immutable descriptors of what a field means.
//!
//! A key is created once under a namespace authority and read-only
//! thereafter; records, collections and items all refer to keys by their
//! identifier.

use vstd::prelude::*;
use vstd::string::*;

use crate::constants::MAX_CONTENT_TYPE_LEN;
use crate::constants::MAX_DESCRIPTION_LEN;
use crate::constants::MAX_LABEL_LEN;
use crate::constants::MAX_NAME_LEN;
use crate::constants::METADATA_KEY_BASE_SIZE;
use crate::errors::MythicMetadataError;
use crate::principal::Principal;

verus! {

/// An immutable descriptor of a single metadata field.
#[derive(Debug)]
pub struct MetadataKey {
    /// Identifier, unique across the registry.
    pub id: u64,
    /// Authority owning the namespace the key was created in.
    pub namespace_authority: Principal,
    /// Name of the field, at most [`MAX_NAME_LEN`] characters.
    pub name: String,
    /// User-friendly label, at most [`MAX_LABEL_LEN`] characters.
    pub label: String,
    /// Description, at most [`MAX_DESCRIPTION_LEN`] characters.
    pub description: String,
    /// Content type of the value, at most [`MAX_CONTENT_TYPE_LEN`]
    /// characters.
    pub content_type: String,
    /// Address-derivation bump supplied by the host.
    pub bump: u8,
}

impl MetadataKey {
    /// All four descriptor strings respect their length bounds.
    pub open spec fn spec_valid(
        name: Seq<char>,
        label: Seq<char>,
        description: Seq<char>,
        content_type: Seq<char>,
    ) -> bool {
        &&& name.len() <= MAX_NAME_LEN
        &&& label.len() <= MAX_LABEL_LEN
        &&& description.len() <= MAX_DESCRIPTION_LEN
        &&& content_type.len() <= MAX_CONTENT_TYPE_LEN
    }

    /// Checks the four length bounds of a descriptor.
    pub fn validate(
        name: &str,
        label: &str,
        description: &str,
        content_type: &str,
    ) -> (result: Result<(), MythicMetadataError>)
        ensures
            result is Ok <==> Self::spec_valid(name@, label@, description@, content_type@),
            result is Err ==> result == Err::<(), MythicMetadataError>(
                MythicMetadataError::InvalidMetadataKey,
            ),
    {
        if name.unicode_len() > MAX_NAME_LEN || label.unicode_len() > MAX_LABEL_LEN
            || description.unicode_len() > MAX_DESCRIPTION_LEN || content_type.unicode_len()
            > MAX_CONTENT_TYPE_LEN {
            return Err(MythicMetadataError::InvalidMetadataKey);
        }
        Ok(())
    }

    /// The serialized byte footprint of a key with these four strings.
    pub fn size(
        name: &str,
        label: &str,
        description: &str,
        content_type: &str,
    ) -> (size: usize)
        requires
            MetadataKey::spec_valid(name@, label@, description@, content_type@),
        ensures
            size == METADATA_KEY_BASE_SIZE + name@.len() + label@.len() + description@.len()
                + content_type@.len(),
    {
        8 + 8 + 32 + 4 + name.unicode_len() + 4 + label.unicode_len() + 4
            + description.unicode_len() + 4 + content_type.unicode_len() + 1
    }
}

/// Creates an immutable metadata key, rejecting any descriptor string over
/// its bound.
pub fn create_metadata_key(
    id: u64,
    namespace_authority: Principal,
    name: String,
    label: String,
    description: String,
    content_type: String,
    bump: u8,
) -> (result: Result<MetadataKey, MythicMetadataError>)
    ensures
        result is Ok <==> MetadataKey::spec_valid(name@, label@, description@, content_type@),
        result is Ok ==> {
            let key = result->Ok_0;
            &&& key.id == id
            &&& key.namespace_authority == namespace_authority
            &&& key.name@ == name@
            &&& key.label@ == label@
            &&& key.description@ == description@
            &&& key.content_type@ == content_type@
            &&& key.bump == bump
        },
        result is Err ==> result == Err::<MetadataKey, MythicMetadataError>(
            MythicMetadataError::InvalidMetadataKey,
        ),
{
    match MetadataKey::validate(
        name.as_str(),
        label.as_str(),
        description.as_str(),
        content_type.as_str(),
    ) {
        Ok(()) => Ok(
            MetadataKey { id, namespace_authority, name, label, description, content_type, bump },
        ),
        Err(e) => Err(e),
    }
}

} // verus!
