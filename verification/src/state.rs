//! The metadata record: items, collections, and the root.
//!
//! A record is a depth-two tree: a root holding its own items plus a set of
//! collections, each holding items of its own. Every container is kept
//! strictly sorted by metadata-key identifier. Each exec type has a ghost
//! view; all contracts in this crate are stated over those views.

use vstd::prelude::*;

use crate::constants::MAX_COLLECTIONS_PER_METADATA;
use crate::constants::MAX_ITEMS_PER_COLLECTION;
use crate::constants::MAX_VALUE_LEN;
use crate::errors::MythicMetadataError;
use crate::principal::Principal;

verus! {

/// A single metadata item: a serialized value filed under a metadata key.
#[derive(Debug)]
pub struct MetadataItem {
    /// Identifier of the metadata key describing this item.
    pub metadata_key_id: u64,
    /// The slot at which the value was last written.
    pub update_slot: u64,
    /// The serialized item value.
    pub value: Vec<u8>,
}

/// Ghost image of a [`MetadataItem`].
#[verifier::ext_equal]
pub struct MetadataItemView {
    pub metadata_key_id: u64,
    pub update_slot: u64,
    pub value: Seq<u8>,
}

impl View for MetadataItem {
    type V = MetadataItemView;

    open spec fn view(&self) -> MetadataItemView {
        MetadataItemView {
            metadata_key_id: self.metadata_key_id,
            update_slot: self.update_slot,
            value: self.value@,
        }
    }
}

impl Clone for MetadataItem {
    fn clone(&self) -> (res: Self)
        ensures
            res@ == self@,
    {
        let value = self.value.clone();
        proof {
            assert(value@ =~= self.value@);
        }
        MetadataItem { metadata_key_id: self.metadata_key_id, update_slot: self.update_slot, value }
    }
}

/// A named grouping of items with an optional authority of its own.
#[derive(Debug)]
pub struct MetadataCollection {
    /// Identifier of the metadata key describing this collection.
    pub metadata_key_id: u64,
    /// The slot at which the collection's item set last changed.
    pub update_slot: u64,
    /// The principal allowed to mutate this collection's items.
    /// `None` means the root's authority is inherited.
    pub update_authority: Option<Principal>,
    /// The collection's items, strictly sorted by metadata-key identifier.
    pub items: Vec<MetadataItem>,
}

/// Ghost image of a [`MetadataCollection`].
#[verifier::ext_equal]
pub struct MetadataCollectionView {
    pub metadata_key_id: u64,
    pub update_slot: u64,
    pub update_authority: Option<Principal>,
    pub items: Seq<MetadataItemView>,
}

/// The views of a sequence of items.
pub open spec fn item_views(items: Seq<MetadataItem>) -> Seq<MetadataItemView> {
    items.map_values(|it: MetadataItem| it@)
}

/// The views of a sequence of collections.
pub open spec fn collection_views(
    collections: Seq<MetadataCollection>,
) -> Seq<MetadataCollectionView> {
    collections.map_values(|c: MetadataCollection| c@)
}

impl View for MetadataCollection {
    type V = MetadataCollectionView;

    open spec fn view(&self) -> MetadataCollectionView {
        MetadataCollectionView {
            metadata_key_id: self.metadata_key_id,
            update_slot: self.update_slot,
            update_authority: self.update_authority,
            items: item_views(self.items@),
        }
    }
}

impl Clone for MetadataCollection {
    fn clone(&self) -> (res: Self)
        ensures
            res@ == self@,
    {
        let items = self.items.clone();
        proof {
            assert(item_views(items@) =~= item_views(self.items@));
        }
        MetadataCollection {
            metadata_key_id: self.metadata_key_id,
            update_slot: self.update_slot,
            update_authority: self.update_authority,
            items,
        }
    }
}

/// The root of a metadata record.
///
/// `subject` and `issuing_authority` are fixed at creation: the host derives
/// the record's storage address from them, so rewriting either would orphan
/// the record.
#[derive(Debug)]
pub struct Metadata {
    /// Identifier of the metadata key describing the record itself.
    pub metadata_key_id: u64,
    /// The principal this record describes.
    pub subject: Principal,
    /// The principal that created the record. Never rewritten.
    pub issuing_authority: Principal,
    /// The principal allowed to mutate the root; `None` makes the whole
    /// record permanently immutable.
    pub update_authority: Option<Principal>,
    /// The slot at which the root's own item set last changed.
    pub update_slot: u64,
    /// The root's own items, strictly sorted by metadata-key identifier.
    pub items: Vec<MetadataItem>,
    /// The record's collections, strictly sorted by metadata-key identifier.
    pub collections: Vec<MetadataCollection>,
    /// Address-derivation bump supplied by the host.
    pub bump: u8,
}

/// Ghost image of a [`Metadata`] record.
#[verifier::ext_equal]
pub struct MetadataView {
    pub metadata_key_id: u64,
    pub subject: Principal,
    pub issuing_authority: Principal,
    pub update_authority: Option<Principal>,
    pub update_slot: u64,
    pub items: Seq<MetadataItemView>,
    pub collections: Seq<MetadataCollectionView>,
    pub bump: u8,
}

impl View for Metadata {
    type V = MetadataView;

    open spec fn view(&self) -> MetadataView {
        MetadataView {
            metadata_key_id: self.metadata_key_id,
            subject: self.subject,
            issuing_authority: self.issuing_authority,
            update_authority: self.update_authority,
            update_slot: self.update_slot,
            items: item_views(self.items@),
            collections: collection_views(self.collections@),
            bump: self.bump,
        }
    }
}

impl Clone for Metadata {
    fn clone(&self) -> (res: Self)
        ensures
            res@ == self@,
    {
        let items = self.items.clone();
        let collections = self.collections.clone();
        proof {
            assert(item_views(items@) =~= item_views(self.items@));
            assert(collection_views(collections@) =~= collection_views(self.collections@));
        }
        Metadata {
            metadata_key_id: self.metadata_key_id,
            subject: self.subject,
            issuing_authority: self.issuing_authority,
            update_authority: self.update_authority,
            update_slot: self.update_slot,
            items,
            collections,
            bump: self.bump,
        }
    }
}

// ---------------------------------------------------------------------------
// Well-formedness
// ---------------------------------------------------------------------------

/// The items are strictly sorted by metadata-key identifier, which also
/// makes the identifiers unique.
pub open spec fn items_strictly_sorted(items: Seq<MetadataItemView>) -> bool {
    forall|i: int, j: int|
        0 <= i < j < items.len() ==> items[i].metadata_key_id < items[j].metadata_key_id
}

/// The collections are strictly sorted by metadata-key identifier.
pub open spec fn collections_strictly_sorted(collections: Seq<MetadataCollectionView>) -> bool {
    forall|i: int, j: int|
        0 <= i < j < collections.len()
            ==> collections[i].metadata_key_id < collections[j].metadata_key_id
}

/// The item's value respects the length bound.
pub open spec fn item_fits(item: MetadataItemView) -> bool {
    item.value.len() <= MAX_VALUE_LEN
}

/// Every item of the container respects the value-length bound, and the
/// container respects the item-count bound.
pub open spec fn items_within_bounds(items: Seq<MetadataItemView>) -> bool {
    &&& items.len() <= MAX_ITEMS_PER_COLLECTION
    &&& forall|i: int| 0 <= i < items.len() ==> item_fits(#[trigger] items[i])
}

/// A collection in isolation: sorted and within the capacity bounds.
pub open spec fn collection_wf(collection: MetadataCollectionView) -> bool {
    &&& items_strictly_sorted(collection.items)
    &&& items_within_bounds(collection.items)
}

/// The record respects every capacity bound checked by [`Metadata::validate`].
pub open spec fn metadata_within_bounds(m: MetadataView) -> bool {
    &&& items_within_bounds(m.items)
    &&& m.collections.len() <= MAX_COLLECTIONS_PER_METADATA
    &&& forall|i: int|
        0 <= i < m.collections.len() ==> items_within_bounds(#[trigger] m.collections[i].items)
}

/// Full well-formedness of a record: every container strictly sorted, every
/// bound respected, and no collection reusing the root's own identifier
/// (that identifier addresses the root's own item container).
pub open spec fn metadata_wf(m: MetadataView) -> bool {
    &&& items_strictly_sorted(m.items)
    &&& collections_strictly_sorted(m.collections)
    &&& metadata_within_bounds(m)
    &&& forall|i: int|
        0 <= i < m.collections.len() ==> items_strictly_sorted(
            #[trigger] m.collections[i].items,
        )
    &&& forall|i: int|
        0 <= i < m.collections.len()
            ==> (#[trigger] m.collections[i].metadata_key_id) != m.metadata_key_id
}

// ---------------------------------------------------------------------------
// Validation
// ---------------------------------------------------------------------------

impl MetadataItem {
    /// The serialized byte footprint of an item holding `value`:
    /// identifier, update slot, and length-prefixed value.
    pub fn size(value: &Vec<u8>) -> (size: usize)
        requires
            value@.len() <= MAX_VALUE_LEN,
        ensures
            size == crate::sizes::spec_item_size(value@),
    {
        8 + 8 + 4 + value.len()
    }

    /// Checks the value-length bound on this item.
    pub fn validate(&self) -> (result: Result<(), MythicMetadataError>)
        ensures
            result is Ok <==> item_fits(self@),
            result is Err ==> result == Err::<(), MythicMetadataError>(
                MythicMetadataError::MetadataItemValueLenExceeded,
            ),
    {
        if self.value.len() > MAX_VALUE_LEN {
            return Err(MythicMetadataError::MetadataItemValueLenExceeded);
        }
        Ok(())
    }
}

impl MetadataCollection {
    /// Checks the capacity bounds on this collection: item count, then each
    /// item's value length.
    pub fn validate(&self) -> (result: Result<(), MythicMetadataError>)
        ensures
            result is Ok <==> items_within_bounds(self@.items),
            self@.items.len() > MAX_ITEMS_PER_COLLECTION ==> result == Err::<
                (),
                MythicMetadataError,
            >(MythicMetadataError::MetadataItemFull),
            self@.items.len() <= MAX_ITEMS_PER_COLLECTION && !items_within_bounds(self@.items)
                ==> result == Err::<(), MythicMetadataError>(
                MythicMetadataError::MetadataItemValueLenExceeded,
            ),
    {
        if self.items.len() > MAX_ITEMS_PER_COLLECTION {
            return Err(MythicMetadataError::MetadataItemFull);
        }
        let mut i: usize = 0;
        while i < self.items.len()
            invariant
                i <= self.items.len(),
                self.items.len() <= MAX_ITEMS_PER_COLLECTION,
                forall|k: int| 0 <= k < i ==> item_fits(#[trigger] self@.items[k]),
            decreases self.items.len() - i,
        {
            if self.items[i].value.len() > MAX_VALUE_LEN {
                proof {
                    assert(!item_fits(self@.items[i as int]));
                }
                return Err(MythicMetadataError::MetadataItemValueLenExceeded);
            }
            proof {
                assert(item_fits(self@.items[i as int]));
            }
            i += 1;
        }
        Ok(())
    }
}

impl Metadata {
    /// Checks every capacity bound of the record: item counts first, then
    /// the collection count, then each stored value's length.
    pub fn validate(&self) -> (result: Result<(), MythicMetadataError>)
        ensures
            result is Ok <==> metadata_within_bounds(self@),
            self@.items.len() > MAX_ITEMS_PER_COLLECTION || (exists|i: int|
                0 <= i < self@.collections.len() && (#[trigger] self@.collections[i].items).len()
                    > MAX_ITEMS_PER_COLLECTION) ==> result == Err::<(), MythicMetadataError>(
                MythicMetadataError::MetadataItemFull,
            ),
            self@.items.len() <= MAX_ITEMS_PER_COLLECTION && (forall|i: int|
                0 <= i < self@.collections.len() ==> (#[trigger] self@.collections[i].items).len()
                    <= MAX_ITEMS_PER_COLLECTION) && self@.collections.len()
                > MAX_COLLECTIONS_PER_METADATA ==> result == Err::<(), MythicMetadataError>(
                MythicMetadataError::MetadataCollectionFull,
            ),
            self@.items.len() <= MAX_ITEMS_PER_COLLECTION && (forall|i: int|
                0 <= i < self@.collections.len() ==> (#[trigger] self@.collections[i].items).len()
                    <= MAX_ITEMS_PER_COLLECTION) && self@.collections.len()
                <= MAX_COLLECTIONS_PER_METADATA && !metadata_within_bounds(self@) ==> result
                == Err::<(), MythicMetadataError>(
                MythicMetadataError::MetadataItemValueLenExceeded,
            ),
    {
        if self.items.len() > MAX_ITEMS_PER_COLLECTION {
            return Err(MythicMetadataError::MetadataItemFull);
        }
        let mut ci: usize = 0;
        while ci < self.collections.len()
            invariant
                ci <= self.collections.len(),
                forall|k: int|
                    0 <= k < ci ==> (#[trigger] self@.collections[k].items).len()
                        <= MAX_ITEMS_PER_COLLECTION,
            decreases self.collections.len() - ci,
        {
            if self.collections[ci].items.len() > MAX_ITEMS_PER_COLLECTION {
                proof {
                    assert((self@.collections[ci as int].items).len()
                        > MAX_ITEMS_PER_COLLECTION);
                }
                return Err(MythicMetadataError::MetadataItemFull);
            }
            proof {
                assert((self@.collections[ci as int].items).len() <= MAX_ITEMS_PER_COLLECTION);
            }
            ci += 1;
        }
        if self.collections.len() > MAX_COLLECTIONS_PER_METADATA {
            return Err(MythicMetadataError::MetadataCollectionFull);
        }
        let mut i: usize = 0;
        while i < self.items.len()
            invariant
                i <= self.items.len(),
                self.items.len() <= MAX_ITEMS_PER_COLLECTION,
                self.collections.len() <= MAX_COLLECTIONS_PER_METADATA,
                forall|k: int| 0 <= k < i ==> item_fits(#[trigger] self@.items[k]),
                forall|k: int|
                    0 <= k < self@.collections.len() ==> (#[trigger] self@.collections[k].items).len()
                        <= MAX_ITEMS_PER_COLLECTION,
            decreases self.items.len() - i,
        {
            if self.items[i].value.len() > MAX_VALUE_LEN {
                proof {
                    assert(!item_fits(self@.items[i as int]));
                }
                return Err(MythicMetadataError::MetadataItemValueLenExceeded);
            }
            proof {
                assert(item_fits(self@.items[i as int]));
            }
            i += 1;
        }
        let mut ci: usize = 0;
        while ci < self.collections.len()
            invariant
                ci <= self.collections.len(),
                self.items.len() <= MAX_ITEMS_PER_COLLECTION,
                self.collections.len() <= MAX_COLLECTIONS_PER_METADATA,
                forall|k: int|
                    0 <= k < self@.items.len() ==> item_fits(#[trigger] self@.items[k]),
                forall|k: int|
                    0 <= k < ci ==> items_within_bounds(#[trigger] self@.collections[k].items),
                forall|k: int|
                    0 <= k < self@.collections.len() ==> (#[trigger] self@.collections[k].items).len()
                        <= MAX_ITEMS_PER_COLLECTION,
            decreases self.collections.len() - ci,
        {
            let collection = &self.collections[ci];
            proof {
                assert(collection@ == self@.collections[ci as int]);
            }
            let mut ii: usize = 0;
            while ii < collection.items.len()
                invariant
                    ii <= collection.items.len(),
                    ci < self.collections.len(),
                    self.items.len() <= MAX_ITEMS_PER_COLLECTION,
                    self.collections.len() <= MAX_COLLECTIONS_PER_METADATA,
                    collection@ == self@.collections[ci as int],
                    forall|k: int| 0 <= k < ii ==> item_fits(#[trigger] collection@.items[k]),
                    forall|k: int|
                        0 <= k < self@.collections.len()
                            ==> (#[trigger] self@.collections[k].items).len()
                            <= MAX_ITEMS_PER_COLLECTION,
                decreases collection.items.len() - ii,
            {
                if collection.items[ii].value.len() > MAX_VALUE_LEN {
                    proof {
                        assert(!item_fits(collection@.items[ii as int]));
                        assert(collection@ == self@.collections[ci as int]);
                        assert(!items_within_bounds(self@.collections[ci as int].items));
                    }
                    return Err(MythicMetadataError::MetadataItemValueLenExceeded);
                }
                proof {
                    assert(item_fits(collection@.items[ii as int]));
                }
                ii += 1;
            }
            proof {
                assert(collection@ == self@.collections[ci as int]);
                assert(items_within_bounds(self@.collections[ci as int].items));
            }
            ci += 1;
        }
        Ok(())
    }
}

} // verus!
