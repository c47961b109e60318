//! Backing-storage sizing.
//!
//! The exact serialized footprint of a record is recomputed bottom-up after
//! every mutation — never incrementally — so the physical size can never
//! drift from the logical structure.

use vstd::prelude::*;

use crate::constants::MAX_COLLECTIONS_PER_METADATA;
use crate::constants::MAX_ITEMS_PER_COLLECTION;
use crate::constants::MAX_VALUE_LEN;
use crate::constants::METADATA_BASE_SIZE;
use crate::constants::METADATA_COLLECTION_BASE_SIZE;
use crate::constants::METADATA_ITEM_BASE_SIZE;
use crate::state::Metadata;
use crate::state::MetadataCollection;
use crate::state::MetadataCollectionView;
use crate::state::MetadataItem;
use crate::state::MetadataItemView;
use crate::state::MetadataView;
use crate::state::item_fits;
use crate::state::items_within_bounds;
use crate::state::metadata_within_bounds;

verus! {

/// Serialized footprint of one item holding `value`.
pub open spec fn spec_item_size(value: Seq<u8>) -> int {
    METADATA_ITEM_BASE_SIZE + value.len()
}

/// Summed footprint of a sequence of items.
pub open spec fn spec_items_size(items: Seq<MetadataItemView>) -> int
    decreases items.len(),
{
    if items.len() == 0 {
        0
    } else {
        spec_items_size(items.drop_last()) + spec_item_size(items.last().value)
    }
}

/// Serialized footprint of one collection.
pub open spec fn spec_collection_size(collection: MetadataCollectionView) -> int {
    METADATA_COLLECTION_BASE_SIZE + spec_items_size(collection.items)
}

/// Summed footprint of a sequence of collections.
pub open spec fn spec_collections_size(collections: Seq<MetadataCollectionView>) -> int
    decreases collections.len(),
{
    if collections.len() == 0 {
        0
    } else {
        spec_collections_size(collections.drop_last()) + spec_collection_size(collections.last())
    }
}

/// Serialized footprint of a whole record.
pub open spec fn spec_metadata_size(m: MetadataView) -> int {
    METADATA_BASE_SIZE + spec_items_size(m.items) + spec_collections_size(m.collections)
}

// ---------------------------------------------------------------------------
// Bounds and algebra
// ---------------------------------------------------------------------------

/// An item sequence within the capacity bounds has a bounded, non-negative
/// summed footprint.
pub proof fn lemma_items_size_bounds(items: Seq<MetadataItemView>)
    requires
        forall|i: int| 0 <= i < items.len() ==> item_fits(#[trigger] items[i]),
    ensures
        0 <= spec_items_size(items) <= items.len() * (METADATA_ITEM_BASE_SIZE + MAX_VALUE_LEN),
    decreases items.len(),
{
    if items.len() > 0 {
        lemma_items_size_bounds(items.drop_last());
        assert((items.len() - 1) * (METADATA_ITEM_BASE_SIZE + MAX_VALUE_LEN)
            + (METADATA_ITEM_BASE_SIZE + MAX_VALUE_LEN) == items.len() * (METADATA_ITEM_BASE_SIZE
            + MAX_VALUE_LEN)) by (nonlinear_arith);
    }
}

/// A collection sequence within the capacity bounds has a bounded,
/// non-negative summed footprint.
pub proof fn lemma_collections_size_bounds(collections: Seq<MetadataCollectionView>)
    requires
        forall|i: int|
            0 <= i < collections.len() ==> items_within_bounds(
                (#[trigger] collections[i]).items,
            ),
    ensures
        0 <= spec_collections_size(collections) <= collections.len()
            * (METADATA_COLLECTION_BASE_SIZE + MAX_ITEMS_PER_COLLECTION * (METADATA_ITEM_BASE_SIZE
            + MAX_VALUE_LEN)),
    decreases collections.len(),
{
    if collections.len() > 0 {
        lemma_collections_size_bounds(collections.drop_last());
        lemma_items_size_bounds(collections.last().items);
        assert(spec_items_size(collections.last().items) <= MAX_ITEMS_PER_COLLECTION
            * (METADATA_ITEM_BASE_SIZE + MAX_VALUE_LEN)) by {
            assert(collections.last().items.len() * (METADATA_ITEM_BASE_SIZE + MAX_VALUE_LEN)
                <= MAX_ITEMS_PER_COLLECTION * (METADATA_ITEM_BASE_SIZE + MAX_VALUE_LEN))
                by (nonlinear_arith)
                requires collections.last().items.len() <= MAX_ITEMS_PER_COLLECTION;
        }
        assert((collections.len() - 1) * (METADATA_COLLECTION_BASE_SIZE
            + MAX_ITEMS_PER_COLLECTION * (METADATA_ITEM_BASE_SIZE + MAX_VALUE_LEN))
            + (METADATA_COLLECTION_BASE_SIZE + MAX_ITEMS_PER_COLLECTION
            * (METADATA_ITEM_BASE_SIZE + MAX_VALUE_LEN)) == collections.len()
            * (METADATA_COLLECTION_BASE_SIZE + MAX_ITEMS_PER_COLLECTION
            * (METADATA_ITEM_BASE_SIZE + MAX_VALUE_LEN))) by (nonlinear_arith);
    }
}

/// Prepending an item grows the summed footprint by exactly that item's
/// footprint.
pub proof fn lemma_items_size_prepend(item: MetadataItemView, items: Seq<MetadataItemView>)
    ensures
        spec_items_size(seq![item] + items) == spec_item_size(item.value) + spec_items_size(items),
    decreases items.len(),
{
    let t = seq![item] + items;
    if items.len() == 0 {
        assert(t =~= seq![item]);
        assert(t.last() == item);
        assert(t.drop_last() =~= Seq::<MetadataItemView>::empty());
        assert(spec_items_size(t.drop_last()) == 0);
    } else {
        assert(t.last() == items.last());
        assert(t.drop_last() =~= seq![item] + items.drop_last());
        lemma_items_size_prepend(item, items.drop_last());
        assert(spec_items_size(items) == spec_items_size(items.drop_last()) + spec_item_size(
            items.last().value,
        ));
    }
}

/// An ordered insert grows the summed footprint by exactly the new item's
/// footprint, wherever the item lands.
pub proof fn lemma_items_size_insert_sorted(items: Seq<MetadataItemView>, item: MetadataItemView)
    ensures
        spec_items_size(crate::ordered::insert_sorted_by_key(items, item)) == spec_items_size(
            items,
        ) + spec_item_size(item.value),
    decreases items.len(),
{
    let t = crate::ordered::insert_sorted_by_key(items, item);
    if items.len() == 0 {
        assert(t =~= seq![item]);
        assert(t.last() == item);
        assert(t.drop_last() =~= Seq::<MetadataItemView>::empty());
        assert(spec_items_size(t.drop_last()) == 0);
    } else if crate::ordered::HasKeyId::key_id(&item) < crate::ordered::HasKeyId::key_id(
        &items[0],
    ) {
        assert(t == seq![item] + items);
        lemma_items_size_prepend(item, items);
    } else {
        lemma_items_size_insert_sorted(items.drop_first(), item);
        lemma_items_size_prepend(items[0], crate::ordered::insert_sorted_by_key(
            items.drop_first(),
            item,
        ));
        lemma_items_size_prepend(items[0], items.drop_first());
        assert(seq![items[0]] + items.drop_first() =~= items);
    }
}

/// Replacing the collection at `k` shifts the summed footprint by the
/// difference of the two footprints.
pub proof fn lemma_collections_size_update(
    collections: Seq<MetadataCollectionView>,
    collection: MetadataCollectionView,
    k: int,
)
    requires
        0 <= k < collections.len(),
    ensures
        spec_collections_size(collections.update(k, collection)) == spec_collections_size(
            collections,
        ) - spec_collection_size(collections[k]) + spec_collection_size(collection),
    decreases collections.len(),
{
    let updated = collections.update(k, collection);
    if k == collections.len() - 1 {
        assert(updated.drop_last() =~= collections.drop_last());
        assert(updated.last() == collection);
    } else {
        assert(updated.last() == collections.last());
        assert(updated.drop_last() =~= collections.drop_last().update(k, collection));
        lemma_collections_size_update(collections.drop_last(), collection, k);
    }
}

// ---------------------------------------------------------------------------
// Executable sizing
// ---------------------------------------------------------------------------

/// Sums the footprints of a container's items.
fn items_size(items: &Vec<MetadataItem>) -> (size: usize)
    requires
        items@.len() <= MAX_ITEMS_PER_COLLECTION,
        forall|i: int| 0 <= i < items@.len() ==> item_fits(#[trigger] items@[i]@),
    ensures
        size == spec_items_size(crate::state::item_views(items@)),
{
    let ghost views = crate::state::item_views(items@);
    let mut acc: usize = 0;
    let mut i: usize = 0;
    while i < items.len()
        invariant
            i <= items@.len(),
            items@.len() <= MAX_ITEMS_PER_COLLECTION,
            forall|k: int| 0 <= k < items@.len() ==> item_fits(#[trigger] items@[k]@),
            views == crate::state::item_views(items@),
            acc == spec_items_size(views.take(i as int)),
            acc <= i * (METADATA_ITEM_BASE_SIZE + MAX_VALUE_LEN),
        decreases items@.len() - i,
    {
        proof {
            assert(views.take(i + 1).drop_last() =~= views.take(i as int));
            assert(views.take(i + 1).last() == views[i as int]);
            assert((i + 1) * (METADATA_ITEM_BASE_SIZE + MAX_VALUE_LEN) == i
                * (METADATA_ITEM_BASE_SIZE + MAX_VALUE_LEN) + (METADATA_ITEM_BASE_SIZE
                + MAX_VALUE_LEN)) by (nonlinear_arith);
            assert(i * (METADATA_ITEM_BASE_SIZE + MAX_VALUE_LEN) <= MAX_ITEMS_PER_COLLECTION
                * (METADATA_ITEM_BASE_SIZE + MAX_VALUE_LEN)) by (nonlinear_arith)
                requires i <= MAX_ITEMS_PER_COLLECTION;
        }
        acc = acc + MetadataItem::size(&items[i].value);
        i += 1;
    }
    proof {
        assert(views.take(i as int) =~= views);
    }
    acc
}

impl MetadataCollection {
    /// The serialized byte footprint of a collection holding
    /// `collection_items`.
    pub fn size(collection_items: &Vec<MetadataItem>) -> (size: usize)
        requires
            collection_items@.len() <= MAX_ITEMS_PER_COLLECTION,
            forall|i: int|
                0 <= i < collection_items@.len() ==> item_fits(#[trigger] collection_items@[i]@),
        ensures
            size == METADATA_COLLECTION_BASE_SIZE + spec_items_size(
                crate::state::item_views(collection_items@),
            ),
    {
        proof {
            lemma_items_size_bounds(crate::state::item_views(collection_items@));
        }
        METADATA_COLLECTION_BASE_SIZE + items_size(collection_items)
    }
}

impl Metadata {
    /// The exact backing size required to persist a record holding `items`
    /// and `collections`: the full bottom-up sum of every fixed overhead
    /// and every stored value.
    pub fn size(items: &Vec<MetadataItem>, collections: &Vec<MetadataCollection>) -> (size: usize)
        requires
            items@.len() <= MAX_ITEMS_PER_COLLECTION,
            forall|i: int| 0 <= i < items@.len() ==> item_fits(#[trigger] items@[i]@),
            collections@.len() <= MAX_COLLECTIONS_PER_METADATA,
            forall|i: int|
                0 <= i < collections@.len() ==> items_within_bounds(
                    (#[trigger] collections@[i]@).items,
                ),
        ensures
            size == METADATA_BASE_SIZE + spec_items_size(crate::state::item_views(items@))
                + spec_collections_size(crate::state::collection_views(collections@)),
    {
        let ghost cviews = crate::state::collection_views(collections@);
        proof {
            lemma_items_size_bounds(crate::state::item_views(items@));
            lemma_collections_size_bounds(cviews);
        }
        let root_items = items_size(items);
        let mut acc: usize = 0;
        let mut i: usize = 0;
        while i < collections.len()
            invariant
                i <= collections@.len(),
                collections@.len() <= MAX_COLLECTIONS_PER_METADATA,
                forall|k: int|
                    0 <= k < collections@.len() ==> items_within_bounds(
                        (#[trigger] collections@[k]@).items,
                    ),
                cviews == crate::state::collection_views(collections@),
                acc == spec_collections_size(cviews.take(i as int)),
                acc <= i * (METADATA_COLLECTION_BASE_SIZE + MAX_ITEMS_PER_COLLECTION
                    * (METADATA_ITEM_BASE_SIZE + MAX_VALUE_LEN)),
            decreases collections@.len() - i,
        {
            proof {
                assert(cviews.take(i + 1).drop_last() =~= cviews.take(i as int));
                assert(cviews.take(i + 1).last() == cviews[i as int]);
                lemma_items_size_bounds(cviews[i as int].items);
                assert(cviews[i as int].items.len() * (METADATA_ITEM_BASE_SIZE + MAX_VALUE_LEN)
                    <= MAX_ITEMS_PER_COLLECTION * (METADATA_ITEM_BASE_SIZE + MAX_VALUE_LEN))
                    by (nonlinear_arith)
                    requires cviews[i as int].items.len() <= MAX_ITEMS_PER_COLLECTION;
                assert((i + 1) * (METADATA_COLLECTION_BASE_SIZE + MAX_ITEMS_PER_COLLECTION
                    * (METADATA_ITEM_BASE_SIZE + MAX_VALUE_LEN)) == i
                    * (METADATA_COLLECTION_BASE_SIZE + MAX_ITEMS_PER_COLLECTION
                    * (METADATA_ITEM_BASE_SIZE + MAX_VALUE_LEN)) + (METADATA_COLLECTION_BASE_SIZE
                    + MAX_ITEMS_PER_COLLECTION * (METADATA_ITEM_BASE_SIZE + MAX_VALUE_LEN)))
                    by (nonlinear_arith);
                assert(i * (METADATA_COLLECTION_BASE_SIZE + MAX_ITEMS_PER_COLLECTION
                    * (METADATA_ITEM_BASE_SIZE + MAX_VALUE_LEN)) <= MAX_COLLECTIONS_PER_METADATA
                    * (METADATA_COLLECTION_BASE_SIZE + MAX_ITEMS_PER_COLLECTION
                    * (METADATA_ITEM_BASE_SIZE + MAX_VALUE_LEN))) by (nonlinear_arith)
                    requires i <= MAX_COLLECTIONS_PER_METADATA;
                assert forall|j: int|
                    0 <= j < collections@[i as int].items@.len() implies item_fits(
                    #[trigger] collections@[i as int].items@[j]@,
                ) by {
                    assert(cviews[i as int].items[j] == collections@[i as int].items@[j]@);
                }
            }
            let collection_size = MetadataCollection::size(&collections[i].items);
            acc = acc + collection_size;
            i += 1;
        }
        proof {
            assert(cviews.take(i as int) =~= cviews);
            assert(root_items <= MAX_ITEMS_PER_COLLECTION * (METADATA_ITEM_BASE_SIZE
                + MAX_VALUE_LEN)) by {
                lemma_items_size_bounds(crate::state::item_views(items@));
                assert(items@.len() * (METADATA_ITEM_BASE_SIZE + MAX_VALUE_LEN)
                    <= MAX_ITEMS_PER_COLLECTION * (METADATA_ITEM_BASE_SIZE + MAX_VALUE_LEN))
                    by (nonlinear_arith)
                    requires items@.len() <= MAX_ITEMS_PER_COLLECTION;
            }
            assert(acc <= MAX_COLLECTIONS_PER_METADATA * (METADATA_COLLECTION_BASE_SIZE
                + MAX_ITEMS_PER_COLLECTION * (METADATA_ITEM_BASE_SIZE + MAX_VALUE_LEN))) by {
                assert(i * (METADATA_COLLECTION_BASE_SIZE + MAX_ITEMS_PER_COLLECTION
                    * (METADATA_ITEM_BASE_SIZE + MAX_VALUE_LEN)) <= MAX_COLLECTIONS_PER_METADATA
                    * (METADATA_COLLECTION_BASE_SIZE + MAX_ITEMS_PER_COLLECTION
                    * (METADATA_ITEM_BASE_SIZE + MAX_VALUE_LEN))) by (nonlinear_arith)
                    requires i <= MAX_COLLECTIONS_PER_METADATA;
            }
        }
        METADATA_BASE_SIZE + root_items + acc
    }
}

} // verus!
