//! Ordered-collection maintenance.
//!
//! Items and collections are located by binary search over their
//! metadata-key identifier; a hit on insert is an error, a miss on update
//! or remove is an error. The spec side is shared through [`HasKeyId`].

use vstd::prelude::*;

use crate::state::MetadataCollection;
use crate::state::MetadataCollectionView;
use crate::state::MetadataItem;
use crate::state::MetadataItemView;
use crate::state::collection_views;
use crate::state::item_views;

verus! {

/// A ghost value addressed by a metadata-key identifier.
pub trait HasKeyId {
    /// The metadata-key identifier the value is filed under.
    spec fn key_id(&self) -> u64;
}

impl HasKeyId for MetadataItemView {
    open spec fn key_id(&self) -> u64 {
        self.metadata_key_id
    }
}

impl HasKeyId for MetadataCollectionView {
    open spec fn key_id(&self) -> u64 {
        self.metadata_key_id
    }
}

/// Strictly ascending identifiers: sorted, with no duplicates.
pub open spec fn strictly_sorted_by_key<T: HasKeyId>(s: Seq<T>) -> bool {
    forall|i: int, j: int| 0 <= i < j < s.len() ==> s[i].key_id() < s[j].key_id()
}

/// Some element of `s` is filed under `id`.
pub open spec fn contains_key_id<T: HasKeyId>(s: Seq<T>, id: u64) -> bool {
    exists|i: int| 0 <= i < s.len() && (#[trigger] s[i]).key_id() == id
}

/// The index of the element filed under `id`; meaningful only when
/// [`contains_key_id`] holds of a strictly sorted sequence, where that
/// index is unique.
pub open spec fn index_of_key_id<T: HasKeyId>(s: Seq<T>, id: u64) -> int {
    choose|i: int| 0 <= i < s.len() && (#[trigger] s[i]).key_id() == id
}

/// In a strictly sorted sequence the index of an identifier is unique, and
/// [`index_of_key_id`] returns it.
pub proof fn lemma_index_of_key_id<T: HasKeyId>(s: Seq<T>, id: u64)
    requires
        strictly_sorted_by_key(s),
        contains_key_id(s, id),
    ensures
        0 <= index_of_key_id(s, id) < s.len(),
        s[index_of_key_id(s, id)].key_id() == id,
        forall|j: int| 0 <= j < s.len() && (#[trigger] s[j]).key_id() == id ==> j == index_of_key_id(
            s,
            id,
        ),
{
    let k = index_of_key_id(s, id);
    assert(0 <= k < s.len() && s[k].key_id() == id);
    assert forall|j: int| 0 <= j < s.len() && (#[trigger] s[j]).key_id() == id implies j == k by {
        if j < k {
            assert(s[j].key_id() < s[k].key_id());
        } else if k < j {
            assert(s[k].key_id() < s[j].key_id());
        }
    }
}

/// `x` placed before the first element with a larger identifier.
pub open spec fn insert_sorted_by_key<T: HasKeyId>(s: Seq<T>, x: T) -> Seq<T>
    decreases s.len(),
{
    if s.len() == 0 {
        seq![x]
    } else if x.key_id() < s[0].key_id() {
        seq![x] + s
    } else {
        seq![s[0]] + insert_sorted_by_key(s.drop_first(), x)
    }
}

/// When all identifiers below position `k` are smaller and all from `k` on
/// are larger, [`insert_sorted_by_key`] is exactly insertion at `k`.
pub proof fn lemma_insert_sorted_by_key_at<T: HasKeyId>(s: Seq<T>, x: T, k: int)
    requires
        0 <= k <= s.len(),
        forall|j: int| 0 <= j < k ==> (#[trigger] s[j]).key_id() < x.key_id(),
        forall|j: int| k <= j < s.len() ==> (#[trigger] s[j]).key_id() > x.key_id(),
    ensures
        insert_sorted_by_key(s, x) == s.insert(k, x),
    decreases s.len(),
{
    if s.len() == 0 {
        assert(insert_sorted_by_key(s, x) =~= s.insert(k, x));
    } else if k == 0 {
        assert(s[0].key_id() > x.key_id());
        assert(insert_sorted_by_key(s, x) =~= s.insert(0, x));
    } else {
        assert(s[0].key_id() < x.key_id());
        lemma_insert_sorted_by_key_at(s.drop_first(), x, k - 1);
        assert(insert_sorted_by_key(s, x) == seq![s[0]] + s.drop_first().insert(k - 1, x));
        assert(seq![s[0]] + s.drop_first().insert(k - 1, x) =~= s.insert(k, x));
    }
}

/// An ordered insert of a fresh identifier keeps the sequence strictly
/// sorted, grows it by one, and adds exactly that identifier.
pub proof fn lemma_insert_sorted_by_key_properties<T: HasKeyId>(s: Seq<T>, x: T)
    requires
        strictly_sorted_by_key(s),
        !contains_key_id(s, x.key_id()),
    ensures
        strictly_sorted_by_key(insert_sorted_by_key(s, x)),
        insert_sorted_by_key(s, x).len() == s.len() + 1,
        forall|id: u64| #[trigger]
            contains_key_id(insert_sorted_by_key(s, x), id) <==> (contains_key_id(s, id) || id
                == x.key_id()),
    decreases s.len(),
{
    let t = insert_sorted_by_key(s, x);
    if s.len() == 0 {
        assert(t[0] == x);
        assert forall|id: u64| #[trigger]
            contains_key_id(t, id) <==> (contains_key_id(s, id) || id == x.key_id()) by {
            if contains_key_id(t, id) {
                let w = choose|i: int| 0 <= i < t.len() && (#[trigger] t[i]).key_id() == id;
                assert(t[w] == x);
            }
            if id == x.key_id() {
                assert(t[0].key_id() == id);
            }
        }
    } else if x.key_id() < s[0].key_id() {
        assert forall|i: int, j: int| 0 <= i < j < t.len() implies t[i].key_id()
            < t[j].key_id() by {
            assert(t[j] == s[j - 1]);
            if i > 0 {
                assert(t[i] == s[i - 1]);
            }
        }
        assert forall|id: u64| #[trigger]
            contains_key_id(t, id) <==> (contains_key_id(s, id) || id == x.key_id()) by {
            if contains_key_id(t, id) {
                let w = choose|i: int| 0 <= i < t.len() && (#[trigger] t[i]).key_id() == id;
                if w > 0 {
                    assert(s[w - 1].key_id() == id);
                }
            }
            if contains_key_id(s, id) {
                let w = choose|i: int| 0 <= i < s.len() && (#[trigger] s[i]).key_id() == id;
                assert(t[w + 1].key_id() == id);
            }
            if id == x.key_id() {
                assert(t[0].key_id() == id);
            }
        }
    } else {
        assert(s[0].key_id() != x.key_id());
        let rest = s.drop_first();
        assert forall|i: int| 0 <= i < rest.len() implies (#[trigger] rest[i]).key_id()
            != x.key_id() by {
            if rest[i].key_id() == x.key_id() {
                assert(s[i + 1].key_id() == x.key_id());
            }
        }
        assert(!contains_key_id(rest, x.key_id()));
        lemma_insert_sorted_by_key_properties(rest, x);
        let u = insert_sorted_by_key(rest, x);
        assert(t =~= seq![s[0]] + u);
        assert forall|j: int| 1 <= j < t.len() implies s[0].key_id() < (#[trigger] t[j]).key_id() by {
            assert(t[j] == u[j - 1]);
            assert(contains_key_id(u, u[j - 1].key_id()));
            let id = u[j - 1].key_id();
            if contains_key_id(rest, id) {
                let w = choose|i: int| 0 <= i < rest.len() && (#[trigger] rest[i]).key_id() == id;
                assert(s[w + 1].key_id() == id);
            } else {
                assert(id == x.key_id());
            }
        }
        assert forall|i: int, j: int| 0 <= i < j < t.len() implies t[i].key_id()
            < t[j].key_id() by {
            if i > 0 {
                assert(t[i] == u[i - 1]);
                assert(t[j] == u[j - 1]);
            }
        }
        assert forall|id: u64| #[trigger]
            contains_key_id(t, id) <==> (contains_key_id(s, id) || id == x.key_id()) by {
            if contains_key_id(t, id) {
                let w = choose|i: int| 0 <= i < t.len() && (#[trigger] t[i]).key_id() == id;
                if w == 0 {
                    assert(s[0].key_id() == id);
                } else {
                    assert(u[w - 1].key_id() == id);
                    assert(contains_key_id(u, id));
                    if contains_key_id(rest, id) {
                        let v = choose|i: int|
                            0 <= i < rest.len() && (#[trigger] rest[i]).key_id() == id;
                        assert(s[v + 1].key_id() == id);
                    }
                }
            }
            if contains_key_id(s, id) {
                let w = choose|i: int| 0 <= i < s.len() && (#[trigger] s[i]).key_id() == id;
                if w == 0 {
                    assert(t[0].key_id() == id);
                } else {
                    assert(rest[w - 1].key_id() == id);
                    assert(contains_key_id(rest, id));
                    assert(contains_key_id(u, id));
                    let v = choose|i: int| 0 <= i < u.len() && (#[trigger] u[i]).key_id() == id;
                    assert(t[v + 1].key_id() == id);
                }
            }
            if id == x.key_id() {
                assert(contains_key_id(u, id));
                let v = choose|i: int| 0 <= i < u.len() && (#[trigger] u[i]).key_id() == id;
                assert(t[v + 1].key_id() == id);
            }
        }
    }
}

/// Inserting at the position characterized above keeps the sequence
/// strictly sorted and adds exactly the new identifier.
pub proof fn lemma_insert_at_keeps_sorted<T: HasKeyId>(s: Seq<T>, x: T, k: int)
    requires
        strictly_sorted_by_key(s),
        0 <= k <= s.len(),
        forall|j: int| 0 <= j < k ==> (#[trigger] s[j]).key_id() < x.key_id(),
        forall|j: int| k <= j < s.len() ==> (#[trigger] s[j]).key_id() > x.key_id(),
    ensures
        strictly_sorted_by_key(s.insert(k, x)),
        forall|id: u64| #[trigger]
            contains_key_id(s.insert(k, x), id) <==> (contains_key_id(s, id) || id
                == x.key_id()),
{
    let t = s.insert(k, x);
    assert forall|i: int, j: int| 0 <= i < j < t.len() implies t[i].key_id() < t[j].key_id() by {
        assert(t[i] == if i < k {
            s[i]
        } else if i == k {
            x
        } else {
            s[i - 1]
        });
        assert(t[j] == if j < k {
            s[j]
        } else if j == k {
            x
        } else {
            s[j - 1]
        });
    }
    assert forall|id: u64| #[trigger]
        contains_key_id(t, id) <==> (contains_key_id(s, id) || id == x.key_id()) by {
        if contains_key_id(t, id) {
            let w = choose|i: int| 0 <= i < t.len() && (#[trigger] t[i]).key_id() == id;
            if w < k {
                assert(s[w].key_id() == id);
            } else if w > k {
                assert(s[w - 1].key_id() == id);
            }
        }
        if contains_key_id(s, id) {
            let w = choose|i: int| 0 <= i < s.len() && (#[trigger] s[i]).key_id() == id;
            if w < k {
                assert(t[w].key_id() == id);
            } else {
                assert(t[w + 1].key_id() == id);
            }
        }
        if id == x.key_id() {
            assert(t[k].key_id() == id);
        }
    }
}

/// Removing an element keeps a strictly sorted sequence strictly sorted,
/// and removes exactly its identifier.
pub proof fn lemma_remove_keeps_sorted<T: HasKeyId>(s: Seq<T>, k: int)
    requires
        strictly_sorted_by_key(s),
        0 <= k < s.len(),
    ensures
        strictly_sorted_by_key(s.remove(k)),
        forall|id: u64| #[trigger]
            contains_key_id(s.remove(k), id) <==> (contains_key_id(s, id) && id != s[k].key_id()),
{
    let t = s.remove(k);
    assert forall|i: int, j: int| 0 <= i < j < t.len() implies t[i].key_id() < t[j].key_id() by {
        assert(t[i] == if i < k {
            s[i]
        } else {
            s[i + 1]
        });
        assert(t[j] == if j < k {
            s[j]
        } else {
            s[j + 1]
        });
    }
    assert forall|id: u64| #[trigger]
        contains_key_id(t, id) <==> (contains_key_id(s, id) && id != s[k].key_id()) by {
        if contains_key_id(t, id) {
            let w = choose|i: int| 0 <= i < t.len() && (#[trigger] t[i]).key_id() == id;
            if w < k {
                assert(s[w].key_id() == id);
                assert(s[w].key_id() != s[k].key_id());
            } else {
                assert(s[w + 1].key_id() == id);
                assert(s[w + 1].key_id() != s[k].key_id());
            }
        }
        if contains_key_id(s, id) && id != s[k].key_id() {
            let w = choose|i: int| 0 <= i < s.len() && (#[trigger] s[i]).key_id() == id;
            if w < k {
                assert(t[w].key_id() == id);
            } else {
                assert(t[w - 1].key_id() == id);
            }
        }
    }
}

/// Replacing the element at `k` by one with the same identifier keeps the
/// sequence strictly sorted and its identifier set unchanged.
pub proof fn lemma_update_keeps_sorted<T: HasKeyId>(s: Seq<T>, k: int, x: T)
    requires
        strictly_sorted_by_key(s),
        0 <= k < s.len(),
        x.key_id() == s[k].key_id(),
    ensures
        strictly_sorted_by_key(s.update(k, x)),
        forall|id: u64| #[trigger]
            contains_key_id(s.update(k, x), id) <==> contains_key_id(s, id),
{
    let t = s.update(k, x);
    assert forall|i: int, j: int| 0 <= i < j < t.len() implies t[i].key_id() < t[j].key_id() by {
        assert(t[i] == if i == k {
            x
        } else {
            s[i]
        });
        assert(t[j] == if j == k {
            x
        } else {
            s[j]
        });
    }
    assert forall|id: u64| #[trigger]
        contains_key_id(t, id) <==> contains_key_id(s, id) by {
        if contains_key_id(t, id) {
            let w = choose|i: int| 0 <= i < t.len() && (#[trigger] t[i]).key_id() == id;
            assert(s[w].key_id() == id);
        }
        if contains_key_id(s, id) {
            let w = choose|i: int| 0 <= i < s.len() && (#[trigger] s[i]).key_id() == id;
            assert(t[w].key_id() == id);
        }
    }
}

// ---------------------------------------------------------------------------
// Binary search
// ---------------------------------------------------------------------------

/// Binary search over a strictly sorted item vector.
///
/// `Ok(i)` locates the item filed under `id`; `Err(i)` is the insertion
/// point that keeps the vector sorted.
pub fn binary_search_items(items: &Vec<MetadataItem>, id: u64) -> (result: Result<usize, usize>)
    requires
        strictly_sorted_by_key(item_views(items@)),
    ensures
        match result {
            Ok(i) => {
                &&& i < items@.len()
                &&& item_views(items@)[i as int].key_id() == id
                &&& contains_key_id(item_views(items@), id)
                &&& i == index_of_key_id(item_views(items@), id)
            },
            Err(i) => {
                &&& i <= items@.len()
                &&& !contains_key_id(item_views(items@), id)
                &&& forall|j: int|
                    0 <= j < i ==> (#[trigger] item_views(items@)[j]).key_id() < id
                &&& forall|j: int|
                    i <= j < items@.len() ==> (#[trigger] item_views(items@)[j]).key_id() > id
            },
        },
{
    let ghost views = item_views(items@);
    let mut lo: usize = 0;
    let mut hi: usize = items.len();
    while lo < hi
        invariant
            lo <= hi <= items@.len(),
            views == item_views(items@),
            strictly_sorted_by_key(views),
            forall|j: int| 0 <= j < lo ==> (#[trigger] views[j]).key_id() < id,
            forall|j: int| hi <= j < views.len() ==> (#[trigger] views[j]).key_id() > id,
        decreases hi - lo,
    {
        let mid = lo + (hi - lo) / 2;
        let mid_id = items[mid].metadata_key_id;
        proof {
            assert(views[mid as int].key_id() == mid_id);
        }
        if mid_id == id {
            proof {
                lemma_index_of_key_id(views, id);
            }
            return Ok(mid);
        } else if mid_id < id {
            lo = mid + 1;
        } else {
            hi = mid;
        }
    }
    proof {
        if contains_key_id(views, id) {
            let w = choose|i: int| 0 <= i < views.len() && (#[trigger] views[i]).key_id() == id;
            assert(views[w].key_id() == id);
        }
    }
    Err(lo)
}

/// Binary search over a strictly sorted collection vector; as
/// [`binary_search_items`].
pub fn binary_search_collections(
    collections: &Vec<MetadataCollection>,
    id: u64,
) -> (result: Result<usize, usize>)
    requires
        strictly_sorted_by_key(collection_views(collections@)),
    ensures
        match result {
            Ok(i) => {
                &&& i < collections@.len()
                &&& collection_views(collections@)[i as int].key_id() == id
                &&& contains_key_id(collection_views(collections@), id)
                &&& i == index_of_key_id(collection_views(collections@), id)
            },
            Err(i) => {
                &&& i <= collections@.len()
                &&& !contains_key_id(collection_views(collections@), id)
                &&& forall|j: int|
                    0 <= j < i ==> (#[trigger] collection_views(collections@)[j]).key_id() < id
                &&& forall|j: int|
                    i <= j < collections@.len() ==> (#[trigger] collection_views(
                        collections@,
                    )[j]).key_id() > id
            },
        },
{
    let ghost views = collection_views(collections@);
    let mut lo: usize = 0;
    let mut hi: usize = collections.len();
    while lo < hi
        invariant
            lo <= hi <= collections@.len(),
            views == collection_views(collections@),
            strictly_sorted_by_key(views),
            forall|j: int| 0 <= j < lo ==> (#[trigger] views[j]).key_id() < id,
            forall|j: int| hi <= j < views.len() ==> (#[trigger] views[j]).key_id() > id,
        decreases hi - lo,
    {
        let mid = lo + (hi - lo) / 2;
        let mid_id = collections[mid].metadata_key_id;
        proof {
            assert(views[mid as int].key_id() == mid_id);
        }
        if mid_id == id {
            proof {
                lemma_index_of_key_id(views, id);
            }
            return Ok(mid);
        } else if mid_id < id {
            lo = mid + 1;
        } else {
            hi = mid;
        }
    }
    proof {
        if contains_key_id(views, id) {
            let w = choose|i: int| 0 <= i < views.len() && (#[trigger] views[i]).key_id() == id;
            assert(views[w].key_id() == id);
        }
    }
    Err(lo)
}

} // verus!
