//! The first place at which a value stands in a sequence.
use vstd::prelude::*;

verus! {

/// The position of the first `item` in `items`, or `items.len()` where there
/// is none.
pub open spec fn first_index<T>(items: Seq<T>, item: T) -> int
    decreases items.len(),
{
    if items.len() == 0 {
        0
    } else if items[0] == item {
        0
    } else {
        1 + first_index(items.drop_first(), item)
    }
}

/// `first_index` is what its name says: where it points the item stands,
/// before it the item does not occur, and it lies within the sequence
/// exactly when the item occurs at all.
pub proof fn lemma_first_index<T>(items: Seq<T>, item: T)
    ensures
        0 <= first_index(items, item) <= items.len(),
        first_index(items, item) < items.len() <==> items.contains(item),
        first_index(items, item) < items.len() ==> items[first_index(items, item)] == item,
        forall|j: int| 0 <= j < first_index(items, item) ==> items[j] != item,
    decreases items.len(),
{
    if items.len() == 0 {
    } else if items[0] == item {
        assert(items.contains(item));
    } else {
        let rest = items.drop_first();
        lemma_first_index(rest, item);
        let k = first_index(rest, item);
        if k < rest.len() {
            assert(items[k + 1] == rest[k]);
            assert(items.contains(item));
        }
        if items.contains(item) {
            let i = choose|i: int| 0 <= i < items.len() && items[i] == item;
            assert(rest[i - 1] == items[i]);
            assert(rest.contains(item));
        }
        assert forall|j: int| 0 <= j < first_index(items, item) implies items[j] != item by {
            if j > 0 {
                assert(rest[j - 1] == items[j]);
            }
        }
    }
}

/// Where an item stands and does not stand before, there is its first index.
pub proof fn lemma_first_index_is<T>(items: Seq<T>, item: T, at: int)
    requires
        0 <= at < items.len(),
        items[at] == item,
        forall|j: int| 0 <= j < at ==> items[j] != item,
    ensures
        first_index(items, item) == at,
{
    lemma_first_index(items, item);
}

} // verus!
