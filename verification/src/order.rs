//! Stable ordering.
use vstd::prelude::*;

verus! {

/// A sequence with one more item, behind the last item that it does not come before.
pub open spec fn inserted<T>(items: Seq<T>, item: T, less: spec_fn(T, T) -> bool) -> Seq<T>
    decreases items.len(),
{
    if items.len() > 0 && less(item, items.last()) {
        inserted(items.drop_last(), item, less).push(items.last())
    } else {
        items.push(item)
    }
}

/// The items in order; items of equal rank stay as they stood.
pub open spec fn ordered<T>(items: Seq<T>, less: spec_fn(T, T) -> bool) -> Seq<T>
    decreases items.len(),
{
    if items.len() == 0 {
        Seq::empty()
    } else {
        inserted(ordered(items.drop_last(), less), items.last(), less)
    }
}

/// No item comes before one that stands ahead of it.
pub open spec fn in_order<T>(items: Seq<T>, less: spec_fn(T, T) -> bool) -> bool {
    forall|i: int, j: int|
        0 <= i < j < items.len() ==> !#[trigger] less(items[j], items[i])
}

/// A relation by which items can be ordered.
pub open spec fn ranks<T>(less: spec_fn(T, T) -> bool) -> bool {
    &&& forall|a: T, b: T| #[trigger] less(a, b) ==> !less(b, a)
    &&& forall|a: T, b: T, c: T|
        #![trigger less(b, a), less(c, b)]
        !less(b, a) && !less(c, b) ==> !less(c, a)
}

pub proof fn lemma_inserted<T>(items: Seq<T>, item: T, less: spec_fn(T, T) -> bool, at: int)
    requires
        0 <= at <= items.len(),
        forall|i: int| at <= i < items.len() ==> less(item, #[trigger] items[i]),
        at > 0 ==> !less(item, items[at - 1]),
    ensures
        inserted(items, item, less) == items.insert(at, item),
    decreases items.len(),
{
    if at < items.len() {
        assert(less(item, items[items.len() - 1]));
        lemma_inserted(items.drop_last(), item, less, at);
        assert(items.drop_last().insert(at, item).push(items.last()) =~= items.insert(at, item));
    } else {
        assert(items.insert(at, item) =~= items.push(item));
        if items.len() > 0 {
            assert(!less(item, items.last()));
        }
    }
}

proof fn lemma_inserted_position<T>(items: Seq<T>, item: T, less: spec_fn(T, T) -> bool) -> (at: int)
    ensures
        0 <= at <= items.len(),
        forall|i: int| at <= i < items.len() ==> less(item, #[trigger] items[i]),
        at > 0 ==> !less(item, items[at - 1]),
        inserted(items, item, less) == items.insert(at, item),
    decreases items.len(),
{
    let at = if items.len() > 0 && less(item, items.last()) {
        let before = items.drop_last();
        let at = lemma_inserted_position(before, item, less);
        assert forall|i: int| at <= i < items.len() implies less(item, #[trigger] items[i]) by {
            if i < before.len() {
                assert(before[i] == items[i]);
            }
        }
        if at > 0 {
            assert(before[at - 1] == items[at - 1]);
        }
        at
    } else {
        items.len() as int
    };
    lemma_inserted(items, item, less, at);
    at
}

/// Ordering keeps every item and puts them in order.
pub proof fn lemma_ordered<T>(items: Seq<T>, less: spec_fn(T, T) -> bool)
    requires
        ranks(less),
    ensures
        in_order(ordered(items, less), less),
        ordered(items, less).to_multiset() == items.to_multiset(),
        ordered(items, less).len() == items.len(),
    decreases items.len(),
{
    broadcast use vstd::seq_lib::group_to_multiset_ensures;

    if items.len() > 0 {
        let before = items.drop_last();
        lemma_ordered(before, less);
        let sorted = ordered(before, less);
        let item = items.last();
        let at = lemma_inserted_position(sorted, item, less);
        let result = sorted.insert(at, item);
        assert forall|i: int, j: int| 0 <= i < j < result.len() implies !#[trigger] less(
            result[j],
            result[i],
        ) by {
            if j < at {
                assert(!less(sorted[j], sorted[i]));
            } else if j == at {
                if i < at - 1 {
                    assert(!less(sorted[at - 1], sorted[i]));
                }
                assert(!less(item, sorted[at - 1]));
            } else if i < at {
                assert(!less(sorted[j - 1], sorted[i]));
            } else if i == at {
                assert(less(item, sorted[j - 1]));
            } else {
                assert(!less(sorted[j - 1], sorted[i - 1]));
            }
        }
        assert(items =~= before.push(item));
        assert(result =~= sorted.take(at).push(item) + sorted.skip(at));
        sorted.to_multiset_ensures();
        before.to_multiset_ensures();
        assert(result.to_multiset() =~= sorted.to_multiset().insert(item)) by {
            vstd::seq_lib::lemma_multiset_commutative(sorted.take(at).push(item), sorted.skip(at));
            vstd::seq_lib::lemma_multiset_commutative(sorted.take(at), sorted.skip(at));
            assert(sorted =~= sorted.take(at) + sorted.skip(at));
            sorted.take(at).to_multiset_ensures();
        }
    } else {
        assert(ordered(items, less) =~= items);
    }
}

proof fn lemma_inserted_apart<T>(
    items: Seq<T>,
    item: T,
    less: spec_fn(T, T) -> bool,
    same: spec_fn(T) -> bool,
)
    requires
        same(item) ==> forall|i: int|
            0 <= i < items.len() && same(#[trigger] items[i]) ==> !less(item, items[i]),
    ensures
        inserted(items, item, less).filter(same) == if same(item) {
            items.filter(same).push(item)
        } else {
            items.filter(same)
        },
    decreases items.len(),
{
    reveal(Seq::filter);
    if items.len() > 0 && less(item, items.last()) {
        let before = items.drop_last();
        assert(forall|i: int| 0 <= i < before.len() ==> before[i] == items[i]);
        lemma_inserted_apart(before, item, less, same);
        let result = inserted(items, item, less);
        assert(result.drop_last() =~= inserted(before, item, less));
        assert(items.last() == items[items.len() - 1]);
    } else {
        assert(items.push(item).drop_last() =~= items);
    }
}

/// Items of which none comes before another stand after ordering as they stood before.
pub proof fn law_equal_ranks_stay<T>(
    items: Seq<T>,
    less: spec_fn(T, T) -> bool,
    same: spec_fn(T) -> bool,
)
    requires
        ranks(less),
        forall|a: T, b: T| same(a) && same(b) ==> !#[trigger] less(a, b),
    ensures
        ordered(items, less).filter(same) == items.filter(same),
    decreases items.len(),
{
    reveal(Seq::filter);
    if items.len() > 0 {
        let before = items.drop_last();
        law_equal_ranks_stay(before, less, same);
        lemma_inserted_apart(ordered(before, less), items.last(), less, same);
    }
}

/// Ordering adds nothing and leaves nothing out.
pub proof fn law_ordering_keeps_items<T>(items: Seq<T>, less: spec_fn(T, T) -> bool, item: T)
    requires
        ranks(less),
    ensures
        ordered(items, less).contains(item) <==> items.contains(item),
        ordered(items, less).len() == items.len(),
{
    broadcast use vstd::seq_lib::group_to_multiset_ensures;

    lemma_ordered(items, less);
    assert(ordered(items, less).to_multiset().count(item) == items.to_multiset().count(item));
}

} // verus!
