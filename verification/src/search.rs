//! Finding the first element of a sequence that meets a condition.

use vstd::prelude::*;

verus! {

/// The position of the first of `items` that `wanted` holds of.
pub open spec fn first_where<T>(items: Seq<T>, wanted: spec_fn(T) -> bool) -> Option<int>
    decreases items.len(),
{
    if items.len() == 0 {
        None
    } else if wanted(items[0]) {
        Some(0int)
    } else {
        match first_where(items.drop_first(), wanted) {
            Some(i) => Some(i + 1),
            None => None,
        }
    }
}

/// What is found lies within the sequence, meets the condition and has
/// nothing before it that does; where nothing is found, nothing meets it.
pub proof fn lemma_first_where<T>(items: Seq<T>, wanted: spec_fn(T) -> bool)
    ensures
        match first_where(items, wanted) {
            Some(i) => {
                &&& 0 <= i < items.len()
                &&& wanted(items[i])
                &&& forall|j: int| 0 <= j < i ==> !wanted(#[trigger] items[j])
            },
            None => forall|j: int| 0 <= j < items.len() ==> !wanted(#[trigger] items[j]),
        },
    decreases items.len(),
{
    if items.len() > 0 && !wanted(items[0]) {
        let rest = items.drop_first();
        lemma_first_where(rest, wanted);
        match first_where(rest, wanted) {
            Some(i) => {
                assert(rest[i] == items[i + 1]);
                assert forall|j: int| 0 <= j < i + 1 implies !wanted(#[trigger] items[j]) by {
                    if j > 0 {
                        assert(rest[j - 1] == items[j]);
                    }
                }
            },
            None => {
                assert forall|j: int| 0 <= j < items.len() implies !wanted(#[trigger] items[j]) by {
                    if j > 0 {
                        assert(rest[j - 1] == items[j]);
                    }
                }
            },
        }
    }
}

/// An element that meets the condition, with nothing before it that does,
/// is the one that is found.
pub proof fn lemma_first_where_is<T>(items: Seq<T>, wanted: spec_fn(T) -> bool, i: int)
    requires
        0 <= i < items.len(),
        wanted(items[i]),
        forall|j: int| 0 <= j < i ==> !wanted(#[trigger] items[j]),
    ensures
        first_where(items, wanted) == Some(i),
{
    lemma_first_where(items, wanted);
}

/// Where nothing meets the condition, nothing is found.
pub proof fn lemma_first_where_none<T>(items: Seq<T>, wanted: spec_fn(T) -> bool)
    requires
        forall|j: int| 0 <= j < items.len() ==> !wanted(#[trigger] items[j]),
    ensures
        first_where(items, wanted) is None,
{
    lemma_first_where(items, wanted);
}

} // verus!
