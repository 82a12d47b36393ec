//! Looking for the first of several values.

use vstd::prelude::*;

verus! {

/// The first of `items` that is wanted.
pub open spec fn first_where<T>(items: Seq<T>, wanted: spec_fn(T) -> bool) -> Option<T>
    decreases items.len(),
{
    if items.len() == 0 {
        None
    } else if wanted(items[0]) {
        Some(items[0])
    } else {
        first_where(items.drop_first(), wanted)
    }
}

/// The first wanted value is the one that no other wanted value precedes.
/// `at` is its index, or the number of values when none is wanted.
pub proof fn lemma_first_where<T>(items: Seq<T>, wanted: spec_fn(T) -> bool, at: int)
    requires
        0 <= at <= items.len(),
        forall|i: int| 0 <= i < at ==> !wanted(#[trigger] items[i]),
        at < items.len() ==> wanted(items[at]),
    ensures
        first_where(items, wanted) == (if at < items.len() {
            Some(items[at])
        } else {
            None
        }),
    decreases at,
{
    if at > 0 {
        let rest = items.drop_first();
        assert(!wanted(items[0]));
        assert forall|i: int| 0 <= i < at - 1 implies !wanted(#[trigger] rest[i]) by {
            assert(rest[i] == items[i + 1]);
        }
        lemma_first_where(rest, wanted, at - 1);
    }
}

/// What is found is one of the values, and wanted.
pub proof fn lemma_found_is_wanted<T>(items: Seq<T>, wanted: spec_fn(T) -> bool)
    ensures
        first_where(items, wanted) matches Some(item) ==> items.contains(item) && wanted(item),
    decreases items.len(),
{
    if items.len() > 0 {
        let rest = items.drop_first();
        lemma_found_is_wanted(rest, wanted);
        if wanted(items[0]) {
            assert(items.contains(items[0]));
        } else if let Some(item) = first_where(rest, wanted) {
            let i = choose|i: int| 0 <= i < rest.len() && rest[i] == item;
            assert(items[i + 1] == item);
        }
    }
}

} // verus!
