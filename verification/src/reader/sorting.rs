//! A stable sort by rank.

use vstd::prelude::*;

verus! {

/// A value that is sorted by a number.
pub trait Ranked: Sized {
    /// The number that this value is sorted by.
    spec fn spec_rank(&self) -> u64;

    /// Returns the number that this value is sorted by.
    fn rank(&self) -> (rank: u64)
        ensures
            rank == self.spec_rank(),
    ;
}

/// The index of the first value whose rank is not below `rank`.
pub open spec fn first_not_below<T: Ranked>(items: Seq<T>, rank: u64) -> int
    decreases items.len(),
{
    if items.len() == 0 || items[0].spec_rank() >= rank {
        0
    } else {
        1 + first_not_below(items.drop_first(), rank)
    }
}

/// `items` in ascending order of rank. Values of one rank keep their order.
pub open spec fn stable_sorted<T: Ranked>(items: Seq<T>) -> Seq<T>
    decreases items.len(),
{
    if items.len() == 0 {
        Seq::empty()
    } else {
        let rest = stable_sorted(items.drop_first());
        rest.insert(first_not_below(rest, items[0].spec_rank()), items[0])
    }
}

/// What [`first_not_below`] says of the values on both sides of it.
proof fn lemma_first_not_below<T: Ranked>(items: Seq<T>, rank: u64)
    ensures
        0 <= first_not_below(items, rank) <= items.len(),
        forall|i: int|
            0 <= i < first_not_below(items, rank) ==> (#[trigger] items[i]).spec_rank() < rank,
        first_not_below(items, rank) < items.len() ==> items[first_not_below(
            items,
            rank,
        )].spec_rank() >= rank,
    decreases items.len(),
{
    if items.len() > 0 && items[0].spec_rank() < rank {
        let rest = items.drop_first();
        lemma_first_not_below(rest, rank);
        assert forall|i: int| 0 <= i < first_not_below(items, rank) implies (
        #[trigger] items[i]).spec_rank() < rank by {
            if i > 0 {
                assert(rest[i - 1] == items[i]);
            }
        }
    }
}

/// An index with lower ranks before it and no lower rank at it is
/// [`first_not_below`].
proof fn lemma_is_first_not_below<T: Ranked>(items: Seq<T>, rank: u64, at: int)
    requires
        0 <= at <= items.len(),
        forall|i: int| 0 <= i < at ==> (#[trigger] items[i]).spec_rank() < rank,
        at < items.len() ==> items[at].spec_rank() >= rank,
    ensures
        first_not_below(items, rank) == at,
    decreases items.len(),
{
    if at > 0 {
        let rest = items.drop_first();
        assert(items[0].spec_rank() < rank);
        assert forall|i: int| 0 <= i < at - 1 implies (#[trigger] rest[i]).spec_rank() < rank by {
            assert(rest[i] == items[i + 1]);
        }
        lemma_is_first_not_below(rest, rank, at - 1);
    }
}

/// Sorts `items` by rank.
pub fn stable_sort<T: Ranked>(items: Vec<T>) -> (sorted: Vec<T>)
    ensures
        sorted@ == stable_sorted(items@),
{
    let ghost all = items@;
    let mut items = items;
    let mut sorted: Vec<T> = Vec::new();
    assert(all.skip(all.len() as int) =~= Seq::empty());
    while items.len() > 0
        invariant
            items@.len() <= all.len(),
            items@ == all.take(items@.len() as int),
            sorted@ == stable_sorted(all.skip(items@.len() as int)),
        decreases items@.len(),
    {
        let ghost n = items@.len() as int;
        if let Some(item) = items.pop() {
            let rank: u64 = item.rank();
            let mut at: usize = 0;
            while at < sorted.len() && sorted[at].rank() < rank
                invariant
                    at <= sorted@.len(),
                    forall|i: int| 0 <= i < at ==> (#[trigger] sorted@[i]).spec_rank() < rank,
                decreases sorted@.len() - at,
            {
                at = at + 1;
            }
            proof {
                lemma_is_first_not_below(sorted@, rank, at as int);
                assert(all.skip(n - 1)[0] == item);
                assert(all.skip(n - 1).drop_first() =~= all.skip(n));
                assert(items@ =~= all.take(n - 1));
            }
            sorted.insert(at, item);
        }
    }
    assert(all.skip(0) =~= all);
    sorted
}

/// Sorting puts lower ranks first.
pub proof fn law_sorted_ascends<T: Ranked>(items: Seq<T>)
    ensures
        stable_sorted(items).len() == items.len(),
        forall|i: int, j: int|
            0 <= i <= j < items.len() ==> (#[trigger] stable_sorted(items)[i]).spec_rank() <= (
            #[trigger] stable_sorted(items)[j]).spec_rank(),
    decreases items.len(),
{
    if items.len() > 0 {
        let rest = stable_sorted(items.drop_first());
        let rank = items[0].spec_rank();
        let at = first_not_below(rest, rank);
        law_sorted_ascends(items.drop_first());
        lemma_first_not_below(rest, rank);
        let sorted = stable_sorted(items);
        assert(sorted == rest.insert(at, items[0]));
        assert forall|i: int, j: int| 0 <= i <= j < items.len() implies (
        #[trigger] sorted[i]).spec_rank() <= (#[trigger] sorted[j]).spec_rank() by {
            let left = if i < at {
                rest[i]
            } else if i == at {
                items[0]
            } else {
                rest[i - 1]
            };
            let right = if j < at {
                rest[j]
            } else if j == at {
                items[0]
            } else {
                rest[j - 1]
            };
            assert(sorted[i] == left && sorted[j] == right);
            if i < at && at <= j && j > at {
                assert(rest[i].spec_rank() <= rest[j - 1].spec_rank());
            }
            if i == at && j > at {
                assert(rest[at].spec_rank() <= rest[j - 1].spec_rank());
            }
        }
    }
}

/// Filtering leaves nothing of values that are not kept.
proof fn lemma_filter_of_none<T>(items: Seq<T>, keep: spec_fn(T) -> bool)
    requires
        forall|i: int| 0 <= i < items.len() ==> !keep(#[trigger] items[i]),
    ensures
        items.filter(keep) == Seq::<T>::empty(),
    decreases items.len(),
{
    reveal(Seq::filter);
    if items.len() > 0 {
        lemma_filter_of_none(items.drop_last(), keep);
        assert(!keep(items[items.len() - 1]));
    }
}

/// Sorting neither loses nor adds a value, and values of one rank keep the
/// order that they came in.
pub proof fn law_sorting_keeps_equal_ranks_in_order<T: Ranked>(items: Seq<T>, rank: u64)
    ensures
        stable_sorted(items).filter(|item: T| item.spec_rank() == rank) == items.filter(
            |item: T| item.spec_rank() == rank,
        ),
    decreases items.len(),
{
    let keep = |item: T| item.spec_rank() == rank;
    if items.len() > 0 {
        let first = items[0];
        let tail = items.drop_first();
        let rest = stable_sorted(tail);
        let at = first_not_below(rest, first.spec_rank());
        law_sorting_keeps_equal_ranks_in_order(tail, rank);
        lemma_first_not_below(rest, first.spec_rank());
        let before = rest.take(at);
        let after = rest.skip(at);
        let one = seq![first];
        assert(rest =~= before + after);
        assert(stable_sorted(items) =~= (before + one) + after);
        assert(items =~= one + tail);
        Seq::filter_distributes_over_add(before, after, keep);
        Seq::filter_distributes_over_add(before + one, after, keep);
        Seq::filter_distributes_over_add(before, one, keep);
        Seq::filter_distributes_over_add(one, tail, keep);
        if first.spec_rank() == rank {
            lemma_filter_of_none(before, keep);
            assert(stable_sorted(items).filter(keep) =~= one.filter(keep) + after.filter(keep));
            assert(rest.filter(keep) =~= after.filter(keep));
        } else {
            lemma_filter_of_none(one, keep);
            assert(stable_sorted(items).filter(keep) =~= before.filter(keep) + after.filter(keep));
            assert(items.filter(keep) =~= tail.filter(keep));
        }
    }
}

/// A value is among the sorted ones if and only if it was among the unsorted
/// ones.
pub proof fn law_sorting_loses_and_adds_nothing<T: Ranked>(items: Seq<T>, item: T)
    ensures
        stable_sorted(items).contains(item) <==> items.contains(item),
        stable_sorted(items).len() == items.len(),
{
    let rank = item.spec_rank();
    let keep = |other: T| other.spec_rank() == rank;
    let sorted = stable_sorted(items);
    law_sorted_ascends(items);
    law_sorting_keeps_equal_ranks_in_order(items, rank);
    assert(sorted.filter(keep) == items.filter(keep));
    if items.contains(item) {
        let i = items.index_of(item);
        items.lemma_filter_contains(keep, i);
        sorted.lemma_filter_contains_rev(keep, item);
    }
    if sorted.contains(item) {
        let i = sorted.index_of(item);
        sorted.lemma_filter_contains(keep, i);
        items.lemma_filter_contains_rev(keep, item);
    }
}

} // verus!
