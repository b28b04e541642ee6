//! A stable sort.
//!
//! What a frame draws, and in what order, comes out of sorting, so the sort
//! states all of its result: the items in order of rank, and the items of each
//! rank in the order they came in.

use vstd::prelude::*;

use crate::collections::copy_list;

verus! {

/// Where something belongs in an order: compared by the first component, then
/// the second, and so on.
pub type Rank = (int, int, int, int);

/// Whether rank `a` comes strictly before rank `b`.
pub open spec fn rank_less(a: Rank, b: Rank) -> bool {
    a.0 < b.0 || (a.0 == b.0 && (a.1 < b.1 || (a.1 == b.1 && (a.2 < b.2 || (a.2 == b.2 && a.3
        < b.3)))))
}

/// Something with a place in an order.
pub trait Ranked: Copy {
    /// The item's place.
    spec fn rank(self) -> Rank;

    /// Whether the item comes strictly before `other`.
    fn precedes(&self, other: &Self) -> (before: bool)
        ensures
            before == rank_less(self.rank(), other.rank()),
    ;
}

/// Whether no item comes after one that it strictly precedes.
pub open spec fn is_ranked<T: Ranked>(items: Seq<T>) -> bool {
    forall|i: int, j: int|
        #![trigger items[i], items[j]]
        0 <= i < j < items.len() ==> !rank_less(items[j].rank(), items[i].rank())
}

/// The items of one rank, in the order they have in `items`.
pub open spec fn of_rank<T: Ranked>(items: Seq<T>, rank: Rank) -> Seq<T> {
    items.filter(|item: T| item.rank() == rank)
}

/// Whether `sorted` is what a stable sort makes of `items`: in order of rank,
/// with the items of each rank as they were.
pub open spec fn is_sort_of<T: Ranked>(sorted: Seq<T>, items: Seq<T>) -> bool {
    &&& is_ranked(sorted)
    &&& sorted.len() == items.len()
    &&& forall|rank: Rank| #[trigger] of_rank(sorted, rank) == of_rank(items, rank)
}

/// The items of a rank nothing has are none.
proof fn lemma_of_rank_none<T: Ranked>(items: Seq<T>, rank: Rank)
    requires
        forall|i: int| 0 <= i < items.len() ==> (#[trigger] items[i]).rank() != rank,
    ensures
        of_rank(items, rank) == Seq::<T>::empty(),
    decreases items.len(),
{
    reveal_with_fuel(Seq::filter, 2);
    if items.len() > 0 {
        lemma_of_rank_none(items.drop_last(), rank);
    } else {
        assert(of_rank(items, rank) =~= Seq::<T>::empty());
    }
}

/// The items of a rank, once one more item joined at the end.
proof fn lemma_of_rank_push<T: Ranked>(items: Seq<T>, item: T, rank: Rank)
    ensures
        of_rank(items.push(item), rank) == if item.rank() == rank {
            of_rank(items, rank).push(item)
        } else {
            of_rank(items, rank)
        },
{
    reveal_with_fuel(Seq::filter, 2);
    assert(items.push(item).drop_last() =~= items);
}

/// The items of a rank in a concatenation are those of its parts.
proof fn lemma_of_rank_add<T: Ranked>(a: Seq<T>, b: Seq<T>, rank: Rank)
    ensures
        of_rank(a + b, rank) == of_rank(a, rank) + of_rank(b, rank),
    decreases b.len(),
{
    if b.len() == 0 {
        assert(a + b =~= a);
        lemma_of_rank_none(b, rank);
        assert(of_rank(a, rank) + of_rank(b, rank) =~= of_rank(a, rank));
    } else {
        let rest = b.drop_last();
        lemma_of_rank_add(a, rest, rank);
        lemma_of_rank_push(a + rest, b.last(), rank);
        lemma_of_rank_push(rest, b.last(), rank);
        assert((a + rest).push(b.last()) =~= a + b);
        assert(rest.push(b.last()) =~= b);
        assert((of_rank(a, rank) + of_rank(rest, rank)).push(b.last()) =~= of_rank(a, rank)
            + of_rank(rest, rank).push(b.last()));
    }
}

/// Merge two neighbouring sorted ranges of `items`, from `start` to `middle` and
/// from `middle` to `end`, into `merged`, taking from the first where the ranks
/// are equal.
fn merge<T: Ranked>(
    items: &Vec<T>,
    start: usize,
    middle: usize,
    end: usize,
    merged: &mut Vec<T>,
)
    requires
        start <= middle <= end <= items@.len(),
        is_ranked(items@.subrange(start as int, middle as int)),
        is_ranked(items@.subrange(middle as int, end as int)),
    ensures
        is_sort_of(final(merged)@, items@.subrange(start as int, end as int)),
{
    let ghost left = items@.subrange(start as int, middle as int);
    let ghost right = items@.subrange(middle as int, end as int);
    merged.clear();
    let mut i: usize = start;
    let mut j: usize = middle;
    proof {
        assert forall|rank: Rank| #[trigger] of_rank(merged@, rank) == of_rank(left.take(0), rank)
            + of_rank(right.take(0), rank) by {
            lemma_of_rank_none(left.take(0), rank);
            lemma_of_rank_none(right.take(0), rank);
            lemma_of_rank_none(merged@, rank);
            assert(Seq::<T>::empty() + Seq::<T>::empty() =~= Seq::<T>::empty());
        }
    }
    while i < middle || j < end
        invariant
            start <= i <= middle,
            middle <= j <= end,
            end <= items@.len(),
            left == items@.subrange(start as int, middle as int),
            right == items@.subrange(middle as int, end as int),
            is_ranked(left),
            is_ranked(right),
            merged@.len() == (i - start) + (j - middle),
            is_ranked(merged@),
            // What was taken does not come after what is left.
            forall|k: int, l: int|
                #![trigger merged@[k], left[l]]
                0 <= k < merged@.len() && i - start <= l < left.len() ==> !rank_less(
                    left[l].rank(),
                    merged@[k].rank(),
                ),
            forall|k: int, l: int|
                #![trigger merged@[k], right[l]]
                0 <= k < merged@.len() && j - middle <= l < right.len() ==> !rank_less(
                    right[l].rank(),
                    merged@[k].rank(),
                ),
            // What was taken from the right strictly precedes what is left.
            forall|k: int, l: int|
                #![trigger right[k], left[l]]
                0 <= k < j - middle && i - start <= l < left.len() ==> rank_less(
                    right[k].rank(),
                    left[l].rank(),
                ),
            forall|rank: Rank| #[trigger]
                of_rank(merged@, rank) == of_rank(left.take(i - start), rank) + of_rank(
                    right.take(j - middle),
                    rank,
                ),
        decreases (middle - i) + (end - j),
    {
        let from_left = if i < middle {
            if j < end {
                !items[j].precedes(&items[i])
            } else {
                true
            }
        } else {
            false
        };
        let ghost before = merged@;
        let ghost li = i - start;
        let ghost rj = j - middle;
        assert(i < middle ==> left[li] == items@[i as int]);
        assert(j < end ==> right[rj] == items@[j as int]);
        if from_left {
            let item = items[i];
            merged.push(item);
            proof {
                assert(left.take(li + 1) =~= left.take(li).push(item));
                assert forall|rank: Rank| #[trigger] of_rank(merged@, rank) == of_rank(
                    left.take(li + 1),
                    rank,
                ) + of_rank(right.take(rj), rank) by {
                    assert(of_rank(before, rank) == of_rank(left.take(li), rank) + of_rank(
                        right.take(rj),
                        rank,
                    ));
                    lemma_of_rank_push(before, item, rank);
                    lemma_of_rank_push(left.take(li), item, rank);
                    if item.rank() == rank {
                        lemma_of_rank_none(right.take(rj), rank);
                        assert((of_rank(left.take(li), rank) + Seq::<T>::empty()).push(item)
                            =~= of_rank(left.take(li), rank).push(item) + Seq::<T>::empty());
                    }
                }
            }
            i = i + 1;
        } else {
            let item = items[j];
            merged.push(item);
            proof {
                assert(right.take(rj + 1) =~= right.take(rj).push(item));
                assert forall|rank: Rank| #[trigger] of_rank(merged@, rank) == of_rank(
                    left.take(li),
                    rank,
                ) + of_rank(right.take(rj + 1), rank) by {
                    assert(of_rank(before, rank) == of_rank(left.take(li), rank) + of_rank(
                        right.take(rj),
                        rank,
                    ));
                    lemma_of_rank_push(before, item, rank);
                    lemma_of_rank_push(right.take(rj), item, rank);
                    if item.rank() == rank {
                        assert((of_rank(left.take(li), rank) + of_rank(right.take(rj), rank)).push(
                            item,
                        ) =~= of_rank(left.take(li), rank) + of_rank(right.take(rj), rank).push(
                            item,
                        ));
                    }
                }
            }
            j = j + 1;
        }
    }
    proof {
        assert(left.take(i - start) =~= left);
        assert(right.take(j - middle) =~= right);
        assert(left + right =~= items@.subrange(start as int, end as int));
        assert forall|rank: Rank| #[trigger] of_rank(merged@, rank) == of_rank(
            left + right,
            rank,
        ) by {
            lemma_of_rank_add(left, right, rank);
        }
    }
}

/// Whether `after` is `before` with the range from `start` to `end` sorted and
/// the rest as it was.
spec fn is_range_sort_of<T: Ranked>(
    after: Seq<T>,
    before: Seq<T>,
    start: int,
    end: int,
) -> bool {
    &&& after.len() == before.len()
    &&& forall|k: int| 0 <= k < start || end <= k < after.len() ==> #[trigger] after[k] == before[k]
    &&& is_sort_of(after.subrange(start, end), before.subrange(start, end))
}

/// A sort of two neighbouring ranges that were each sorted before is a sort of
/// what they were at first.
proof fn lemma_sort_of_sorted_halves<T: Ranked>(
    sorted: Seq<T>,
    left: Seq<T>,
    right: Seq<T>,
    first_left: Seq<T>,
    first_right: Seq<T>,
)
    requires
        is_sort_of(left, first_left),
        is_sort_of(right, first_right),
        is_sort_of(sorted, left + right),
    ensures
        is_sort_of(sorted, first_left + first_right),
{
    assert forall|rank: Rank| #[trigger] of_rank(sorted, rank) == of_rank(
        first_left + first_right,
        rank,
    ) by {
        assert(of_rank(sorted, rank) == of_rank(left + right, rank));
        lemma_of_rank_add(left, right, rank);
        lemma_of_rank_add(first_left, first_right, rank);
        assert(of_rank(left, rank) == of_rank(first_left, rank));
        assert(of_rank(right, rank) == of_rank(first_right, rank));
    }
}

/// Sort the items of `items` from `start` up to `end`, merging in `scratch`.
fn sort_range<T: Ranked>(items: &mut Vec<T>, start: usize, end: usize, scratch: &mut Vec<T>)
    requires
        start <= end <= old(items)@.len(),
    ensures
        is_range_sort_of(final(items)@, old(items)@, start as int, end as int),
    decreases end - start,
{
    if end - start <= 1 {
        return;
    }
    let middle: usize = start + (end - start) / 2;
    let ghost first = items@;
    sort_range(items, start, middle, scratch);
    let ghost half = items@;
    sort_range(items, middle, end, scratch);
    let ghost halves = items@;
    proof {
        assert(half.subrange(middle as int, end as int) =~= first.subrange(
            middle as int,
            end as int,
        ));
        assert(halves.subrange(start as int, middle as int) =~= half.subrange(
            start as int,
            middle as int,
        ));
    }
    merge(items, start, middle, end, scratch);
    let ghost sorted = scratch@;
    proof {
        let left = halves.subrange(start as int, middle as int);
        let right = halves.subrange(middle as int, end as int);
        assert(left + right =~= halves.subrange(start as int, end as int));
        let first_left = first.subrange(start as int, middle as int);
        let first_right = first.subrange(middle as int, end as int);
        assert(first_left + first_right =~= first.subrange(start as int, end as int));
        lemma_sort_of_sorted_halves(sorted, left, right, first_left, first_right);
    }
    let mut k: usize = start;
    while k < end
        invariant
            start <= k <= end <= items@.len(),
            items@.len() == first.len(),
            scratch@ == sorted,
            sorted.len() == end - start,
            forall|l: int| start <= l < k ==> #[trigger] items@[l] == sorted[l - start],
            forall|l: int|
                0 <= l < start || end <= l < items@.len() ==> #[trigger] items@[l] == first[l],
        decreases end - k,
    {
        items.set(k, scratch[k - start]);
        k = k + 1;
    }
    assert(items@.subrange(start as int, end as int) =~= sorted);
}

/// Put the items in order of rank, equals in the order they came in. What is in
/// `scratch` is lost; the room it has is used, so sorting allocates nothing
/// while both lists stay as large as they were.
pub fn sort_with<T: Ranked>(items: &mut Vec<T>, scratch: &mut Vec<T>)
    ensures
        is_sort_of(final(items)@, old(items)@),
{
    let ghost before = items@;
    let len = items.len();
    sort_range(items, 0, len, scratch);
    assert(before.subrange(0, before.len() as int) =~= before);
    assert(items@.subrange(0, items@.len() as int) =~= items@);
}

/// The items in order of rank, equals in the order they came in.
pub fn sorted<T: Ranked>(items: &Vec<T>) -> (sorted: Vec<T>)
    ensures
        is_sort_of(sorted@, items@),
{
    let mut sorted = copy_list(items);
    let mut scratch: Vec<T> = Vec::new();
    sort_with(&mut sorted, &mut scratch);
    sorted
}

/// An item of rank `rank` is among the items of that rank, and the other way
/// round.
proof fn lemma_of_rank_members<T: Ranked>(items: Seq<T>, rank: Rank, item: T)
    ensures
        of_rank(items, rank).contains(item) <==> items.contains(item) && item.rank() == rank,
    decreases items.len(),
{
    if items.len() == 0 {
        lemma_of_rank_none(items, rank);
    } else {
        let rest = items.drop_last();
        let last = items.last();
        lemma_of_rank_members(rest, rank, item);
        lemma_of_rank_push(rest, last, rank);
        assert(rest.push(last) =~= items);
        let chosen = of_rank(items, rank);
        let chosen_rest = of_rank(rest, rank);
        if items.contains(item) && item.rank() == rank {
            if item == last {
                assert(chosen[chosen.len() - 1] == item);
            } else {
                let i = choose|i: int| 0 <= i < items.len() && items[i] == item;
                assert(rest[i] == item);
                let k = choose|k: int| 0 <= k < chosen_rest.len() && chosen_rest[k] == item;
                assert(chosen[k] == item);
            }
        }
        if chosen.contains(item) {
            let k = choose|k: int| 0 <= k < chosen.len() && chosen[k] == item;
            if k < chosen_rest.len() {
                assert(chosen_rest[k] == item);
                let i = choose|i: int| 0 <= i < rest.len() && rest[i] == item;
                assert(items[i] == item);
            } else {
                assert(items[items.len() - 1] == item);
            }
        }
    }
}

/// Sorting keeps exactly the items it was given.
pub proof fn law_sorting_keeps_the_items<T: Ranked>(sorted: Seq<T>, items: Seq<T>, item: T)
    requires
        is_sort_of(sorted, items),
    ensures
        sorted.contains(item) <==> items.contains(item),
{
    lemma_of_rank_members(sorted, item.rank(), item);
    lemma_of_rank_members(items, item.rank(), item);
    assert(of_rank(sorted, item.rank()) == of_rank(items, item.rank()));
}

/// How often an item occurs is how often it occurs among those of its rank.
proof fn lemma_count_of_rank<T: Ranked>(items: Seq<T>, item: T)
    ensures
        items.to_multiset().count(item) == of_rank(items, item.rank()).to_multiset().count(item),
    decreases items.len(),
{
    broadcast use vstd::seq_lib::group_to_multiset_ensures;

    if items.len() == 0 {
        lemma_of_rank_none(items, item.rank());
        assert(items =~= Seq::<T>::empty());
    } else {
        let rest = items.drop_last();
        lemma_count_of_rank(rest, item);
        lemma_of_rank_push(rest, items.last(), item.rank());
        assert(rest.push(items.last()) =~= items);
    }
}

/// Two lists with the same items of each rank are permutations of each other.
proof fn lemma_same_ranks_permute<T: Ranked>(a: Seq<T>, b: Seq<T>)
    requires
        forall|rank: Rank| #[trigger] of_rank(a, rank) == of_rank(b, rank),
    ensures
        a.to_multiset() == b.to_multiset(),
        a.len() == b.len(),
{
    broadcast use vstd::seq_lib::group_to_multiset_ensures;

    assert forall|item: T| a.to_multiset().count(item) == b.to_multiset().count(item) by {
        lemma_count_of_rank(a, item);
        lemma_count_of_rank(b, item);
        assert(of_rank(a, item.rank()) == of_rank(b, item.rank()));
    }
    assert(a.to_multiset() =~= b.to_multiset());
    vstd::seq_lib::to_multiset_len(a);
    vstd::seq_lib::to_multiset_len(b);
}

/// Sorting neither drops nor repeats an item: it is a permutation.
pub proof fn law_sorting_permutes<T: Ranked>(sorted: Seq<T>, items: Seq<T>)
    requires
        is_sort_of(sorted, items),
    ensures
        sorted.to_multiset() == items.to_multiset(),
{
    lemma_same_ranks_permute(sorted, items);
}

/// Two ranked sequences with the same items of each rank, in the same order,
/// are the same sequence.
proof fn lemma_ranked_agree<T: Ranked>(a: Seq<T>, b: Seq<T>)
    requires
        is_ranked(a),
        is_ranked(b),
        forall|rank: Rank| #[trigger] of_rank(a, rank) == of_rank(b, rank),
    ensures
        a == b,
    decreases a.len(),
{
    if a.len() == 0 {
        if b.len() > 0 {
            let rank = b.last().rank();
            lemma_of_rank_members(b, rank, b.last());
            lemma_of_rank_none(a, rank);
            assert(of_rank(a, rank) == of_rank(b, rank));
        }
        assert(a =~= b);
    } else {
        let last = a.last();
        let rank = last.rank();
        lemma_of_rank_members(a, rank, last);
        assert(of_rank(a, rank) == of_rank(b, rank));
        lemma_of_rank_members(b, rank, last);
        let other = b.last();
        lemma_of_rank_members(b, other.rank(), other);
        assert(of_rank(a, other.rank()) == of_rank(b, other.rank()));
        lemma_of_rank_members(a, other.rank(), other);
        // Each last item ranks at least as high as the other.
        let i = choose|i: int| 0 <= i < b.len() && b[i] == last;
        let j = choose|j: int| 0 <= j < a.len() && a[j] == other;
        assert(!rank_less(b[b.len() - 1].rank(), b[i].rank()) || i == b.len() - 1);
        assert(!rank_less(a[a.len() - 1].rank(), a[j].rank()) || j == a.len() - 1);
        assert(other.rank() == rank);
        let rest_a = a.drop_last();
        let rest_b = b.drop_last();
        lemma_of_rank_push(rest_a, last, rank);
        lemma_of_rank_push(rest_b, other, rank);
        assert(rest_a.push(last) =~= a);
        assert(rest_b.push(other) =~= b);
        assert(of_rank(a, rank).last() == last);
        assert(of_rank(b, rank).last() == other);
        assert forall|r: Rank| #[trigger] of_rank(rest_a, r) == of_rank(rest_b, r) by {
            lemma_of_rank_push(rest_a, last, r);
            lemma_of_rank_push(rest_b, other, r);
            assert(of_rank(a, r) == of_rank(b, r));
            if r == rank {
                assert(of_rank(rest_a, r) =~= of_rank(a, r).drop_last());
                assert(of_rank(rest_b, r) =~= of_rank(b, r).drop_last());
            }
        }
        lemma_ranked_agree(rest_a, rest_b);
    }
}

/// There is one way to sort a list stably.
pub proof fn law_sorting_is_determined<T: Ranked>(a: Seq<T>, b: Seq<T>, items: Seq<T>)
    requires
        is_sort_of(a, items),
        is_sort_of(b, items),
    ensures
        a == b,
{
    assert forall|rank: Rank| #[trigger] of_rank(a, rank) == of_rank(b, rank) by {
        assert(of_rank(a, rank) == of_rank(items, rank));
    }
    lemma_ranked_agree(a, b);
}

/// Whether no two items share a rank.
pub open spec fn ranks_distinct<T: Ranked>(items: Seq<T>) -> bool {
    forall|i: int, j: int|
        #![trigger items[i], items[j]]
        0 <= i < j < items.len() ==> items[i].rank() != items[j].rank()
}

/// With distinct ranks the items of one rank are at most one item.
proof fn lemma_of_rank_single<T: Ranked>(items: Seq<T>, rank: Rank)
    requires
        ranks_distinct(items),
    ensures
        of_rank(items, rank).len() <= 1,
    decreases items.len(),
{
    if items.len() == 0 {
        lemma_of_rank_none(items, rank);
    } else {
        let rest = items.drop_last();
        let last = items.last();
        assert(rest.push(last) =~= items);
        lemma_of_rank_push(rest, last, rank);
        if last.rank() == rank {
            assert forall|i: int| 0 <= i < rest.len() implies (#[trigger] rest[i]).rank()
                != rank by {
                assert(rest[i] == items[i] && last == items[items.len() - 1]);
            }
            lemma_of_rank_none(rest, rank);
        } else {
            assert forall|i: int, j: int|
                #![trigger rest[i], rest[j]]
                0 <= i < j < rest.len() implies rest[i].rank() != rest[j].rank() by {
                assert(rest[i] == items[i] && rest[j] == items[j]);
            }
            lemma_of_rank_single(rest, rank);
        }
    }
}

/// With distinct ranks the order a list comes in does not matter: two lists of
/// the same items sort to the same list.
pub proof fn law_distinct_ranks_sort_alike<T: Ranked>(
    a: Seq<T>,
    a_items: Seq<T>,
    b: Seq<T>,
    b_items: Seq<T>,
)
    requires
        is_sort_of(a, a_items),
        is_sort_of(b, b_items),
        ranks_distinct(a_items),
        ranks_distinct(b_items),
        forall|item: T| a_items.contains(item) <==> b_items.contains(item),
    ensures
        a == b,
{
    assert forall|rank: Rank| #[trigger] of_rank(a, rank) == of_rank(b, rank) by {
        let x = of_rank(a_items, rank);
        let y = of_rank(b_items, rank);
        assert(of_rank(a, rank) == x && of_rank(b, rank) == y);
        lemma_of_rank_single(a_items, rank);
        lemma_of_rank_single(b_items, rank);
        if x.len() > 0 {
            lemma_of_rank_members(a_items, rank, x[0]);
            lemma_of_rank_members(b_items, rank, x[0]);
            assert(x.contains(x[0]));
            assert(y.contains(x[0]));
        }
        if y.len() > 0 {
            lemma_of_rank_members(a_items, rank, y[0]);
            lemma_of_rank_members(b_items, rank, y[0]);
            assert(y.contains(y[0]));
            assert(x.contains(y[0]));
        }
        assert(x =~= y);
    }
    lemma_ranked_agree(a, b);
}

/// Choosing the items of a rank and keeping some items can be done in either
/// order.
proof fn lemma_filters_commute<T: Ranked>(items: Seq<T>, keep: spec_fn(T) -> bool, rank: Rank)
    ensures
        of_rank(items.filter(keep), rank) == of_rank(items, rank).filter(keep),
    decreases items.len(),
{
    reveal_with_fuel(Seq::filter, 2);
    if items.len() == 0 {
        assert(items =~= Seq::<T>::empty());
        assert(items.filter(keep) =~= Seq::<T>::empty());
        lemma_of_rank_none(items, rank);
        lemma_of_rank_none(items.filter(keep), rank);
        assert(of_rank(items, rank).filter(keep) =~= Seq::<T>::empty());
    } else {
        let rest = items.drop_last();
        let last = items.last();
        lemma_filters_commute(rest, keep, rank);
        lemma_of_rank_push(rest, last, rank);
        lemma_of_rank_push(rest.filter(keep), last, rank);
        assert(rest.push(last) =~= items);
        assert(of_rank(rest, rank).push(last).drop_last() =~= of_rank(rest, rank));
    }
}

/// Keeping some items of a ranked sequence leaves it ranked.
proof fn lemma_filter_keeps_ranked<T: Ranked>(items: Seq<T>, keep: spec_fn(T) -> bool)
    requires
        is_ranked(items),
    ensures
        is_ranked(items.filter(keep)),
        forall|i: int| 0 <= i < items.filter(keep).len() ==> items.contains(#[trigger] items.filter(
            keep,
        )[i]),
    decreases items.len(),
{
    reveal_with_fuel(Seq::filter, 2);
    if items.len() > 0 {
        let rest = items.drop_last();
        let last = items.last();
        lemma_filter_keeps_ranked(rest, keep);
        let kept = items.filter(keep);
        let kept_rest = rest.filter(keep);
        assert forall|i: int| 0 <= i < kept.len() implies items.contains(#[trigger] kept[i]) by {
            if i < kept_rest.len() {
                assert(rest.contains(kept_rest[i]));
                let k = choose|k: int| 0 <= k < rest.len() && rest[k] == kept_rest[i];
                assert(items[k] == kept[i]);
            } else {
                assert(items[items.len() - 1] == kept[i]);
            }
        }
        assert forall|i: int, j: int|
            #![trigger kept[i], kept[j]]
            0 <= i < j < kept.len() implies !rank_less(kept[j].rank(), kept[i].rank()) by {
            if j < kept_rest.len() {
                assert(kept[i] == kept_rest[i] && kept[j] == kept_rest[j]);
            } else {
                assert(rest.contains(kept_rest[i]));
                let k = choose|k: int| 0 <= k < rest.len() && rest[k] == kept_rest[i];
                assert(items[k] == kept[i] && items[items.len() - 1] == kept[j]);
            }
        }
    }
}

/// Taking items away does not disturb the order of the rest: the sorted list
/// with items taken away is the sort of what is left.
pub proof fn law_removal_keeps_the_order<T: Ranked>(
    sorted: Seq<T>,
    items: Seq<T>,
    keep: spec_fn(T) -> bool,
)
    requires
        is_sort_of(sorted, items),
    ensures
        is_sort_of(sorted.filter(keep), items.filter(keep)),
{
    lemma_filter_keeps_ranked(sorted, keep);
    assert forall|rank: Rank| #[trigger] of_rank(sorted.filter(keep), rank) == of_rank(
        items.filter(keep),
        rank,
    ) by {
        lemma_filters_commute(sorted, keep, rank);
        lemma_filters_commute(items, keep, rank);
        assert(of_rank(sorted, rank) == of_rank(items, rank));
    }
    lemma_same_ranks_permute(sorted.filter(keep), items.filter(keep));
}

/// Taking items away keeps distinct ranks distinct.
pub(crate) proof fn lemma_filter_keeps_ranks_distinct<T: Ranked>(
    items: Seq<T>,
    keep: spec_fn(T) -> bool,
)
    requires
        ranks_distinct(items),
    ensures
        ranks_distinct(items.filter(keep)),
    decreases items.len(),
{
    reveal_with_fuel(Seq::filter, 2);
    if items.len() > 0 {
        let rest = items.drop_last();
        assert forall|i: int, j: int|
            #![trigger rest[i], rest[j]]
            0 <= i < j < rest.len() implies rest[i].rank() != rest[j].rank() by {
            assert(rest[i] == items[i] && rest[j] == items[j]);
        }
        lemma_filter_keeps_ranks_distinct(rest, keep);
        let kept = items.filter(keep);
        let kept_rest = rest.filter(keep);
        assert forall|i: int, j: int|
            #![trigger kept[i], kept[j]]
            0 <= i < j < kept.len() implies kept[i].rank() != kept[j].rank() by {
            if j < kept_rest.len() {
                assert(kept[i] == kept_rest[i] && kept[j] == kept_rest[j]);
            } else {
                assert(kept_rest.contains(kept_rest[i]));
                rest.lemma_filter_contains_rev(keep, kept_rest[i]);
                let k = choose|k: int| 0 <= k < rest.len() && rest[k] == kept_rest[i];
                assert(items[k] == kept[i] && items[items.len() - 1] == kept[j]);
            }
        }
    }
}

/// Sorting keeps distinct ranks distinct.
pub proof fn law_sorting_keeps_ranks_distinct<T: Ranked>(sorted: Seq<T>, items: Seq<T>)
    requires
        is_sort_of(sorted, items),
        ranks_distinct(items),
    ensures
        ranks_distinct(sorted),
{
    assert forall|i: int, j: int|
        #![trigger sorted[i], sorted[j]]
        0 <= i < j < sorted.len() implies sorted[i].rank() != sorted[j].rank() by {
        let rank = sorted[j].rank();
        let head = sorted.take(j);
        let tail = sorted.skip(j);
        if sorted[i].rank() == rank {
            assert(head[i] == sorted[i] && tail[0] == sorted[j]);
            lemma_of_rank_members(head, rank, sorted[i]);
            lemma_of_rank_members(tail, rank, sorted[j]);
            assert(head.contains(sorted[i]) && tail.contains(sorted[j]));
            assert(head + tail =~= sorted);
            lemma_of_rank_add(head, tail, rank);
            lemma_of_rank_single(items, rank);
            assert(of_rank(sorted, rank) == of_rank(items, rank));
        }
    }
}

} // verus!
