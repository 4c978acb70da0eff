//! Orders in which values are shown: largest first.

use itertools::Itertools;
use std::cmp::Ordering;
use vstd::prelude::*;

verus! {

/// `order` lists every position of `values` once, so that the values come
/// largest first and equal values stay in the order they have in `values`.
pub open spec fn is_largest_first(order: Seq<usize>, values: Seq<u128>) -> bool {
    &&& order.len() == values.len()
    &&& forall|i: int| 0 <= i < order.len() ==> #[trigger] order[i] < values.len()
    &&& forall|k: int| 0 <= k < values.len() ==> #[trigger] occurs(order, k)
    &&& forall|i: int, j: int|
        0 <= i < j < order.len() ==> comes_before(
            values,
            #[trigger] order[i] as int,
            #[trigger] order[j] as int,
        )
}

/// Position `k` is listed in `order`.
pub open spec fn occurs(order: Seq<usize>, k: int) -> bool {
    exists|i: int| 0 <= i < order.len() && #[trigger] order[i] == k
}

/// Position `a` of `values` is shown before position `b`: it holds the
/// larger value, or the same value and comes first.
pub open spec fn comes_before(values: Seq<u128>, a: int, b: int) -> bool {
    values[a] > values[b] || (values[a] == values[b] && a < b)
}

/// How `a` stands to `b` where the larger of two values comes first.
pub fn larger_first(a: &u128, b: &u128) -> (o: Ordering)
    ensures
        (o is Less) == (*a > *b),
        (o is Equal) == (*a == *b),
        (o is Greater) == (*a < *b),
{
    if *a > *b {
        Ordering::Less
    } else if *a < *b {
        Ordering::Greater
    } else {
        Ordering::Equal
    }
}

/// The positions of `values`, largest value first.
///
/// The order is made by `Itertools::sorted_by`, and the contract is taken
/// on trust from it: it collects the positions it is given, sorts them with
/// the standard library's stable `sort_by` and hands them back. Under
/// `larger_first`, which orders any two values, every position then comes
/// out once, larger values first and equal values in the order they came in.
#[verifier::external_body]
pub(crate) fn largest_first(values: &Vec<u128>) -> (order: Vec<usize>)
    ensures
        is_largest_first(order@, values@),
{
    (0..values.len()).sorted_by(|a, b| larger_first(&values[*a], &values[*b])).collect()
}

/// Two orders that show the same values largest first agree on their first
/// `count` positions.
proof fn lemma_largest_first_agree(
    first: Seq<usize>,
    second: Seq<usize>,
    values: Seq<u128>,
    count: int,
)
    requires
        is_largest_first(first, values),
        is_largest_first(second, values),
        0 <= count <= values.len(),
    ensures
        forall|j: int| 0 <= j < count ==> first[j] == second[j],
    decreases count,
{
    if count > 0 {
        let n = count - 1;
        lemma_largest_first_agree(first, second, values, n);
        let x = first[n];
        let y = second[n];
        if x != y {
            assert(occurs(second, x as int));
            assert(occurs(first, y as int));
            let p = choose|p: int| 0 <= p < second.len() && second[p] == x;
            let q = choose|q: int| 0 <= q < first.len() && first[q] == y;
            if p < n {
                assert(comes_before(values, first[p] as int, first[n] as int));
            } else {
                assert(comes_before(values, second[n] as int, second[p] as int));
            }
            if q < n {
                assert(comes_before(values, second[q] as int, second[n] as int));
            } else {
                assert(comes_before(values, first[n] as int, first[q] as int));
            }
        }
    }
}

/// Only one order shows given values largest first.
pub proof fn lemma_largest_first_is_unique(
    first: Seq<usize>,
    second: Seq<usize>,
    values: Seq<u128>,
)
    requires
        is_largest_first(first, values),
        is_largest_first(second, values),
    ensures
        first == second,
{
    lemma_largest_first_agree(first, second, values, values.len() as int);
    assert(first =~= second);
}

} // verus!
