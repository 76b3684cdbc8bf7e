//! Binary search for the index at which an element must be inserted into a
//! sorted slice so that the slice stays sorted.

use vstd::prelude::*;
use std::cmp::Ordering;
use vstd::std_specs::cmp::PartialOrdSpec;
use crate::order::{cmp_of, le_of, ge_of};

verus! {

/// The midpoint of two window bounds, as used by the search: the integer
/// average, rounded towards zero.
pub open spec fn mid_of(a: int, b: int) -> int {
    (a + b) / 2
}

/// Finds the mid point between two integers.
pub fn mid_point(a: usize, b: usize) -> (r: usize)
    requires
        a + b <= usize::MAX,
    ensures
        r == mid_of(a as int, b as int),
{
    (a + b) / 2
}

/// The index the ascending search settles on once both boundary checks have
/// failed: the window `[start, end]` shrinks around the probe at its
/// midpoint until the probe compares equal (the probe's index is returned)
/// or the window is down to two adjacent positions (`end` is returned).
/// `None` as soon as a probe is incomparable with `item`.
pub open spec fn search_from_ascending<T: PartialOrd>(
    item: T,
    s: Seq<T>,
    start: int,
    end: int,
) -> Option<int>
    decreases end - start,
{
    let idx = mid_of(start, end);
    match cmp_of(item, s[idx]) {
        None => None,
        Some(Ordering::Equal) => Some(idx),
        Some(Ordering::Less) => if idx - start <= 1 {
            Some(idx)
        } else {
            search_from_ascending(item, s, start, idx)
        },
        Some(Ordering::Greater) => if end - idx <= 1 {
            Some(end)
        } else {
            search_from_ascending(item, s, idx, end)
        },
    }
}

/// The descending mirror of [`search_from_ascending`]: a probe comparing
/// greater narrows the window from above, one comparing less narrows it
/// from below.
pub open spec fn search_from_descending<T: PartialOrd>(
    item: T,
    s: Seq<T>,
    start: int,
    end: int,
) -> Option<int>
    decreases end - start,
{
    let idx = mid_of(start, end);
    match cmp_of(item, s[idx]) {
        None => None,
        Some(Ordering::Equal) => Some(idx),
        Some(Ordering::Greater) => if idx - start <= 1 {
            Some(idx)
        } else {
            search_from_descending(item, s, start, idx)
        },
        Some(Ordering::Less) => if end - idx <= 1 {
            Some(end)
        } else {
            search_from_descending(item, s, idx, end)
        },
    }
}

/// The index at which `item` must be inserted into the ascending-sorted `s`
/// to keep it sorted, or `None` when a probed element is incomparable with
/// `item`.  An empty sequence, an item comparing at or below the first
/// element, and an item comparing at or above the last element are settled
/// without a search.
pub open spec fn insertion_index_ascending<T: PartialOrd>(item: T, s: Seq<T>) -> Option<int> {
    if s.len() == 0 {
        Some(0)
    } else if le_of(item, s[0]) {
        Some(0)
    } else if ge_of(item, s[s.len() - 1]) {
        Some(s.len() as int)
    } else {
        search_from_ascending(item, s, 0, s.len() - 1)
    }
}

/// Returns the index at which `item` should be inserted into `values` to
/// preserve sorted (ascending) order.
///
/// For any element type whose comparison obeys its specification, the result
/// equals [`insertion_index_ascending`] applied to the same arguments, so two
/// calls on the same inputs return the same index.
pub fn binary_search_index_ascending<T: PartialOrd>(item: &T, values: &[T]) -> (r: Option<usize>)
    requires
        values@.len() <= usize::MAX / 2 + 1,
    ensures
        r matches Some(i) ==> i <= values@.len(),
        T::obeys_partial_cmp_spec() ==> match insertion_index_ascending(*item, values@) {
            Some(i) => r == Some(i as usize),
            None => r is None,
        },
{
    if values.is_empty() {
        return Some(0);
    }
    let mut start: usize = 0;
    let mut end: usize = values.len() - 1;
    if item.le(&values[start]) {
        return Some(start);
    }
    if item.ge(&values[end]) {
        return Some(end + 1);
    }
    let mut idx: usize = mid_point(start, end);
    loop
        invariant_except_break
            idx == mid_of(start as int, end as int),
            T::obeys_partial_cmp_spec() ==> search_from_ascending(
                *item,
                values@,
                start as int,
                end as int,
            ) == insertion_index_ascending(*item, values@),
        invariant
            values@.len() <= usize::MAX / 2 + 1,
            start <= end < values@.len(),
        ensures
            idx <= values@.len(),
            T::obeys_partial_cmp_spec() ==> insertion_index_ascending(*item, values@) == Some(
                idx as int,
            ),
        decreases end - start,
    {
        match item.partial_cmp(&values[idx]) {
            Some(Ordering::Less) => {
                end = idx;
                idx = mid_point(start, end);
                if end - start <= 1 {
                    idx = end;
                    break;
                }
            }
            Some(Ordering::Greater) => {
                start = idx;
                idx = mid_point(start, end);
                if end - start <= 1 {
                    idx = end;
                    break;
                }
            }
            Some(Ordering::Equal) => {
                break;
            }
            None => {
                proof {
                    if T::obeys_partial_cmp_spec() {
                        assert(cmp_of(*item, values@[idx as int]) is None);
                        assert(search_from_ascending(*item, values@, start as int, end as int) is None);
                    }
                }
                return None;
            }
        }
    }
    Some(idx)
}

/// The index at which `item` must be inserted into the descending-sorted
/// `s` to keep it sorted, or `None` when a probed element is incomparable
/// with `item`.
pub open spec fn insertion_index_descending<T: PartialOrd>(item: T, s: Seq<T>) -> Option<int> {
    if s.len() == 0 {
        Some(0)
    } else if ge_of(item, s[0]) {
        Some(0)
    } else if le_of(item, s[s.len() - 1]) {
        Some(s.len() as int)
    } else {
        search_from_descending(item, s, 0, s.len() - 1)
    }
}

/// Returns the index at which `item` should be inserted into `values` to
/// preserve sorted (descending) order.
///
/// For any element type whose comparison obeys its specification, the result
/// equals [`insertion_index_descending`] applied to the same arguments, so
/// two calls on the same inputs return the same index.
pub fn binary_search_index_descending<T: PartialOrd>(item: &T, values: &[T]) -> (r: Option<usize>)
    requires
        values@.len() <= usize::MAX / 2 + 1,
    ensures
        r matches Some(i) ==> i <= values@.len(),
        T::obeys_partial_cmp_spec() ==> match insertion_index_descending(*item, values@) {
            Some(i) => r == Some(i as usize),
            None => r is None,
        },
{
    if values.is_empty() {
        return Some(0);
    }
    let mut start: usize = 0;
    let mut end: usize = values.len() - 1;
    if item.ge(&values[start]) {
        return Some(start);
    }
    if item.le(&values[end]) {
        return Some(end + 1);
    }
    let mut idx: usize = mid_point(start, end);
    loop
        invariant_except_break
            idx == mid_of(start as int, end as int),
            T::obeys_partial_cmp_spec() ==> search_from_descending(
                *item,
                values@,
                start as int,
                end as int,
            ) == insertion_index_descending(*item, values@),
        invariant
            values@.len() <= usize::MAX / 2 + 1,
            start <= end < values@.len(),
        ensures
            idx <= values@.len(),
            T::obeys_partial_cmp_spec() ==> insertion_index_descending(*item, values@) == Some(
                idx as int,
            ),
        decreases end - start,
    {
        match item.partial_cmp(&values[idx]) {
            Some(Ordering::Less) => {
                start = idx;
                idx = mid_point(start, end);
                if end - start <= 1 {
                    idx = end;
                    break;
                }
            }
            Some(Ordering::Greater) => {
                end = idx;
                idx = mid_point(start, end);
                if end - start <= 1 {
                    idx = end;
                    break;
                }
            }
            Some(Ordering::Equal) => {
                break;
            }
            None => {
                proof {
                    if T::obeys_partial_cmp_spec() {
                        assert(cmp_of(*item, values@[idx as int]) is None);
                        assert(search_from_descending(*item, values@, start as int, end as int)
                            is None);
                    }
                }
                return None;
            }
        }
    }
    Some(idx)
}

} // verus!
