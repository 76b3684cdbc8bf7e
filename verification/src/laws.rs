//! The properties the insertion-point search grants: the returned index is
//! in range, insertion at it preserves the sort direction, boundary items
//! land at the ends, and a failure always points to an incomparable pair.

use vstd::prelude::*;
use std::cmp::Ordering;
use crate::order::{
    cmp_of, lt_of, gt_of, le_of, ge_of, comparable, lawful_partial_ord, sorted_ascending,
    sorted_descending, lemma_sorted_insert_ascending, lemma_sorted_insert_descending,
};
use crate::search::{
    mid_of, search_from_ascending, search_from_descending, insertion_index_ascending,
    insertion_index_descending,
};

verus! {

proof fn lemma_search_from_range_ascending<T: PartialOrd>(item: T, s: Seq<T>, start: int, end: int)
    requires
        0 <= start <= end < s.len(),
    ensures
        search_from_ascending(item, s, start, end) matches Some(i) ==> start <= i <= end,
    decreases end - start,
{
    let idx = mid_of(start, end);
    assert(start <= idx <= end);
    match cmp_of(item, s[idx]) {
        None => {}
        Some(Ordering::Equal) => {}
        Some(Ordering::Less) => {
            if idx - start > 1 {
                lemma_search_from_range_ascending(item, s, start, idx);
            }
        }
        Some(Ordering::Greater) => {
            if end - idx > 1 {
                lemma_search_from_range_ascending(item, s, idx, end);
            }
        }
    }
}

proof fn lemma_search_from_range_descending<T: PartialOrd>(item: T, s: Seq<T>, start: int, end: int)
    requires
        0 <= start <= end < s.len(),
    ensures
        search_from_descending(item, s, start, end) matches Some(i) ==> start <= i <= end,
    decreases end - start,
{
    let idx = mid_of(start, end);
    assert(start <= idx <= end);
    match cmp_of(item, s[idx]) {
        None => {}
        Some(Ordering::Equal) => {}
        Some(Ordering::Greater) => {
            if idx - start > 1 {
                lemma_search_from_range_descending(item, s, start, idx);
            }
        }
        Some(Ordering::Less) => {
            if end - idx > 1 {
                lemma_search_from_range_descending(item, s, idx, end);
            }
        }
    }
}

/// Whatever index the search returns lies between 0 and the length of the
/// sequence, both directions included.
pub proof fn lemma_index_in_range<T: PartialOrd>(item: T, s: Seq<T>)
    ensures
        insertion_index_ascending(item, s) matches Some(i) ==> 0 <= i <= s.len(),
        insertion_index_descending(item, s) matches Some(i) ==> 0 <= i <= s.len(),
{
    if s.len() > 0 {
        lemma_search_from_range_ascending(item, s, 0, s.len() - 1);
        lemma_search_from_range_descending(item, s, 0, s.len() - 1);
    }
}

proof fn lemma_search_from_none_ascending<T: PartialOrd>(item: T, s: Seq<T>, start: int, end: int)
    requires
        0 <= start <= end < s.len(),
        search_from_ascending(item, s, start, end) is None,
    ensures
        exists|k: int| start <= k <= end && !comparable(item, s[k]),
    decreases end - start,
{
    let idx = mid_of(start, end);
    assert(start <= idx <= end);
    match cmp_of(item, s[idx]) {
        None => {
            assert(!comparable(item, s[idx]));
        }
        Some(Ordering::Equal) => {}
        Some(Ordering::Less) => {
            lemma_search_from_none_ascending(item, s, start, idx);
        }
        Some(Ordering::Greater) => {
            lemma_search_from_none_ascending(item, s, idx, end);
        }
    }
}

proof fn lemma_search_from_none_descending<T: PartialOrd>(item: T, s: Seq<T>, start: int, end: int)
    requires
        0 <= start <= end < s.len(),
        search_from_descending(item, s, start, end) is None,
    ensures
        exists|k: int| start <= k <= end && !comparable(item, s[k]),
    decreases end - start,
{
    let idx = mid_of(start, end);
    assert(start <= idx <= end);
    match cmp_of(item, s[idx]) {
        None => {
            assert(!comparable(item, s[idx]));
        }
        Some(Ordering::Equal) => {}
        Some(Ordering::Greater) => {
            lemma_search_from_none_descending(item, s, start, idx);
        }
        Some(Ordering::Less) => {
            lemma_search_from_none_descending(item, s, idx, end);
        }
    }
}

/// The search fails only because of an incomparable pair, and never when
/// `item` has a defined order against every element: a failure exhibits an
/// element incomparable with `item`, and when every element is comparable
/// with `item` the search succeeds.
pub proof fn lemma_failure_has_incomparable<T: PartialOrd>(item: T, s: Seq<T>)
    ensures
        insertion_index_ascending(item, s) is None ==> exists|k: int|
            0 <= k < s.len() && !comparable(item, s[k]),
        insertion_index_descending(item, s) is None ==> exists|k: int|
            0 <= k < s.len() && !comparable(item, s[k]),
        (forall|k: int| 0 <= k < s.len() ==> comparable(item, s[k]))
            ==> insertion_index_ascending(item, s) is Some,
        (forall|k: int| 0 <= k < s.len() ==> comparable(item, s[k]))
            ==> insertion_index_descending(item, s) is Some,
{
    if insertion_index_ascending(item, s) is None {
        lemma_search_from_none_ascending(item, s, 0, s.len() - 1);
    }
    if insertion_index_descending(item, s) is None {
        lemma_search_from_none_descending(item, s, 0, s.len() - 1);
    }
}

/// Inserting into an empty sequence always yields index 0, in either
/// direction.
pub proof fn lemma_insert_into_empty<T: PartialOrd>(item: T, s: Seq<T>)
    requires
        s.len() == 0,
    ensures
        insertion_index_ascending(item, s) == Some(0int),
        insertion_index_descending(item, s) == Some(0int),
{
}

/// An item comparing strictly before every element — less than all of them
/// in ascending direction, greater than all of them in descending
/// direction — is placed at index 0.
pub proof fn lemma_insert_before_all<T: PartialOrd>(item: T, s: Seq<T>)
    ensures
        (forall|k: int| 0 <= k < s.len() ==> lt_of(item, s[k])) ==> insertion_index_ascending(
            item,
            s,
        ) == Some(0int),
        (forall|k: int| 0 <= k < s.len() ==> gt_of(item, s[k])) ==> insertion_index_descending(
            item,
            s,
        ) == Some(0int),
{
    if s.len() > 0 {
        assert((forall|k: int| 0 <= k < s.len() ==> lt_of(item, s[k])) ==> lt_of(item, s[0]));
        assert((forall|k: int| 0 <= k < s.len() ==> gt_of(item, s[k])) ==> gt_of(item, s[0]));
    }
}

/// An item comparing strictly after every element — greater than all of
/// them in ascending direction, less than all of them in descending
/// direction — is placed at the end, index `s.len()`.
pub proof fn lemma_insert_after_all<T: PartialOrd>(item: T, s: Seq<T>)
    ensures
        (forall|k: int| 0 <= k < s.len() ==> gt_of(item, s[k])) ==> insertion_index_ascending(
            item,
            s,
        ) == Some(s.len() as int),
        (forall|k: int| 0 <= k < s.len() ==> lt_of(item, s[k])) ==> insertion_index_descending(
            item,
            s,
        ) == Some(s.len() as int),
{
    let n = s.len() as int;
    if n > 0 {
        assert((forall|k: int| 0 <= k < n ==> gt_of(item, s[k])) ==> gt_of(item, s[0]) && gt_of(
            item,
            s[n - 1],
        ));
        assert((forall|k: int| 0 <= k < n ==> lt_of(item, s[k])) ==> lt_of(item, s[0]) && lt_of(
            item,
            s[n - 1],
        ));
    }
}

/// Determinism: for an element type whose comparison obeys its
/// specification, the searches promise a result that is a function of the
/// item and the sequence alone, so any two results admitted for the same
/// arguments and the same direction are equal.
pub proof fn lemma_search_deterministic<T: PartialOrd>(
    item: T,
    s: Seq<T>,
    r1: Option<usize>,
    r2: Option<usize>,
)
    requires
        match insertion_index_ascending(item, s) {
            Some(i) => r1 == Some(i as usize) && r2 == Some(i as usize),
            None => r1 is None && r2 is None,
        } || match insertion_index_descending(item, s) {
            Some(i) => r1 == Some(i as usize) && r2 == Some(i as usize),
            None => r1 is None && r2 is None,
        },
    ensures
        r1 == r2,
{
}

proof fn lemma_search_window_ascending<T: PartialOrd>(item: T, s: Seq<T>, start: int, end: int)
    requires
        lawful_partial_ord::<T>(),
        sorted_ascending(s),
        0 <= start < end < s.len(),
        gt_of(item, s[start]),
        lt_of(item, s[end]),
        forall|k: int| start <= k <= end ==> comparable(item, s[k]),
    ensures
        search_from_ascending(item, s, start, end) matches Some(i) && start < i <= end && le_of(
            s[i - 1],
            item,
        ) && le_of(item, s[i]),
    decreases end - start,
{
    let idx = mid_of(start, end);
    assert(start <= idx < end);
    match cmp_of(item, s[idx]) {
        None => {
            assert(comparable(item, s[idx]));
        }
        Some(Ordering::Equal) => {
            assert(idx != start);
            assert(le_of(s[idx], item));
            assert(le_of(s[idx - 1], s[idx]));
            assert(le_of(s[idx - 1], item));
            assert(le_of(item, s[idx]));
        }
        Some(Ordering::Less) => {
            assert(idx != start);
            if idx - start <= 1 {
                assert(le_of(s[start], item));
                assert(le_of(item, s[idx]));
            } else {
                lemma_search_window_ascending(item, s, start, idx);
            }
        }
        Some(Ordering::Greater) => {
            if end - idx <= 1 {
                assert(le_of(s[idx], item));
                assert(le_of(item, s[end]));
            } else {
                lemma_search_window_ascending(item, s, idx, end);
            }
        }
    }
}

proof fn lemma_search_window_descending<T: PartialOrd>(item: T, s: Seq<T>, start: int, end: int)
    requires
        lawful_partial_ord::<T>(),
        sorted_descending(s),
        0 <= start < end < s.len(),
        lt_of(item, s[start]),
        gt_of(item, s[end]),
        forall|k: int| start <= k <= end ==> comparable(item, s[k]),
    ensures
        search_from_descending(item, s, start, end) matches Some(i) && start < i <= end && ge_of(
            s[i - 1],
            item,
        ) && ge_of(item, s[i]),
    decreases end - start,
{
    let idx = mid_of(start, end);
    assert(start <= idx < end);
    match cmp_of(item, s[idx]) {
        None => {
            assert(comparable(item, s[idx]));
        }
        Some(Ordering::Equal) => {
            assert(idx != start);
            assert(le_of(item, s[idx]));
            assert(ge_of(s[idx - 1], s[idx]));
            assert(le_of(s[idx], s[idx - 1]));
            assert(le_of(item, s[idx - 1]));
            assert(ge_of(s[idx - 1], item));
            assert(ge_of(item, s[idx]));
        }
        Some(Ordering::Greater) => {
            assert(idx != start);
            if idx - start <= 1 {
                assert(le_of(item, s[start]));
                assert(ge_of(s[start], item));
                assert(ge_of(item, s[idx]));
            } else {
                lemma_search_window_descending(item, s, start, idx);
            }
        }
        Some(Ordering::Less) => {
            if end - idx <= 1 {
                assert(le_of(item, s[idx]));
                assert(ge_of(s[idx], item));
                assert(ge_of(item, s[end]));
            } else {
                lemma_search_window_descending(item, s, idx, end);
            }
        }
    }
}

/// Sortedness is preserved: inserting an item that has a defined order
/// against every element of an ascending-sorted sequence always succeeds,
/// and inserting it at the returned index keeps the sequence sorted
/// ascending.
pub proof fn lemma_insert_preserves_sorted_ascending<T: PartialOrd>(item: T, s: Seq<T>)
    requires
        lawful_partial_ord::<T>(),
        sorted_ascending(s),
        forall|k: int| 0 <= k < s.len() ==> comparable(item, s[k]),
    ensures
        insertion_index_ascending(item, s) matches Some(i) && 0 <= i <= s.len()
            && sorted_ascending(s.insert(i, item)),
{
    let n = s.len() as int;
    if n == 0 {
        lemma_sorted_insert_ascending(s, item, 0);
    } else if le_of(item, s[0]) {
        lemma_sorted_insert_ascending(s, item, 0);
    } else if ge_of(item, s[n - 1]) {
        assert(comparable(item, s[0]));
        assert(gt_of(item, s[0]));
        assert(le_of(s[n - 1], item));
        assert forall|k: int| 0 <= k < n implies le_of(s[k], item) by {
            if k < n - 1 {
                assert(le_of(s[k], s[n - 1]));
            }
        }
        lemma_sorted_insert_ascending(s, item, n);
    } else {
        assert(comparable(item, s[0]));
        assert(comparable(item, s[n - 1]));
        assert(gt_of(item, s[0]));
        assert(lt_of(item, s[n - 1]));
        assert(n >= 2);
        lemma_search_window_ascending(item, s, 0, n - 1);
        let i = search_from_ascending(item, s, 0, n - 1)->0;
        lemma_sorted_insert_ascending(s, item, i);
    }
}

/// Sortedness is preserved: inserting an item that has a defined order
/// against every element of a descending-sorted sequence always succeeds,
/// and inserting it at the returned index keeps the sequence sorted
/// descending.
pub proof fn lemma_insert_preserves_sorted_descending<T: PartialOrd>(item: T, s: Seq<T>)
    requires
        lawful_partial_ord::<T>(),
        sorted_descending(s),
        forall|k: int| 0 <= k < s.len() ==> comparable(item, s[k]),
    ensures
        insertion_index_descending(item, s) matches Some(i) && 0 <= i <= s.len()
            && sorted_descending(s.insert(i, item)),
{
    let n = s.len() as int;
    if n == 0 {
        lemma_sorted_insert_descending(s, item, 0);
    } else if ge_of(item, s[0]) {
        lemma_sorted_insert_descending(s, item, 0);
    } else if le_of(item, s[n - 1]) {
        assert(comparable(item, s[0]));
        assert(lt_of(item, s[0]));
        assert(ge_of(s[n - 1], item));
        assert forall|k: int| 0 <= k < n implies ge_of(s[k], item) by {
            if k < n - 1 {
                assert(ge_of(s[k], s[n - 1]));
                assert(le_of(s[n - 1], s[k]));
                assert(le_of(item, s[n - 1]));
                assert(le_of(item, s[k]));
            }
        }
        lemma_sorted_insert_descending(s, item, n);
    } else {
        assert(comparable(item, s[0]));
        assert(comparable(item, s[n - 1]));
        assert(lt_of(item, s[0]));
        assert(gt_of(item, s[n - 1]));
        assert(n >= 2);
        lemma_search_window_descending(item, s, 0, n - 1);
        let i = search_from_descending(item, s, 0, n - 1)->0;
        lemma_sorted_insert_descending(s, item, i);
    }
}

} // verus!
