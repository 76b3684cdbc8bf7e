//! A specification-level model of partial comparison: the outcome of
//! comparing two elements, what it means for a sequence to be sorted in a
//! direction, and the laws a lawful `PartialOrd` implementation grants.

use vstd::prelude::*;
use vstd::std_specs::cmp::PartialOrdSpec;
use std::cmp::Ordering;

verus! {

/// The outcome of comparing `a` to `b` with the partial comparison of `T`:
/// an ordering, or `None` when the two values are incomparable.
pub open spec fn cmp_of<T: PartialOrd>(a: T, b: T) -> Option<Ordering> {
    a.partial_cmp_spec(&b)
}

/// `a` compares strictly less than `b`.
pub open spec fn lt_of<T: PartialOrd>(a: T, b: T) -> bool {
    cmp_of(a, b) == Some(Ordering::Less)
}

/// `a` compares strictly greater than `b`.
pub open spec fn gt_of<T: PartialOrd>(a: T, b: T) -> bool {
    cmp_of(a, b) == Some(Ordering::Greater)
}

/// `a` compares less than or equal to `b`.
pub open spec fn le_of<T: PartialOrd>(a: T, b: T) -> bool {
    lt_of(a, b) || cmp_of(a, b) == Some(Ordering::Equal)
}

/// `a` compares greater than or equal to `b`.
pub open spec fn ge_of<T: PartialOrd>(a: T, b: T) -> bool {
    gt_of(a, b) || cmp_of(a, b) == Some(Ordering::Equal)
}

/// The comparison of `a` and `b` is defined at all.
pub open spec fn comparable<T: PartialOrd>(a: T, b: T) -> bool {
    cmp_of(a, b) is Some
}

/// The mirror image of a comparison outcome.
pub open spec fn reversed(o: Option<Ordering>) -> Option<Ordering> {
    match o {
        Some(Ordering::Less) => Some(Ordering::Greater),
        Some(Ordering::Equal) => Some(Ordering::Equal),
        Some(Ordering::Greater) => Some(Ordering::Less),
        None => None,
    }
}

/// The laws of a partial order, stated of the comparison of `T`: comparing in
/// the opposite direction mirrors the outcome, and less-than-or-equal
/// outcomes chain.  Every `PartialOrd` implementation that follows the
/// documented comparison laws satisfies both.
pub open spec fn lawful_partial_ord<T: PartialOrd>() -> bool {
    &&& forall|a: T, b: T| #[trigger] cmp_of(a, b) == reversed(cmp_of(b, a))
    &&& forall|a: T, b: T, c: T|
        #![trigger le_of(a, b), le_of(b, c)]
        le_of(a, b) && le_of(b, c) ==> le_of(a, c)
}

/// The sequence is sorted in ascending direction: every element compares
/// less than or equal to every later element.
pub open spec fn sorted_ascending<T: PartialOrd>(s: Seq<T>) -> bool {
    forall|i: int, j: int| 0 <= i < j < s.len() ==> #[trigger] le_of(s[i], s[j])
}

/// The sequence is sorted in descending direction: every element compares
/// greater than or equal to every later element.
pub open spec fn sorted_descending<T: PartialOrd>(s: Seq<T>) -> bool {
    forall|i: int, j: int| 0 <= i < j < s.len() ==> #[trigger] ge_of(s[i], s[j])
}

/// Inserting `item` at position `i` of an ascending-sorted sequence keeps it
/// sorted, provided `item` fits between its new neighbours.
pub proof fn lemma_sorted_insert_ascending<T: PartialOrd>(s: Seq<T>, item: T, i: int)
    requires
        lawful_partial_ord::<T>(),
        sorted_ascending(s),
        0 <= i <= s.len(),
        i > 0 ==> le_of(s[i - 1], item),
        i < s.len() ==> le_of(item, s[i]),
    ensures
        sorted_ascending(s.insert(i, item)),
{
    s.insert_ensures(i, item);
    let t = s.insert(i, item);
    assert forall|p: int, q: int| 0 <= p < q < t.len() implies #[trigger] le_of(t[p], t[q]) by {
        if q < i {
            assert(t[p] == s[p] && t[q] == s[q]);
            assert(le_of(s[p], s[q]));
        } else if p < i && q == i {
            assert(t[p] == s[p] && t[q] == item);
            if p < i - 1 {
                assert(le_of(s[p], s[i - 1]));
                assert(le_of(s[i - 1], item));
            }
            assert(le_of(s[p], item));
        } else if p < i && q > i {
            assert(t[p] == s[p] && t[q] == s[q - 1]);
            assert(le_of(s[p], s[q - 1]));
        } else if p == i {
            assert(t[p] == item && t[q] == s[q - 1]);
            if q - 1 > i {
                assert(le_of(item, s[i]));
                assert(le_of(s[i], s[q - 1]));
            }
            assert(le_of(item, s[q - 1]));
        } else {
            assert(t[p] == s[p - 1] && t[q] == s[q - 1]);
            assert(le_of(s[p - 1], s[q - 1]));
        }
    }
}

/// Inserting `item` at position `i` of a descending-sorted sequence keeps it
/// sorted, provided `item` fits between its new neighbours.
pub proof fn lemma_sorted_insert_descending<T: PartialOrd>(s: Seq<T>, item: T, i: int)
    requires
        lawful_partial_ord::<T>(),
        sorted_descending(s),
        0 <= i <= s.len(),
        i > 0 ==> ge_of(s[i - 1], item),
        i < s.len() ==> ge_of(item, s[i]),
    ensures
        sorted_descending(s.insert(i, item)),
{
    s.insert_ensures(i, item);
    let t = s.insert(i, item);
    assert forall|p: int, q: int| 0 <= p < q < t.len() implies #[trigger] ge_of(t[p], t[q]) by {
        if q < i {
            assert(t[p] == s[p] && t[q] == s[q]);
            assert(ge_of(s[p], s[q]));
        } else if p < i && q == i {
            assert(t[p] == s[p] && t[q] == item);
            if p < i - 1 {
                assert(ge_of(s[p], s[i - 1]));
                assert(le_of(s[i - 1], s[p]));
            }
            assert(le_of(item, s[i - 1]));
            assert(le_of(item, s[p]));
            assert(ge_of(s[p], item));
        } else if p < i && q > i {
            assert(t[p] == s[p] && t[q] == s[q - 1]);
            assert(ge_of(s[p], s[q - 1]));
        } else if p == i {
            assert(t[p] == item && t[q] == s[q - 1]);
            if q - 1 > i {
                assert(ge_of(s[i], s[q - 1]));
                assert(le_of(s[q - 1], s[i]));
            }
            assert(le_of(s[i], item));
            assert(le_of(s[q - 1], item));
            assert(ge_of(item, s[q - 1]));
        } else {
            assert(t[p] == s[p - 1] && t[q] == s[q - 1]);
            assert(ge_of(s[p - 1], s[q - 1]));
        }
    }
}

} // verus!
