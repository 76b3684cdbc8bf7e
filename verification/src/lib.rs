//! Insert elements into an already-sorted `Vec` while preserving the sort
//! order, in either ascending or descending direction.
//!
//! The insertion point is located by a binary search over a partially ordered
//! element type: two elements may be incomparable (the comparison returns no
//! ordering), in which case the insertion fails and the vector is untouched.

use vstd::prelude::*;
use vstd::std_specs::cmp::PartialOrdSpec;

pub mod laws;
pub mod order;
pub mod search;

pub use search::{mid_point, binary_search_index_ascending, binary_search_index_descending};

verus! {

/// The single error of this crate: an insertion failed because the item and
/// a probed element have no defined order (for example a floating-point NaN
/// took part in a comparison).
#[derive(Debug, PartialEq, Eq)]
pub struct OrdVecError;

impl OrdVecError {
    /// The fixed human-readable message for this error.
    pub fn message(&self) -> (r: &'static str)
        ensures
            r@ == "Failed to add item to vector"@,
    {
        "Failed to add item to vector"
    }
}

/// A trait for adding elements to a vector in sorted order, both ascending
/// and descending.
pub trait OrdVec<T: PartialOrd> {
    /// The elements currently held, as a mathematical sequence.
    spec fn elems(&self) -> Seq<T>;

    /// Inserts `item` into `self` in sorted ascending order.  Returns the
    /// index at which `item` was inserted; on failure (an undefined
    /// comparison) the container is left untouched.
    ///
    /// For an element type whose comparison obeys its specification the
    /// returned index is exactly [`search::insertion_index_ascending`] of the
    /// old contents, so the result is determined by the arguments alone.
    fn push_ord_ascending(&mut self, item: T) -> (r: Result<usize, OrdVecError>)
        requires
            old(self).elems().len() <= usize::MAX / 2 + 1,
        ensures
            match r {
                Ok(i) => {
                    &&& i <= old(self).elems().len()
                    &&& final(self).elems() == old(self).elems().insert(i as int, item)
                    &&& final(self).elems().len() == old(self).elems().len() + 1
                    &&& final(self).elems()[i as int] == item
                },
                Err(e) => {
                    &&& final(self).elems() == old(self).elems()
                    &&& e == OrdVecError
                },
            },
            T::obeys_partial_cmp_spec() ==> match search::insertion_index_ascending(
                item,
                old(self).elems(),
            ) {
                Some(i) => r == Ok::<usize, OrdVecError>(i as usize),
                None => r is Err,
            },
    ;

    /// Inserts `item` into `self` in sorted descending order.  Returns the
    /// index at which `item` was inserted; on failure (an undefined
    /// comparison) the container is left untouched.
    ///
    /// For an element type whose comparison obeys its specification the
    /// returned index is exactly [`search::insertion_index_descending`] of
    /// the old contents, so the result is determined by the arguments alone.
    fn push_ord_descending(&mut self, item: T) -> (r: Result<usize, OrdVecError>)
        requires
            old(self).elems().len() <= usize::MAX / 2 + 1,
        ensures
            match r {
                Ok(i) => {
                    &&& i <= old(self).elems().len()
                    &&& final(self).elems() == old(self).elems().insert(i as int, item)
                    &&& final(self).elems().len() == old(self).elems().len() + 1
                    &&& final(self).elems()[i as int] == item
                },
                Err(e) => {
                    &&& final(self).elems() == old(self).elems()
                    &&& e == OrdVecError
                },
            },
            T::obeys_partial_cmp_spec() ==> match search::insertion_index_descending(
                item,
                old(self).elems(),
            ) {
                Some(i) => r == Ok::<usize, OrdVecError>(i as usize),
                None => r is Err,
            },
    ;
}

impl<T: PartialOrd> OrdVec<T> for Vec<T> {
    open spec fn elems(&self) -> Seq<T> {
        self@
    }

    fn push_ord_ascending(&mut self, item: T) -> (r: Result<usize, OrdVecError>) {
        let idx = binary_search_index_ascending(&item, self.as_slice());
        match idx {
            Some(idx) => {
                self.insert(idx, item);
                Ok(idx)
            }
            None => Err(OrdVecError),
        }
    }

    fn push_ord_descending(&mut self, item: T) -> (r: Result<usize, OrdVecError>) {
        let idx = binary_search_index_descending(&item, self.as_slice());
        match idx {
            Some(idx) => {
                self.insert(idx, item);
                Ok(idx)
            }
            None => Err(OrdVecError),
        }
    }
}

} // verus!
