//! The pagination envelope: a materialized page of items together with the
//! full matching count, so a client can compute page counts without a
//! second query.

use vstd::prelude::*;

verus! {

/// A page of results. `total` is the full matching count, independent of
/// the page actually materialized; `limit` and `offset` echo the request
/// that produced the page; `items` holds at most `limit` entries.
#[derive(Debug)]
pub struct PagenatedList<T> {
    pub total: usize,
    pub limit: usize,
    pub offset: usize,
    pub items: Vec<T>,
}

impl<T> PagenatedList<T> {
    /// A page never holds more items than the limit it was asked for.
    pub open spec fn wf(&self) -> bool {
        self.items@.len() <= self.limit
    }

    /// Consumes the envelope, handing the materialized page out as a plain
    /// sequence of items.
    pub fn into_inner(self) -> (r: Vec<T>)
        ensures
            r == self.items,
    {
        self.items
    }
}

} // verus!
