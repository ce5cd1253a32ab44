//! The bookmark service's destination collection, cached per client
//! instance: looked up lazily on first use, and fixed for the instance's
//! lifetime once the lookup has run — a failed first lookup degrades to
//! "no specific collection" and is never retried.

use vstd::prelude::*;

verus! {

/// The cached destination collection of one bookmark-service client.
pub struct CollectionCache {
    /// Whether the lookup has run.
    pub looked_up: bool,
    /// The collection to file bookmarks under, when the lookup found one.
    pub collection_id: Option<i64>,
}

impl CollectionCache {
    /// A fresh cache: no lookup has run.
    pub fn new() -> (r: CollectionCache)
        ensures
            !r.looked_up,
            r.collection_id is None,
    {
        CollectionCache { looked_up: false, collection_id: None }
    }

    /// Whether the caller must perform the lookup before filing a bookmark.
    pub fn needs_lookup(&self) -> (r: bool)
        ensures
            r == !self.looked_up,
    {
        !self.looked_up
    }

    /// Record what the one lookup came to. A lookup that found nothing (or
    /// failed) fixes "no specific collection" for the instance's lifetime.
    pub fn record_lookup(&mut self, found: Option<i64>)
        requires
            !old(self).looked_up,
        ensures
            final(self).looked_up,
            final(self).collection_id == found,
    {
        self.looked_up = true;
        self.collection_id = found;
    }

    /// The destination to file under, once the lookup has run.
    pub fn destination(&self) -> (r: Option<i64>)
        requires
            self.looked_up,
        ensures
            r == self.collection_id,
    {
        self.collection_id
    }
}

} // verus!
